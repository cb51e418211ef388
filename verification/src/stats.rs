//! Counts of messages and bytes a channel sent, sent again and received.
//! The peer address is a type parameter: the counting never looks inside it.
use vstd::prelude::*;

verus! {

/// Message and byte counts of one or more channel operations, and the peer
/// address if one was learned.
#[derive(Debug, Clone)]
pub struct TransferStats<A> {
    pub bytes_sent: usize,
    pub messages_sent: usize,
    pub bytes_resent: usize,
    pub messages_resent: usize,
    pub bytes_received: usize,
    pub messages_received: usize,
    pub address: Option<A>,
}

/// The counts of `a` and `b` added together; the address of `a`, or that of
/// `b` when `a` has none.
pub open spec fn merged<A>(a: TransferStats<A>, b: TransferStats<A>) -> TransferStats<A> {
    TransferStats {
        bytes_sent: (a.bytes_sent + b.bytes_sent) as usize,
        messages_sent: (a.messages_sent + b.messages_sent) as usize,
        bytes_resent: (a.bytes_resent + b.bytes_resent) as usize,
        messages_resent: (a.messages_resent + b.messages_resent) as usize,
        bytes_received: (a.bytes_received + b.bytes_received) as usize,
        messages_received: (a.messages_received + b.messages_received) as usize,
        address: if a.address is None {
            b.address
        } else {
            a.address
        },
    }
}

/// The counts of `a` and `b` added together fit in a `usize`.
pub open spec fn merge_fits<A>(a: TransferStats<A>, b: TransferStats<A>) -> bool {
    &&& a.bytes_sent + b.bytes_sent <= usize::MAX
    &&& a.messages_sent + b.messages_sent <= usize::MAX
    &&& a.bytes_resent + b.bytes_resent <= usize::MAX
    &&& a.messages_resent + b.messages_resent <= usize::MAX
    &&& a.bytes_received + b.bytes_received <= usize::MAX
    &&& a.messages_received + b.messages_received <= usize::MAX
}

/// Stats with all counts zero and no address.
pub open spec fn no_stats<A>() -> TransferStats<A> {
    TransferStats {
        bytes_sent: 0,
        messages_sent: 0,
        bytes_resent: 0,
        messages_resent: 0,
        bytes_received: 0,
        messages_received: 0,
        address: None,
    }
}

impl<A: Copy> TransferStats<A> {
    pub fn empty() -> (r: Self)
        ensures
            r == no_stats::<A>(),
    {
        Self {
            bytes_sent: 0,
            messages_sent: 0,
            bytes_resent: 0,
            messages_resent: 0,
            bytes_received: 0,
            messages_received: 0,
            address: None,
        }
    }

    /// Counts one message of `bytes` bytes sent.
    pub fn sent(&mut self, bytes: usize)
        requires
            old(self).messages_sent < usize::MAX,
            old(self).bytes_sent + bytes <= usize::MAX,
        ensures
            *final(self) == (TransferStats {
                messages_sent: (old(self).messages_sent + 1) as usize,
                bytes_sent: (old(self).bytes_sent + bytes) as usize,
                ..*old(self)
            }),
    {
        self.messages_sent += 1;
        self.bytes_sent += bytes;
    }

    /// Counts one message of `bytes` bytes sent again.
    pub fn resent(&mut self, bytes: usize)
        requires
            old(self).messages_resent < usize::MAX,
            old(self).bytes_resent + bytes <= usize::MAX,
        ensures
            *final(self) == (TransferStats {
                messages_resent: (old(self).messages_resent + 1) as usize,
                bytes_resent: (old(self).bytes_resent + bytes) as usize,
                ..*old(self)
            }),
    {
        self.messages_resent += 1;
        self.bytes_resent += bytes;
    }

    /// Counts one message of `bytes` bytes received.
    pub fn received(&mut self, bytes: usize)
        requires
            old(self).messages_received < usize::MAX,
            old(self).bytes_received + bytes <= usize::MAX,
        ensures
            *final(self) == (TransferStats {
                messages_received: (old(self).messages_received + 1) as usize,
                bytes_received: (old(self).bytes_received + bytes) as usize,
                ..*old(self)
            }),
    {
        self.messages_received += 1;
        self.bytes_received += bytes;
    }

    /// Adds the counts of `other`; takes its address if this one has none.
    pub fn merge(&mut self, other: &TransferStats<A>)
        requires
            merge_fits(*old(self), *other),
        ensures
            *final(self) == merged(*old(self), *other),
            final(self).bytes_sent == old(self).bytes_sent + other.bytes_sent,
            final(self).messages_sent == old(self).messages_sent + other.messages_sent,
            final(self).bytes_resent == old(self).bytes_resent + other.bytes_resent,
            final(self).messages_resent == old(self).messages_resent + other.messages_resent,
            final(self).bytes_received == old(self).bytes_received + other.bytes_received,
            final(self).messages_received == old(self).messages_received
                + other.messages_received,
            old(self).address is Some ==> final(self).address == old(self).address,
            old(self).address is None ==> final(self).address == other.address,
    {
        self.bytes_sent += other.bytes_sent;
        self.messages_sent += other.messages_sent;
        self.bytes_resent += other.bytes_resent;
        self.messages_resent += other.messages_resent;
        self.bytes_received += other.bytes_received;
        self.messages_received += other.messages_received;

        if self.address.is_none() && other.address.is_some() {
            self.address = other.address;
        }
    }

    /// Bytes sent, first sends and resends together.
    pub fn total_bytes_sent(&self) -> (r: usize)
        requires
            self.bytes_sent + self.bytes_resent <= usize::MAX,
        ensures
            r == self.bytes_sent + self.bytes_resent,
    {
        self.bytes_sent + self.bytes_resent
    }

    /// Messages sent, first sends and resends together.
    pub fn total_messages_sent(&self) -> (r: usize)
        requires
            self.messages_sent + self.messages_resent <= usize::MAX,
        ensures
            r == self.messages_sent + self.messages_resent,
    {
        self.messages_sent + self.messages_resent
    }
}

/// Merging empty stats into stats, or stats into empty stats, changes nothing.
pub proof fn lemma_merge_empty<A>(a: TransferStats<A>)
    ensures
        merged(a, no_stats::<A>()) == a,
        merged(no_stats::<A>(), a) == a,
{
}

/// Merging is associative: the order in which results are combined does not
/// matter, as long as the counts fit.
pub proof fn lemma_merge_associative<A>(a: TransferStats<A>, b: TransferStats<A>, c: TransferStats<A>)
    requires
        merge_fits(a, b),
        merge_fits(merged(a, b), c),
    ensures
        merge_fits(b, c),
        merge_fits(a, merged(b, c)),
        merged(merged(a, b), c) == merged(a, merged(b, c)),
{
}

/// The totals sent of merged stats are the sums of the totals.
pub proof fn lemma_merge_totals<A>(a: TransferStats<A>, b: TransferStats<A>)
    requires
        merge_fits(a, b),
    ensures
        merged(a, b).bytes_sent + merged(a, b).bytes_resent == (a.bytes_sent + a.bytes_resent) + (
        b.bytes_sent + b.bytes_resent),
        merged(a, b).messages_sent + merged(a, b).messages_resent == (a.messages_sent
            + a.messages_resent) + (b.messages_sent + b.messages_resent),
{
}

/// Merging adds every count of the two stats: sent, resent and received,
/// messages and bytes alike; the address is the first one known.
pub proof fn lemma_merge_adds_counts<A>(a: TransferStats<A>, b: TransferStats<A>)
    requires
        merge_fits(a, b),
    ensures
        merged(a, b).bytes_sent == a.bytes_sent + b.bytes_sent,
        merged(a, b).messages_sent == a.messages_sent + b.messages_sent,
        merged(a, b).bytes_resent == a.bytes_resent + b.bytes_resent,
        merged(a, b).messages_resent == a.messages_resent + b.messages_resent,
        merged(a, b).bytes_received == a.bytes_received + b.bytes_received,
        merged(a, b).messages_received == a.messages_received + b.messages_received,
        a.address is Some ==> merged(a, b).address == a.address,
        a.address is None ==> merged(a, b).address == b.address,
{
}

/// The stats of a run: each operation's stats merged, in order, into `acc`.
pub open spec fn merge_all<A>(acc: TransferStats<A>, ops: Seq<TransferStats<A>>) -> TransferStats<A>
    decreases ops.len(),
{
    if ops.len() == 0 {
        acc
    } else {
        merge_all(merged(acc, ops[0]), ops.drop_first())
    }
}

/// The bytes received over a sequence of operations, added up.
pub open spec fn total_bytes_received<A>(ops: Seq<TransferStats<A>>) -> nat
    decreases ops.len(),
{
    if ops.len() == 0 {
        0
    } else {
        ops[0].bytes_received as nat + total_bytes_received(ops.drop_first())
    }
}

/// The messages received over a sequence of operations, added up.
pub open spec fn total_messages_received<A>(ops: Seq<TransferStats<A>>) -> nat
    decreases ops.len(),
{
    if ops.len() == 0 {
        0
    } else {
        ops[0].messages_received as nat + total_messages_received(ops.drop_first())
    }
}

/// Merging the stats of every operation of a run, starting from `acc`,
/// reports as received the messages and bytes of all operations added up,
/// as long as those totals fit in a `usize`.
pub proof fn lemma_merge_all_received<A>(acc: TransferStats<A>, ops: Seq<TransferStats<A>>)
    requires
        acc.bytes_received + total_bytes_received(ops) <= usize::MAX,
        acc.messages_received + total_messages_received(ops) <= usize::MAX,
    ensures
        merge_all(acc, ops).bytes_received == acc.bytes_received + total_bytes_received(ops),
        merge_all(acc, ops).messages_received == acc.messages_received + total_messages_received(
            ops,
        ),
    decreases ops.len(),
{
    if ops.len() > 0 {
        lemma_merge_all_received(merged(acc, ops[0]), ops.drop_first());
    }
}

/// Builds the stats of a single operation.
pub struct TransferStatsBuilder<A>(pub TransferStats<A>);

impl<A: Copy> TransferStatsBuilder<A> {
    pub fn new() -> (r: Self)
        ensures
            r.0 == no_stats::<A>(),
    {
        Self(TransferStats::empty())
    }

    pub fn addr(self, addr: A) -> (r: Self)
        ensures
            r.0 == (TransferStats { address: Some(addr), ..self.0 }),
    {
        let mut b = self;
        b.0.address = Some(addr);
        b
    }

    pub fn sent(self, bytes: usize) -> (r: Self)
        requires
            self.0.messages_sent < usize::MAX,
            self.0.bytes_sent + bytes <= usize::MAX,
        ensures
            r.0 == (TransferStats {
                messages_sent: (self.0.messages_sent + 1) as usize,
                bytes_sent: (self.0.bytes_sent + bytes) as usize,
                ..self.0
            }),
    {
        let mut b = self;
        b.0.sent(bytes);
        b
    }

    pub fn received(self, bytes: usize) -> (r: Self)
        requires
            self.0.messages_received < usize::MAX,
            self.0.bytes_received + bytes <= usize::MAX,
        ensures
            r.0 == (TransferStats {
                messages_received: (self.0.messages_received + 1) as usize,
                bytes_received: (self.0.bytes_received + bytes) as usize,
                ..self.0
            }),
    {
        let mut b = self;
        b.0.received(bytes);
        b
    }

    pub fn build(self) -> (r: TransferStats<A>)
        ensures
            r == self.0,
    {
        self.0
    }
}

} // verus!
