//! The transports, and the decisions of the stop-and-wait sender over UDP.
use vstd::prelude::*;

use crate::size::Size;
use crate::stats::{no_stats, TransferStats, TransferStatsBuilder};

verus! {

/// TCP transport.
pub struct Tcp {}

/// UDP transport.
pub struct Udp {}

/// QUIC transport.
pub struct Quic {}

/// The largest UDP datagram a QUIC endpoint sends or receives.
pub const MAX_DATAGRAM_SIZE: usize = 65536;

/// The QUIC stream every transfer uses.
pub const STREAM_ID: u64 = 0;

/// The flow-control limits of a QUIC connection, in bytes (2 GB).
pub fn quic_max_data() -> (r: u64)
    ensures
        r == Size::GB(2).byte_count(),
{
    Size::GB(2).to_bytes() as u64
}

/// Whether a reply of `len` bytes starting with `first` acknowledges a block:
/// exactly one byte, of value 1.
pub fn is_ack(len: usize, first: u8) -> (r: bool)
    ensures
        r == (first == 1 && len == 1),
{
    first == 1 && len == 1
}

/// The stats of one stop-and-wait send: the first send of the block, its
/// resends, and the replies received until the acknowledgement.
pub struct StopAndWaitSender<A> {
    pub stats: TransferStats<A>,
    pub first_send: bool,
}

impl<A: Copy> StopAndWaitSender<A> {
    /// A sender to `addr` that has sent nothing yet.
    pub fn new(addr: A) -> (r: Self)
        ensures
            r.stats == (TransferStats { address: Some(addr), ..no_stats::<A>() }),
            r.first_send,
    {
        StopAndWaitSender { stats: TransferStatsBuilder::new().addr(addr).build(), first_send: true }
    }

    /// Counts a send of `n` bytes: the first as sent, later ones as resent.
    pub fn on_sent(&mut self, n: usize)
        requires
            old(self).first_send ==> old(self).stats.messages_sent < usize::MAX
                && old(self).stats.bytes_sent + n <= usize::MAX,
            !old(self).first_send ==> old(self).stats.messages_resent < usize::MAX
                && old(self).stats.bytes_resent + n <= usize::MAX,
        ensures
            !final(self).first_send,
            old(self).first_send ==> final(self).stats == (TransferStats {
                messages_sent: (old(self).stats.messages_sent + 1) as usize,
                bytes_sent: (old(self).stats.bytes_sent + n) as usize,
                ..old(self).stats
            }),
            !old(self).first_send ==> final(self).stats == (TransferStats {
                messages_resent: (old(self).stats.messages_resent + 1) as usize,
                bytes_resent: (old(self).stats.bytes_resent + n) as usize,
                ..old(self).stats
            }),
    {
        if self.first_send {
            self.stats.sent(n);
            self.first_send = false;
        } else {
            self.stats.resent(n);
        }
    }

    /// Counts a reply of `n` bytes starting with `first`; tells whether it
    /// acknowledges the block, which ends the send.
    pub fn on_reply(&mut self, n: usize, first: u8) -> (acked: bool)
        requires
            old(self).stats.messages_received < usize::MAX,
            old(self).stats.bytes_received + n <= usize::MAX,
        ensures
            acked == (first == 1 && n == 1),
            final(self).first_send == old(self).first_send,
            final(self).stats == (TransferStats {
                messages_received: (old(self).stats.messages_received + 1) as usize,
                bytes_received: (old(self).stats.bytes_received + n) as usize,
                ..old(self).stats
            }),
    {
        self.stats.received(n);
        is_ack(n, first)
    }
}

} // verus!
