//! The receiving side of a run: how many blocks to expect, how large each
//! read buffer must be, and how received packets rebuild the payload.
use vstd::prelude::*;
use vstd::arithmetic::div_mod::lemma_fundamental_div_mod;

use crate::config::{Config, MAX_BLOCK_BYTES, Protocol};
use crate::packet::{
    decode_packet, encode_packet, lemma_decode_encode, lemma_packet_accepts_is_decode,
    lemma_packet_wire_decode,
    NetworkSerialize, Packet, PacketType, FLAG_SIZE,
};
use crate::payload::{
    chunk_count, chunk_seq, last_chunk_len, lemma_chunk_lengths, lemma_chunks_flatten,
    payload_hash, Payload,
};
use crate::size::Size;

verus! {

/// How many blocks a payload arrives in, and the size of the last one.
#[derive(Debug, Clone, Copy, PartialEq, Eq, Structural)]
pub struct ReceivePlan {
    pub chunks_to_read: usize,
    pub last_block_size: usize,
}

/// The plan for `payload_size` bytes sent in blocks of `block_size`: the
/// number of blocks rounded up, and the size of the last block (a full block
/// when the payload divides evenly). Blocks of no bytes only carry an empty
/// payload, in no blocks.
pub fn receive_plan(payload_size: usize, block_size: usize) -> (r: ReceivePlan)
    requires
        block_size > 0 || payload_size == 0,
    ensures
        r.chunks_to_read == chunk_count(payload_size as nat, block_size as nat),
        r.last_block_size == last_chunk_len(payload_size as nat, block_size as nat),
{
    if block_size == 0 {
        return ReceivePlan { chunks_to_read: 0, last_block_size: 0 };
    }
    let q = payload_size / block_size;
    let m = payload_size % block_size;
    if m == 0 {
        ReceivePlan { chunks_to_read: q, last_block_size: block_size }
    } else {
        proof {
            lemma_fundamental_div_mod(payload_size as int, block_size as int);
            assert(block_size >= 2);
            assert(q + 1 <= usize::MAX) by (nonlinear_arith)
                requires
                    block_size >= 2,
                    block_size * q + m == payload_size,
                    payload_size <= usize::MAX,
                    q >= 0,
            ;
        }
        ReceivePlan { chunks_to_read: q + 1, last_block_size: m }
    }
}

/// The length of the read buffer after preparing it for the read at
/// `counter`, when it was `current` long: with resizing on, the read for the
/// last block is cut to that block and the read after it to one data byte.
pub open spec fn next_buffer_len(
    chunks_to_read: nat,
    last_block_size: nat,
    resize: bool,
    counter: nat,
    current: nat,
) -> nat {
    if resize && counter == chunks_to_read - 1 {
        FLAG_SIZE as nat + last_block_size
    } else if resize && counter == chunks_to_read {
        FLAG_SIZE as nat + 1
    } else {
        current
    }
}

/// The state of the receiving side, as plain values.
pub struct ReceiverView {
    pub chunks_to_read: nat,
    pub last_block_size: nat,
    pub block_size: nat,
    pub resize: bool,
    pub counter: nat,
    pub payload: Seq<u8>,
}

/// The receiving side of a run.
pub struct Receiver {
    chunks_to_read: usize,
    last_block_size: usize,
    block_size: usize,
    resize: bool,
    counter: usize,
    payload: Payload,
}

impl Receiver {
    #[verifier::type_invariant]
    closed spec fn well_formed(self) -> bool {
        &&& self.block_size <= MAX_BLOCK_BYTES
        &&& self.last_block_size <= self.block_size
        &&& self.resize ==> self.chunks_to_read >= 1
    }

    pub closed spec fn view(&self) -> ReceiverView {
        ReceiverView {
            chunks_to_read: self.chunks_to_read as nat,
            last_block_size: self.last_block_size as nat,
            block_size: self.block_size as nat,
            resize: self.resize,
            counter: self.counter as nat,
            payload: self.payload.payload@,
        }
    }

    /// The receiver for a run. Buffers are resized for every protocol but
    /// UDP, which needs a non-empty payload; a payload needs a non-empty block.
    pub fn new(config: &Config) -> (r: Self)
        requires
            config@.payload_size.byte_count() <= usize::MAX,
            config@.block_size.byte_count() > 0 || config@.payload_size.byte_count() == 0,
            config@.protocol != Protocol::Udp ==> config@.payload_size.byte_count() > 0,
        ensures
            r@.chunks_to_read == chunk_count(
                config@.payload_size.byte_count(),
                config@.block_size.byte_count(),
            ),
            r@.last_block_size == last_chunk_len(
                config@.payload_size.byte_count(),
                config@.block_size.byte_count(),
            ),
            r@.block_size == config@.block_size.byte_count(),
            r@.resize == (config@.protocol != Protocol::Udp),
            r@.counter == 0,
            r@.payload == Seq::<u8>::empty(),
    {
        let block_size_ref: &Size = config.block_size();
        let block_size = block_size_ref.to_bytes();
        let payload_size = config.payload_size().to_bytes();
        let plan = receive_plan(payload_size, block_size);
        let resize = *config.protocol() != Protocol::Udp;
        proof {
            if payload_size > 0 {
                lemma_chunk_count_positive(payload_size as nat, block_size as nat);
            }
            if block_size > 0 {
                lemma_last_chunk_len_bound(payload_size as nat, block_size as nat);
            }
        }
        Receiver {
            chunks_to_read: plan.chunks_to_read,
            last_block_size: plan.last_block_size,
            block_size,
            resize,
            counter: 0,
            payload: Payload::empty(*config.payload_size()),
        }
    }

    /// The number of payload blocks received so far.
    pub fn counter(&self) -> (r: usize)
        ensures
            r == self@.counter,
    {
        self.counter
    }

    /// The buffer for the first read: a type byte and a full block, zeroed.
    pub fn initial_buffer(&self) -> (r: Vec<u8>)
        ensures
            r@ == Seq::new(FLAG_SIZE as nat + self@.block_size, |i: int| 0u8),
    {
        proof {
            use_type_invariant(self);
        }
        let r = vec![0u8; FLAG_SIZE + self.block_size];
        assert(r@ =~= Seq::new(FLAG_SIZE as nat + self@.block_size, |i: int| 0u8));
        r
    }

    /// Resizes the read buffer for the next read.
    pub fn prepare_buffer(&self, buffer: &mut Vec<u8>)
        ensures
            final(buffer)@.len() == next_buffer_len(
                self@.chunks_to_read,
                self@.last_block_size,
                self@.resize,
                self@.counter,
                old(buffer)@.len(),
            ),
            final(buffer)@.len() <= old(buffer)@.len() ==> final(buffer)@ == old(buffer)@.take(
                final(buffer)@.len() as int,
            ),
            final(buffer)@.len() > old(buffer)@.len() ==> final(buffer)@.take(
                old(buffer)@.len() as int,
            ) == old(buffer)@,
            forall|i: int|
                old(buffer)@.len() <= i < final(buffer)@.len() ==> #[trigger] final(buffer)@[i] == 0,
    {
        proof {
            use_type_invariant(self);
        }
        if self.resize {
            if self.counter == self.chunks_to_read - 1 {
                buffer.resize(FLAG_SIZE + self.last_block_size, 0);
            } else if self.counter == self.chunks_to_read {
                buffer.resize(FLAG_SIZE + 1, 0);
            }
        }
    }

    /// Handles one received buffer. A payload packet adds its data to the
    /// payload and counts a block (`Ok(false)`); an end packet finishes the
    /// transfer (`Ok(true)`); anything else is refused.
    pub fn accept(&mut self, buffer: &[u8]) -> (r: Result<bool, &'static str>)
        requires
            old(self)@.counter < usize::MAX,
        ensures
            match decode_packet(buffer@) {
                None => {
                    &&& r matches Err(e) && e@ == (if buffer@.len() == 0 {
                        "Packet too short"@
                    } else {
                        "Invalid PacketType byte"@
                    })
                    &&& final(self)@ == old(self)@
                },
                Some((PacketType::Payload, data)) => {
                    &&& r == Ok::<bool, &'static str>(false)
                    &&& final(self)@ == ReceiverView {
                        counter: old(self)@.counter + 1,
                        payload: old(self)@.payload + data,
                        ..old(self)@
                    }
                },
                Some((PacketType::EndPayload, _)) => {
                    &&& r == Ok::<bool, &'static str>(true)
                    &&& final(self)@ == old(self)@
                },
            },
    {
        proof {
            use_type_invariant(&*self);
        }
        let packet = match Packet::<Vec<u8>>::from_bytes(buffer) {
            Ok(p) => p,
            Err(e) => {
                proof {
                    lemma_packet_accepts_is_decode(buffer@);
                }
                return Err(e);
            },
        };
        proof {
            lemma_packet_accepts_is_decode(buffer@);
            lemma_packet_wire_decode(buffer@, packet);
        }
        match packet.packet_type {
            PacketType::Payload => {
                let mut payload = Payload { payload: Vec::new() };
                std::mem::swap(&mut payload, &mut self.payload);
                payload.extend_from_bytes(packet.data.as_slice());
                self.payload = payload;
                self.counter = self.counter + 1;
                Ok(false)
            },
            PacketType::EndPayload => Ok(true),
        }
    }

    /// The payload received so far.
    pub fn payload(&self) -> (r: &Payload)
        ensures
            r.payload@ == self@.payload,
    {
        &self.payload
    }
}

proof fn lemma_chunk_count_positive(p: nat, k: nat)
    requires
        p > 0,
        k > 0,
    ensures
        chunk_count(p, k) >= 1,
{
    lemma_fundamental_div_mod(p as int, k as int);
    if p % k == 0 && p / k == 0 {
        assert(p == k * (p / k) + p % k);
        assert(k * 0 == 0);
    }
}

proof fn lemma_last_chunk_len_bound(p: nat, k: nat)
    requires
        k > 0,
    ensures
        last_chunk_len(p, k) <= k,
{
    lemma_fundamental_div_mod(p as int, k as int);
}

/// The buffer length the receiver reads with at step `i` (after preparing),
/// when it resizes buffers and starts from a type byte and a full block.
pub open spec fn buffer_len_at(chunks_to_read: nat, last_block_size: nat, block_size: nat, i: nat) -> nat {
    if i + 1 < chunks_to_read {
        FLAG_SIZE as nat + block_size
    } else if i + 1 == chunks_to_read {
        FLAG_SIZE as nat + last_block_size
    } else {
        FLAG_SIZE as nat + 1
    }
}

/// Preparing the buffer at each step, starting from a type byte and a full
/// block, gives the lengths `buffer_len_at` names: full blocks, then the last
/// block, then room for the end packet.
pub proof fn lemma_prepared_lengths(c: nat, last: nat, b: nat, i: nat)
    requires
        c >= 1,
        i <= c,
    ensures
        next_buffer_len(
            c,
            last,
            true,
            i,
            if i == 0 {
                FLAG_SIZE as nat + b
            } else {
                buffer_len_at(c, last, b, (i - 1) as nat)
            },
        ) == buffer_len_at(c, last, b, i),
{
}

/// The packets the sending side sends for a payload in blocks of `k` bytes:
/// one payload packet per block, then an end packet carrying one byte.
pub open spec fn sent_packets(s: Seq<u8>, k: nat) -> Seq<Seq<u8>> {
    chunk_seq(s, k).map_values(|c: Seq<u8>| encode_packet(PacketType::Payload, c)) + seq![
        encode_packet(PacketType::EndPayload, seq![1u8]),
    ]
}

/// The packets the sending side sends for `payload` in blocks of
/// `block_size` bytes: one payload packet per block, then the end packet.
pub fn sender_packets(payload: &Payload, block_size: usize) -> (r: Vec<Vec<u8>>)
    requires
        block_size > 0,
    ensures
        r@.map_values(|p: Vec<u8>| p@) == sent_packets(payload.payload@, block_size as nat),
{
    let chunks = payload.chunks(block_size);
    let ghost cs = chunks@.map_values(|c: &[u8]| c@);
    let mut r: Vec<Vec<u8>> = Vec::new();
    let mut i: usize = 0;
    while i < chunks.len()
        invariant
            i <= chunks@.len(),
            cs == chunks@.map_values(|c: &[u8]| c@),
            r@.map_values(|p: Vec<u8>| p@) == cs.take(i as int).map_values(
                |c: Seq<u8>| encode_packet(PacketType::Payload, c),
            ),
        decreases chunks@.len() - i,
    {
        let packet = Packet::new(PacketType::Payload, chunks[i]);
        let bytes = packet.to_bytes();
        assert(bytes@ == encode_packet(PacketType::Payload, cs[i as int]));
        let ghost before = r@;
        r.push(bytes);
        assert(r@.map_values(|p: Vec<u8>| p@) == before.map_values(|p: Vec<u8>| p@).push(
            bytes@,
        ));
        assert(cs.take(i + 1) == cs.take(i as int).push(cs[i as int]));
        i = i + 1;
        assert(r@.map_values(|p: Vec<u8>| p@) =~= cs.take(i as int).map_values(
            |c: Seq<u8>| encode_packet(PacketType::Payload, c),
        ));
    }
    let end = Packet::new(PacketType::EndPayload, vec![1u8; 1]);
    assert(end.data@ =~= seq![1u8]);
    let end_bytes = end.to_bytes();
    let ghost before = r@;
    r.push(end_bytes);
    assert(cs.take(i as int) == cs);
    assert(r@.map_values(|p: Vec<u8>| p@) =~= before.map_values(|p: Vec<u8>| p@) + seq![
        end_bytes@,
    ]);
    r
}

/// What the receiving side holds after handling `packets` in order, starting
/// from `acc`, as `Receiver::accept` handles each one: the payload once an
/// end packet arrives, or nothing if a packet is refused or none ends it.
pub open spec fn receive_packets(acc: Seq<u8>, packets: Seq<Seq<u8>>) -> Option<Seq<u8>>
    decreases packets.len(),
{
    if packets.len() == 0 {
        None
    } else {
        match decode_packet(packets[0]) {
            None => None,
            Some((PacketType::Payload, d)) => receive_packets(acc + d, packets.drop_first()),
            Some((PacketType::EndPayload, _)) => Some(acc),
        }
    }
}

proof fn lemma_receive_blocks(acc: Seq<u8>, cs: Seq<Seq<u8>>)
    ensures
        receive_packets(
            acc,
            cs.map_values(|c: Seq<u8>| encode_packet(PacketType::Payload, c)) + seq![
                encode_packet(PacketType::EndPayload, seq![1u8]),
            ],
        ) == Some(acc + cs.flatten()),
    decreases cs.len(),
{
    let end = encode_packet(PacketType::EndPayload, seq![1u8]);
    let packets = cs.map_values(|c: Seq<u8>| encode_packet(PacketType::Payload, c)) + seq![end];
    if cs.len() == 0 {
        lemma_decode_encode(PacketType::EndPayload, seq![1u8]);
        assert(packets[0] == end);
        assert(acc + cs.flatten() == acc);
    } else {
        lemma_decode_encode(PacketType::Payload, cs[0]);
        assert(packets[0] == encode_packet(PacketType::Payload, cs[0]));
        let rest = cs.drop_first();
        assert(packets.drop_first() == rest.map_values(
            |c: Seq<u8>| encode_packet(PacketType::Payload, c),
        ) + seq![end]);
        lemma_receive_blocks(acc + cs[0], rest);
        assert(cs.flatten() == cs[0] + rest.flatten());
        assert(acc + cs[0] + rest.flatten() == acc + cs.flatten());
    }
}

/// A receiver that handles, in order, the packets the sending side sends for
/// a payload rebuilds exactly that payload, and so reports the same hash.
pub proof fn lemma_transfer_rebuilds_payload(s: Seq<u8>, k: nat)
    requires
        k > 0,
    ensures
        receive_packets(Seq::empty(), sent_packets(s, k)) == Some(s),
        payload_hash(receive_packets(Seq::empty(), sent_packets(s, k)).unwrap()) == payload_hash(
            s,
        ),
{
    lemma_receive_blocks(Seq::empty(), chunk_seq(s, k));
    lemma_chunks_flatten(s, k);
    assert(Seq::<u8>::empty() + s == s);
}

/// With resizing on, each packet the sending side sends has exactly the
/// length of the buffer the receiver reads it with: every block of a
/// non-empty payload, and then the end packet.
pub proof fn lemma_buffers_fit_packets(s: Seq<u8>, k: nat)
    requires
        k > 0,
        s.len() > 0,
    ensures
        ({
            let c = chunk_count(s.len(), k);
            let last = last_chunk_len(s.len(), k);
            &&& sent_packets(s, k).len() == c + 1
            &&& forall|i: nat|
                i <= c ==> #[trigger] sent_packets(s, k)[i as int].len() == buffer_len_at(
                    c,
                    last,
                    k,
                    i,
                )
        }),
{
    lemma_chunk_lengths(s, k);
    let c = chunk_count(s.len(), k);
    let cs = chunk_seq(s, k);
    let ps = sent_packets(s, k);
    assert forall|i: nat| i <= c implies #[trigger] ps[i as int].len() == buffer_len_at(
        c,
        last_chunk_len(s.len(), k),
        k,
        i,
    ) by {
        if i < c {
            assert(ps[i as int] == encode_packet(PacketType::Payload, cs[i as int]));
        } else {
            assert(ps[i as int] == encode_packet(PacketType::EndPayload, seq![1u8]));
        }
    }
}

} // verus!
