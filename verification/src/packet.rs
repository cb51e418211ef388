//! Framing of the messages the client sends: one type byte, then the data.
use vstd::prelude::*;
use vstd::slice::{slice_subrange, slice_to_vec};

verus! {

/// Values that travel as bytes.
pub trait NetworkSerialize<'a>: Sized {
    /// The bytes that stand for this value.
    spec fn wire(&self) -> Seq<u8>;

    /// Whether `from_bytes` reads a value from these bytes.
    spec fn accepts(bytes: Seq<u8>) -> bool;

    fn to_bytes(&self) -> (r: Vec<u8>)
        ensures
            r@ == self.wire(),
    ;

    fn from_bytes(bytes: &'a [u8]) -> (r: Result<Self, &'static str>)
        ensures
            r is Ok <==> Self::accepts(bytes@),
            r matches Ok(v) ==> v.wire() == bytes@,
    ;
}

/// Bytes in the type field that leads every packet.
pub const FLAG_SIZE: usize = 1;

/// What a packet carries: a block of the payload, or the end of it.
#[derive(Debug, Clone, Copy, PartialEq, Eq, Structural)]
pub enum PacketType {
    Payload,
    EndPayload,
}

impl PacketType {
    /// The byte that stands for this type: 0 for `Payload`, 1 for `EndPayload`.
    pub open spec fn byte(self) -> u8 {
        match self {
            PacketType::Payload => 0,
            PacketType::EndPayload => 1,
        }
    }

    pub fn to_u8(self) -> (r: u8)
        ensures
            r == self.byte(),
    {
        match self {
            PacketType::Payload => 0,
            PacketType::EndPayload => 1,
        }
    }

    /// Reads a type byte; only 0 and 1 are types.
    pub fn from_u8(val: u8) -> (r: Result<Self, &'static str>)
        ensures
            val == 0 ==> r == Ok::<PacketType, &'static str>(PacketType::Payload),
            val == 1 ==> r == Ok::<PacketType, &'static str>(PacketType::EndPayload),
            val > 1 ==> (r matches Err(e) && e@ == "Invalid PacketType byte"@),
            r matches Ok(t) ==> t.byte() == val,
    {
        match val {
            0 => Ok(PacketType::Payload),
            1 => Ok(PacketType::EndPayload),
            _ => Err("Invalid PacketType byte"),
        }
    }
}

/// A type byte followed by the data.
#[derive(Debug)]
pub struct Packet<T> {
    pub packet_type: PacketType,
    pub data: T,
}

impl<T> Packet<T> {
    pub fn new(packet_type: PacketType, data: T) -> (r: Self)
        ensures
            r.packet_type == packet_type,
            r.data == data,
    {
        Self { packet_type, data }
    }
}

impl<'a, T: NetworkSerialize<'a>> NetworkSerialize<'a> for Packet<T> {
    open spec fn wire(&self) -> Seq<u8> {
        seq![self.packet_type.byte()] + self.data.wire()
    }

    open spec fn accepts(bytes: Seq<u8>) -> bool {
        &&& bytes.len() > 0
        &&& bytes[0] <= 1
        &&& T::accepts(bytes.drop_first())
    }

    fn to_bytes(&self) -> (r: Vec<u8>) {
        let mut buffer = vec![self.packet_type.to_u8()];
        let mut data = self.data.to_bytes();
        buffer.append(&mut data);
        buffer
    }

    fn from_bytes(bytes: &'a [u8]) -> (r: Result<Self, &'static str>)
        ensures
            bytes@.len() == 0 ==> (r matches Err(e) && e@ == "Packet too short"@),
            bytes@.len() > 0 && bytes@[0] > 1 ==> (r matches Err(e) && e@
                == "Invalid PacketType byte"@),
    {
        if bytes.len() == 0 {
            return Err("Packet too short");
        }
        let packet_type = PacketType::from_u8(bytes[0])?;
        let rest = slice_subrange(bytes, 1, bytes.len());
        assert(rest@ == bytes@.drop_first());
        let data = T::from_bytes(rest)?;
        let r = Self { packet_type, data };
        assert(r.wire() == bytes@);
        Ok(r)
    }
}

impl<'a> NetworkSerialize<'a> for Vec<u8> {
    open spec fn wire(&self) -> Seq<u8> {
        self@
    }

    open spec fn accepts(bytes: Seq<u8>) -> bool {
        true
    }

    fn to_bytes(&self) -> (r: Vec<u8>) {
        slice_to_vec(self.as_slice())
    }

    fn from_bytes(bytes: &'a [u8]) -> (r: Result<Self, &'static str>) {
        Ok(slice_to_vec(bytes))
    }
}

impl<'a> NetworkSerialize<'a> for &'a [u8] {
    open spec fn wire(&self) -> Seq<u8> {
        self@
    }

    open spec fn accepts(bytes: Seq<u8>) -> bool {
        true
    }

    fn to_bytes(&self) -> (r: Vec<u8>) {
        slice_to_vec(*self)
    }

    fn from_bytes(bytes: &'a [u8]) -> (r: Result<Self, &'static str>) {
        Ok(bytes)
    }
}

/// The bytes of a packet of the given type carrying `data`.
pub open spec fn encode_packet(packet_type: PacketType, data: Seq<u8>) -> Seq<u8> {
    seq![packet_type.byte()] + data
}

/// What a packet of byte data is read as: its type and data, or nothing.
pub open spec fn decode_packet(bytes: Seq<u8>) -> Option<(PacketType, Seq<u8>)> {
    if bytes.len() == 0 || bytes[0] > 1 {
        None
    } else {
        Some(
            (
                if bytes[0] == 0 {
                    PacketType::Payload
                } else {
                    PacketType::EndPayload
                },
                bytes.drop_first(),
            ),
        )
    }
}

/// Writing a packet and reading it back gives the same type and data.
pub proof fn lemma_decode_encode(packet_type: PacketType, data: Seq<u8>)
    ensures
        decode_packet(encode_packet(packet_type, data)) == Some((packet_type, data)),
{
    assert(encode_packet(packet_type, data).drop_first() == data);
}

/// Reading a packet and writing it again gives back the same bytes.
pub proof fn lemma_encode_decode(bytes: Seq<u8>)
    ensures
        decode_packet(bytes) matches Some((t, d)) ==> encode_packet(t, d) == bytes,
{
    if bytes.len() > 0 && bytes[0] <= 1 {
        assert(encode_packet(decode_packet(bytes).unwrap().0, bytes.drop_first()) == bytes);
    }
}

/// `from_bytes` reads a packet of byte data exactly where `decode_packet`
/// gives a type and data.
pub proof fn lemma_packet_accepts_is_decode(bytes: Seq<u8>)
    ensures
        <Packet<Vec<u8>> as NetworkSerialize>::accepts(bytes) <==> decode_packet(bytes) is Some,
{
}

/// A packet of byte data whose wire form is `bytes` has the type and data
/// that `decode_packet` gives for `bytes`.
pub proof fn lemma_packet_wire_decode(bytes: Seq<u8>, p: Packet<Vec<u8>>)
    requires
        p.wire() == bytes,
    ensures
        decode_packet(bytes) == Some((p.packet_type, p.data@)),
{
    assert(bytes.drop_first() == p.data@);
}

/// The wire form of a packet of byte data is `encode_packet`.
pub proof fn lemma_packet_wire_is_encode(p: Packet<Vec<u8>>)
    ensures
        p.wire() == encode_packet(p.packet_type, p.data@),
{
}

/// `from_bytes` reads every packet of byte data that `to_bytes` writes.
pub proof fn lemma_written_packet_is_accepted(p: Packet<Vec<u8>>)
    ensures
        <Packet<Vec<u8>> as NetworkSerialize>::accepts(p.wire()),
{
    assert(p.wire().drop_first() == p.data@);
}

/// A packet read from the bytes written for `p` (its wire form equals that
/// of `p`) has the type and data of `p`.
pub proof fn lemma_read_back_packet(p: Packet<Vec<u8>>, q: Packet<Vec<u8>>)
    requires
        q.wire() == p.wire(),
    ensures
        q.packet_type == p.packet_type,
        q.data@ == p.data@,
{
    lemma_packet_wire_decode(p.wire(), p);
    lemma_packet_wire_decode(p.wire(), q);
}

} // verus!
