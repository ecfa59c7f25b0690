//! Reliability-critical submessage records and their sanity rules. A
//! malformed submessage aborts processing of its datagram only; the rules
//! that decide malformedness are here.

use vstd::prelude::*;

use crate::bit_set::BitSet;
use crate::guid::EntityId;
use crate::sequence_number::SequenceNumber;

verus! {

/// A datagram carrying an impossible submessage is dropped; the error says
/// why.
#[derive(Clone, Copy, Debug, PartialEq, Eq, Structural)]
pub enum ProtocolError {
    /// A HEARTBEAT announcing an impossible sequence range.
    MalformedHeartbeat,
    /// An ACKNACK whose acknowledgement base is below the first possible
    /// sequence number.
    MalformedAckNack,
}

/// A HEARTBEAT submessage: the writer announces the range of sequence
/// numbers it still retains.
#[derive(Clone, Copy, Debug, PartialEq, Eq, Structural)]
pub struct Heartbeat {
    pub reader_id: EntityId,
    pub writer_id: EntityId,
    /// The lowest retained sequence number.
    pub first_sn: SequenceNumber,
    /// The highest assigned sequence number.
    pub last_sn: SequenceNumber,
    pub count: u32,
    /// Set when the writer asks for no ACKNACK unless something is missing.
    pub final_flag: bool,
}

/// A well-formed HEARTBEAT announces `1 <= first_sn <= last_sn`.
pub open spec fn heartbeat_well_formed(first_sn: i64, last_sn: i64) -> bool {
    1 <= first_sn <= last_sn
}

impl Heartbeat {
    /// Accepts the heartbeat or rejects it as malformed: sequence numbers
    /// start at 1, and a first number above the last is impossible.
    pub fn validate(&self) -> (r: Result<(), ProtocolError>)
        ensures
            r is Ok <==> heartbeat_well_formed(self.first_sn.value, self.last_sn.value),
            r matches Err(e) ==> e == ProtocolError::MalformedHeartbeat,
    {
        if self.first_sn.value >= 1 && self.first_sn.value <= self.last_sn.value {
            Ok(())
        } else {
            Err(ProtocolError::MalformedHeartbeat)
        }
    }
}

/// The little-endian octets of a 32-bit value.
pub open spec fn u32_le(x: u32) -> Seq<u8> {
    seq![
        (x & 0xff) as u8,
        ((x >> 8) & 0xff) as u8,
        ((x >> 16) & 0xff) as u8,
        ((x >> 24) & 0xff) as u8,
    ]
}

/// The 32-bit value at offset `off` of a little-endian octet sequence.
pub open spec fn u32_of_le(b: Seq<u8>, off: int) -> u32 {
    (b[off] as u32) | ((b[off + 1] as u32) << 8) | ((b[off + 2] as u32) << 16)
        | ((b[off + 3] as u32) << 24)
}

/// The little-endian octets of a 64-bit value.
pub open spec fn u64_le(x: u64) -> Seq<u8> {
    seq![
        (x & 0xff) as u8,
        ((x >> 8) & 0xff) as u8,
        ((x >> 16) & 0xff) as u8,
        ((x >> 24) & 0xff) as u8,
        ((x >> 32) & 0xff) as u8,
        ((x >> 40) & 0xff) as u8,
        ((x >> 48) & 0xff) as u8,
        ((x >> 56) & 0xff) as u8,
    ]
}

/// The 64-bit value at offset `off` of a little-endian octet sequence.
pub open spec fn u64_of_le(b: Seq<u8>, off: int) -> u64 {
    (b[off] as u64) | ((b[off + 1] as u64) << 8) | ((b[off + 2] as u64) << 16)
        | ((b[off + 3] as u64) << 24) | ((b[off + 4] as u64) << 32)
        | ((b[off + 5] as u64) << 40) | ((b[off + 6] as u64) << 48)
        | ((b[off + 7] as u64) << 56)
}

/// The HEARTBEAT submessage identifier on the wire.
pub const HEARTBEAT_SUBMESSAGE_ID: u8 = 0x07;

/// The flags octet: bit 0 is the little-endianness bit, always set here;
/// bit 1 is the final flag.
pub open spec fn heartbeat_flags(final_flag: bool) -> u8 {
    if final_flag {
        3
    } else {
        1
    }
}

/// The wire form of a HEARTBEAT: submessage identifier, flags,
/// octets-to-next-header (28, little-endian), then reader entity, writer
/// entity, first and last sequence number and count, all little-endian.
pub open spec fn heartbeat_encode(h: Heartbeat) -> Seq<u8> {
    seq![HEARTBEAT_SUBMESSAGE_ID, heartbeat_flags(h.final_flag), 28u8, 0u8]
        + u32_le(h.reader_id.value) + u32_le(h.writer_id.value)
        + u64_le(h.first_sn.value as u64) + u64_le(h.last_sn.value as u64) + u32_le(h.count)
}

/// The HEARTBEAT a 32-octet submessage denotes, or `None` where the
/// framing is not a little-endian HEARTBEAT.
pub open spec fn heartbeat_decode(b: Seq<u8>) -> Option<Heartbeat> {
    if b.len() == 32 && b[0] == HEARTBEAT_SUBMESSAGE_ID && (b[1] == 1 || b[1] == 3)
        && b[2] == 28 && b[3] == 0 {
        Some(
            Heartbeat {
                reader_id: EntityId { value: u32_of_le(b, 4) },
                writer_id: EntityId { value: u32_of_le(b, 8) },
                first_sn: SequenceNumber { value: u64_of_le(b, 12) as i64 },
                last_sn: SequenceNumber { value: u64_of_le(b, 20) as i64 },
                count: u32_of_le(b, 28),
                final_flag: b[1] == 3,
            },
        )
    } else {
        None
    }
}

/// Reassembling the four octets of a 32-bit value gives the value back.
proof fn lemma_u32_combine(x: u32)
    ensures
        u32_of_le(u32_le(x), 0) == x,
{
    assert((((x & 0xff) as u8 as u32) | ((((x >> 8) & 0xff) as u8 as u32) << 8)
        | ((((x >> 16) & 0xff) as u8 as u32) << 16)
        | ((((x >> 24) & 0xff) as u8 as u32) << 24)) == x) by (bit_vector);
}

/// Reassembling the eight octets of a 64-bit value gives the value back.
proof fn lemma_u64_combine(x: u64)
    ensures
        u64_of_le(u64_le(x), 0) == x,
{
    assert((((x & 0xff) as u8 as u64) | ((((x >> 8) & 0xff) as u8 as u64) << 8)
        | ((((x >> 16) & 0xff) as u8 as u64) << 16)
        | ((((x >> 24) & 0xff) as u8 as u64) << 24)
        | ((((x >> 32) & 0xff) as u8 as u64) << 32)
        | ((((x >> 40) & 0xff) as u8 as u64) << 40)
        | ((((x >> 48) & 0xff) as u8 as u64) << 48)
        | ((((x >> 56) & 0xff) as u8 as u64) << 56)) == x) by (bit_vector);
}

/// Splitting a reassembled 32-bit value gives the octets back.
proof fn lemma_u32_split(b0: u8, b1: u8, b2: u8, b3: u8)
    ensures
        u32_le((b0 as u32) | ((b1 as u32) << 8) | ((b2 as u32) << 16) | ((b3 as u32) << 24))
            =~= seq![b0, b1, b2, b3],
{
    let x = (b0 as u32) | ((b1 as u32) << 8) | ((b2 as u32) << 16) | ((b3 as u32) << 24);
    assert((x & 0xff) as u8 == b0 && ((x >> 8) & 0xff) as u8 == b1
        && ((x >> 16) & 0xff) as u8 == b2 && ((x >> 24) & 0xff) as u8 == b3) by (bit_vector)
        requires x == (b0 as u32) | ((b1 as u32) << 8) | ((b2 as u32) << 16) | ((b3 as u32)
        << 24);
}

/// Splitting a reassembled 64-bit value gives the octets back.
proof fn lemma_u64_split(b0: u8, b1: u8, b2: u8, b3: u8, b4: u8, b5: u8, b6: u8, b7: u8)
    ensures
        u64_le((b0 as u64) | ((b1 as u64) << 8) | ((b2 as u64) << 16) | ((b3 as u64) << 24)
            | ((b4 as u64) << 32) | ((b5 as u64) << 40) | ((b6 as u64) << 48)
            | ((b7 as u64) << 56)) =~= seq![b0, b1, b2, b3, b4, b5, b6, b7],
{
    let x = (b0 as u64) | ((b1 as u64) << 8) | ((b2 as u64) << 16) | ((b3 as u64) << 24)
        | ((b4 as u64) << 32) | ((b5 as u64) << 40) | ((b6 as u64) << 48) | ((b7 as u64) << 56);
    assert((x & 0xff) as u8 == b0 && ((x >> 8) & 0xff) as u8 == b1
        && ((x >> 16) & 0xff) as u8 == b2 && ((x >> 24) & 0xff) as u8 == b3
        && ((x >> 32) & 0xff) as u8 == b4 && ((x >> 40) & 0xff) as u8 == b5
        && ((x >> 48) & 0xff) as u8 == b6 && ((x >> 56) & 0xff) as u8 == b7) by (bit_vector)
        requires x == (b0 as u64) | ((b1 as u64) << 8) | ((b2 as u64) << 16) | ((b3 as u64)
        << 24) | ((b4 as u64) << 32) | ((b5 as u64) << 40) | ((b6 as u64) << 48) | ((b7
        as u64) << 56);
}

/// A 64-bit pattern survives the round trip through the signed view.
proof fn lemma_i64_cast_round(y: u64)
    ensures
        ((y as i64) as u64) == y,
{
    assert(((y as i64) as u64) == y) by (bit_vector);
}

/// A signed 64-bit value survives the round trip through the unsigned
/// view.
proof fn lemma_u64_cast_round(x: i64)
    ensures
        ((x as u64) as i64) == x,
{
    assert(((x as u64) as i64) == x) by (bit_vector);
}

/// Decoding what was encoded gives the heartbeat back: the wire form is
/// lossless.
pub proof fn lemma_heartbeat_encode_decode(h: Heartbeat)
    ensures
        heartbeat_decode(heartbeat_encode(h)) == Some(h),
{
    let b = heartbeat_encode(h);
    assert(b.len() == 32);
    lemma_u32_combine(h.reader_id.value);
    lemma_u32_combine(h.writer_id.value);
    lemma_u32_combine(h.count);
    lemma_u64_combine(h.first_sn.value as u64);
    lemma_u64_combine(h.last_sn.value as u64);
    lemma_u64_cast_round(h.first_sn.value);
    lemma_u64_cast_round(h.last_sn.value);
    assert(u32_of_le(b, 4) == u32_of_le(u32_le(h.reader_id.value), 0));
    assert(u32_of_le(b, 8) == u32_of_le(u32_le(h.writer_id.value), 0));
    assert(u64_of_le(b, 12) == u64_of_le(u64_le(h.first_sn.value as u64), 0));
    assert(u64_of_le(b, 20) == u64_of_le(u64_le(h.last_sn.value as u64), 0));
    assert(u32_of_le(b, 28) == u32_of_le(u32_le(h.count), 0));
}

/// Encoding what was decoded gives the octets back: serializing a
/// deserialized HEARTBEAT submessage reproduces its wire form exactly.
pub proof fn lemma_heartbeat_decode_encode(b: Seq<u8>)
    ensures
        heartbeat_decode(b) matches Some(h) ==> heartbeat_encode(h) == b,
{
    match heartbeat_decode(b) {
        Option::Some(h) => {
            lemma_u32_split(b[4], b[5], b[6], b[7]);
            lemma_u32_split(b[8], b[9], b[10], b[11]);
            lemma_u32_split(b[28], b[29], b[30], b[31]);
            lemma_u64_split(b[12], b[13], b[14], b[15], b[16], b[17], b[18], b[19]);
            lemma_u64_split(b[20], b[21], b[22], b[23], b[24], b[25], b[26], b[27]);
            lemma_i64_cast_round(u64_of_le(b, 12));
            lemma_i64_cast_round(u64_of_le(b, 20));
            assert(heartbeat_encode(h) =~= b);
        },
        Option::None => {},
    }
}

impl Heartbeat {
    /// The 32-octet little-endian wire form of this heartbeat.
    pub fn serialize(&self) -> (r: Vec<u8>)
        ensures
            r@ == heartbeat_encode(*self),
    {
        let mut out: Vec<u8> = Vec::new();
        out.push(HEARTBEAT_SUBMESSAGE_ID);
        if self.final_flag {
            out.push(3);
        } else {
            out.push(1);
        }
        out.push(28);
        out.push(0);
        let rd = self.reader_id.value;
        out.push((rd & 0xff) as u8);
        out.push(((rd >> 8) & 0xff) as u8);
        out.push(((rd >> 16) & 0xff) as u8);
        out.push(((rd >> 24) & 0xff) as u8);
        let wr = self.writer_id.value;
        out.push((wr & 0xff) as u8);
        out.push(((wr >> 8) & 0xff) as u8);
        out.push(((wr >> 16) & 0xff) as u8);
        out.push(((wr >> 24) & 0xff) as u8);
        let fi = self.first_sn.value as u64;
        out.push((fi & 0xff) as u8);
        out.push(((fi >> 8) & 0xff) as u8);
        out.push(((fi >> 16) & 0xff) as u8);
        out.push(((fi >> 24) & 0xff) as u8);
        out.push(((fi >> 32) & 0xff) as u8);
        out.push(((fi >> 40) & 0xff) as u8);
        out.push(((fi >> 48) & 0xff) as u8);
        out.push(((fi >> 56) & 0xff) as u8);
        let la = self.last_sn.value as u64;
        out.push((la & 0xff) as u8);
        out.push(((la >> 8) & 0xff) as u8);
        out.push(((la >> 16) & 0xff) as u8);
        out.push(((la >> 24) & 0xff) as u8);
        out.push(((la >> 32) & 0xff) as u8);
        out.push(((la >> 40) & 0xff) as u8);
        out.push(((la >> 48) & 0xff) as u8);
        out.push(((la >> 56) & 0xff) as u8);
        let ct = self.count;
        out.push((ct & 0xff) as u8);
        out.push(((ct >> 8) & 0xff) as u8);
        out.push(((ct >> 16) & 0xff) as u8);
        out.push(((ct >> 24) & 0xff) as u8);
        proof {
            assert(out@ =~= heartbeat_encode(*self));
        }
        out
    }

    /// The heartbeat a 32-octet submessage denotes, or `None` where the
    /// framing is not a little-endian HEARTBEAT.
    pub fn deserialize(bytes: &Vec<u8>) -> (r: Option<Heartbeat>)
        ensures
            r == heartbeat_decode(bytes@),
    {
        if bytes.len() != 32 {
            return None;
        }
        if bytes[0] != HEARTBEAT_SUBMESSAGE_ID {
            return None;
        }
        let flags = bytes[1];
        if flags != 1 && flags != 3 {
            return None;
        }
        if bytes[2] != 28 || bytes[3] != 0 {
            return None;
        }
        let rd = (bytes[4] as u32) | ((bytes[5] as u32) << 8) | ((bytes[6] as u32) << 16)
            | ((bytes[7] as u32) << 24);
        let wr = (bytes[8] as u32) | ((bytes[9] as u32) << 8) | ((bytes[10] as u32) << 16)
            | ((bytes[11] as u32) << 24);
        let fi = (bytes[12] as u64) | ((bytes[13] as u64) << 8) | ((bytes[14] as u64) << 16)
            | ((bytes[15] as u64) << 24) | ((bytes[16] as u64) << 32)
            | ((bytes[17] as u64) << 40) | ((bytes[18] as u64) << 48)
            | ((bytes[19] as u64) << 56);
        let la = (bytes[20] as u64) | ((bytes[21] as u64) << 8) | ((bytes[22] as u64) << 16)
            | ((bytes[23] as u64) << 24) | ((bytes[24] as u64) << 32)
            | ((bytes[25] as u64) << 40) | ((bytes[26] as u64) << 48)
            | ((bytes[27] as u64) << 56);
        let ct = (bytes[28] as u32) | ((bytes[29] as u32) << 8) | ((bytes[30] as u32) << 16)
            | ((bytes[31] as u32) << 24);
        Some(
            Heartbeat {
                reader_id: EntityId { value: rd },
                writer_id: EntityId { value: wr },
                first_sn: SequenceNumber::new(fi as i64),
                last_sn: SequenceNumber::new(la as i64),
                count: ct,
                final_flag: flags == 3,
            },
        )
    }
}

/// An ACKNACK submessage: the reader acknowledges everything below `base`
/// and requests the set bits again.
#[derive(Debug)]
pub struct AckNack {
    pub reader_id: EntityId,
    pub writer_id: EntityId,
    /// The lowest sequence number the reader has not yet received: all
    /// below it are acknowledged.
    pub base: SequenceNumber,
    /// The sequence numbers the reader requests again.
    pub set_bits: BitSet,
    pub count: u32,
    /// Set when the reader demands no immediate response.
    pub final_flag: bool,
}

impl AckNack {
    /// Accepts the ACKNACK or rejects it as malformed: the base is the
    /// lowest not-yet-received number, so it is at least 1.
    pub fn validate(&self) -> (r: Result<(), ProtocolError>)
        ensures
            r is Ok <==> self.base.value >= 1,
            r matches Err(e) ==> e == ProtocolError::MalformedAckNack,
    {
        if self.base.value >= 1 {
            Ok(())
        } else {
            Err(ProtocolError::MalformedAckNack)
        }
    }
}

} // verus!
