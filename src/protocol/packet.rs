//! Packet layout: a flags byte, optional routing ids, device, command and
//! sequence bytes, the payload, and a trailing checksum.

use vstd::prelude::*;
use vstd::slice::{slice_subrange, slice_to_vec};

use crate::error::RvrError;
use crate::protocol::checksum::{calculate_checksum, checksum_of};
use crate::protocol::framing::{encode_spec, EOP, SOP};

verus! {

/// Routing id written when a presence bit is set but no id was given.
pub const DEFAULT_NODE_ID: u8 = 0x01;

/// The flags byte, one bit per flag: bit 0 `is_response`, 1
/// `requests_response`, 2 `requests_only_error_response`, 3 `is_activity`,
/// 4 `has_target_id`, 5 `has_source_id`; bits 6 and 7 are `reserved`.
#[derive(Debug, Clone, Copy, PartialEq, Eq, Structural)]
pub struct PacketFlags {
    pub is_response: bool,
    pub requests_response: bool,
    pub requests_only_error_response: bool,
    pub is_activity: bool,
    pub has_target_id: bool,
    pub has_source_id: bool,
    /// The two reserved bits, as a value below 4.
    pub reserved: u8,
}

/// The byte that encodes `f`; reserved bits beyond the two available are dropped.
pub open spec fn flags_bits(f: PacketFlags) -> u8 {
    (if f.is_response { 0x01u8 } else { 0u8 }) | (if f.requests_response { 0x02u8 } else { 0u8 })
        | (if f.requests_only_error_response { 0x04u8 } else { 0u8 }) | (if f.is_activity { 0x08u8 } else { 0u8 })
        | (if f.has_target_id { 0x10u8 } else { 0u8 }) | (if f.has_source_id { 0x20u8 } else { 0u8 })
        | ((f.reserved & 0x03u8) << 6u8)
}

/// The flags that byte `b` encodes.
pub open spec fn flags_from_bits(b: u8) -> PacketFlags {
    PacketFlags {
        is_response: b & 0x01u8 != 0,
        requests_response: b & 0x02u8 != 0,
        requests_only_error_response: b & 0x04u8 != 0,
        is_activity: b & 0x08u8 != 0,
        has_target_id: b & 0x10u8 != 0,
        has_source_id: b & 0x20u8 != 0,
        reserved: b >> 6u8,
    }
}

impl PacketFlags {
    /// Packs the flags into their wire byte.
    pub fn to_byte(self) -> (r: u8)
        ensures
            r == flags_bits(self),
    {
        (if self.is_response { 0x01u8 } else { 0u8 }) | (if self.requests_response { 0x02u8 } else { 0u8 })
            | (if self.requests_only_error_response { 0x04u8 } else { 0u8 }) | (if self.is_activity { 0x08u8 } else { 0u8 })
            | (if self.has_target_id { 0x10u8 } else { 0u8 }) | (if self.has_source_id { 0x20u8 } else { 0u8 })
            | ((self.reserved & 0x03u8) << 6u8)
    }

    /// Unpacks a wire byte into flags.
    pub fn from_byte(byte: u8) -> (r: Self)
        ensures
            r == flags_from_bits(byte),
    {
        PacketFlags {
            is_response: byte & 0x01u8 != 0,
            requests_response: byte & 0x02u8 != 0,
            requests_only_error_response: byte & 0x04u8 != 0,
            is_activity: byte & 0x08u8 != 0,
            has_target_id: byte & 0x10u8 != 0,
            has_source_id: byte & 0x20u8 != 0,
            reserved: byte >> 6u8,
        }
    }
}

/// Unpacking a packed flags value gives it back, when its reserved value fits
/// in the two reserved bits.
pub proof fn lemma_flags_round_trip(f: PacketFlags)
    requires
        f.reserved < 4,
    ensures
        flags_from_bits(flags_bits(f)) == f,
{
    let b = flags_bits(f);
    let (a0, a1, a2, a3, a4, a5, r) = (
        f.is_response,
        f.requests_response,
        f.requests_only_error_response,
        f.is_activity,
        f.has_target_id,
        f.has_source_id,
        f.reserved,
    );
    assert(b == (if a0 { 0x01u8 } else { 0u8 }) | (if a1 { 0x02u8 } else { 0u8 }) | (if a2 { 0x04u8 } else { 0u8 })
        | (if a3 { 0x08u8 } else { 0u8 }) | (if a4 { 0x10u8 } else { 0u8 }) | (if a5 { 0x20u8 } else { 0u8 })
        | ((r & 0x03u8) << 6u8));
    assert(b & 0x01u8 != 0 <==> a0) by (bit_vector)
        requires
            b == (if a0 { 0x01u8 } else { 0u8 }) | (if a1 { 0x02u8 } else { 0u8 }) | (if a2 { 0x04u8 } else { 0u8 })
                | (if a3 { 0x08u8 } else { 0u8 }) | (if a4 { 0x10u8 } else { 0u8 }) | (if a5 { 0x20u8 } else { 0u8 })
                | ((r & 0x03u8) << 6u8),
    ;
    assert((b & 0x02u8 != 0 <==> a1) && (b & 0x04u8 != 0 <==> a2) && (b & 0x08u8 != 0 <==> a3) && (b
        & 0x10u8 != 0 <==> a4) && (b & 0x20u8 != 0 <==> a5) && b >> 6u8 == r) by (bit_vector)
        requires
            r < 4,
            b == (if a0 { 0x01u8 } else { 0u8 }) | (if a1 { 0x02u8 } else { 0u8 }) | (if a2 { 0x04u8 } else { 0u8 })
                | (if a3 { 0x08u8 } else { 0u8 }) | (if a4 { 0x10u8 } else { 0u8 }) | (if a5 { 0x20u8 } else { 0u8 })
                | ((r & 0x03u8) << 6u8),
    ;
}

/// Packing the flags read from any byte gives that byte back.
pub proof fn lemma_byte_round_trip(b: u8)
    ensures
        flags_bits(flags_from_bits(b)) == b,
{
    assert((if b & 0x01u8 != 0 { 0x01u8 } else { 0u8 }) | (if b & 0x02u8 != 0 { 0x02u8 } else { 0u8 }) | (if b
        & 0x04u8 != 0 { 0x04u8 } else { 0u8 }) | (if b & 0x08u8 != 0 { 0x08u8 } else { 0u8 }) | (if b & 0x10u8
        != 0 { 0x10u8 } else { 0u8 }) | (if b & 0x20u8 != 0 { 0x20u8 } else { 0u8 }) | (((b >> 6u8) & 0x03u8)
        << 6u8) == b) by (bit_vector);
}

/// One protocol message.
#[derive(Debug, Clone)]
pub struct Packet {
    pub flags: PacketFlags,
    pub target_id: Option<u8>,
    pub source_id: Option<u8>,
    pub device_id: u8,
    pub command_id: u8,
    pub sequence_number: u8,
    pub payload: Vec<u8>,
}

/// A packet as a mathematical value: its fields, with the payload as a sequence.
pub struct PacketView {
    pub flags: PacketFlags,
    pub target_id: Option<u8>,
    pub source_id: Option<u8>,
    pub device_id: u8,
    pub command_id: u8,
    pub sequence_number: u8,
    pub payload: Seq<u8>,
}

impl View for Packet {
    type V = PacketView;

    open spec fn view(&self) -> PacketView {
        PacketView {
            flags: self.flags,
            target_id: self.target_id,
            source_id: self.source_id,
            device_id: self.device_id,
            command_id: self.command_id,
            sequence_number: self.sequence_number,
            payload: self.payload@,
        }
    }
}

impl PacketView {
    /// The presence bits agree with the optional ids, and the reserved
    /// value fits in its two bits.
    pub open spec fn well_formed(self) -> bool {
        &&& self.flags.has_target_id <==> self.target_id is Some
        &&& self.flags.has_source_id <==> self.source_id is Some
        &&& self.flags.reserved < 4
    }
}

/// The routing id written for a present field: the id, or the default node.
pub open spec fn id_or_default(id: Option<u8>) -> u8 {
    match id {
        Some(v) => v,
        None => DEFAULT_NODE_ID,
    }
}

/// The one-byte field that presence bit `present` calls for, or nothing.
pub open spec fn optional_field(present: bool, id: Option<u8>) -> Seq<u8> {
    if present {
        seq![id_or_default(id)]
    } else {
        Seq::empty()
    }
}

/// Everything the checksum covers: flags, optional ids, device, command,
/// sequence number and payload.
pub open spec fn packet_body(p: PacketView) -> Seq<u8> {
    seq![flags_bits(p.flags)] + optional_field(p.flags.has_target_id, p.target_id)
        + optional_field(p.flags.has_source_id, p.source_id) + seq![
        p.device_id,
        p.command_id,
        p.sequence_number,
    ] + p.payload
}

/// The unescaped wire form of a packet: its body followed by the checksum of the body.
pub open spec fn serialize(p: PacketView) -> Seq<u8> {
    packet_body(p).push(checksum_of(packet_body(p)))
}

/// The bytes written on the link for `p`: a start marker, the escaped
/// wire form, an end marker.
pub open spec fn frame_spec(p: PacketView) -> Seq<u8> {
    seq![SOP] + encode_spec(serialize(p)) + seq![EOP]
}

/// Number of bytes before the payload, for a packet with these flags.
pub open spec fn header_len(f: PacketFlags) -> int {
    4 + (if f.has_target_id { 1int } else { 0 }) + (if f.has_source_id { 1int } else { 0 })
}

/// What the unescaped buffer `b` parses to: the fields in wire order, the
/// bytes up to the last as payload, and the last as checksum.
pub open spec fn parse(b: Seq<u8>) -> Result<PacketView, RvrError> {
    if b.len() == 0 {
        Err(RvrError::Truncated)
    } else {
        let f = flags_from_bits(b[0]);
        let t: int = if f.has_target_id { 1 } else { 0 };
        let s: int = if f.has_source_id { 1 } else { 0 };
        let h = header_len(f);
        if b.len() < h + 1 {
            Err(RvrError::Truncated)
        } else if checksum_of(b.drop_last()) != b.last() {
            Err(RvrError::ChecksumMismatch { expected: checksum_of(b.drop_last()), actual: b.last() })
        } else {
            Ok(
                PacketView {
                    flags: f,
                    target_id: if f.has_target_id { Some(b[1]) } else { None },
                    source_id: if f.has_source_id { Some(b[1 + t]) } else { None },
                    device_id: b[1 + t + s],
                    command_id: b[2 + t + s],
                    sequence_number: b[3 + t + s],
                    payload: b.subrange(h, b.len() - 1),
                },
            )
        }
    }
}

/// The view of a parse result: packets by their view, errors as they are.
pub open spec fn view_parsed(r: Result<Packet, RvrError>) -> Result<PacketView, RvrError> {
    match r {
        Ok(p) => Ok(p@),
        Err(e) => Err(e),
    }
}

proof fn lemma_serialize_layout(p: PacketView)
    requires
        p.well_formed(),
    ensures
        ({
            let b = serialize(p);
            let f = p.flags;
            let t: int = if f.has_target_id { 1 } else { 0 };
            let s: int = if f.has_source_id { 1 } else { 0 };
            &&& b.len() == header_len(f) + p.payload.len() + 1
            &&& flags_from_bits(b[0]) == f
            &&& f.has_target_id ==> Some(b[1]) == p.target_id
            &&& f.has_source_id ==> Some(b[1 + t]) == p.source_id
            &&& b[1 + t + s] == p.device_id
            &&& b[2 + t + s] == p.command_id
            &&& b[3 + t + s] == p.sequence_number
            &&& b.subrange(header_len(f), b.len() - 1) == p.payload
            &&& b.drop_last() == packet_body(p)
            &&& b.last() == checksum_of(packet_body(p))
        }),
{
    lemma_flags_round_trip(p.flags);
    let b = serialize(p);
    let body = packet_body(p);
    let h = header_len(p.flags);
    assert(b.drop_last() =~= body);
    assert(b.subrange(h, b.len() - 1) =~= p.payload) by {
        assert forall|i: int| 0 <= i < p.payload.len() implies b.subrange(h, b.len() - 1)[i]
            == p.payload[i] by {
            assert(b[h + i] == body[h + i]);
        }
    }
}

/// Parsing the serialized form of a well-formed packet gives the packet back.
pub proof fn lemma_parse_serialize(p: PacketView)
    requires
        p.well_formed(),
    ensures
        parse(serialize(p)) == Ok::<PacketView, RvrError>(p),
{
    lemma_serialize_layout(p);
    let b = serialize(p);
    if let Ok(q) = parse(b) {
        assert(q.target_id == p.target_id);
        assert(q.source_id == p.source_id);
        assert(q == p);
    }
}

/// Replacing the checksum byte of a serialized packet with any other value
/// makes parsing fail with a checksum mismatch that names both values.
pub proof fn lemma_corrupt_checksum(p: PacketView, x: u8)
    requires
        p.well_formed(),
        x != serialize(p).last(),
    ensures
        ({
            let b = serialize(p);
            parse(b.update(b.len() - 1, x)) == Err::<PacketView, RvrError>(
                RvrError::ChecksumMismatch { expected: b.last(), actual: x },
            )
        }),
{
    lemma_serialize_layout(p);
    let b = serialize(p);
    let c = b.update(b.len() - 1, x);
    assert(c.drop_last() =~= b.drop_last());
    assert(c[0] == b[0]);
}

/// The flags of a command that asks for a response.
pub open spec fn command_flags() -> PacketFlags {
    PacketFlags {
        is_response: false,
        requests_response: true,
        requests_only_error_response: false,
        is_activity: false,
        has_target_id: false,
        has_source_id: false,
        reserved: 0,
    }
}

/// A command that asks for a response and carries no routing ids.
pub open spec fn command_view(device_id: u8, command_id: u8, sequence_number: u8, payload: Seq<u8>) -> PacketView {
    PacketView {
        flags: command_flags(),
        target_id: None,
        source_id: None,
        device_id,
        command_id,
        sequence_number,
        payload,
    }
}

/// Appends `src` to `dst`, byte by byte.
fn push_all(dst: &mut Vec<u8>, src: &Vec<u8>)
    ensures
        final(dst)@ == old(dst)@ + src@,
{
    let mut i: usize = 0;
    while i < src.len()
        invariant
            i <= src@.len(),
            dst@ == old(dst)@ + src@.subrange(0, i as int),
        decreases src@.len() - i,
    {
        dst.push(src[i]);
        assert(src@.subrange(0, i + 1) =~= src@.subrange(0, i as int).push(src@[i as int]));
        i = i + 1;
    }
    assert(src@.subrange(0, i as int) =~= src@);
}

impl Packet {
    /// A command that asks for a response, with no routing ids.
    pub fn new_command(device_id: u8, command_id: u8, sequence_number: u8, payload: Vec<u8>) -> (r:
        Self)
        ensures
            r@ == command_view(device_id, command_id, sequence_number, payload@),
    {
        Packet {
            flags: PacketFlags {
                is_response: false,
                requests_response: true,
                requests_only_error_response: false,
                is_activity: false,
                has_target_id: false,
                has_source_id: false,
                reserved: 0,
            },
            target_id: None,
            source_id: None,
            device_id,
            command_id,
            sequence_number,
            payload,
        }
    }

    /// The unescaped wire bytes, checksum included.
    pub fn to_bytes(&self) -> (r: Vec<u8>)
        ensures
            r@ == serialize(self@),
    {
        let mut bytes: Vec<u8> = Vec::new();
        bytes.push(self.flags.to_byte());
        if self.flags.has_target_id {
            bytes.push(
                match self.target_id {
                    Some(id) => id,
                    None => DEFAULT_NODE_ID,
                },
            );
        }
        if self.flags.has_source_id {
            bytes.push(
                match self.source_id {
                    Some(id) => id,
                    None => DEFAULT_NODE_ID,
                },
            );
        }
        bytes.push(self.device_id);
        bytes.push(self.command_id);
        bytes.push(self.sequence_number);
        push_all(&mut bytes, &self.payload);
        assert(bytes@ =~= packet_body(self@));
        let checksum = calculate_checksum(bytes.as_slice());
        bytes.push(checksum);
        bytes
    }

    /// Parses an unescaped buffer, checking its length and its checksum.
    pub fn from_bytes(bytes: &[u8]) -> (r: Result<Self, RvrError>)
        ensures
            view_parsed(r) == parse(bytes@),
    {
        let n = bytes.len();
        if n == 0 {
            return Err(RvrError::Truncated);
        }
        let flags = PacketFlags::from_byte(bytes[0]);
        let mut pos: usize = 1;
        let target_id = if flags.has_target_id {
            pos = pos + 1;
            if n < 2 {
                return Err(RvrError::Truncated);
            }
            Some(bytes[1])
        } else {
            None
        };
        let source_id = if flags.has_source_id {
            if n <= pos {
                return Err(RvrError::Truncated);
            }
            let id = bytes[pos];
            pos = pos + 1;
            Some(id)
        } else {
            None
        };
        assert(pos + 3 == header_len(flags));
        if n < pos + 4 {
            return Err(RvrError::Truncated);
        }
        let body = slice_subrange(bytes, 0, n - 1);
        let actual = bytes[n - 1];
        assert(body@ =~= bytes@.drop_last());
        let expected = calculate_checksum(body);
        if expected != actual {
            return Err(RvrError::ChecksumMismatch { expected, actual });
        }
        let payload = slice_to_vec(slice_subrange(bytes, pos + 3, n - 1));
        Ok(
            Packet {
                flags,
                target_id,
                source_id,
                device_id: bytes[pos],
                command_id: bytes[pos + 1],
                sequence_number: bytes[pos + 2],
                payload,
            },
        )
    }
}

} // verus!
