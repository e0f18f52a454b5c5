//! SLIP-style byte stuffing: the start, end and escape markers never appear
//! literally inside an encoded body.

use bytes::{BufMut, BytesMut};
use vstd::prelude::*;

use crate::error::RvrError;

verus! {

/// Marks the first byte of a frame.
pub const SOP: u8 = 0x8D;
/// Marks the last byte of a frame.
pub const EOP: u8 = 0xD8;
/// Announces that the following byte is an escaped marker.
pub const ESC: u8 = 0xAB;
/// Bits cleared by escaping and restored by unescaping.
pub const ESC_MASK: u8 = 0x88;

#[verifier::external_type_specification]
#[verifier::external_body]
pub struct ExBytesMut(BytesMut);

/// The bytes a `BytesMut` currently holds, front to back.
pub uninterp spec fn bytes_mut_contents(b: BytesMut) -> Seq<u8>;

/// Relies on `bytes::BytesMut::with_capacity`: a fresh buffer holds no bytes;
/// it panics when the capacity exceeds `isize::MAX`.
#[verifier::external_body]
fn empty_buffer(capacity: usize) -> (r: BytesMut)
    requires
        capacity <= isize::MAX,
    ensures
        bytes_mut_contents(r) == Seq::<u8>::empty(),
{
    BytesMut::with_capacity(capacity)
}

/// Relies on `BufMut::put_u8` for `BytesMut`: appends one byte at the end;
/// it panics only when the length is already `usize::MAX`.
#[verifier::external_body]
fn put_byte(buf: &mut BytesMut, b: u8)
    requires
        bytes_mut_contents(*old(buf)).len() < usize::MAX,
    ensures
        bytes_mut_contents(*final(buf)) == bytes_mut_contents(*old(buf)).push(b),
{
    buf.put_u8(b)
}

/// Relies on `AsRef<[u8]>` for `BytesMut`: the slice shows exactly the bytes held.
#[verifier::external_body]
pub(crate) fn buffer_bytes(buf: &BytesMut) -> (r: &[u8])
    ensures
        r@ == bytes_mut_contents(*buf),
{
    buf.as_ref()
}

/// One of the three bytes that must be escaped inside a frame.
pub open spec fn is_marker(b: u8) -> bool {
    b == SOP || b == EOP || b == ESC
}

/// The encoding of a single byte.
pub open spec fn escape_byte(b: u8) -> Seq<u8> {
    if is_marker(b) {
        seq![ESC, b & 0x77]
    } else {
        seq![b]
    }
}

/// The encoding of a byte sequence: each byte encoded in turn.
pub open spec fn encode_spec(s: Seq<u8>) -> Seq<u8>
    decreases s.len(),
{
    if s.len() == 0 {
        Seq::empty()
    } else {
        escape_byte(s[0]) + encode_spec(s.skip(1))
    }
}

/// The decoding of a byte sequence, or `None` when it ends on an escape
/// with no byte after it.
pub open spec fn decode_spec(s: Seq<u8>) -> Option<Seq<u8>>
    decreases s.len(),
{
    if s.len() == 0 {
        Some(Seq::empty())
    } else if s[0] == ESC {
        if s.len() < 2 {
            None
        } else {
            match decode_spec(s.skip(2)) {
                Some(t) => Some(seq![s[1] | ESC_MASK] + t),
                None => None,
            }
        }
    } else {
        match decode_spec(s.skip(1)) {
            Some(t) => Some(seq![s[0]] + t),
            None => None,
        }
    }
}

spec fn prefixed(p: Seq<u8>, r: Option<Seq<u8>>) -> Option<Seq<u8>> {
    match r {
        Some(t) => Some(p + t),
        None => None,
    }
}

/// Escaping a marker keeps only bits that unescaping restores, and the
/// escaped byte is itself no marker.
pub proof fn lemma_unescape_marker(b: u8)
    requires
        is_marker(b),
    ensures
        (b & 0x77) | ESC_MASK == b,
        (b & 0x77) != ESC,
        !is_marker(b & 0x77),
{
    assert((b == 0x8D || b == 0xD8 || b == 0xAB) ==> (b & 0x77) | 0x88 == b && (b & 0x77)
        != 0xAB && (b & 0x77) != 0x8D && (b & 0x77) != 0xD8) by (bit_vector);
}

/// Decoding undoes encoding: for every byte sequence `x`, markers included,
/// `decode(encode(x)) == x`.
pub proof fn lemma_decode_encode(x: Seq<u8>)
    ensures
        decode_spec(encode_spec(x)) == Some(x),
    decreases x.len(),
{
    if x.len() > 0 {
        let rest = encode_spec(x.skip(1));
        lemma_decode_encode(x.skip(1));
        let e = encode_spec(x);
        if is_marker(x[0]) {
            lemma_unescape_marker(x[0]);
            assert(e.skip(2) =~= rest);
        } else {
            assert(e.skip(1) =~= rest);
        }
        assert(seq![x[0]] + x.skip(1) =~= x);
    }
}

/// Encoded bytes never hold a start or end marker, so an encoded body can
/// sit between the two without ambiguity.
pub proof fn lemma_encode_has_no_frame_marker(x: Seq<u8>)
    ensures
        forall|i: int|
            0 <= i < encode_spec(x).len() ==> #[trigger] encode_spec(x)[i] != SOP
                && encode_spec(x)[i] != EOP,
    decreases x.len(),
{
    if x.len() > 0 {
        lemma_encode_has_no_frame_marker(x.skip(1));
        if is_marker(x[0]) {
            lemma_unescape_marker(x[0]);
        }
        let e = encode_spec(x);
        let h = escape_byte(x[0]);
        let rest = encode_spec(x.skip(1));
        assert forall|i: int| 0 <= i < e.len() implies #[trigger] e[i] != SOP && e[i] != EOP by {
            if i >= h.len() {
                assert(e[i] == rest[i - h.len()]);
            }
        }
    }
}

/// Escapes every start, end and escape byte of `data`.
pub fn encode_bytes(data: &[u8]) -> (r: BytesMut)
    requires
        data@.len() <= isize::MAX,
    ensures
        bytes_mut_contents(r) == encode_spec(data@),
{
    let mut encoded = empty_buffer(data.len());
    let mut i: usize = 0;
    assert(data@.skip(0) =~= data@);
    assert(bytes_mut_contents(encoded) + encode_spec(data@) =~= encode_spec(data@));
    while i < data.len()
        invariant
            i <= data@.len() <= isize::MAX,
            encode_spec(data@) == bytes_mut_contents(encoded) + encode_spec(data@.skip(i as int)),
            bytes_mut_contents(encoded).len() <= 2 * i,
        decreases data@.len() - i,
    {
        let byte = data[i];
        let ghost tail = data@.skip(i as int);
        assert(tail.skip(1) =~= data@.skip(i + 1));
        if byte == ESC || byte == SOP || byte == EOP {
            put_byte(&mut encoded, ESC);
            put_byte(&mut encoded, byte & !ESC_MASK);
            assert(byte & !ESC_MASK == byte & 0x77) by (bit_vector);
        } else {
            put_byte(&mut encoded, byte);
        }
        assert(bytes_mut_contents(encoded) + encode_spec(data@.skip(i + 1)) =~= encode_spec(
            data@,
        ));
        i = i + 1;
    }
    assert(data@.skip(i as int) =~= Seq::<u8>::empty());
    assert(bytes_mut_contents(encoded) + Seq::<u8>::empty() =~= bytes_mut_contents(encoded));
    encoded
}

/// Reverses `encode_bytes`; fails with `IncompleteEscape` when the last
/// byte is an escape.
pub fn decode_bytes(data: &[u8]) -> (r: Result<Vec<u8>, RvrError>)
    ensures
        match decode_spec(data@) {
            Some(d) => r == Ok::<Vec<u8>, RvrError>(r->Ok_0) && r->Ok_0@ == d,
            None => r == Err::<Vec<u8>, RvrError>(RvrError::IncompleteEscape),
        },
{
    let mut decoded: Vec<u8> = Vec::with_capacity(data.len());
    let mut i: usize = 0;
    assert(data@.skip(0) =~= data@);
    proof {
        match decode_spec(data@) {
            Some(t) => assert(decoded@ + t =~= t),
            None => {},
        }
    }
    while i < data.len()
        invariant
            i <= data@.len(),
            decode_spec(data@) == prefixed(decoded@, decode_spec(data@.skip(i as int))),
        decreases data@.len() - i,
    {
        let byte = data[i];
        let ghost tail = data@.skip(i as int);
        if byte == ESC {
            if i + 1 >= data.len() {
                return Err(RvrError::IncompleteEscape);
            }
            let next = data[i + 1];
            assert(tail.skip(2) =~= data@.skip(i + 2));
            let ghost before = decoded@;
            decoded.push(next | ESC_MASK);
            assert(decoded@ =~= before + seq![next | ESC_MASK]);
            proof {
                match decode_spec(data@.skip(i + 2)) {
                    Some(t) => assert(before + (seq![next | ESC_MASK] + t) =~= decoded@ + t),
                    None => {},
                }
            }
            i = i + 2;
        } else {
            assert(tail.skip(1) =~= data@.skip(i + 1));
            let ghost before = decoded@;
            decoded.push(byte);
            proof {
                match decode_spec(data@.skip(i + 1)) {
                    Some(t) => assert(before + (seq![byte] + t) =~= decoded@ + t),
                    None => {},
                }
            }
            i = i + 1;
        }
    }
    assert(data@.skip(i as int) =~= Seq::<u8>::empty());
    assert(decoded@ + Seq::<u8>::empty() =~= decoded@);
    Ok(decoded)
}

} // verus!
