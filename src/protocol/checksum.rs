//! Single-byte integrity check carried at the end of every packet.

use vstd::prelude::*;

verus! {

/// Sum of all bytes of `s`, as an unbounded integer.
pub open spec fn byte_sum(s: Seq<u8>) -> nat
    decreases s.len(),
{
    if s.len() == 0 {
        0
    } else {
        byte_sum(s.drop_last()) + s.last() as nat
    }
}

/// The checksum of `s`: `0xFF` minus the byte sum taken modulo 256.
pub open spec fn checksum_of(s: Seq<u8>) -> u8 {
    (255 - byte_sum(s) % 256) as u8
}

/// Computes the checksum of `data`.
pub fn calculate_checksum(data: &[u8]) -> (r: u8)
    ensures
        r == checksum_of(data@),
{
    let mut acc: u8 = 0;
    let mut i: usize = 0;
    while i < data.len()
        invariant
            i <= data@.len(),
            acc as nat == byte_sum(data@.subrange(0, i as int)) % 256,
        decreases data@.len() - i,
    {
        proof {
            let pre = data@.subrange(0, i as int);
            let next = data@.subrange(0, i as int + 1);
            assert(next.drop_last() =~= pre);
        }
        acc = ((acc as u16 + data[i] as u16) % 256) as u8;
        i = i + 1;
    }
    assert(data@.subrange(0, data@.len() as int) =~= data@);
    255 - acc
}

/// Tells whether `expected` is the checksum of `data`.
pub fn verify_checksum(data: &[u8], expected: u8) -> (r: bool)
    ensures
        r == (checksum_of(data@) == expected),
{
    calculate_checksum(data) == expected
}

} // verus!
