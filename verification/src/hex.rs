//! Lowercase hexadecimal rendering of byte sequences.
//!
//! Content digests are embedded in file names and in the `$`-delimited
//! installation summary, so beside the encoding itself this module proves that
//! a hex rendering never contains the delimiter byte `$` or a path separator.

use vstd::prelude::*;

use crate::bytes::{DOLLAR, SLASH};

verus! {

/// The lowercase hexadecimal digit for a value in `0..16`, as an ASCII byte.
pub open spec fn hex_digit(n: int) -> u8
    recommends
        0 <= n < 16,
{
    if n < 10 {
        (48 + n) as u8
    } else {
        (87 + n) as u8
    }
}

/// The lowercase hexadecimal rendering of a byte sequence: two digits per
/// byte, high nibble first.
pub open spec fn hex_of(b: Seq<u8>) -> Seq<u8> {
    Seq::new(
        b.len() * 2,
        |i: int|
            if i % 2 == 0 {
                hex_digit((b[i / 2] as int) / 16)
            } else {
                hex_digit((b[i / 2] as int) % 16)
            },
    )
}

/// An ASCII byte that can appear in a lowercase hexadecimal rendering.
pub open spec fn is_hex_ascii(c: u8) -> bool {
    (48 <= c <= 57) || (97 <= c <= 102)
}

/// Every byte of a hex rendering is a lowercase hexadecimal digit; in
/// particular it is neither the field delimiter `$` nor the separator `/`.
pub proof fn lemma_hex_of_is_hex(b: Seq<u8>)
    ensures
        forall|i: int|
            0 <= i < hex_of(b).len() ==> is_hex_ascii(#[trigger] hex_of(b)[i])
                && hex_of(b)[i] != DOLLAR && hex_of(b)[i] != SLASH,
{
    assert forall|i: int| 0 <= i < hex_of(b).len() implies is_hex_ascii(#[trigger] hex_of(b)[i])
        && hex_of(b)[i] != DOLLAR && hex_of(b)[i] != SLASH by {
        let n = if i % 2 == 0 {
            (b[i / 2] as int) / 16
        } else {
            (b[i / 2] as int) % 16
        };
        assert(0 <= n < 16);
        assert(hex_of(b)[i] == hex_digit(n));
    }
}

fn hex_byte(n: u8) -> (r: u8)
    requires
        n < 16,
    ensures
        r == hex_digit(n as int),
{
    if n < 10 {
        48 + n
    } else {
        87 + n
    }
}

/// Renders a byte sequence as lowercase hexadecimal ASCII bytes.
pub fn to_hex(b: &Vec<u8>) -> (r: Vec<u8>)
    ensures
        r@ == hex_of(b@),
        r@.len() == b@.len() * 2,
{
    let mut r: Vec<u8> = Vec::new();
    let mut i: usize = 0;
    while i < b.len()
        invariant
            i <= b@.len(),
            r@.len() == i * 2,
            r@ == hex_of(b@).subrange(0, i * 2),
        decreases b@.len() - i,
    {
        let byte = b[i];
        r.push(hex_byte(byte / 16));
        r.push(hex_byte(byte % 16));
        i = i + 1;
        assert(r@ =~= hex_of(b@).subrange(0, i * 2));
    }
    assert(r@ =~= hex_of(b@));
    r
}

} // verus!
