//! Content digests: a fixed-length hexadecimal identifier derived
//! deterministically from a byte sequence.
//!
//! The digest primitive itself is an outside capability (SHA-256); this module
//! names its result and proves the properties the installer needs of the
//! rendered identifier: fixed length, hex alphabet, and determinism.

use vstd::prelude::*;

use crate::bytes::{DOLLAR, SLASH};
use crate::hex::{hex_of, is_hex_ascii, to_hex};

verus! {

/// The SHA-256 digest of a byte sequence. The outside hash function computes
/// it; the installer only relies on it being a function of the bytes alone.
pub uninterp spec fn sha256_of(b: Seq<u8>) -> Seq<u8>;

/// The content digest of a byte sequence: its SHA-256 digest rendered as
/// lowercase hexadecimal ASCII.
pub open spec fn digest_of(b: Seq<u8>) -> Seq<u8> {
    hex_of(sha256_of(b))
}

/// Relies on sha2::Sha256 (via the sha2::Digest trait): the digest is a
/// function of the input bytes alone and is exactly 32 bytes long.
#[verifier::external_body]
fn sha256(b: &Vec<u8>) -> (r: Vec<u8>)
    ensures
        r@ == sha256_of(b@),
        r@.len() == 32,
{
    <sha2::Sha256 as sha2::Digest>::digest(b.as_slice()).to_vec()
}

/// Derives the content digest of `b`: 64 lowercase hexadecimal ASCII bytes,
/// determined by the bytes of `b` alone.
pub fn content_digest(b: &Vec<u8>) -> (r: Vec<u8>)
    ensures
        r@ == digest_of(b@),
        r@.len() == 64,
        forall|i: int|
            0 <= i < r@.len() ==> is_hex_ascii(#[trigger] r@[i]) && r@[i] != DOLLAR
                && r@[i] != SLASH,
{
    let h = sha256(b);
    let r = to_hex(&h);
    proof {
        crate::hex::lemma_hex_of_is_hex(h@);
    }
    r
}

/// The content digest is stable: equal byte sequences have equal digests, in
/// every invocation. Re-installing byte-identical content therefore derives
/// the identical identifier.
pub proof fn lemma_digest_deterministic(a: Seq<u8>, b: Seq<u8>)
    requires
        a == b,
    ensures
        digest_of(a) == digest_of(b),
{
}

} // verus!
