use sha2::{Digest, Sha256};
use vstd::prelude::*;
use vstd::utf8::encode_utf8;

use crate::text::{hex_lower, lemma_hex_lower_len, to_hex_lower};

verus! {

/// The SHA-256 digest of a byte sequence, as the `sha2` crate computes it.
pub uninterp spec fn sha256_of(data: Seq<u8>) -> [u8; 32];

/// `sha2::Sha256::digest`: the contract claims that the 32-byte digest it
/// returns is a function of the input bytes alone.
#[verifier::external_body]
fn sha256(data: &[u8]) -> (r: [u8; 32])
    ensures
        r == sha256_of(data@),
{
    Sha256::digest(data).into()
}

/// The lower-case hex rendering of the SHA-256 digest of a text's UTF-8 bytes.
pub open spec fn spec_sha256_hex(s: Seq<char>) -> Seq<char> {
    hex_lower(sha256_of(encode_utf8(s))@)
}

/// A digest renders as exactly 64 hex digits.
pub proof fn lemma_sha256_hex_len(s: Seq<char>)
    ensures
        sha256_of(encode_utf8(s))@.len() == 32,
        spec_sha256_hex(s).len() == 64,
{
    broadcast use vstd::array::array_len_matches_n;
    let d = sha256_of(encode_utf8(s));
    assert(d@.len() == 32);
    lemma_hex_lower_len(d@);
}

/// SHA-256 of the UTF-8 bytes of `s`, as 64 lower-case hex digits.
pub fn sha256_hex(s: &str) -> (r: String)
    ensures
        r@ == spec_sha256_hex(s@),
        r@.len() == 64,
{
    let digest = sha256(s.as_bytes());
    let out = to_hex_lower(digest.as_slice());
    proof {
        lemma_sha256_hex_len(s@);
    }
    out
}

} // verus!
