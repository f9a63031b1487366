//! Content identity: a cryptographic digest of a file's full bytes.
//!
//! The digest is the identity signal behind rename and duplicate detection;
//! equal bytes give equal digests, and the engine never compares digests of
//! unequal provenance in any other way than for equality.

use vstd::prelude::*;

verus! {

/// The hex digest that the hash function assigns to a byte string.  Left
/// uninterpreted: it is a fixed function of the bytes alone.
pub uninterp spec fn digest_of(bytes: Seq<u8>) -> Seq<char>;

/// Relies on `blake3::hash` (with `Hash::to_hex`): the digest depends on the
/// input bytes alone, and the hex form of the 32-byte hash is 64 characters.
#[verifier::external_body]
fn blake3_hex(bytes: &[u8]) -> (r: String)
    ensures
        r@ == digest_of(bytes@),
        r@.len() == 64,
{
    blake3::hash(bytes).to_hex().to_string()
}

/// Digest of a byte buffer, as a lower-case hex token usable as a lookup key.
pub fn hash_bytes(bytes: &Vec<u8>) -> (r: String)
    ensures
        r@ == digest_of(bytes@),
        r@.len() == 64,
{
    blake3_hex(bytes.as_slice())
}

} // verus!
