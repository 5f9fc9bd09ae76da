//! Keccak-256 hashing of byte strings and of pairs of tree nodes.

use sha3::Digest;
use vstd::prelude::*;

use crate::bytes::{concat32, concat_bytes};

verus! {

/// The Keccak-256 digest of a byte string (`sha3::Keccak256`).
pub uninterp spec fn keccak(data: Seq<u8>) -> Seq<u8>;

/// Keccak-256 of `input`, computed by `sha3::Keccak256::digest`.
/// The contract claims that the result is the digest of exactly these bytes
/// and nothing more: the digest itself is named, not described.
#[verifier::external_body]
pub fn keccak256(input: &[u8]) -> (digest: [u8; 32])
    ensures
        digest@ == keccak(input@),
{
    sha3::Keccak256::digest(input).into()
}

/// Keccak-256 of the concatenation `left ‖ right` of two byte strings.
pub fn hash_two_heap(left: &[u8], right: &[u8]) -> (digest: [u8; 32])
    ensures
        digest@ == keccak(left@ + right@),
{
    let bytes = concat_bytes(left, right);
    keccak256(bytes.as_slice())
}

/// Keccak-256 of the 64-byte concatenation `left ‖ right` of two 32-byte words.
pub fn hash_two_stack(left: &[u8; 32], right: &[u8; 32]) -> (digest: [u8; 32])
    ensures
        digest@ == keccak(left@ + right@),
{
    let bytes = concat32(left, right);
    keccak256(&bytes)
}

} // verus!
