//! The nullifier key: the secret that authorizes consuming a resource.

use vstd::prelude::*;

use crate::hash::{keccak, keccak256};
use crate::traits::RMNullifierKey;

verus! {

#[derive(Debug, Clone, PartialEq, Eq)]
pub struct NullifierKey {
    pub bytes: [u8; 32],
}

impl NullifierKey {
    /// The key's bytes.
    pub fn to_bytes(&self) -> (r: &[u8; 32])
        ensures
            *r == self.bytes,
    {
        &self.bytes
    }
}

impl RMNullifierKey for NullifierKey {
    type NKCommitment = [u8; 32];

    /// The commitment to the key: the Keccak-256 digest of its bytes.
    fn commit(&self) -> (r: [u8; 32])
        ensures
            r@ == keccak(self.bytes@),
    {
        keccak256(&self.bytes)
    }
}

} // verus!
