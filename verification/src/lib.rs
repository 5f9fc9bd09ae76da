//! Verified core of a shielded resource machine: resources, nullifier keys,
//! sparse Merkle trees, compliance and resource-logic instances, and the
//! ERC-20 transfer and voting resource logics.

pub mod bytes;
pub mod hash;
pub mod tree;
pub mod error;
pub mod traits;
pub mod curve;
pub mod hash_to_curve;
pub mod nullifier_key;
pub mod resource;
pub mod instance;
pub mod witness;
pub mod evm;
pub mod transfer_auth;
pub mod voting;
pub mod compliance;
pub mod flows;
pub mod vm_commit;
pub mod proving;
pub mod journal;
