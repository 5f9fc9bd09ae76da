//! The interfaces of the resource machine: hashing, nullifier keys,
//! resources and deltas.

use vstd::prelude::*;

verus! {

/// A delta: a value that adds up over the resources of a transaction.
pub trait Delta: Sized {
    fn add(&self, other: &Self) -> Self;
}

/// A hash function of the resource machine.
pub trait RMHash {
    type Output: Copy + Eq + core::fmt::Debug;

    fn hash(input: &[u8]) -> Self::Output;
}

/// A nullifier key, committed to by the resources it may consume.
pub trait RMNullifierKey {
    type NKCommitment;

    fn commit(&self) -> Self::NKCommitment;
}

/// The error of nullifying a resource with a key it is not committed to.
#[derive(Debug, Clone, Copy, PartialEq, Eq)]
pub enum NullifierError {
    KeyMismatch,
}

/// A resource of the resource machine.
pub trait Resource<K: RMNullifierKey>: Sized {
    type RLogicRef;
    type RLabelRef;
    type RValueRef;
    type RQuantity;
    type RNonce;
    type RKind;
    type RRandSeed;
    type RCommitment;
    type RNullifier;
    type RDelta;

    /// The logic reference of the resource.
    spec fn logic_ref_of(&self) -> Self::RLogicRef;

    /// The label reference of the resource.
    spec fn label_ref_of(&self) -> Self::RLabelRef;

    /// `kind` is the kind of resources with these logic and label references.
    spec fn is_kind_of(kind: Self::RKind, logic_ref: Self::RLogicRef, label_ref: Self::RLabelRef) -> bool;

    // getters
    fn get_logic_ref(&self) -> (r: &Self::RLogicRef)
        ensures
            *r == self.logic_ref_of(),
    ;

    fn get_label_ref(&self) -> (r: &Self::RLabelRef)
        ensures
            *r == self.label_ref_of(),
    ;

    fn get_value_ref(&self) -> &Self::RValueRef;

    fn get_quantity(&self) -> &Self::RQuantity;

    fn get_nonce(&self) -> &Self::RNonce;

    fn get_nk_commitment(&self) -> &K::NKCommitment;

    fn get_random_seed(&self) -> &Self::RRandSeed;

    fn is_ephemeral(&self) -> bool;

    /// The kind of the resource, from its logic and label references.
    fn kind(&self) -> (r: Self::RKind)
        ensures
            Self::is_kind_of(r, self.logic_ref_of(), self.label_ref_of()),
    {
        Self::compute_kind(self.get_logic_ref(), self.get_label_ref())
    }

    /// The nullifier of the resource under `nk`, refused when the resource
    /// is not committed to `nk`.
    fn nullify(&self, nk: &K) -> Result<Self::RNullifier, NullifierError>;

    // computational interfaces
    fn commit(&self) -> Self::RCommitment;

    fn compute_kind(logic_ref: &Self::RLogicRef, label_ref: &Self::RLabelRef) -> (r: Self::RKind)
        ensures
            Self::is_kind_of(r, *logic_ref, *label_ref),
    ;

    fn compute_nullifier(&self, nk: &K) -> Self::RNullifier;
}

} // verus!
