//! The resource of the resource machine, its byte encoding, commitment,
//! nullifier and kind.

use vstd::prelude::*;

use crate::bytes::{
    append_bytes, be_bytes, concat32, eq32, lemma_be_bytes_injective, lemma_be_bytes_len, pow256,
    u128_be_bytes, write_at,
};
use crate::curve::{hash_from_bytes, hash_to_curve, CurvePoint};
use crate::hash::{keccak, keccak256};
use crate::hash_to_curve::DST;
use crate::nullifier_key::NullifierKey;
use crate::traits::{NullifierError, Resource as ResourceTrait, RMNullifierKey};

verus! {

#[derive(Debug, Clone, PartialEq, Eq)]
pub struct Resource {
    pub logic_ref: [u8; 32],
    pub label_ref: [u8; 32],
    pub value_ref: [u8; 32],
    pub quantity: u128,
    pub nonce: [u8; 32],
    pub nk_commitment: [u8; 32],
    pub is_ephemeral: bool,
}

/// The 177-byte encoding of a resource: the five references and the nonce
/// commitment in order, with the quantity big-endian after the value
/// reference and the ephemerality flag as a last byte.
pub open spec fn resource_bytes(r: Resource) -> Seq<u8> {
    r.logic_ref@ + r.label_ref@ + r.value_ref@ + be_bytes(r.quantity as nat, 16) + r.nonce@
        + r.nk_commitment@ + seq![if r.is_ephemeral { 1u8 } else { 0u8 }]
}

/// The commitment to a resource: the digest of its encoding.
pub open spec fn resource_commitment(r: Resource) -> Seq<u8> {
    keccak(resource_bytes(r))
}

/// The nullifier of a resource under the key bytes `nk`: the digest of the
/// commitment followed by the key.
pub open spec fn resource_nullifier(r: Resource, nk: Seq<u8>) -> Seq<u8> {
    keccak(resource_commitment(r) + nk)
}

/// The kind of a resource: its logic and label references hashed to the curve.
pub open spec fn resource_kind(logic_ref: Seq<u8>, label_ref: Seq<u8>) -> Seq<u8> {
    hash_to_curve(logic_ref + label_ref, DST@)
}

/// The key `nk` is the one the resource is committed to.
pub open spec fn key_matches(r: Resource, nk: Seq<u8>) -> bool {
    keccak(nk) == r.nk_commitment@
}

/// Equal encodings mean equal resources: the encoding holds every field.
pub proof fn lemma_resource_bytes_injective(r1: Resource, r2: Resource)
    requires
        resource_bytes(r1) == resource_bytes(r2),
    ensures
        r1 == r2,
{
    let b1 = resource_bytes(r1);
    let b2 = resource_bytes(r2);
    lemma_be_bytes_len(r1.quantity as nat, 16);
    lemma_be_bytes_len(r2.quantity as nat, 16);
    assert(r1.logic_ref@ =~= b1.subrange(0, 32));
    assert(r2.logic_ref@ =~= b2.subrange(0, 32));
    assert(r1.label_ref@ =~= b1.subrange(32, 64));
    assert(r2.label_ref@ =~= b2.subrange(32, 64));
    assert(r1.value_ref@ =~= b1.subrange(64, 96));
    assert(r2.value_ref@ =~= b2.subrange(64, 96));
    assert(be_bytes(r1.quantity as nat, 16) =~= b1.subrange(96, 112));
    assert(be_bytes(r2.quantity as nat, 16) =~= b2.subrange(96, 112));
    assert(r1.nonce@ =~= b1.subrange(112, 144));
    assert(r2.nonce@ =~= b2.subrange(112, 144));
    assert(r1.nk_commitment@ =~= b1.subrange(144, 176));
    assert(r2.nk_commitment@ =~= b2.subrange(144, 176));
    assert(b1[176] == b2[176]);
    assert(r1.logic_ref =~= r2.logic_ref);
    assert(r1.label_ref =~= r2.label_ref);
    assert(r1.value_ref =~= r2.value_ref);
    assert(r1.nonce =~= r2.nonce);
    assert(r1.nk_commitment =~= r2.nk_commitment);
    reveal_with_fuel(pow256, 17);
    assert(pow256(16) == 0x1_0000_0000_0000_0000_0000_0000_0000_0000);
    lemma_be_bytes_injective(r1.quantity as nat, r2.quantity as nat, 16);
}

impl Resource {
    /// The encoding of the resource as a vector.
    pub fn to_vec(&self) -> (bytes: Vec<u8>)
        ensures
            bytes@ == resource_bytes(*self),
    {
        let mut bytes: Vec<u8> = Vec::new();
        append_bytes(&mut bytes, &self.logic_ref);
        append_bytes(&mut bytes, &self.label_ref);
        append_bytes(&mut bytes, &self.value_ref);
        let q = u128_be_bytes(self.quantity);
        append_bytes(&mut bytes, &q);
        append_bytes(&mut bytes, &self.nonce);
        append_bytes(&mut bytes, &self.nk_commitment);
        bytes.push(if self.is_ephemeral { 1u8 } else { 0u8 });
        assert(bytes@ =~= resource_bytes(*self));
        bytes
    }

    /// The encoding of the resource as an array of 177 bytes.
    pub fn to_bytes(&self) -> (bytes: [u8; 177])
        ensures
            bytes@ == resource_bytes(*self),
    {
        let mut bytes = [0u8; 177];
        write_at(&mut bytes, 0, &self.logic_ref);
        write_at(&mut bytes, 32, &self.label_ref);
        write_at(&mut bytes, 64, &self.value_ref);
        let q = u128_be_bytes(self.quantity);
        write_at(&mut bytes, 96, &q);
        write_at(&mut bytes, 112, &self.nonce);
        write_at(&mut bytes, 144, &self.nk_commitment);
        bytes[176] = if self.is_ephemeral { 1u8 } else { 0u8 };
        proof {
            lemma_be_bytes_len(self.quantity as nat, 16);
        }
        assert(bytes@ =~= resource_bytes(*self));
        bytes
    }
}

impl ResourceTrait<NullifierKey> for Resource {
    type RLogicRef = [u8; 32];
    type RLabelRef = [u8; 32];
    type RValueRef = [u8; 32];
    type RQuantity = u128;
    type RNonce = [u8; 32];
    type RKind = CurvePoint;
    type RRandSeed = ();
    type RCommitment = [u8; 32];
    type RNullifier = [u8; 32];
    type RDelta = [u8; 32];

    open spec fn logic_ref_of(&self) -> [u8; 32] {
        self.logic_ref
    }

    open spec fn label_ref_of(&self) -> [u8; 32] {
        self.label_ref
    }

    /// A kind is a point of the curve: the logic and label references
    /// hashed to the curve.
    open spec fn is_kind_of(kind: CurvePoint, logic_ref: [u8; 32], label_ref: [u8; 32]) -> bool {
        kind.wf() && kind@ == resource_kind(logic_ref@, label_ref@)
    }

    fn get_logic_ref(&self) -> (r: &[u8; 32])
        ensures
            *r == self.logic_ref,
    {
        &self.logic_ref
    }

    fn get_label_ref(&self) -> (r: &[u8; 32])
        ensures
            *r == self.label_ref,
    {
        &self.label_ref
    }

    fn get_value_ref(&self) -> (r: &[u8; 32])
        ensures
            *r == self.value_ref,
    {
        &self.value_ref
    }

    fn get_quantity(&self) -> (r: &u128)
        ensures
            *r == self.quantity,
    {
        &self.quantity
    }

    fn get_nonce(&self) -> (r: &[u8; 32])
        ensures
            *r == self.nonce,
    {
        &self.nonce
    }

    fn get_nk_commitment(&self) -> (r: &[u8; 32])
        ensures
            *r == self.nk_commitment,
    {
        &self.nk_commitment
    }

    fn get_random_seed(&self) -> &() {
        &()
    }

    fn is_ephemeral(&self) -> (r: bool)
        ensures
            r == self.is_ephemeral,
    {
        self.is_ephemeral
    }

    fn kind(&self) -> (r: CurvePoint)
        ensures
            r.wf(),
            r@ == resource_kind(self.logic_ref@, self.label_ref@),
    {
        Self::compute_kind(&self.logic_ref, &self.label_ref)
    }

    fn nullify(&self, nk: &NullifierKey) -> (r: Result<[u8; 32], NullifierError>)
        ensures
            key_matches(*self, nk.bytes@) <==> r is Ok,
            r matches Ok(n) ==> n@ == resource_nullifier(*self, nk.bytes@),
            r matches Err(e) ==> e == NullifierError::KeyMismatch,
    {
        let c = nk.commit();
        if !eq32(&c, &self.nk_commitment) {
            return Err(NullifierError::KeyMismatch);
        }
        Ok(self.compute_nullifier(nk))
    }

    fn commit(&self) -> (r: [u8; 32])
        ensures
            r@ == resource_commitment(*self),
    {
        keccak256(&self.to_bytes())
    }

    fn compute_kind(logic_ref: &[u8; 32], label_ref: &[u8; 32]) -> (r: CurvePoint)
        ensures
            r.wf(),
            r@ == resource_kind(logic_ref@, label_ref@),
    {
        let bytes = concat32(logic_ref, label_ref);
        let dst = DST;
        hash_from_bytes(&bytes, &dst)
    }

    fn compute_nullifier(&self, nk: &NullifierKey) -> (r: [u8; 32])
        ensures
            r@ == resource_nullifier(*self, nk.bytes@),
    {
        let c = self.commit();
        let bytes = concat32(&c, nk.to_bytes());
        keccak256(&bytes)
    }
}

} // verus!
