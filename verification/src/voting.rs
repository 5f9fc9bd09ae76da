//! The resource logic of a prototype election: a voter claims an ephemeral
//! vote resource with a Merkle proof of its voting power, and casts it as a
//! pair of curve points that hide the vote.

use vstd::prelude::*;

use crate::bytes::{append_bytes, be_bytes, eq32, u128_be_bytes, zeros};
use crate::curve::{
    ec_add, ec_mul_le, generator, generator_sec1, point_add, point_mul_le, point_x, point_y,
    CurvePoint,
};
use crate::error::ArmError;
use crate::hash::{keccak, keccak256};
use crate::instance::{app_data_default, empty_app_data, AppData, AppDataView, Payload, ResourceLogicInstance};
use crate::nullifier_key::NullifierKey;
use crate::resource::{key_matches, resource_commitment, resource_nullifier, Resource};
use crate::traits::Resource as ResourceTrait;
use crate::tree::{path_root, Proof};
use crate::witness::{quantity_scalar, quantity_to_scalar};

verus! {

/// the hardcoded forwarder contract
pub const FORWARDER: [u8; 20] = [
    0u8, 0u8, 0u8, 0u8, 0u8, 0u8, 0u8, 0u8, 0u8, 0u8, 0u8, 0u8, 0u8, 0u8, 0u8, 0u8, 0u8, 0u8, 0u8, 0u8,
];

/// the label of the election cast as a labelRef
pub const ELECTION_LABEL: [u8; 32] = [
    0u8, 0u8, 0u8, 0u8, 0u8, 0u8, 0u8, 0u8, 0u8, 0u8, 0u8, 0u8, 0u8, 0u8, 0u8, 0u8, 0u8, 0u8, 0u8, 0u8, 0u8, 0u8, 0u8, 0u8, 0u8, 0u8, 0u8, 0u8, 0u8, 0u8, 0u8, 0u8,
];

/// a merkle root of a tree whose leaves are (pk, weight)
/// assumed each pk is unique per tree
pub const MERKLE_ROOT: [u8; 32] = [
    0u8, 0u8, 0u8, 0u8, 0u8, 0u8, 0u8, 0u8, 0u8, 0u8, 0u8, 0u8, 0u8, 0u8, 0u8, 0u8, 0u8, 0u8, 0u8, 0u8, 0u8, 0u8, 0u8, 0u8, 0u8, 0u8, 0u8, 0u8, 0u8, 0u8, 0u8, 0u8,
];

/// A public key of the decoder able to decode the votes: the generator.
pub fn decoder_pk() -> (r: CurvePoint)
    ensures
        r.wf(),
        r@ == generator_sec1(),
{
    generator()
}

#[derive(Debug, Clone)]
pub struct VoteWitness {
    pub resource: Resource,
    pub is_consumed: bool,
    pub action_tree_root: [u8; 32],
    // Currently a stand-in for both the nullifier key and
    // the voter secret key
    pub sk: Option<[u8; 32]>,
    // path for the voter merkle tree
    pub path: Option<Proof>,
    // randomness for vote casting
    pub randomness: Option<[u8; 32]>,
    // whether a person voted "yes"
    pub vote: Option<bool>,
}

/// The voter's leaf: the digest of the public key's coordinates and the
/// voting weight in 16 big-endian bytes.
pub open spec fn voter_leaf(sk: Seq<u8>, quantity: u128) -> Seq<u8> {
    let pk = ec_mul_le(generator_sec1(), sk);
    keccak(point_x(pk) + point_y(pk) + be_bytes(quantity as nat, 16))
}

/// The voter owns the weight: the path leads from its leaf to the voters'
/// Merkle root.
pub open spec fn owns_voting_power(sk: Seq<u8>, path: Proof, quantity: u128) -> bool {
    path_root(path.steps(), voter_leaf(sk, quantity)) == MERKLE_ROOT@
}

/// The two points of a cast vote: the randomness commitment, and the vote
/// (the weight on the generator for a "yes", nothing for a "no") hidden by
/// the randomness on the decoder's key.
pub open spec fn vote_points(voted_yes: bool, weight: u128, randomness: Seq<u8>) -> (Seq<u8>, Seq<u8>) {
    let vote = if voted_yes {
        ec_mul_le(generator_sec1(), quantity_scalar(weight))
    } else {
        seq![0u8]
    };
    (ec_mul_le(generator_sec1(), randomness), ec_add(vote, ec_mul_le(generator_sec1(), randomness)))
}

/// The application data of a cast vote: one external payload holding the
/// coordinates of both points and the forwarder address.
pub open spec fn vote_app_data(voted_yes: bool, weight: u128, randomness: Seq<u8>) -> AppDataView {
    let (p1, p2) = vote_points(voted_yes, weight, randomness);
    (
        Seq::empty(),
        Seq::empty(),
        seq![(point_x(p1) + point_y(p1) + point_x(p2) + point_y(p2) + FORWARDER@, true)],
        Seq::empty(),
    )
}

/// The nullifier under the key `sk`, refused when the resource is not committed to it.
pub open spec fn spec_nullify(r: Resource, sk: Seq<u8>) -> Result<Seq<u8>, ArmError> {
    if key_matches(r, sk) {
        Ok(resource_nullifier(r, sk))
    } else {
        Err(ArmError::GeneralError)
    }
}

/// The claiming resource is the one the voter's key pins down: the election
/// label, zero value reference and nonce, and the key's commitment.
pub open spec fn bound_to_election(r: Resource, sk: Seq<u8>) -> bool {
    &&& r.label_ref@ == ELECTION_LABEL@
    &&& r.value_ref@ == zeros(32)
    &&& r.nonce@ == zeros(32)
    &&& r.nk_commitment@ == keccak(sk)
}

/// What the vote logic gives: its tag and application data, or the error met.
pub open spec fn spec_vote(w: VoteWitness) -> Result<(Seq<u8>, AppDataView), ArmError> {
    if w.resource.is_ephemeral && w.is_consumed {
        match w.sk {
            None => Err(ArmError::GeneralError),
            Some(sk) => match w.path {
                None => Err(ArmError::GeneralError),
                Some(path) => if !owns_voting_power(sk@, path, w.resource.quantity) {
                    Err(ArmError::GeneralError)
                } else if !bound_to_election(w.resource, sk@) {
                    Err(ArmError::GeneralError)
                } else {
                    match spec_nullify(w.resource, sk@) {
                        Err(e) => Err(e),
                        Ok(n) => Ok((n, empty_app_data())),
                    }
                },
            },
        }
    } else if w.resource.is_ephemeral {
        match w.vote {
            None => Err(ArmError::GeneralError),
            Some(vote) => match w.randomness {
                None => Err(ArmError::GeneralError),
                Some(randomness) => Ok(
                    (
                        resource_commitment(w.resource),
                        vote_app_data(vote, w.resource.quantity, randomness@),
                    ),
                ),
            },
        }
    } else if w.is_consumed {
        match w.sk {
            None => Err(ArmError::GeneralError),
            Some(sk) => match spec_nullify(w.resource, sk@) {
                Err(e) => Err(e),
                Ok(n) => Ok((n, empty_app_data())),
            },
        }
    } else {
        Ok((resource_commitment(w.resource), empty_app_data()))
    }
}

/// What the vote logic gives for `w`: the error met, or the instance with
/// the tag and application data of `spec_vote`, the witness's action root
/// and its consumption flag.
pub open spec fn vote_outcome(w: VoteWitness, r: Result<ResourceLogicInstance, ArmError>) -> bool {
    match spec_vote(w) {
        Err(e) => r == Err::<ResourceLogicInstance, ArmError>(e),
        Ok((tag, ad)) => r matches Ok(i) && {
            &&& i.tag@ == tag
            &&& i.action_root == w.action_tree_root
            &&& i.is_consumed == w.is_consumed
            &&& i.app_data@ == ad
        },
    }
}

/// Consuming a persistent vote resource with the key `sk` succeeds exactly
/// when the resource is committed to that key, whatever its label, value
/// reference and nonce; the tag is then the resource's nullifier under the
/// key, and no application data is emitted.
pub proof fn lemma_consume_persistent_vote(
    w: VoteWitness,
    sk: [u8; 32],
    r: Result<ResourceLogicInstance, ArmError>,
)
    requires
        !w.resource.is_ephemeral,
        w.is_consumed,
        w.sk == Some(sk),
        vote_outcome(w, r),
    ensures
        r is Ok <==> keccak(sk@) == w.resource.nk_commitment@,
        r matches Ok(i) ==> i.tag@ == keccak(resource_commitment(w.resource) + sk@)
            && i.app_data@ == empty_app_data() && i.is_consumed,
        r matches Err(e) ==> e == ArmError::GeneralError,
{
}

/// Creating a persistent vote resource always succeeds, with the
/// resource's commitment as tag and no application data.
pub proof fn lemma_create_persistent_vote(w: VoteWitness, r: Result<ResourceLogicInstance, ArmError>)
    requires
        !w.resource.is_ephemeral,
        !w.is_consumed,
        vote_outcome(w, r),
    ensures
        r matches Ok(i) && i.tag@ == resource_commitment(w.resource) && i.app_data@
            == empty_app_data() && !i.is_consumed,
{
}

/// A claim (an ephemeral consumed vote resource) succeeds exactly when a
/// key and a path are given, the key's public key with the claimed weight
/// is a leaf of the voters' tree, and the resource is the one the key pins
/// down for the election; its tag is then the nullifier under the key.
pub proof fn lemma_claim_vote(
    w: VoteWitness,
    sk: [u8; 32],
    path: Proof,
    r: Result<ResourceLogicInstance, ArmError>,
)
    requires
        w.resource.is_ephemeral,
        w.is_consumed,
        w.sk == Some(sk),
        w.path == Some(path),
        vote_outcome(w, r),
    ensures
        r is Ok <==> path_root(path.steps(), voter_leaf(sk@, w.resource.quantity)) == MERKLE_ROOT@
            && w.resource.label_ref@ == ELECTION_LABEL@ && w.resource.value_ref@ == zeros(32)
            && w.resource.nonce@ == zeros(32) && w.resource.nk_commitment@ == keccak(sk@),
        r matches Ok(i) ==> i.tag@ == keccak(resource_commitment(w.resource) + sk@)
            && i.app_data@ == empty_app_data(),
{
}

/// Casting (an ephemeral created vote resource) succeeds exactly when a
/// vote and randomness are given; the one external payload then holds the
/// randomness commitment and the hidden vote, and the forwarder address.
pub proof fn lemma_cast_vote(w: VoteWitness, r: Result<ResourceLogicInstance, ArmError>)
    requires
        w.resource.is_ephemeral,
        !w.is_consumed,
        vote_outcome(w, r),
    ensures
        r is Ok <==> w.vote is Some && w.randomness is Some,
        r matches Ok(i) ==> i.tag@ == resource_commitment(w.resource) && i.app_data@
            == vote_app_data(w.vote->Some_0, w.resource.quantity, w.randomness->Some_0@),
{
}

impl VoteWitness {
    /// The vote logic: claiming (ephemeral consumed), casting (ephemeral
    /// created), and plain consuming and creating of vote resources.
    pub fn constrain(&self) -> (r: Result<ResourceLogicInstance, ArmError>)
        ensures
            vote_outcome(*self, r),
    {
        let (tag, app_data): ([u8; 32], AppData) = if self.resource.is_ephemeral && self.is_consumed {
            let sk = match self.sk {
                Some(sk) => sk,
                None => {
                    return Err(ArmError::GeneralError);
                },
            };
            let path = match &self.path {
                Some(p) => p,
                None => {
                    return Err(ArmError::GeneralError);
                },
            };
            // make sure the prover owns an existing vote
            prove_voting_power(sk, path, self.resource.quantity)?;
            // make sure that if an sk claims, they can only do so via
            // a unique resource preventing double-mints
            bind_nullifier(&self.resource, sk)?;
            let nf_key = NullifierKey { bytes: sk };
            match self.resource.nullify(&nf_key) {
                Ok(n) => (n, app_data_default()),
                Err(e) => {
                    return Err(ArmError::from(e));
                },
            }
        } else if self.resource.is_ephemeral {
            let vote = match self.vote {
                Some(v) => v,
                None => {
                    return Err(ArmError::GeneralError);
                },
            };
            let randomness = match self.randomness {
                Some(r) => r,
                None => {
                    return Err(ArmError::GeneralError);
                },
            };
            // put the curve points representing votes to the external payloads
            (self.resource.commit(), compute_app_data(vote, self.resource.quantity, randomness))
        } else if self.is_consumed {
            // currently uses nk as the only authorization
            let sk = match self.sk {
                Some(sk) => sk,
                None => {
                    return Err(ArmError::GeneralError);
                },
            };
            let nf_key = NullifierKey { bytes: sk };
            match self.resource.nullify(&nf_key) {
                Ok(n) => (n, app_data_default()),
                Err(e) => {
                    return Err(ArmError::from(e));
                },
            }
        } else {
            (self.resource.commit(), app_data_default())
        };
        Ok(ResourceLogicInstance {
            tag,
            action_root: self.action_tree_root,
            is_consumed: self.is_consumed,
            app_data,
        })
    }
}

/// Checks that the voter with secret key `sk` owns `quantity` votes: the
/// path leads from the leaf `(pk ‖ quantity)` to the voters' root.
fn prove_voting_power(sk: [u8; 32], path: &Proof, quantity: u128) -> (r: Result<(), ArmError>)
    ensures
        r is Ok <==> owns_voting_power(sk@, *path, quantity),
        r matches Err(e) ==> e == ArmError::GeneralError,
{
    let g = generator();
    let pk = point_mul_le(&g, &sk);
    let (x, y) = pk.coordinates();
    // leaves are (pk || quantity)
    let mut leaf_plaintext: Vec<u8> = Vec::new();
    append_bytes(&mut leaf_plaintext, &x);
    append_bytes(&mut leaf_plaintext, &y);
    let q = u128_be_bytes(quantity);
    append_bytes(&mut leaf_plaintext, &q);
    let leaf = keccak256(leaf_plaintext.as_slice());
    assert(leaf_plaintext@ =~= point_x(pk@) + point_y(pk@) + be_bytes(quantity as nat, 16));
    // leaves are assumed to be keccak
    if path.verify(leaf, MERKLE_ROOT) {
        Ok(())
    } else {
        Err(ArmError::GeneralError)
    }
}

/// Whether all fields of the resource are bound to the election's constants
/// and its nullifier key commitment is the digest of `sk`.
fn bind_nullifier(resource: &Resource, sk: [u8; 32]) -> (r: Result<(), ArmError>)
    ensures
        r is Ok <==> bound_to_election(*resource, sk@),
        r matches Err(e) ==> e == ArmError::GeneralError,
{
    let zero = [0u8; 32];
    assert(zero@ =~= zeros(32));
    let election = ELECTION_LABEL;
    let nk_commitment = keccak256(&sk);
    if eq32(&resource.label_ref, &election) && eq32(&resource.value_ref, &zero) && eq32(
        &resource.nonce,
        &zero,
    ) && eq32(&resource.nk_commitment, &nk_commitment) {
        Ok(())
    } else {
        Err(ArmError::GeneralError)
    }
}

/// The application data of a cast vote.
fn compute_app_data(voted_yes: bool, weight: u128, randomness: [u8; 32]) -> (r: AppData)
    ensures
        r@ == vote_app_data(voted_yes, weight, randomness@),
{
    let (point1, point2) = compute_vote_commitment(voted_yes, weight, randomness);
    let (x1, y1) = point1.coordinates();
    let (x2, y2) = point2.coordinates();
    let mut forwarder_bytes: Vec<u8> = Vec::new();
    append_bytes(&mut forwarder_bytes, &x1);
    append_bytes(&mut forwarder_bytes, &y1);
    append_bytes(&mut forwarder_bytes, &x2);
    append_bytes(&mut forwarder_bytes, &y2);
    let forwarder = FORWARDER;
    append_bytes(&mut forwarder_bytes, &forwarder);
    let mut external_payload: Vec<Payload> = Vec::new();
    external_payload.push(Payload { data: forwarder_bytes, deletion_criterion: true });
    let r = AppData {
        resource_payload: Vec::new(),
        encryption_payload: Vec::new(),
        external_payload,
        discovery_payload: Vec::new(),
    };
    assert(r@ =~= vote_app_data(voted_yes, weight, randomness@));
    r
}

/// The two points of a cast vote.
fn compute_vote_commitment(voted_yes: bool, weight: u128, randomness: [u8; 32]) -> (r: (
    CurvePoint,
    CurvePoint,
))
    ensures
        (r.0@, r.1@) == vote_points(voted_yes, weight, randomness@),
{
    let g = generator();
    let randomness_commitment = point_mul_le(&g, &randomness);
    // the voting weight only gets shifted by "yes" votes in this impl
    let vote = if voted_yes {
        let w = quantity_to_scalar(weight);
        point_mul_le(&g, &w)
    } else {
        CurvePoint::identity()
    };
    let decoder = decoder_pk();
    let hidden = point_mul_le(&decoder, &randomness);
    (randomness_commitment, point_add(&vote, &hidden))
}

} // verus!
