use arm_core::error::ArmError;
use arm_core::hash::keccak256;
use arm_core::nullifier_key::NullifierKey;
use arm_core::resource::Resource;
use arm_core::traits::Resource as ResourceTrait;
use arm_core::tree::{Proof, Sibling};
use arm_core::voting::{VoteWitness, FORWARDER, MERKLE_ROOT};
use k256::elliptic_curve::ops::Reduce;
use k256::elliptic_curve::sec1::ToEncodedPoint;
use k256::{ProjectivePoint, Scalar, U256};

fn scalar_le(k: &[u8; 32]) -> Scalar {
    <Scalar as Reduce<U256>>::reduce(U256::from_le_slice(k))
}

fn xy(p: &ProjectivePoint) -> Vec<u8> {
    let e = p.to_encoded_point(false);
    match (e.x(), e.y()) {
        (Some(x), Some(y)) => [&x[..], &y[..]].concat(),
        _ => vec![0u8; 64],
    }
}

fn resource(eph: bool) -> Resource {
    Resource {
        logic_ref: [1u8; 32],
        label_ref: [0u8; 32],
        value_ref: [0u8; 32],
        quantity: 3,
        nonce: [0u8; 32],
        nk_commitment: keccak256(&[6u8; 32]),
        is_ephemeral: eph,
    }
}

fn witness(eph: bool, consumed: bool) -> VoteWitness {
    VoteWitness {
        resource: resource(eph),
        is_consumed: consumed,
        action_tree_root: [2u8; 32],
        sk: None,
        path: None,
        randomness: None,
        vote: None,
    }
}

#[test]
fn persistent_vote_resources() {
    let created = witness(false, false);
    let i = created.constrain().unwrap();
    assert_eq!(i.tag, created.resource.commit());
    assert_eq!(i.action_root, [2u8; 32]);
    assert!(i.app_data.external_payload.is_empty());
    let mut consumed = witness(false, true);
    assert_eq!(consumed.constrain().unwrap_err(), ArmError::GeneralError);
    consumed.sk = Some([6u8; 32]);
    let i = consumed.constrain().unwrap();
    assert_eq!(i.tag, consumed.resource.nullify(&NullifierKey { bytes: [6u8; 32] }).unwrap());
    consumed.sk = Some([5u8; 32]);
    assert_eq!(consumed.constrain().unwrap_err(), ArmError::GeneralError);
}

#[test]
fn casting_a_vote() {
    let mut w = witness(true, false);
    assert_eq!(w.constrain().unwrap_err(), ArmError::GeneralError);
    w.vote = Some(true);
    w.randomness = Some([9u8; 32]);
    let i = w.constrain().unwrap();
    assert_eq!(i.tag, w.resource.commit());
    let g = ProjectivePoint::GENERATOR;
    let p1 = g * scalar_le(&[9u8; 32]);
    let mut q = [0u8; 32];
    q[0] = 3;
    let p2 = g * scalar_le(&q) + g * scalar_le(&[9u8; 32]);
    let mut expected = Vec::new();
    expected.extend(xy(&p1));
    expected.extend(xy(&p2));
    expected.extend(FORWARDER);
    assert_eq!(i.app_data.external_payload.len(), 1);
    assert_eq!(i.app_data.external_payload[0].data, expected);
    assert!(i.app_data.external_payload[0].deletion_criterion);
    // a "no" vote hides nothing but the randomness
    w.vote = Some(false);
    let no = w.constrain().unwrap();
    let p2_no = ProjectivePoint::IDENTITY + g * scalar_le(&[9u8; 32]);
    assert_eq!(&no.app_data.external_payload[0].data[64..128], &xy(&p2_no)[..]);
}

#[test]
fn claiming_needs_voting_power() {
    let mut w = witness(true, true);
    assert_eq!(w.constrain().unwrap_err(), ArmError::GeneralError);
    w.sk = Some([6u8; 32]);
    w.path = Some(Proof { path: vec![Sibling { is_left: true, node: [0u8; 32] }] });
    // the path does not lead to the voters' root
    assert_eq!(w.constrain().unwrap_err(), ArmError::GeneralError);
    assert_eq!(MERKLE_ROOT, [0u8; 32]);
}
