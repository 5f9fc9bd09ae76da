use arm_core::compliance;
use arm_core::error::ArmError;
use arm_core::hash::keccak256;
use arm_core::instance::AppData;
use arm_core::journal::compliance_digest;
use arm_core::nullifier_key::NullifierKey;
use arm_core::resource::Resource;
use arm_core::traits::Resource as ResourceTrait;
use arm_core::tree::{Proof, Sibling};
use arm_core::witness::{ComplianceWitness, ConsumedWitness, CreatedWitness};
use k256::elliptic_curve::ops::Reduce;
use k256::elliptic_curve::sec1::{FromEncodedPoint, ToEncodedPoint};
use k256::{EncodedPoint, ProjectivePoint, Scalar, U256};

fn scalar_le(k: &[u8; 32]) -> Scalar {
    <Scalar as Reduce<U256>>::reduce(U256::from_le_slice(k))
}

fn from_sec1(b: &[u8]) -> ProjectivePoint {
    ProjectivePoint::from_encoded_point(&EncodedPoint::from_bytes(b).unwrap()).unwrap()
}

fn coords(p: &ProjectivePoint) -> ([u8; 32], [u8; 32]) {
    let e = p.to_encoded_point(false);
    match (e.x(), e.y()) {
        (Some(x), Some(y)) => (x[..].try_into().unwrap(), y[..].try_into().unwrap()),
        _ => ([0u8; 32], [0u8; 32]),
    }
}

fn nk() -> NullifierKey {
    NullifierKey { bytes: [6u8; 32] }
}

fn resource(nonce: [u8; 32], eph: bool, quantity: u128) -> Resource {
    Resource {
        logic_ref: [0x0cu8; 32],
        label_ref: [0x0du8; 32],
        value_ref: [0u8; 32],
        quantity,
        nonce,
        nk_commitment: keccak256(&nk().bytes),
        is_ephemeral: eph,
    }
}

fn outer(logic_ref: &[u8; 32], hiding: &[u8; 32]) -> [u8; 32] {
    let mut b = logic_ref.to_vec();
    b.extend_from_slice(hiding);
    keccak256(&b)
}

fn nonce_for(nullifiers: &[[u8; 32]], index: u32) -> [u8; 32] {
    let mut buf: Vec<u8> = nullifiers.concat();
    let mut ib = [0u8; 32];
    ib[..4].copy_from_slice(&index.to_be_bytes());
    buf.extend_from_slice(&ib);
    keccak256(&buf)
}

fn consumed_witness(eph: bool, path: Proof) -> ConsumedWitness {
    ConsumedWitness {
        resource: resource([4u8; 32], eph, 42),
        nullifier_key: nk(),
        path,
        delta_extra_input: [7u8; 32],
        logic_hiding_input: [9u8; 32],
        app_data: AppData::default(),
        logic_proof: [0u8; 32],
    }
}

fn created_witness(nonce: [u8; 32], quantity: u128, rcv: [u8; 32]) -> CreatedWitness {
    CreatedWitness {
        resource: resource(nonce, false, quantity),
        delta_extra_input: rcv,
        logic_hiding_input: [10u8; 32],
        app_data: AppData::default(),
        logic_proof: [0u8; 32],
    }
}

#[test]
fn consumed_and_created_instances() {
    let path = Proof { path: vec![Sibling { is_left: false, node: [1u8; 32] }] };
    let w = consumed_witness(false, path.clone());
    let i = w.constrain([0u8; 32]).unwrap();
    assert_eq!(i.nullifier, w.resource.nullify(&nk()).unwrap());
    assert_eq!(i.root, path.compute_root(w.resource.commit()));
    assert_eq!(i.outer_logic_ref, outer(&[0x0cu8; 32], &[9u8; 32]));
    let eph = consumed_witness(true, path);
    assert_eq!(eph.constrain([0u8; 32]).unwrap().root, [0u8; 32]);
    let c = created_witness([0u8; 32], 1, [8u8; 32]);
    let ci = c.constrain([0u8; 32]).unwrap();
    assert_eq!(ci.commitment, c.resource.commit());
    assert_eq!(ci.outer_logic_ref, outer(&[0x0cu8; 32], &[10u8; 32]));
}

#[test]
fn compliance_balances_delta_and_checks_nonces() {
    let consumed = consumed_witness(true, Proof { path: vec![] });
    let nullifier = consumed.resource.nullify(&nk()).unwrap();
    let nonce = nonce_for(&[nullifier], 0);
    let created = created_witness(nonce, 42, [7u8; 32]);
    let w = ComplianceWitness { consumed: vec![consumed], created: vec![created], action_root: [3u8; 32] };
    let a = w.constrain().unwrap();
    assert_eq!(a.consumed.len(), 1);
    assert_eq!(a.created.len(), 1);
    assert_eq!(a.consumed[0].nullifier, nullifier);
    assert_eq!(a.action_root, [3u8; 32]);
    assert_eq!(a.kind_table_commitment, [0u8; 32]);
    // same kind, quantity and extra input on both sides: the deltas cancel
    assert_eq!((a.delta_x, a.delta_y), ([0u8; 32], [0u8; 32]));
    assert!(w.try_constrain().unwrap().is_ok());
}

#[test]
fn compliance_delta_value() {
    let consumed = consumed_witness(true, Proof { path: vec![] });
    let nullifier = consumed.resource.nullify(&nk()).unwrap();
    let created = created_witness(nonce_for(&[nullifier], 0), 42, [8u8; 32]);
    let w = ComplianceWitness { consumed: vec![consumed], created: vec![created], action_root: [3u8; 32] };
    let a = w.constrain().unwrap();
    // -(kind*42 + G*7) + (kind*42 + G*8) = G * (8 - 7) in little-endian scalars [8..] - [7..]
    let g = ProjectivePoint::GENERATOR;
    let kind = from_sec1(&w.consumed[0].resource.kind().to_sec1());
    let mut q = [0u8; 32];
    q[..16].copy_from_slice(&42u128.to_le_bytes());
    let d_in = kind * scalar_le(&q) + g * scalar_le(&[7u8; 32]);
    let d_out = kind * scalar_le(&q) + g * scalar_le(&[8u8; 32]);
    let expected = ProjectivePoint::IDENTITY - d_in + d_out;
    assert_eq!((a.delta_x, a.delta_y), coords(&expected));
    assert_ne!(a.delta_x, [0u8; 32]);
}

#[test]
fn compliance_errors() {
    let empty = ComplianceWitness { consumed: vec![], created: vec![], action_root: [0u8; 32] };
    assert_eq!(empty.constrain().unwrap_err(), ArmError::ComplianceProofEmptyNullifierArray);
    let consumed = consumed_witness(true, Proof { path: vec![] });
    let nullifier = consumed.resource.nullify(&nk()).unwrap();
    let good = created_witness(nonce_for(&[nullifier], 0), 1, [0u8; 32]);
    // the second created resource must use index 1
    let reused = created_witness(nonce_for(&[nullifier], 0), 1, [0u8; 32]);
    let w = ComplianceWitness { consumed: vec![consumed], created: vec![good, reused], action_root: [0u8; 32] };
    assert_eq!(w.constrain().unwrap_err(), ArmError::ComplianceProofCreatedResourceNonceMismatch);
    let mut wrong_key = consumed_witness(true, Proof { path: vec![] });
    wrong_key.nullifier_key = NullifierKey { bytes: [1u8; 32] };
    let w2 = ComplianceWitness { consumed: vec![wrong_key], created: vec![], action_root: [0u8; 32] };
    assert!(w2.try_constrain().is_none());
}

#[test]
fn trivial_compliance_unit() {
    let c = compliance::ConsumedWitness {
        resource: resource([4u8; 32], false, 5),
        nullifier_key: nk(),
        path: Proof { path: vec![] },
        delta_extra_input: [0u8; 32],
    };
    let ci = c.constrain();
    assert_eq!(ci.nullifier, c.resource.nullify(&nk()).unwrap());
    assert_eq!(ci.root, c.resource.commit());
    assert_eq!(ci.logic_ref, [0x0cu8; 32]);
    let d = compliance::CreatedWitness { resource: resource([1u8; 32], false, 5), delta_extra_input: [0u8; 32] };
    assert_eq!(d.constrain().commitment, d.resource.commit());
    let only_consumed = compliance::ComplianceWitness { consumed: vec![c.clone()], created: vec![] };
    let inst = only_consumed.constrain().unwrap();
    assert_eq!(inst.consumed.len(), 1);
    assert!(inst.created.is_empty());
    assert_eq!((inst.delta_x, inst.delta_y), ([0u32; 8], [0u32; 8]));
    let nothing = compliance::ComplianceWitness { consumed: vec![], created: vec![d.clone()] };
    assert_eq!(nothing.constrain().err(), Some(ArmError::ComplianceProofEmptyNullifierArray));
    // the created index is written as four big-endian bytes
    let bad_nonce = compliance::ComplianceWitness { consumed: vec![c.clone()], created: vec![d] };
    assert_eq!(
        bad_nonce.try_constrain().unwrap().err(),
        Some(ArmError::ComplianceProofCreatedResourceNonceMismatch)
    );
    let nullifier = c.resource.nullify(&nk()).unwrap();
    let good = compliance::CreatedWitness {
        resource: resource(nonce_for(&[nullifier], 0), false, 5),
        delta_extra_input: [0u8; 32],
    };
    let both = compliance::ComplianceWitness { consumed: vec![c], created: vec![good] };
    let inst = both.try_constrain().unwrap().unwrap();
    assert_eq!(inst.created.len(), 1);
}

fn word(n: usize) -> Vec<u8> {
    let mut w = vec![0u8; 32];
    w[24..].copy_from_slice(&(n as u64).to_be_bytes());
    w
}

fn empty_app_data_abi() -> Vec<u8> {
    [word(0x80), word(0xa0), word(0xc0), word(0xe0), word(0), word(0), word(0), word(0)].concat()
}

#[test]
fn compliance_digest_of_abi_encoded_instance() {
    let consumed = consumed_witness(true, Proof { path: vec![] });
    let nullifier = consumed.resource.nullify(&nk()).unwrap();
    let created = created_witness(nonce_for(&[nullifier], 0), 42, [7u8; 32]);
    let w = ComplianceWitness { consumed: vec![consumed], created: vec![created], action_root: [3u8; 32] };
    let a = w.constrain().unwrap();
    let c = &a.consumed[0];
    let d = &a.created[0];
    let enc_c0 = [c.nullifier.to_vec(), c.root.to_vec(), c.outer_logic_ref.to_vec(), word(0x80), empty_app_data_abi()].concat();
    let enc_cs = [word(1), word(0x20), enc_c0].concat();
    let enc_d0 = [d.commitment.to_vec(), d.outer_logic_ref.to_vec(), word(0x60), empty_app_data_abi()].concat();
    let enc_ds = [word(1), word(0x20), enc_d0].concat();
    let heads = [
        word(0xc0),
        word(0xc0 + enc_cs.len()),
        a.delta_x.to_vec(),
        a.delta_y.to_vec(),
        a.kind_table_commitment.to_vec(),
        a.action_root.to_vec(),
    ]
    .concat();
    let encoding = [word(0x20), heads, enc_cs, enc_ds].concat();
    assert_eq!(compliance_digest(&w), Ok(keccak256(&encoding)));
    let empty = ComplianceWitness { consumed: vec![], created: vec![], action_root: [0u8; 32] };
    assert_eq!(compliance_digest(&empty), Err(ArmError::ComplianceProofEmptyNullifierArray));
}

#[test]
fn logic_obligations_of_a_compliance_witness() {
    let consumed = consumed_witness(true, Proof { path: vec![] });
    let nullifier = consumed.resource.nullify(&nk()).unwrap();
    let created = created_witness(nonce_for(&[nullifier], 0), 42, [7u8; 32]);
    let commitment = created.resource.commit();
    let w = ComplianceWitness { consumed: vec![consumed], created: vec![created], action_root: [3u8; 32] };
    let obligations = w.logic_obligations();
    assert_eq!(obligations.len(), 2);
    let inst_c = arm_core::instance::ResourceLogicInstance {
        tag: nullifier,
        action_root: [3u8; 32],
        is_consumed: true,
        app_data: AppData::default(),
    };
    assert_eq!(obligations[0].user_public_values, inst_c.revealed_bytes());
    assert_eq!(obligations[0].app_exe_commit, [0x0cu8; 32]);
    assert_eq!(obligations[0].app_vm_commit, arm_core::proving::LOGIC_VM_COMMIT);
    assert_eq!(obligations[0].proof, [0u8; 32]);
    let inst_d = arm_core::instance::ResourceLogicInstance {
        tag: commitment,
        action_root: [3u8; 32],
        is_consumed: false,
        app_data: AppData::default(),
    };
    assert_eq!(obligations[1].user_public_values, inst_d.revealed_bytes());
}
