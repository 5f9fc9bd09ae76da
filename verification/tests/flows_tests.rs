use arm_core::evm::CallType;
use arm_core::flows::{
    build_flow, flow_compliance_witness, prepare_flow, send_witnesses, sign_flow, unwrap_witnesses, wrap_witnesses,
    TransferFlow,
};
use arm_core::hash::keccak256;
use arm_core::instance::AppData;
use arm_core::nullifier_key::NullifierKey;
use arm_core::traits::Resource as ResourceTrait;
use arm_core::transfer_auth::{calculate_label_ref, persistent_value_ref, value_ref_from_eth_addr, TransferAuthWitness};
use arm_core::tree::{Proof, SparseTree};
use arm_core::witness::{ComplianceWitness, ConsumedWitness, CreatedWitness};
use k256::ecdsa::signature::hazmat::PrehashSigner;
use k256::ecdsa::{Signature, SigningKey};
use k256::elliptic_curve::sec1::ToEncodedPoint;

fn nk() -> NullifierKey {
    NullifierKey { bytes: [6u8; 32] }
}

fn nonce_for(nullifiers: &[[u8; 32]], index: u32) -> [u8; 32] {
    let mut buf: Vec<u8> = nullifiers.concat();
    let mut ib = [0u8; 32];
    ib[..4].copy_from_slice(&index.to_be_bytes());
    buf.extend_from_slice(&ib);
    keccak256(&buf)
}

fn signing_key() -> SigningKey {
    SigningKey::from_slice(&[0x55u8; 32]).unwrap()
}

fn auth_pk() -> Vec<u8> {
    signing_key().verifying_key().as_affine().to_encoded_point(true).as_bytes().to_vec()
}

fn compliance_of(ws: &[TransferAuthWitness], action_root: [u8; 32]) -> ComplianceWitness {
    let mut consumed = Vec::new();
    let mut created = Vec::new();
    for w in ws {
        if w.is_consumed {
            consumed.push(ConsumedWitness {
                resource: w.resource.clone(),
                nullifier_key: w.nullifier_key.clone().unwrap(),
                path: Proof { path: vec![] },
                delta_extra_input: [7u8; 32],
                logic_hiding_input: [9u8; 32],
                app_data: AppData::default(),
                logic_proof: [0u8; 32],
            });
        } else {
            created.push(CreatedWitness {
                resource: w.resource.clone(),
                delta_extra_input: [8u8; 32],
                logic_hiding_input: [10u8; 32],
                app_data: AppData::default(),
                logic_proof: [0u8; 32],
            });
        }
    }
    ComplianceWitness { consumed, created, action_root }
}

#[test]
fn wrap_flow_builds_the_expected_witnesses() {
    let nk_commitment = keccak256(&nk().bytes);
    let ws = wrap_witnesses([0x0cu8; 32], nk_commitment, &nk());
    assert_eq!(ws.len(), 2);
    let label_ref = calculate_label_ref(&[0x11u8; 20], &[0x22u8; 20]);
    let consumed = &ws[0];
    assert!(consumed.is_consumed);
    assert!(consumed.resource.is_ephemeral);
    assert_eq!(consumed.resource.label_ref, label_ref);
    assert_eq!(consumed.resource.value_ref, [0u8; 32]);
    assert_eq!(consumed.resource.nonce, [4u8; 32]);
    assert_eq!(consumed.resource.quantity, 42);
    assert_eq!(consumed.resource.nk_commitment, nk_commitment);
    let f = consumed.forwarder_info.as_ref().unwrap();
    assert_eq!(f.call_type, CallType::Wrap);
    assert_eq!(f.ethereum_account_addr, vec![0x33u8; 20]);
    assert_eq!(f.permit.as_ref().unwrap().permit_sig, vec![1u8; 65]);
    let created = &ws[1];
    assert!(!created.is_consumed);
    assert!(!created.resource.is_ephemeral);
    assert_eq!(created.resource.value_ref, persistent_value_ref(&[2u8; 33], &[7u8; 16]));
    assert_eq!(created.resource.nonce, [0u8; 32]);
    assert_eq!(created.auth_pk, Some(vec![2u8; 33]));
    assert_eq!(created.encryption_payload, Some(vec![7u8; 16]));
    assert!(created.forwarder_info.is_none());
}

#[test]
fn unwrap_and_send_flows_build_the_expected_witnesses() {
    let nk_commitment = keccak256(&nk().bytes);
    let pk = auth_pk();
    let ws = unwrap_witnesses([0x0cu8; 32], nk_commitment, &nk(), &pk);
    assert!(ws[0].is_consumed && !ws[0].resource.is_ephemeral);
    assert_eq!(ws[0].resource.value_ref, persistent_value_ref(&pk, &[7u8; 16]));
    assert_eq!(ws[0].resource.label_ref, [0u8; 32]);
    assert!(ws[0].auth_sig.is_none());
    assert!(!ws[1].is_consumed && ws[1].resource.is_ephemeral);
    assert_eq!(ws[1].resource.value_ref, value_ref_from_eth_addr(&[0x33u8; 20]));
    assert_eq!(ws[1].forwarder_info.as_ref().unwrap().call_type, CallType::Unwrap);
    assert!(ws[1].forwarder_info.as_ref().unwrap().permit.is_none());

    let ws = send_witnesses([0x0cu8; 32], nk_commitment, &nk(), &pk);
    assert!(ws[0].is_consumed && !ws[0].resource.is_ephemeral);
    assert!(!ws[1].is_consumed && !ws[1].resource.is_ephemeral);
    assert_eq!(ws[1].resource.value_ref, persistent_value_ref(&pk, &[7u8; 16]));
    assert_eq!(ws[1].resource.label_ref, calculate_label_ref(&[0x11u8; 20], &[0x22u8; 20]));
    assert_eq!(ws[1].auth_pk, Some(pk));
}

#[test]
fn prepare_flow_sets_nonces_and_action_root() {
    let nk_commitment = keccak256(&nk().bytes);
    let mut ws = wrap_witnesses([0x0cu8; 32], nk_commitment, &nk());
    let before_nonce = ws[0].resource.nonce;
    let nullifier = ws[0].resource.nullify(&nk()).unwrap();
    let root = prepare_flow(&mut ws);
    assert_eq!(ws[0].resource.nonce, before_nonce);
    assert_eq!(ws[1].resource.nonce, nonce_for(&[nullifier], 0));
    let commitment = ws[1].resource.commit();
    let expected = *SparseTree::compute_tree(&[nullifier, commitment]).unwrap().root().unwrap();
    assert_eq!(root, expected);
    assert!(ws.iter().all(|w| w.action_root == root));
    // both resource logics accept the prepared wrap flow
    for w in &ws {
        let inst = w.constrain().unwrap();
        assert_eq!(inst.action_root, root);
    }
    // and the compliance logic accepts its nonces
    let cw = compliance_of(&ws, root);
    assert!(cw.try_constrain().unwrap().is_ok());
}

#[test]
fn prepare_flow_ranks_created_resources() {
    let nk_commitment = keccak256(&nk().bytes);
    let mut ws = wrap_witnesses([0x0cu8; 32], nk_commitment, &nk());
    let extra = ws[1].clone();
    ws.push(extra);
    let nullifier = ws[0].resource.nullify(&nk()).unwrap();
    let root = prepare_flow(&mut ws);
    assert_eq!(ws[1].resource.nonce, nonce_for(&[nullifier], 0));
    assert_eq!(ws[2].resource.nonce, nonce_for(&[nullifier], 1));
    assert_ne!(ws[1].resource.nonce, ws[2].resource.nonce);
    let tags = [nullifier, ws[1].resource.commit(), ws[2].resource.commit()];
    assert_eq!(root, *SparseTree::compute_tree(&tags).unwrap().root().unwrap());
    let cw = compliance_of(&ws, root);
    assert!(cw.try_constrain().unwrap().is_ok());
}

#[test]
fn prepare_flow_with_only_created_resources() {
    let nk_commitment = keccak256(&nk().bytes);
    let ws = wrap_witnesses([0x0cu8; 32], nk_commitment, &nk());
    let mut only = vec![ws[1].clone()];
    let root = prepare_flow(&mut only);
    assert_eq!(only[0].resource.nonce, nonce_for(&[], 0));
    let commitment = only[0].resource.commit();
    assert_eq!(root, *SparseTree::compute_tree(&[commitment]).unwrap().root().unwrap());
    assert_eq!(only[0].action_root, root);
}

#[test]
fn send_flow_signed_after_preparation() {
    let nk_commitment = keccak256(&nk().bytes);
    let pk = auth_pk();
    let mut ws = send_witnesses([0x0cu8; 32], nk_commitment, &nk(), &pk);
    let root = prepare_flow(&mut ws);
    let sig: Signature = signing_key().sign_prehash(&root).unwrap();
    ws[0].auth_sig = Some(sig.to_bytes().to_vec());
    for w in &ws {
        assert!(w.try_constrain().unwrap().is_ok());
    }
    // a signature over another root is refused
    let other: Signature = signing_key().sign_prehash(&[1u8; 32]).unwrap();
    ws[0].auth_sig = Some(other.to_bytes().to_vec());
    assert!(ws[0].try_constrain().unwrap().is_err());
    let cw = compliance_of(&ws, root);
    assert!(cw.try_constrain().unwrap().is_ok());
}

#[test]
fn sign_flow_signs_persistent_consumed_witnesses() {
    let nk_commitment = keccak256(&nk().bytes);
    let pk = auth_pk();
    let mut ws = unwrap_witnesses([0x0cu8; 32], nk_commitment, &nk(), &pk);
    let root = prepare_flow(&mut ws);
    assert!(sign_flow(&mut ws, &[0x55u8; 32]));
    let expected: Signature = signing_key().sign_prehash(&root).unwrap();
    assert_eq!(ws[0].auth_sig, Some(expected.to_bytes().to_vec()));
    // the created (ephemeral) witness is not signed
    assert!(ws[1].auth_sig.is_none());
    for w in &ws {
        assert!(w.try_constrain().unwrap().is_ok());
    }
    // a wrap flow has nothing to sign, even with an invalid key
    let mut wrap = wrap_witnesses([0x0cu8; 32], nk_commitment, &nk());
    prepare_flow(&mut wrap);
    assert!(sign_flow(&mut wrap, &[0u8; 32]));
    assert!(wrap.iter().all(|w| w.auth_sig.is_none()));
    // an invalid key cannot sign a send flow
    let mut send = send_witnesses([0x0cu8; 32], nk_commitment, &nk(), &pk);
    prepare_flow(&mut send);
    assert!(!sign_flow(&mut send, &[0u8; 32]));
}

#[test]
fn built_flows_are_accepted_by_the_transfer_logic() {
    for flow in [TransferFlow::Wrap, TransferFlow::Unwrap, TransferFlow::Send] {
        let (ws, root) = build_flow(flow, [0x0cu8; 32], &nk(), &[0x55u8; 32]).unwrap();
        assert_eq!(ws.len(), 2);
        for w in &ws {
            assert_eq!(w.action_root, root);
            let inst = w.constrain().unwrap();
            assert_eq!(inst.action_root, root);
        }
        let nullifier = ws[0].resource.nullify(&nk()).unwrap();
        let commitment = ws[1].resource.commit();
        let expected =
            *SparseTree::compute_tree(&[nullifier, commitment]).unwrap().root().unwrap();
        assert_eq!(root, expected);
        assert_eq!(ws[1].resource.nonce, nonce_for(&[nullifier], 0));
        let cw = compliance_of(&ws, root);
        assert!(cw.try_constrain().unwrap().is_ok());
    }
    let (send, _) = build_flow(TransferFlow::Send, [0x0cu8; 32], &nk(), &[0x55u8; 32]).unwrap();
    assert_eq!(send[0].auth_pk, Some(auth_pk()));
}

#[test]
fn build_flow_needs_a_valid_scalar() {
    assert!(build_flow(TransferFlow::Wrap, [0x0cu8; 32], &nk(), &[0u8; 32]).is_none());
    assert!(build_flow(TransferFlow::Send, [0x0cu8; 32], &nk(), &[0xffu8; 32]).is_none());
}

#[test]
fn compliance_witness_of_a_built_flow() {
    for flow in [TransferFlow::Wrap, TransferFlow::Unwrap, TransferFlow::Send] {
        let (ws, root) = build_flow(flow, [0x0cu8; 32], &nk(), &[0x55u8; 32]).unwrap();
        let app_datas: Vec<AppData> = ws.iter().map(|w| w.constrain().unwrap().app_data).collect();
        let proofs = vec![[0xa1u8; 32], [0xa2u8; 32]];
        let cw = flow_compliance_witness(&ws, &app_datas, &proofs, root);
        assert_eq!(cw.action_root, root);
        assert_eq!(cw.consumed.len(), 1);
        assert_eq!(cw.created.len(), 1);
        assert_eq!(cw.consumed[0].resource, ws[0].resource);
        assert_eq!(cw.consumed[0].nullifier_key, nk());
        assert!(cw.consumed[0].path.path.is_empty());
        assert_eq!(cw.consumed[0].delta_extra_input, [7u8; 32]);
        assert_eq!(cw.consumed[0].logic_hiding_input, [9u8; 32]);
        assert_eq!(cw.consumed[0].logic_proof, [0xa1u8; 32]);
        assert_eq!(cw.created[0].resource, ws[1].resource);
        assert_eq!(cw.created[0].delta_extra_input, [8u8; 32]);
        assert_eq!(cw.created[0].logic_hiding_input, [10u8; 32]);
        assert_eq!(cw.created[0].logic_proof, [0xa2u8; 32]);
        assert_eq!(
            cw.created[0].app_data.external_payload.len(),
            app_datas[1].external_payload.len()
        );
        let a = cw.try_constrain().unwrap().unwrap();
        assert_eq!(a.action_root, root);
        assert_eq!(a.consumed[0].nullifier, ws[0].resource.nullify(&nk()).unwrap());
        assert_eq!(a.created[0].commitment, ws[1].resource.commit());
    }
}

#[test]
fn logic_output_is_the_instance_digest() {
    let (ws, _) = build_flow(TransferFlow::Send, [0x0cu8; 32], &nk(), &[0x55u8; 32]).unwrap();
    for w in &ws {
        assert_eq!(w.logic_output().unwrap(), w.constrain().unwrap().logic_digest());
    }
    let mut unsigned = ws[0].clone();
    unsigned.auth_sig = None;
    assert_eq!(
        unsigned.logic_output(),
        Err(arm_core::error::ArmError::MissingField("auth_sig"))
    );
}

#[test]
fn verifier_recomputes_the_flow_action_root() {
    for flow in [TransferFlow::Wrap, TransferFlow::Unwrap, TransferFlow::Send] {
        let (ws, root) = build_flow(flow, [0x0cu8; 32], &nk(), &[0x55u8; 32]).unwrap();
        let app_datas: Vec<AppData> = ws.iter().map(|w| w.constrain().unwrap().app_data).collect();
        let cw = flow_compliance_witness(&ws, &app_datas, &[[1u8; 32], [2u8; 32]].to_vec(), root);
        let a = cw.constrain().unwrap();
        let input = arm_core::instance::ActionVerifierInput {
            consumed: a.consumed,
            created: a.created,
            delta_x: a.delta_x,
            delta_y: a.delta_y,
            compliance_proof: vec![],
        };
        assert_eq!(input.action_root(), Ok(root));
        assert_eq!(a.action_root, root);
    }
}
