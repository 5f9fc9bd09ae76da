use arm_core::error::ArmError;
use arm_core::evm::{encode_forwarder_calldata, encode_unwrap_forwarder_input, encode_wrap_forwarder_input, CallType};
use arm_core::hash::keccak256;
use arm_core::nullifier_key::NullifierKey;
use arm_core::resource::Resource;
use arm_core::traits::Resource as ResourceTrait;
use arm_core::transfer_auth::{
    calculate_label_ref, persistent_value_ref, value_ref_from_eth_addr, ForwarderInfo, LabelInfo,
    PermitInfo, TransferAuthWitness,
};
use k256::ecdsa::signature::hazmat::PrehashSigner;
use k256::ecdsa::{Signature, SigningKey};
use k256::elliptic_curve::sec1::ToEncodedPoint;

fn label() -> LabelInfo {
    LabelInfo { forwarder_addr: vec![0x11u8; 20], erc20_token_addr: vec![0x22u8; 20] }
}

fn base_witness(resource: Resource, is_consumed: bool) -> TransferAuthWitness {
    TransferAuthWitness {
        resource,
        is_consumed,
        action_root: [0x5au8; 32],
        nullifier_key: None,
        auth_pk: None,
        auth_sig: None,
        encryption_payload: None,
        discovery_payload: None,
        label_info: None,
        forwarder_info: None,
    }
}

fn resource(label_ref: [u8; 32], value_ref: [u8; 32], nk: &NullifierKey, eph: bool) -> Resource {
    Resource {
        logic_ref: [0x0cu8; 32],
        label_ref,
        value_ref,
        quantity: 42,
        nonce: [4u8; 32],
        nk_commitment: keccak256(&nk.bytes),
        is_ephemeral: eph,
    }
}

#[test]
fn reference_helpers() {
    let mut cat = vec![1u8, 2];
    cat.extend([3u8]);
    assert_eq!(calculate_label_ref(&[1, 2], &[3]), keccak256(&cat));
    assert_eq!(persistent_value_ref(&[1, 2], &[3]), keccak256(&cat));
    let mut expected = [0u8; 32];
    expected[..20].copy_from_slice(&[0x33u8; 20]);
    assert_eq!(value_ref_from_eth_addr(&[0x33u8; 20]), expected);
}

#[test]
fn wrap_consumes_ephemeral_resource() {
    let nk = NullifierKey { bytes: [6u8; 32] };
    let label_ref = calculate_label_ref(&label().forwarder_addr, &label().erc20_token_addr);
    let r = resource(label_ref, [0u8; 32], &nk, true);
    let permit = PermitInfo {
        permit_nonce: vec![0u8; 32],
        permit_deadline: vec![0u8; 32],
        permit_sig: vec![1u8; 65],
    };
    let mut w = base_witness(r.clone(), true);
    w.nullifier_key = Some(nk.clone());
    w.label_info = Some(label());
    w.forwarder_info = Some(ForwarderInfo {
        call_type: CallType::Wrap,
        hiding_logic_bytes: [9u8; 32],
        ethereum_account_addr: vec![0x33u8; 20],
        permit: Some(permit.clone()),
    });
    let inst = w.constrain().unwrap();
    assert_eq!(inst.tag, r.nullify(&nk).unwrap());
    assert_eq!(inst.action_root, [0x5au8; 32]);
    assert!(inst.is_consumed);
    let input = encode_wrap_forwarder_input(
        &[0x22u8; 20],
        42,
        &permit.permit_nonce,
        &permit.permit_deadline,
        &[0x33u8; 20],
        &[0x5au8; 32],
        &permit.permit_sig,
    )
    .unwrap();
    let data = encode_forwarder_calldata(&[0x11u8; 20], [9u8; 32], input, vec![]).unwrap();
    assert_eq!(inst.app_data.external_payload.len(), 1);
    assert_eq!(inst.app_data.external_payload[0].data, data);
    assert!(!inst.app_data.external_payload[0].deletion_criterion);
    assert!(inst.app_data.resource_payload.is_empty());
    assert!(inst.app_data.discovery_payload.is_empty());
    assert!(w.try_constrain().unwrap().is_ok());

    // wrong call type, missing permit, wrong label
    let mut w2 = w.clone();
    w2.forwarder_info.as_mut().unwrap().call_type = CallType::Unwrap;
    assert_eq!(w2.constrain().unwrap_err(), ArmError::InvalidCalldata("expected Wrap call type"));
    let mut w3 = w.clone();
    w3.forwarder_info.as_mut().unwrap().permit = None;
    assert_eq!(w3.constrain().unwrap_err(), ArmError::MissingField("permit"));
    let mut w4 = w.clone();
    w4.label_info = Some(LabelInfo { forwarder_addr: vec![0u8; 20], erc20_token_addr: vec![0x22u8; 20] });
    assert_eq!(w4.constrain().unwrap_err(), ArmError::LabelRefMismatch);
    let mut w5 = w.clone();
    w5.forwarder_info = None;
    assert_eq!(w5.constrain().unwrap_err(), ArmError::MissingField("forwarder_info"));
    let mut w6 = w.clone();
    w6.forwarder_info.as_mut().unwrap().permit.as_mut().unwrap().permit_nonce = vec![0u8; 33];
    assert!(w6.try_constrain().is_none());
}

#[test]
fn consumed_resource_needs_its_key() {
    let nk = NullifierKey { bytes: [6u8; 32] };
    let r = resource([0u8; 32], [0u8; 32], &nk, true);
    let w = base_witness(r.clone(), true);
    assert_eq!(w.constrain().unwrap_err(), ArmError::MissingField("nullifier_key"));
    let mut w2 = w.clone();
    w2.nullifier_key = Some(NullifierKey { bytes: [7u8; 32] });
    assert_eq!(w2.constrain().unwrap_err(), ArmError::GeneralError);
}

#[test]
fn unwrap_creates_ephemeral_resource() {
    let nk = NullifierKey { bytes: [6u8; 32] };
    let label_ref = calculate_label_ref(&label().forwarder_addr, &label().erc20_token_addr);
    let value_ref = value_ref_from_eth_addr(&[0x33u8; 20]);
    let r = resource(label_ref, value_ref, &nk, true);
    let mut w = base_witness(r.clone(), false);
    w.label_info = Some(label());
    w.forwarder_info = Some(ForwarderInfo {
        call_type: CallType::Unwrap,
        hiding_logic_bytes: [9u8; 32],
        ethereum_account_addr: vec![0x33u8; 20],
        permit: None,
    });
    let inst = w.constrain().unwrap();
    assert_eq!(inst.tag, r.commit());
    let input = encode_unwrap_forwarder_input(&[0x22u8; 20], &[0x33u8; 20], 42).unwrap();
    let data = encode_forwarder_calldata(&[0x11u8; 20], [9u8; 32], input, vec![]).unwrap();
    assert_eq!(inst.app_data.external_payload[0].data, data);

    let mut bad_value = w.clone();
    bad_value.resource.value_ref = [0u8; 32];
    assert_eq!(bad_value.constrain().unwrap_err(), ArmError::ValueRefMismatch);
    let mut bad_type = w.clone();
    bad_type.forwarder_info.as_mut().unwrap().call_type = CallType::Wrap;
    assert_eq!(bad_type.constrain().unwrap_err(), ArmError::InvalidCalldata("expected Unwrap call type"));
    let mut bad_addr = w.clone();
    bad_addr.forwarder_info.as_mut().unwrap().ethereum_account_addr = vec![0x33u8; 19];
    assert!(bad_addr.try_constrain().is_none());
}

#[test]
fn persistent_create_emits_payloads() {
    let nk = NullifierKey { bytes: [6u8; 32] };
    let auth_pk = vec![2u8; 33];
    let payload = vec![7u8; 16];
    let label_ref = calculate_label_ref(&label().forwarder_addr, &label().erc20_token_addr);
    let r = resource(label_ref, persistent_value_ref(&auth_pk, &payload), &nk, false);
    let mut w = base_witness(r.clone(), false);
    w.auth_pk = Some(auth_pk.clone());
    w.encryption_payload = Some(payload.clone());
    w.label_info = Some(label());
    let inst = w.constrain().unwrap();
    assert_eq!(inst.tag, r.commit());
    assert_eq!(inst.app_data.resource_payload.len(), 1);
    assert_eq!(inst.app_data.resource_payload[0].data, payload);
    assert!(inst.app_data.resource_payload[0].deletion_criterion);
    assert_eq!(inst.app_data.discovery_payload[0].data, Vec::<u8>::new());
    assert!(inst.app_data.discovery_payload[0].deletion_criterion);
    assert!(inst.app_data.external_payload.is_empty());

    let mut with_discovery = w.clone();
    with_discovery.discovery_payload = Some(vec![8u8; 3]);
    assert_eq!(with_discovery.constrain().unwrap().app_data.discovery_payload[0].data, vec![8u8; 3]);
    let mut no_pk = w.clone();
    no_pk.auth_pk = None;
    assert_eq!(no_pk.constrain().unwrap_err(), ArmError::MissingField("auth_pk"));
    let mut no_payload = w.clone();
    no_payload.encryption_payload = None;
    assert_eq!(no_payload.constrain().unwrap_err(), ArmError::MissingField("encryption_payload"));
    let mut no_label = w.clone();
    no_label.label_info = None;
    assert_eq!(no_label.constrain().unwrap_err(), ArmError::MissingField("label_info"));
    let mut bad_value = w.clone();
    bad_value.encryption_payload = Some(vec![0u8; 16]);
    assert_eq!(bad_value.constrain().unwrap_err(), ArmError::ValueRefMismatch);
}

#[test]
fn persistent_consume_checks_signature() {
    let nk = NullifierKey { bytes: [6u8; 32] };
    let signing_key = SigningKey::from_slice(&[0x55u8; 32]).unwrap();
    let auth_pk = signing_key.verifying_key().as_affine().to_encoded_point(true).as_bytes().to_vec();
    let payload = vec![7u8; 16];
    let r = resource([0u8; 32], persistent_value_ref(&auth_pk, &payload), &nk, false);
    let mut w = base_witness(r.clone(), true);
    w.nullifier_key = Some(nk.clone());
    w.auth_pk = Some(auth_pk.clone());
    w.encryption_payload = Some(payload.clone());
    let sig: Signature = signing_key.sign_prehash(&w.action_root).unwrap();
    w.auth_sig = Some(sig.to_bytes().to_vec());
    let inst = w.constrain().unwrap();
    assert_eq!(inst.tag, r.nullify(&nk).unwrap());
    assert!(inst.app_data.resource_payload.is_empty());
    assert!(inst.app_data.external_payload.is_empty());

    let mut other_root = w.clone();
    other_root.action_root = [0u8; 32];
    assert_eq!(other_root.constrain().unwrap_err(), ArmError::InvalidSignature);
    let mut garbage = w.clone();
    garbage.auth_sig = Some(vec![1u8; 3]);
    assert_eq!(garbage.constrain().unwrap_err(), ArmError::InvalidSignature);
    let mut no_sig = w.clone();
    no_sig.auth_sig = None;
    assert_eq!(no_sig.constrain().unwrap_err(), ArmError::MissingField("auth_sig"));
    let mut bad_value = w.clone();
    bad_value.resource.value_ref = [1u8; 32];
    bad_value.resource.nk_commitment = r.nk_commitment;
    assert_eq!(bad_value.constrain().unwrap_err(), ArmError::ValueRefMismatch);
}
