use arm_core::error::ArmError;
use arm_core::instance::{
    ActionVerifierInput, AppData, ConsumedInstance, CreatedInstance, ResourceLogicInstance,
};
use arm_core::proving::{check_revealed, COMPLIANCE_VM_COMMIT, DEF_IDX, LOGIC_VM_COMMIT};
use arm_core::tree::SparseTree;

fn unit(nullifiers: &[[u8; 32]], commitments: &[[u8; 32]]) -> ActionVerifierInput {
    ActionVerifierInput {
        consumed: nullifiers
            .iter()
            .map(|n| ConsumedInstance {
                nullifier: *n,
                root: [0u8; 32],
                outer_logic_ref: [0u8; 32],
                app_data: AppData::default(),
            })
            .collect(),
        created: commitments
            .iter()
            .map(|c| CreatedInstance {
                commitment: *c,
                outer_logic_ref: [0u8; 32],
                app_data: AppData::default(),
            })
            .collect(),
        delta_x: [0u8; 32],
        delta_y: [0u8; 32],
        compliance_proof: vec![],
    }
}

#[test]
fn proving_constants() {
    assert_eq!(DEF_IDX, 0);
    assert_eq!(LOGIC_VM_COMMIT[0], 0x53);
    assert_eq!(LOGIC_VM_COMMIT[31], 0x37);
    assert_eq!(COMPLIANCE_VM_COMMIT[0], 0x01);
    assert_eq!(COMPLIANCE_VM_COMMIT[31], 0x64);
}

#[test]
fn revealed_values_must_match_the_instance() {
    assert_eq!(check_revealed(&[1, 2, 0x1ff], &[1, 2, 0xff]), Ok(()));
    assert_eq!(check_revealed(&[], &[]), Ok(()));
    assert_eq!(check_revealed(&[1, 2, 3], &[1, 2, 4]), Err(ArmError::InstanceMismatch));
    assert_eq!(check_revealed(&[1, 2], &[1, 2, 3]), Err(ArmError::InstanceMismatch));
}

#[test]
fn action_root_over_the_tags() {
    assert_eq!(unit(&[], &[]).action_root(), Err(ArmError::InvalidProof));
    let u = unit(&[[1u8; 32], [2u8; 32]], &[[3u8; 32]]);
    let expected =
        *SparseTree::compute_tree(&[[1u8; 32], [2u8; 32], [3u8; 32]]).unwrap().root().unwrap();
    assert_eq!(u.action_root(), Ok(expected));
    let single = unit(&[], &[[5u8; 32]]);
    assert_eq!(single.action_root(), Ok([5u8; 32]));
}

#[test]
fn revealed_bytes_widen_the_digest() {
    let inst = ResourceLogicInstance {
        tag: [1u8; 32],
        action_root: [2u8; 32],
        is_consumed: true,
        app_data: AppData::default(),
    };
    let digest = inst.logic_digest();
    let bytes = inst.revealed_bytes();
    assert_eq!(bytes.len(), 128);
    for (i, b) in digest.iter().enumerate() {
        assert_eq!(&bytes[4 * i..4 * i + 4], &[*b, 0, 0, 0]);
    }
    let values: Vec<u32> = bytes.iter().map(|b| *b as u32).collect();
    assert_eq!(check_revealed(&values, &bytes), Ok(()));
}

#[test]
fn transaction_delta_inputs() {
    use_transaction_delta_inputs();
}

fn use_transaction_delta_inputs() {
    let (gx, gy) = arm_core::curve::generator_coords();
    let mut a = unit(&[[1u8; 32]], &[[2u8; 32]]);
    a.delta_x = gx;
    a.delta_y = gy;
    let mut b = unit(&[[3u8; 32]], &[]);
    b.delta_x = gx;
    b.delta_y = gy;
    let tx = arm_core::instance::Transaction { units: vec![a, b], delta_proof: [0u8; 65] };
    let mut msg = vec![1u8; 32];
    msg.extend([2u8; 32]);
    msg.extend([3u8; 32]);
    assert_eq!(tx.delta_msg(), msg);
    let points = tx.delta_points().unwrap();
    assert_eq!(points.len(), 2);
    assert_eq!(points[0].to_sec1(), arm_core::voting::decoder_pk().to_sec1());
    let bad = arm_core::instance::Transaction {
        units: vec![unit(&[[1u8; 32]], &[])],
        delta_proof: [0u8; 65],
    };
    assert_eq!(bad.delta_points().unwrap_err(), ArmError::InvalidDelta);
}
