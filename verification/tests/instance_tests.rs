use arm_core::error::ArmError;
use arm_core::hash::keccak256;
use arm_core::instance::{
    ActionInstance, ActionVerifierInput, AppData, ConsumedInstance, CreatedInstance, Payload,
    ResourceLogicInstance, Transaction,
};

fn payload(data: &[u8], del: bool) -> Payload {
    Payload { data: data.to_vec(), deletion_criterion: del }
}

fn app_data() -> AppData {
    AppData {
        resource_payload: vec![payload(b"r1", true), payload(b"", false)],
        encryption_payload: vec![],
        external_payload: vec![payload(b"ext", false)],
        discovery_payload: vec![payload(b"disc", true)],
    }
}

fn consumed(n: u8, root: u8) -> ConsumedInstance {
    ConsumedInstance {
        nullifier: [n; 32],
        root: [root; 32],
        outer_logic_ref: [0xaa; 32],
        app_data: AppData::default(),
    }
}

fn created(c: u8) -> CreatedInstance {
    CreatedInstance { commitment: [c; 32], outer_logic_ref: [0xbb; 32], app_data: AppData::default() }
}

fn unit(cs: Vec<ConsumedInstance>, ds: Vec<CreatedInstance>) -> ActionVerifierInput {
    ActionVerifierInput {
        consumed: cs,
        created: ds,
        delta_x: [0u8; 32],
        delta_y: [0u8; 32],
        compliance_proof: vec![],
    }
}

#[test]
fn tags_and_delta_msg() {
    let u = unit(vec![consumed(1, 9), consumed(2, 9)], vec![created(3)]);
    assert_eq!(u.tags(), vec![[1u8; 32], [2u8; 32], [3u8; 32]]);
    let mut msg = vec![1u8; 32];
    msg.extend([2u8; 32]);
    msg.extend([3u8; 32]);
    assert_eq!(u.delta_msg(), msg);
    assert!(unit(vec![], vec![]).delta_msg().is_empty());
}

#[test]
fn transaction_tags_and_roots() {
    let tx = Transaction {
        units: vec![
            unit(vec![consumed(1, 9), consumed(2, 8)], vec![created(3)]),
            unit(vec![consumed(4, 9)], vec![created(5), created(6)]),
        ],
        delta_proof: [0u8; 65],
    };
    assert_eq!(tx.nullifiers(), vec![[1u8; 32], [2u8; 32], [4u8; 32]]);
    assert_eq!(tx.commitments(), vec![[3u8; 32], [5u8; 32], [6u8; 32]]);
    let roots: Vec<[u8; 32]> = tx.roots().into_iter().collect();
    assert_eq!(roots, vec![[8u8; 32], [9u8; 32]]);
    assert_eq!(tx.check_tag_uniqueness(), Ok(()));
}

#[test]
fn duplicate_tags_are_found_in_order() {
    let dup_nullifier = Transaction {
        units: vec![unit(vec![consumed(1, 0)], vec![]), unit(vec![consumed(1, 0)], vec![])],
        delta_proof: [0u8; 65],
    };
    assert_eq!(dup_nullifier.check_tag_uniqueness(), Err(ArmError::NullifierDuplication));
    let dup_commitment = Transaction {
        units: vec![unit(vec![], vec![created(3), created(3)])],
        delta_proof: [0u8; 65],
    };
    assert_eq!(dup_commitment.check_tag_uniqueness(), Err(ArmError::CommitmentDuplication));
    // the commitment duplicate of the first unit is met before the nullifier one of the second
    let both = Transaction {
        units: vec![
            unit(vec![consumed(1, 0)], vec![created(3), created(3)]),
            unit(vec![consumed(1, 0)], vec![]),
        ],
        delta_proof: [0u8; 65],
    };
    assert_eq!(both.check_tag_uniqueness(), Err(ArmError::CommitmentDuplication));
    // a nullifier equal to a commitment is no duplicate
    let cross = Transaction {
        units: vec![unit(vec![consumed(7, 0)], vec![created(7)])],
        delta_proof: [0u8; 65],
    };
    assert_eq!(cross.check_tag_uniqueness(), Ok(()));
}

#[test]
fn logic_digest_preimage() {
    let inst = ResourceLogicInstance {
        tag: [1u8; 32],
        action_root: [2u8; 32],
        is_consumed: true,
        app_data: app_data(),
    };
    let mut buf = vec![1u8; 32];
    buf.extend([2u8; 32]);
    buf.push(1);
    // resource payloads
    buf.extend(2u32.to_le_bytes());
    buf.extend(2u32.to_le_bytes());
    buf.extend(b"r1");
    buf.push(1);
    buf.extend(0u32.to_le_bytes());
    buf.push(0);
    // encryption payloads
    buf.extend(0u32.to_le_bytes());
    // external payloads
    buf.extend(1u32.to_le_bytes());
    buf.extend(3u32.to_le_bytes());
    buf.extend(b"ext");
    buf.push(0);
    // discovery payloads
    buf.extend(1u32.to_le_bytes());
    buf.extend(4u32.to_le_bytes());
    buf.extend(b"disc");
    buf.push(1);
    assert_eq!(inst.logic_digest(), keccak256(&buf));
    let default = ResourceLogicInstance::default();
    let mut buf0 = vec![0u8; 65];
    buf0.extend([0u8; 16]);
    assert_eq!(default.logic_digest(), keccak256(&buf0));
}

#[test]
fn sol_representations_copy_fields() {
    let p = payload(b"xyz", true);
    let sp = p.to_sol();
    assert_eq!(sp.data, b"xyz".to_vec());
    assert!(sp.deletion_criterion);
    let ad = app_data();
    let sad = ad.to_sol();
    assert_eq!(sad.resource_payload.len(), 2);
    assert_eq!(sad.external_payload[0].data, b"ext".to_vec());
    assert_eq!(sad.discovery_payload[0].data, b"disc".to_vec());
    let c = ConsumedInstance { app_data: app_data(), ..consumed(1, 2) };
    let sc = c.to_sol();
    assert_eq!((sc.nullifier, sc.root, sc.outer_logic_ref), ([1u8; 32], [2u8; 32], [0xaa; 32]));
    assert_eq!(sc.app_data.resource_payload[0].data, b"r1".to_vec());
    let d = created(3).to_sol();
    assert_eq!((d.commitment, d.outer_logic_ref), ([3u8; 32], [0xbb; 32]));
    let a = ActionInstance {
        consumed: vec![consumed(1, 2)],
        created: vec![created(3), created(4)],
        delta_x: [5u8; 32],
        delta_y: [6u8; 32],
        kind_table_commitment: [7u8; 32],
        action_root: [8u8; 32],
    };
    let sa = a.to_sol();
    assert_eq!(sa.consumed.len(), 1);
    assert_eq!(sa.created[1].commitment, [4u8; 32]);
    assert_eq!((sa.delta_x, sa.delta_y), ([5u8; 32], [6u8; 32]));
    assert_eq!((sa.kind_table_commitment, sa.action_root), ([7u8; 32], [8u8; 32]));
}

#[test]
fn payload_copies() {
    let ad = app_data();
    let copy = ad.copy();
    assert_eq!(copy.resource_payload[0].data, b"r1".to_vec());
    assert_eq!(copy.discovery_payload.len(), 1);
    assert_eq!(payload(b"q", false).copy().data, b"q".to_vec());
}
