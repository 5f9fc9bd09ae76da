use arm_core::curve::{generator_coords, hash_from_bytes, CurvePoint};
use arm_core::voting::decoder_pk;
use arm_core::error::ArmError;
use arm_core::hash::keccak256;
use arm_core::hash_to_curve::DST;
use arm_core::instance::ActionVerifierInput;
use arm_core::nullifier_key::NullifierKey;
use arm_core::resource::Resource;
use arm_core::traits::{NullifierError, RMNullifierKey, Resource as ResourceTrait};

fn hex(s: &str) -> Vec<u8> {
    (0..s.len()).step_by(2).map(|i| u8::from_str_radix(&s[i..i + 2], 16).unwrap()).collect()
}

fn arr32(v: &[u8]) -> [u8; 32] {
    v.try_into().unwrap()
}

const GX: &str = "79be667ef9dcbbac55a06295ce870b07029bfcdb2dce28d959f2815b16f81798";
const GY: &str = "483ada7726a3c4655da4fbfc0e1108a8fd17b448a68554199c47d08ffb10d4b8";
const G2X: &str = "c6047f9441ed7d6d3045406e95c07cd85c778e4b8cef3ca7abac09b95c709ee5";
const G2Y: &str = "1ae168fea63dc339a3c58419466ceaeef7f632653266d0e1236431a950cfe52a";

#[test]
fn generator_coordinates() {
    let (x, y) = generator_coords();
    assert_eq!(x.to_vec(), hex(GX));
    assert_eq!(y.to_vec(), hex(GY));
    let mut sec1 = vec![4u8];
    sec1.extend(hex(GX));
    sec1.extend(hex(GY));
    assert_eq!(decoder_pk().to_sec1(), sec1);
    assert_eq!(decoder_pk().coordinates(), (x, y));
}

#[test]
fn identity_encoding_and_coordinates() {
    let o = CurvePoint::identity();
    assert_eq!(o.to_sec1(), vec![0u8]);
    assert_eq!(o.coordinates(), ([0u8; 32], [0u8; 32]));
}

#[test]
fn affine_decoding() {
    let input = ActionVerifierInput {
        consumed: vec![],
        created: vec![],
        delta_x: arr32(&hex(G2X)),
        delta_y: arr32(&hex(G2Y)),
        compliance_proof: vec![],
    };
    let p = input.delta_point().unwrap();
    let mut sec1 = vec![4u8];
    sec1.extend(hex(G2X));
    sec1.extend(hex(G2Y));
    assert_eq!(p.to_sec1(), sec1);
    assert_eq!(p.coordinates(), (arr32(&hex(G2X)), arr32(&hex(G2Y))));
    let bad = ActionVerifierInput { delta_x: [0u8; 32], delta_y: [0u8; 32], ..input };
    assert_eq!(bad.delta_point(), Err(ArmError::InvalidDelta));
    let off_curve = ActionVerifierInput {
        delta_x: arr32(&hex(GX)),
        delta_y: arr32(&hex(G2Y)),
        ..bad
    };
    assert_eq!(off_curve.delta_point(), Err(ArmError::InvalidDelta));
}

#[test]
fn hash_to_curve_gives_points() {
    let p = hash_from_bytes(b"abc", &DST);
    let q = hash_from_bytes(b"abd", &DST);
    assert_eq!(p.to_sec1().len(), 65);
    assert_eq!(p.to_sec1()[0], 4);
    assert_ne!(p, q);
    assert_eq!(p, hash_from_bytes(b"abc", &DST));
    assert_ne!(p, hash_from_bytes(b"abc", b"another tag"));
    assert_eq!(&DST[..], b"QUUX-V01-CS02-with-secp256k1_XMD:KECCAK-256_SSWU_RO_");
}

fn sample_resource() -> Resource {
    Resource {
        logic_ref: [1u8; 32],
        label_ref: [2u8; 32],
        value_ref: [3u8; 32],
        quantity: 0x0102030405060708090a0b0c0d0e0f10,
        nonce: [4u8; 32],
        nk_commitment: keccak256(&[6u8; 32]),
        is_ephemeral: true,
    }
}

#[test]
fn resource_encoding_layout() {
    let r = sample_resource();
    let bytes = r.to_bytes();
    assert_eq!(&bytes[0..32], &[1u8; 32]);
    assert_eq!(&bytes[32..64], &[2u8; 32]);
    assert_eq!(&bytes[64..96], &[3u8; 32]);
    assert_eq!(&bytes[96..112], &r.quantity.to_be_bytes());
    assert_eq!(&bytes[112..144], &[4u8; 32]);
    assert_eq!(&bytes[144..176], &r.nk_commitment);
    assert_eq!(bytes[176], 1);
    assert_eq!(r.to_vec(), bytes.to_vec());
    let persistent = Resource { is_ephemeral: false, ..r };
    assert_eq!(persistent.to_bytes()[176], 0);
}

#[test]
fn commitment_and_nullifier() {
    let r = sample_resource();
    assert_eq!(r.commit(), keccak256(&r.to_bytes()));
    let nk = NullifierKey { bytes: [6u8; 32] };
    assert_eq!(nk.commit(), keccak256(&[6u8; 32]));
    assert_eq!(nk.to_bytes(), &[6u8; 32]);
    let mut pre = r.commit().to_vec();
    pre.extend_from_slice(&[6u8; 32]);
    assert_eq!(r.compute_nullifier(&nk), keccak256(&pre));
    assert_eq!(r.nullify(&nk), Ok(keccak256(&pre)));
    let wrong = NullifierKey { bytes: [7u8; 32] };
    assert_eq!(r.nullify(&wrong), Err(NullifierError::KeyMismatch));
}

#[test]
fn resource_kind_and_getters() {
    let r = sample_resource();
    let mut msg = [1u8; 32].to_vec();
    msg.extend_from_slice(&[2u8; 32]);
    assert_eq!(r.kind(), hash_from_bytes(&msg, &DST));
    assert_eq!(Resource::compute_kind(&r.logic_ref, &r.label_ref), r.kind());
    assert_eq!(r.get_logic_ref(), &[1u8; 32]);
    assert_eq!(r.get_label_ref(), &[2u8; 32]);
    assert_eq!(r.get_value_ref(), &[3u8; 32]);
    assert_eq!(*r.get_quantity(), r.quantity);
    assert_eq!(r.get_nonce(), &[4u8; 32]);
    assert_eq!(r.get_nk_commitment(), &r.nk_commitment);
    assert!(ResourceTrait::is_ephemeral(&r));
}

#[test]
fn error_messages() {
    assert_eq!(ArmError::MissingField("auth_pk").message(), "Missing witness field: auth_pk");
    assert_eq!(
        ArmError::InvalidCalldata("forwarder address").message(),
        "Invalid forwarder calldata: forwarder address"
    );
    assert_eq!(ArmError::GeneralError.message(), "RM Error");
    assert_eq!(ArmError::from(NullifierError::KeyMismatch), ArmError::GeneralError);
}

#[test]
fn encodings_tell_resources_apart() {
    let r = sample_resource();
    let mut fields: Vec<Resource> = Vec::new();
    for k in 0..7 {
        let mut s = sample_resource();
        match k {
            0 => s.logic_ref[31] ^= 1,
            1 => s.label_ref[0] ^= 1,
            2 => s.value_ref[5] ^= 1,
            3 => s.quantity += 1,
            4 => s.nonce[9] ^= 1,
            5 => s.nk_commitment[30] ^= 1,
            _ => s.is_ephemeral = !s.is_ephemeral,
        }
        fields.push(s);
    }
    for s in &fields {
        assert_ne!(s.to_bytes(), r.to_bytes());
        assert_eq!(s.to_vec(), s.to_bytes().to_vec());
    }
    assert_eq!(sample_resource().to_bytes(), r.to_bytes());
}
