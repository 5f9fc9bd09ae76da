use arm_core::error::ArmError;
use arm_core::evm::{
    encode_forwarder_calldata, encode_unwrap_forwarder_input, encode_wrap_forwarder_input,
};

fn word(n: u128) -> Vec<u8> {
    let mut w = vec![0u8; 16];
    w.extend(n.to_be_bytes());
    w
}

fn address_word(a: &[u8]) -> Vec<u8> {
    let mut w = vec![0u8; 12];
    w.extend_from_slice(a);
    w
}

fn bytes_tail(b: &[u8]) -> Vec<u8> {
    let mut t = word(b.len() as u128);
    t.extend_from_slice(b);
    let pad = (32 - b.len() % 32) % 32;
    t.extend(vec![0u8; pad]);
    t
}

#[test]
fn forwarder_calldata_layout() {
    let fwd = [0x11u8; 20];
    let input = vec![0xabu8; 33];
    let output: Vec<u8> = vec![];
    let got = encode_forwarder_calldata(&fwd, [9u8; 32], input.clone(), output.clone()).unwrap();
    let mut expected = address_word(&fwd);
    expected.extend([9u8; 32]);
    expected.extend(word(128));
    expected.extend(word(128 + bytes_tail(&input).len() as u128));
    expected.extend(bytes_tail(&input));
    expected.extend(bytes_tail(&output));
    assert_eq!(got, expected);
    assert_eq!(got.len(), 4 * 32 + 32 + 64 + 32);
}

#[test]
fn forwarder_address_must_have_20_bytes() {
    assert_eq!(
        encode_forwarder_calldata(&[0u8; 19], [0u8; 32], vec![], vec![]),
        Err(ArmError::InvalidCalldata("forwarder address"))
    );
}

#[test]
fn unwrap_input_layout() {
    let got = encode_unwrap_forwarder_input(&[0x22u8; 20], &[0x33u8; 20], 42).unwrap();
    let mut expected = word(1);
    expected.extend(address_word(&[0x22u8; 20]));
    expected.extend(word(42));
    expected.extend(address_word(&[0x33u8; 20]));
    assert_eq!(got, expected);
    assert_eq!(
        encode_unwrap_forwarder_input(&[0x22u8; 21], &[0x33u8; 20], 42),
        Err(ArmError::InvalidCalldata("erc20 token address"))
    );
    assert_eq!(
        encode_unwrap_forwarder_input(&[0x22u8; 20], &[0x33u8; 2], 42),
        Err(ArmError::InvalidCalldata("ethereum account address"))
    );
}

#[test]
fn wrap_input_layout() {
    let mut sig = vec![0x01u8; 32];
    sig.extend(vec![0x02u8; 32]);
    sig.push(27);
    let got = encode_wrap_forwarder_input(
        &[0x22u8; 20],
        42,
        &[0x05, 0x06],
        &[0x07u8; 32],
        &[0x33u8; 20],
        &[0x44u8; 32],
        &sig,
    )
    .unwrap();
    let mut expected = word(0);
    expected.extend(address_word(&[0x22u8; 20]));
    expected.extend(word(42));
    expected.extend(word(0x0506));
    expected.extend([0x07u8; 32]);
    expected.extend(address_word(&[0x33u8; 20]));
    expected.extend([0x44u8; 32]);
    expected.extend([0x01u8; 32]);
    expected.extend([0x02u8; 32]);
    expected.extend(word(27));
    assert_eq!(got, expected);
    assert_eq!(
        encode_wrap_forwarder_input(&[0x22u8; 20], 42, &[], &[], &[0x33u8; 20], &[0u8; 32], &sig[..64]),
        Err(ArmError::InvalidCalldata("permit signature must be 65 bytes"))
    );
    assert_eq!(
        encode_wrap_forwarder_input(&[0x22u8; 2], 42, &[], &[], &[0x33u8; 20], &[0u8; 32], &sig),
        Err(ArmError::InvalidCalldata("erc20 token address"))
    );
    assert_eq!(
        encode_wrap_forwarder_input(&[0x22u8; 20], 42, &[], &[], &[0x33u8; 21], &[0u8; 32], &sig),
        Err(ArmError::InvalidCalldata("ethereum account address"))
    );
}
