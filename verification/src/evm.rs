//! ABI encoding of the external payloads that the EVM forwarder contract
//! receives: the forwarder calldata and the inputs of wraps and unwraps.

use alloy_primitives::{Address, Bytes, B256, U256};
use alloy_sol_types::SolValue;
use vstd::prelude::*;

use crate::bytes::{be_bytes, to_array32, zeros};
use crate::error::ArmError;

verus! {

/// The forwarder call type (`enum CallType { Wrap, Unwrap }`, a `uint8` in the ABI).
#[derive(Debug, Clone, Copy, PartialEq, Eq, Structural)]
pub enum CallType {
    Wrap,
    Unwrap,
}

/// The ABI code of a call type: its position in the enum.
pub open spec fn call_type_code(c: CallType) -> nat {
    match c {
        CallType::Wrap => 0,
        CallType::Unwrap => 1,
    }
}

fn call_type_byte(c: CallType) -> (r: u8)
    ensures
        r == call_type_code(c),
{
    match c {
        CallType::Wrap => 0u8,
        CallType::Unwrap => 1u8,
    }
}

/// A 32-byte ABI word holding `n` big-endian.
pub open spec fn abi_word(n: nat) -> Seq<u8> {
    be_bytes(n, 32)
}

/// An address as an ABI word: twelve zero bytes, then its 20 bytes.
pub open spec fn abi_address(a: Seq<u8>) -> Seq<u8> {
    zeros(12) + a
}

/// The length of `n` bytes rounded up to whole 32-byte words.
pub open spec fn padded_len(n: nat) -> nat {
    ((n + 31) / 32 * 32) as nat
}

/// The tail of a dynamic `bytes` value: its length as a word, then its
/// bytes padded with zeros to whole words.
pub open spec fn abi_bytes_tail(b: Seq<u8>) -> Seq<u8> {
    abi_word(b.len()) + b + zeros((padded_len(b.len()) - b.len()) as nat)
}

/// The ABI parameter encoding of `(address, bytes32, bytes, bytes)`: four
/// head words, the two dynamic ones being offsets, then the two tails.
pub open spec fn forwarder_calldata_encoding(
    forwarder: Seq<u8>,
    hiding: Seq<u8>,
    input: Seq<u8>,
    output: Seq<u8>,
) -> Seq<u8> {
    abi_address(forwarder) + hiding + abi_word(128) + abi_word(128 + abi_bytes_tail(input).len())
        + abi_bytes_tail(input) + abi_bytes_tail(output)
}

/// The ABI parameter encoding of `(uint8, address, uint128, (address))`, all
/// of them static words.
pub open spec fn unwrap_input_encoding(code: nat, token: Seq<u8>, quantity: u128, receiver: Seq<u8>) -> Seq<u8> {
    abi_word(code) + abi_address(token) + abi_word(quantity as nat) + abi_address(receiver)
}

/// The ABI parameter encoding of `(uint8, address, uint128, (uint256,
/// uint256, address, bytes32, bytes32, bytes32, uint8))`, all static words;
/// the two `uint256` are given as their 32-byte big-endian words.
pub open spec fn wrap_input_encoding(
    code: nat,
    token: Seq<u8>,
    quantity: u128,
    nonce: Seq<u8>,
    deadline: Seq<u8>,
    owner: Seq<u8>,
    root: Seq<u8>,
    r: Seq<u8>,
    s: Seq<u8>,
    v: u8,
) -> Seq<u8> {
    abi_word(code) + abi_address(token) + abi_word(quantity as nat) + nonce + deadline
        + abi_address(owner) + root + r + s + abi_word(v as nat)
}

/// ABI-encodes `(address, bytes32, bytes, bytes)` as parameters
/// (`SolValue::abi_encode_params` of `alloy_sol_types` on
/// `(Address, B256, Bytes, Bytes)`); the contract states the standard
/// encoding: heads with offsets, then length-prefixed, zero-padded tails.
#[verifier::external_body]
fn abi_encode_forwarder_calldata(
    forwarder: [u8; 20],
    hiding: [u8; 32],
    input: Vec<u8>,
    output: Vec<u8>,
) -> (r: Vec<u8>)
    ensures
        r@ == forwarder_calldata_encoding(forwarder@, hiding@, input@, output@),
{
    (Address::from(forwarder), B256::from(hiding), Bytes::from(input), Bytes::from(output))
        .abi_encode_params()
}

/// ABI-encodes `(uint8, address, uint128, (address))` as parameters
/// (`SolValue::abi_encode_params` on `(U256, Address, u128, (Address,))`:
/// a `uint8` and a `uint256` of the same value take the same word); the
/// contract states the standard encoding of static values, one word each.
#[verifier::external_body]
fn abi_encode_unwrap_input(code: u8, token: [u8; 20], quantity: u128, receiver: [u8; 20]) -> (r: Vec<u8>)
    ensures
        r@ == unwrap_input_encoding(code as nat, token@, quantity, receiver@),
{
    (U256::from(code), Address::from(token), quantity, (Address::from(receiver),)).abi_encode_params()
}

/// ABI-encodes `(uint8, address, uint128, (uint256, uint256, address,
/// bytes32, bytes32, bytes32, uint8))` as parameters
/// (`SolValue::abi_encode_params`, the `uint8` values passed as `U256` of
/// the same value, which take the same word); the two `uint256` are built
/// from their big-endian words (`U256::from_be_bytes`). The contract states
/// the standard encoding of static values, one word each.
#[verifier::external_body]
fn abi_encode_wrap_input(
    code: u8,
    token: [u8; 20],
    quantity: u128,
    nonce: [u8; 32],
    deadline: [u8; 32],
    owner: [u8; 20],
    root: [u8; 32],
    r: [u8; 32],
    s: [u8; 32],
    v: u8,
) -> (out: Vec<u8>)
    ensures
        out@ == wrap_input_encoding(code as nat, token@, quantity, nonce@, deadline@, owner@, root@, r@, s@, v),
{
    let data = (
        U256::from_be_bytes(nonce),
        U256::from_be_bytes(deadline),
        Address::from(owner),
        B256::from(root),
        B256::from(r),
        B256::from(s),
        U256::from(v),
    );
    (U256::from(code), Address::from(token), quantity, data).abi_encode_params()
}

/// Copies a 20-byte view into an array.
fn to_array20(s: &[u8]) -> (r: [u8; 20])
    requires
        s@.len() == 20,
    ensures
        r@ == s@,
{
    let mut r = [0u8; 20];
    let mut i: usize = 0;
    while i < 20
        invariant
            i <= 20,
            s@.len() == 20,
            forall|j: int| 0 <= j < i ==> r@[j] == s@[j],
        decreases 20 - i,
    {
        r[i] = s[i];
        i = i + 1;
    }
    assert(r@ =~= s@);
    r
}

/// A big-endian number of at most 32 bytes as a 32-byte word: zeros on the left.
fn be_word(s: &[u8]) -> (r: [u8; 32])
    requires
        s@.len() <= 32,
    ensures
        r@ == zeros((32 - s@.len()) as nat) + s@,
{
    let mut r = [0u8; 32];
    let off = 32 - s.len();
    let mut i: usize = 0;
    while i < s.len()
        invariant
            s@.len() <= 32,
            off == 32 - s@.len(),
            i <= s@.len(),
            forall|j: int| 0 <= j < off ==> r@[j] == 0,
            forall|j: int| 0 <= j < i ==> r@[off + j] == s@[j],
        decreases s@.len() - i,
    {
        r[off + i] = s[i];
        i = i + 1;
    }
    assert(r@ =~= zeros((32 - s@.len()) as nat) + s@);
    r
}

/// The outcome of encoding the forwarder calldata: refused unless the
/// forwarder address has 20 bytes.
pub open spec fn spec_forwarder_calldata(
    forwarder: Seq<u8>,
    hiding: Seq<u8>,
    input: Seq<u8>,
    output: Seq<u8>,
) -> Result<Seq<u8>, ArmError> {
    if forwarder.len() != 20 {
        Err(ArmError::InvalidCalldata("forwarder address"))
    } else {
        Ok(forwarder_calldata_encoding(forwarder, hiding, input, output))
    }
}

/// The outcome of encoding an unwrap input: refused unless both addresses
/// have 20 bytes, the token's checked first.
pub open spec fn spec_unwrap_input(token: Seq<u8>, receiver: Seq<u8>, quantity: u128) -> Result<Seq<u8>, ArmError> {
    if token.len() != 20 {
        Err(ArmError::InvalidCalldata("erc20 token address"))
    } else if receiver.len() != 20 {
        Err(ArmError::InvalidCalldata("ethereum account address"))
    } else {
        Ok(unwrap_input_encoding(1, token, quantity, receiver))
    }
}

/// The outcome of encoding a wrap input: refused unless both addresses have
/// 20 bytes and the permit signature 65 (checked in this order); the nonce
/// and deadline are left-padded to words, the signature split into `r`,
/// `s` and `v`.
pub open spec fn spec_wrap_input(
    token: Seq<u8>,
    quantity: u128,
    nonce: Seq<u8>,
    deadline: Seq<u8>,
    owner: Seq<u8>,
    root: Seq<u8>,
    signature: Seq<u8>,
) -> Result<Seq<u8>, ArmError> {
    if token.len() != 20 {
        Err(ArmError::InvalidCalldata("erc20 token address"))
    } else if owner.len() != 20 {
        Err(ArmError::InvalidCalldata("ethereum account address"))
    } else if signature.len() != 65 {
        Err(ArmError::InvalidCalldata("permit signature must be 65 bytes"))
    } else {
        Ok(
            wrap_input_encoding(
                0,
                token,
                quantity,
                zeros((32 - nonce.len()) as nat) + nonce,
                zeros((32 - deadline.len()) as nat) + deadline,
                owner,
                root,
                signature.subrange(0, 32),
                signature.subrange(32, 64),
                signature[64],
            ),
        )
    }
}

/// The encoding of a wrap input would not fit its words: every check passes
/// but the nonce or deadline is longer than 32 bytes, or the root is not 32.
pub open spec fn wrap_input_overflows(
    token: Seq<u8>,
    nonce: Seq<u8>,
    deadline: Seq<u8>,
    owner: Seq<u8>,
    root: Seq<u8>,
    signature: Seq<u8>,
) -> bool {
    &&& token.len() == 20
    &&& owner.len() == 20
    &&& signature.len() == 65
    &&& (nonce.len() > 32 || deadline.len() > 32 || root.len() != 32)
}

/// A result holds the bytes of a spec outcome.
pub open spec fn bytes_result(r: Result<Vec<u8>, ArmError>, s: Result<Seq<u8>, ArmError>) -> bool {
    match s {
        Ok(b) => r matches Ok(v) && v@ == b,
        Err(e) => r == Err::<Vec<u8>, ArmError>(e),
    }
}

/// ABI-encoding of the forwarder calldata.
pub fn encode_forwarder_calldata(
    forwarder: &[u8],
    logic_hiding_bytes: [u8; 32],
    input: Vec<u8>,
    output: Vec<u8>,
) -> (r: Result<Vec<u8>, ArmError>)
    ensures
        bytes_result(r, spec_forwarder_calldata(forwarder@, logic_hiding_bytes@, input@, output@)),
{
    if forwarder.len() != 20 {
        return Err(ArmError::InvalidCalldata("forwarder address"));
    }
    let untrusted_forwarder = to_array20(forwarder);
    Ok(abi_encode_forwarder_calldata(untrusted_forwarder, logic_hiding_bytes, input, output))
}

/// ABI-encode the forwarder input for an unwrap.
pub fn encode_unwrap_forwarder_input(
    erc20_token_addr: &[u8],
    ethereum_account_addr: &[u8],
    quantity: u128,
) -> (r: Result<Vec<u8>, ArmError>)
    ensures
        bytes_result(r, spec_unwrap_input(erc20_token_addr@, ethereum_account_addr@, quantity)),
{
    if erc20_token_addr.len() != 20 {
        return Err(ArmError::InvalidCalldata("erc20 token address"));
    }
    let token = to_array20(erc20_token_addr);
    if ethereum_account_addr.len() != 20 {
        return Err(ArmError::InvalidCalldata("ethereum account address"));
    }
    let receiver = to_array20(ethereum_account_addr);
    Ok(abi_encode_unwrap_input(call_type_byte(CallType::Unwrap), token, quantity, receiver))
}

/// ABI-encode the forwarder input for a wrap.
pub fn encode_wrap_forwarder_input(
    erc20_token_addr: &[u8],
    quantity: u128,
    nonce: &[u8],
    deadline: &[u8],
    ethereum_account_addr: &[u8],
    action_tree_root: &[u8],
    signature: &[u8],
) -> (r: Result<Vec<u8>, ArmError>)
    requires
        !wrap_input_overflows(
            erc20_token_addr@,
            nonce@,
            deadline@,
            ethereum_account_addr@,
            action_tree_root@,
            signature@,
        ),
    ensures
        bytes_result(
            r,
            spec_wrap_input(
                erc20_token_addr@,
                quantity,
                nonce@,
                deadline@,
                ethereum_account_addr@,
                action_tree_root@,
                signature@,
            ),
        ),
{
    if erc20_token_addr.len() != 20 {
        return Err(ArmError::InvalidCalldata("erc20 token address"));
    }
    let erc20_token = to_array20(erc20_token_addr);
    if ethereum_account_addr.len() != 20 {
        return Err(ArmError::InvalidCalldata("ethereum account address"));
    }
    let owner = to_array20(ethereum_account_addr);
    if signature.len() != 65 {
        return Err(ArmError::InvalidCalldata("permit signature must be 65 bytes"));
    }
    let nonce_word = be_word(nonce);
    let deadline_word = be_word(deadline);
    let root = to_array32(action_tree_root);
    let r = to_array32(vstd::slice::slice_subrange(signature, 0, 32));
    let s = to_array32(vstd::slice::slice_subrange(signature, 32, 64));
    let v = signature[64];
    Ok(
        abi_encode_wrap_input(
            call_type_byte(CallType::Wrap),
            erc20_token,
            quantity,
            nonce_word,
            deadline_word,
            owner,
            root,
            r,
            s,
            v,
        ),
    )
}

} // verus!
