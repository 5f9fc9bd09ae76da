//! The resource logic of the ERC-20 token wrapper: ephemeral resources wrap
//! and unwrap tokens through the EVM forwarder, persistent ones are bound to
//! an authority key and an encrypted payload.

use k256::ecdsa::signature::hazmat::PrehashVerifier;
use k256::ecdsa::{Signature, VerifyingKey};
use vstd::prelude::*;

use crate::bytes::{concat_bytes, eq32, lemma_be_bytes_len, write_at, zeros};
use crate::error::ArmError;
use crate::evm::{
    abi_word, encode_forwarder_calldata, encode_unwrap_forwarder_input,
    encode_wrap_forwarder_input, forwarder_calldata_encoding, spec_forwarder_calldata,
    spec_unwrap_input, spec_wrap_input, unwrap_input_encoding, wrap_input_encoding,
    wrap_input_overflows, CallType,
};
use crate::hash::{keccak, keccak256};
use crate::instance::{
    app_data_default, copy_bytes, empty_app_data, logic_preimage, AppData, AppDataView, Payload,
    ResourceLogicInstance,
};
use crate::nullifier_key::NullifierKey;
use crate::resource::{key_matches, resource_commitment, resource_nullifier, Resource};
use crate::traits::Resource as ResourceTrait;

verus! {

/// Label plaintext: `label_ref = keccak256(forwarder_addr ‖ erc20_token_addr)`.
#[derive(Debug, Clone)]
pub struct LabelInfo {
    pub forwarder_addr: Vec<u8>,
    pub erc20_token_addr: Vec<u8>,
}

/// Permit2 inputs for a wrap, forwarded (unverified in-circuit) to the EVM forwarder.
#[derive(Debug, Clone)]
pub struct PermitInfo {
    pub permit_nonce: Vec<u8>,
    pub permit_deadline: Vec<u8>,
    pub permit_sig: Vec<u8>,
}

/// Forwarder inputs for the ephemeral wrap/unwrap branch.
#[derive(Debug, Clone)]
pub struct ForwarderInfo {
    pub call_type: CallType,
    pub hiding_logic_bytes: [u8; 32],
    pub ethereum_account_addr: Vec<u8>,
    /// Required for a wrap (consumed ephemeral); absent for an unwrap.
    pub permit: Option<PermitInfo>,
}

/// Witness for the erc20 wrapper logic.
#[derive(Debug, Clone)]
pub struct TransferAuthWitness {
    pub resource: Resource,
    pub is_consumed: bool,
    pub action_root: [u8; 32],
    pub nullifier_key: Option<NullifierKey>,
    pub auth_pk: Option<Vec<u8>>,
    pub auth_sig: Option<Vec<u8>>,
    /// Host-encrypted resource ciphertext, bound into `value_ref` (non-ephemeral).
    pub encryption_payload: Option<Vec<u8>>,
    pub discovery_payload: Option<Vec<u8>>,
    pub label_info: Option<LabelInfo>,
    pub forwarder_info: Option<ForwarderInfo>,
}

/// Whether `sig` is a valid ECDSA signature over secp256k1 of the prehashed
/// message `prehash` under the SEC1-encoded public key `pk`.
pub uninterp spec fn ecdsa_prehash_verifies(pk: Seq<u8>, sig: Seq<u8>, prehash: Seq<u8>) -> bool;

/// Verifies an ECDSA signature over a prehashed message (`k256`:
/// `VerifyingKey::from_sec1_bytes`, `Signature::from_slice` and
/// `PrehashVerifier::verify_prehash`): true exactly when the key and the
/// signature parse and the signature verifies; the verdict is named, not
/// described.
#[verifier::external_body]
fn verify_prehash(pk: &[u8], sig: &[u8], prehash: &[u8; 32]) -> (ok: bool)
    ensures
        ok == ecdsa_prehash_verifies(pk@, sig@, prehash@),
{
    match (VerifyingKey::from_sec1_bytes(pk), Signature::from_slice(sig)) {
        (Ok(vk), Ok(signature)) => vk.verify_prehash(prehash, &signature).is_ok(),
        _ => false,
    }
}

/// `label_ref = keccak256(forwarder_addr ‖ erc20_token_addr)`.
pub fn calculate_label_ref(forwarder_addr: &[u8], erc20_token_addr: &[u8]) -> (r: [u8; 32])
    ensures
        r@ == keccak(forwarder_addr@ + erc20_token_addr@),
{
    let bytes = concat_bytes(forwarder_addr, erc20_token_addr);
    keccak256(bytes.as_slice())
}

/// `value_ref = keccak256(auth_pk ‖ encryption_payload)`.
pub fn persistent_value_ref(auth_pk: &[u8], encryption_payload: &[u8]) -> (r: [u8; 32])
    ensures
        r@ == keccak(auth_pk@ + encryption_payload@),
{
    let bytes = concat_bytes(auth_pk, encryption_payload);
    keccak256(bytes.as_slice())
}

/// Ephemeral-unwrap `value_ref`: the 20-byte ethereum account address left-aligned
/// in 32 bytes.
pub fn value_ref_from_eth_addr(ethereum_account_addr: &[u8]) -> (r: [u8; 32])
    requires
        ethereum_account_addr@.len() == 20,
    ensures
        r@ == ethereum_account_addr@ + zeros(12),
{
    let mut value_ref = [0u8; 32];
    write_at(&mut value_ref, 0, ethereum_account_addr);
    assert(value_ref@ =~= ethereum_account_addr@ + zeros(12));
    value_ref
}

/// The label reference a label plaintext calls for.
pub open spec fn label_ref_of(l: LabelInfo) -> Seq<u8> {
    keccak(l.forwarder_addr@ + l.erc20_token_addr@)
}

/// The resource tag: the nullifier when consumed (refused without a key, or
/// with a key the resource is not committed to), the commitment when created.
pub open spec fn spec_tag(w: TransferAuthWitness) -> Result<Seq<u8>, ArmError> {
    if w.is_consumed {
        match w.nullifier_key {
            None => Err(ArmError::MissingField("nullifier_key")),
            Some(nk) => if key_matches(w.resource, nk.bytes@) {
                Ok(resource_nullifier(w.resource, nk.bytes@))
            } else {
                Err(ArmError::GeneralError)
            },
        }
    } else {
        Ok(resource_commitment(w.resource))
    }
}

/// The forwarder input of an ephemeral resource: a wrap input when it is
/// consumed, an unwrap input when it is created.
pub open spec fn spec_forwarder_input(w: TransferAuthWitness, f: ForwarderInfo, l: LabelInfo) -> Result<Seq<u8>, ArmError> {
    if w.is_consumed {
        if f.call_type != CallType::Wrap {
            Err(ArmError::InvalidCalldata("expected Wrap call type"))
        } else {
            match f.permit {
                None => Err(ArmError::MissingField("permit")),
                Some(p) => spec_wrap_input(
                    l.erc20_token_addr@,
                    w.resource.quantity,
                    p.permit_nonce@,
                    p.permit_deadline@,
                    f.ethereum_account_addr@,
                    w.action_root@,
                    p.permit_sig@,
                ),
            }
        }
    } else {
        if f.call_type != CallType::Unwrap {
            Err(ArmError::InvalidCalldata("expected Unwrap call type"))
        } else if w.resource.value_ref@ != f.ethereum_account_addr@ + zeros(12) {
            Err(ArmError::ValueRefMismatch)
        } else {
            spec_unwrap_input(l.erc20_token_addr@, f.ethereum_account_addr@, w.resource.quantity)
        }
    }
}

/// Application data with the forwarder calldata as its one external payload.
pub open spec fn external_app_data(data: Seq<u8>) -> AppDataView {
    (Seq::empty(), Seq::empty(), seq![(data, false)], Seq::empty())
}

/// The ephemeral wrap/unwrap check: the label must match, and the forwarder
/// calldata carries the wrap or unwrap input.
pub open spec fn spec_ephemeral_check(w: TransferAuthWitness) -> Result<AppDataView, ArmError> {
    match w.forwarder_info {
        None => Err(ArmError::MissingField("forwarder_info")),
        Some(f) => match w.label_info {
            None => Err(ArmError::MissingField("label_info")),
            Some(l) => if w.resource.label_ref@ != label_ref_of(l) {
                Err(ArmError::LabelRefMismatch)
            } else {
                match spec_forwarder_input(w, f, l) {
                    Err(e) => Err(e),
                    Ok(input) => match spec_forwarder_calldata(
                        l.forwarder_addr@,
                        f.hiding_logic_bytes@,
                        input,
                        Seq::empty(),
                    ) {
                        Err(e) => Err(e),
                        Ok(data) => Ok(external_app_data(data)),
                    },
                }
            },
        },
    }
}

/// The ephemeral check cannot run: an unwrap's account address is not 20
/// bytes, or a wrap's permit nonce or deadline does not fit a word.
pub open spec fn ephemeral_check_overflows(w: TransferAuthWitness) -> bool {
    match w.forwarder_info {
        None => false,
        Some(f) => match w.label_info {
            None => false,
            Some(l) => {
                &&& w.resource.label_ref@ == label_ref_of(l)
                &&& if w.is_consumed {
                    f.call_type == CallType::Wrap && match f.permit {
                        None => false,
                        Some(p) => wrap_input_overflows(
                            l.erc20_token_addr@,
                            p.permit_nonce@,
                            p.permit_deadline@,
                            f.ethereum_account_addr@,
                            w.action_root@,
                            p.permit_sig@,
                        ),
                    }
                } else {
                    f.call_type == CallType::Unwrap && f.ethereum_account_addr@.len() != 20
                }
            },
        },
    }
}

/// Non-ephemeral consume: `value_ref` binds the authority key and the
/// payload, and the authority signs the action root.
pub open spec fn spec_persistent_consume(w: TransferAuthWitness) -> Result<AppDataView, ArmError> {
    match w.auth_pk {
        None => Err(ArmError::MissingField("auth_pk")),
        Some(pk) => match w.auth_sig {
            None => Err(ArmError::MissingField("auth_sig")),
            Some(sig) => match w.encryption_payload {
                None => Err(ArmError::MissingField("encryption_payload")),
                Some(payload) => if w.resource.value_ref@ != keccak(pk@ + payload@) {
                    Err(ArmError::ValueRefMismatch)
                } else if !ecdsa_prehash_verifies(pk@, sig@, w.action_root@) {
                    Err(ArmError::InvalidSignature)
                } else {
                    Ok(empty_app_data())
                },
            },
        },
    }
}

/// Non-ephemeral create: the label and `value_ref` must match, and the
/// payload and the discovery payload (empty when absent) are emitted.
pub open spec fn spec_persistent_create(w: TransferAuthWitness) -> Result<AppDataView, ArmError> {
    match w.auth_pk {
        None => Err(ArmError::MissingField("auth_pk")),
        Some(pk) => match w.encryption_payload {
            None => Err(ArmError::MissingField("encryption_payload")),
            Some(payload) => match w.label_info {
                None => Err(ArmError::MissingField("label_info")),
                Some(l) => if w.resource.label_ref@ != label_ref_of(l) {
                    Err(ArmError::LabelRefMismatch)
                } else if w.resource.value_ref@ != keccak(pk@ + payload@) {
                    Err(ArmError::ValueRefMismatch)
                } else {
                    let discovery = match w.discovery_payload {
                        None => Seq::empty(),
                        Some(d) => d@,
                    };
                    Ok((seq![(payload@, true)], Seq::empty(), Seq::empty(), seq![(discovery, true)]))
                },
            },
        },
    }
}

/// The application data of the logic: by ephemerality, then consumption.
pub open spec fn spec_app_data(w: TransferAuthWitness) -> Result<AppDataView, ArmError> {
    if w.resource.is_ephemeral {
        spec_ephemeral_check(w)
    } else if w.is_consumed {
        spec_persistent_consume(w)
    } else {
        spec_persistent_create(w)
    }
}

/// The logic cannot run on `w`: its tag is computed, and its ephemeral check
/// overflows.
pub open spec fn transfer_overflows(w: TransferAuthWitness) -> bool {
    spec_tag(w) is Ok && w.resource.is_ephemeral && ephemeral_check_overflows(w)
}

/// What the logic gives for `w`: its tag and application data, or the
/// first error met.
pub open spec fn transfer_outcome(w: TransferAuthWitness, r: Result<ResourceLogicInstance, ArmError>) -> bool {
    match spec_tag(w) {
        Err(e) => r == Err::<ResourceLogicInstance, ArmError>(e),
        Ok(tag) => match spec_app_data(w) {
            Err(e) => r == Err::<ResourceLogicInstance, ArmError>(e),
            Ok(ad) => r matches Ok(i) && {
                &&& i.tag@ == tag
                &&& i.action_root == w.action_root
                &&& i.is_consumed == w.is_consumed
                &&& i.app_data@ == ad
            },
        },
    }
}

/// The permit words fit and an unwrap's account address has 20 bytes: a
/// shape of witness on which the logic runs.
pub open spec fn witness_fits(w: TransferAuthWitness) -> bool {
    match w.forwarder_info {
        None => true,
        Some(f) => {
            &&& (w.is_consumed || f.call_type != CallType::Unwrap || f.ethereum_account_addr@.len()
                == 20)
            &&& match f.permit {
                None => true,
                Some(p) => p.permit_nonce@.len() <= 32 && p.permit_deadline@.len() <= 32,
            }
        },
    }
}

/// A result holds the 32 bytes of a spec outcome.
pub open spec fn word_result(r: Result<[u8; 32], ArmError>, s: Result<Seq<u8>, ArmError>) -> bool {
    match s {
        Ok(b) => r matches Ok(v) && v@ == b,
        Err(e) => r == Err::<[u8; 32], ArmError>(e),
    }
}

/// A result holds the application data of a spec outcome.
pub open spec fn app_data_result(r: Result<AppData, ArmError>, s: Result<AppDataView, ArmError>) -> bool {
    match s {
        Ok(a) => r matches Ok(v) && v@ == a,
        Err(e) => r == Err::<AppData, ArmError>(e),
    }
}

/// An accepted resource's instance carries the witness's action root and
/// consumption flag; its tag is the nullifier under the key given, to which
/// the resource is committed, when consumed, and its commitment when
/// created.
pub proof fn lemma_transfer_tag(w: TransferAuthWitness, i: ResourceLogicInstance)
    requires
        transfer_outcome(w, Ok(i)),
    ensures
        i.action_root == w.action_root,
        i.is_consumed == w.is_consumed,
        w.is_consumed ==> (w.nullifier_key matches Some(nk) && keccak(nk.bytes@)
            == w.resource.nk_commitment@ && i.tag@ == keccak(resource_commitment(w.resource) + nk.bytes@)),
        !w.is_consumed ==> i.tag@ == resource_commitment(w.resource),
{
}

/// Whenever the logic accepts an ephemeral resource or creates a persistent
/// one, the resource's label reference is the digest of the forwarder
/// address followed by the token address of the label plaintext given.
pub proof fn lemma_label_bound(w: TransferAuthWitness, i: ResourceLogicInstance)
    requires
        transfer_outcome(w, Ok(i)),
        w.resource.is_ephemeral || !w.is_consumed,
    ensures
        w.label_info matches Some(l) && w.resource.label_ref@ == keccak(
            l.forwarder_addr@ + l.erc20_token_addr@,
        ),
{
}

/// An accepted persistent created resource has its value reference bound
/// to the authority key and the payload, its commitment as tag, and emits
/// the payload as its one resource payload and the discovery payload
/// (empty when absent) as its one discovery payload.
pub proof fn lemma_persistent_create_binding(w: TransferAuthWitness, i: ResourceLogicInstance)
    requires
        transfer_outcome(w, Ok(i)),
        !w.resource.is_ephemeral,
        !w.is_consumed,
    ensures
        w.auth_pk matches Some(pk) && w.encryption_payload matches Some(payload) && w.label_info
            matches Some(l) && {
            &&& w.resource.label_ref@ == keccak(l.forwarder_addr@ + l.erc20_token_addr@)
            &&& w.resource.value_ref@ == keccak(pk@ + payload@)
            &&& i.tag@ == resource_commitment(w.resource)
            &&& i.app_data@.0 == seq![(payload@, true)]
            &&& i.app_data@.1.len() == 0
            &&& i.app_data@.2.len() == 0
            &&& i.app_data@.3 == seq![
                (
                    match w.discovery_payload {
                        None => Seq::<u8>::empty(),
                        Some(d) => d@,
                    },
                    true,
                ),
            ]
        },
{
}

/// An accepted persistent consumed resource is committed to the nullifier
/// key given, has its nullifier under that key as tag, has its value
/// reference bound to the authority key and the payload, and the authority
/// key signs the action root; nothing is emitted.
pub proof fn lemma_persistent_consume_binding(w: TransferAuthWitness, i: ResourceLogicInstance)
    requires
        transfer_outcome(w, Ok(i)),
        !w.resource.is_ephemeral,
        w.is_consumed,
    ensures
        w.nullifier_key matches Some(nk) && w.auth_pk matches Some(pk) && w.auth_sig matches Some(
            sig,
        ) && w.encryption_payload matches Some(payload) && {
            &&& keccak(nk.bytes@) == w.resource.nk_commitment@
            &&& i.tag@ == keccak(resource_commitment(w.resource) + nk.bytes@)
            &&& w.resource.value_ref@ == keccak(pk@ + payload@)
            &&& ecdsa_prehash_verifies(pk@, sig@, w.action_root@)
            &&& i.app_data@ == empty_app_data()
        },
{
}

/// The left-padded word of a byte string of at most 32 bytes.
pub open spec fn left_padded(b: Seq<u8>) -> Seq<u8> {
    zeros((32 - b.len()) as nat) + b
}

/// Where the words of an input of four or ten words stand in the forwarder
/// calldata: after the four head words and the input's length word.
proof fn lemma_calldata_words(forwarder: Seq<u8>, hiding: Seq<u8>, input: Seq<u8>, k: int)
    requires
        forwarder.len() == 20,
        hiding.len() == 32,
        input.len() == 320 || input.len() == 128,
        0 <= k,
        32 * k + 32 <= input.len(),
    ensures
        forwarder_calldata_encoding(forwarder, hiding, input, Seq::empty()).subrange(
            160 + 32 * k,
            192 + 32 * k,
        ) == input.subrange(32 * k, 32 * k + 32),
{
    lemma_be_bytes_len(128, 32);
    lemma_be_bytes_len(320, 32);
    lemma_be_bytes_len(0, 32);
    let tail = abi_word(input.len()) + input + zeros(0);
    assert(crate::evm::padded_len(320) == 320);
    assert(crate::evm::padded_len(128) == 128);
    assert(crate::evm::abi_bytes_tail(input) =~= tail);
    lemma_be_bytes_len((128 + tail.len()) as nat, 32);
    let head = crate::evm::abi_address(forwarder) + hiding + abi_word(128) + abi_word(
        (128 + tail.len()) as nat,
    );
    assert(head.len() == 128);
    let data = forwarder_calldata_encoding(forwarder, hiding, input, Seq::empty());
    assert(data == head + tail + crate::evm::abi_bytes_tail(Seq::empty()));
    assert(data.subrange(160 + 32 * k, 192 + 32 * k) =~= input.subrange(32 * k, 32 * k + 32));
}

/// The words of a wrap input in order: call type, token, quantity, permit
/// nonce, permit deadline, owner, action root, and the signature's parts.
proof fn lemma_wrap_input_words(
    token: Seq<u8>,
    quantity: u128,
    nonce: Seq<u8>,
    deadline: Seq<u8>,
    owner: Seq<u8>,
    root: Seq<u8>,
    r: Seq<u8>,
    s: Seq<u8>,
    v: u8,
)
    requires
        token.len() == 20,
        nonce.len() == 32,
        deadline.len() == 32,
        owner.len() == 20,
        root.len() == 32,
        r.len() == 32,
        s.len() == 32,
    ensures
        ({
            let e = wrap_input_encoding(0, token, quantity, nonce, deadline, owner, root, r, s, v);
            &&& e.len() == 320
            &&& e.subrange(32, 64) == zeros(12) + token
            &&& e.subrange(64, 96) == abi_word(quantity as nat)
            &&& e.subrange(96, 128) == nonce
            &&& e.subrange(128, 160) == deadline
            &&& e.subrange(160, 192) == zeros(12) + owner
            &&& e.subrange(192, 224) == root
            &&& e.subrange(224, 256) == r
            &&& e.subrange(256, 288) == s
            &&& e.subrange(288, 320) == abi_word(v as nat)
        }),
{
    lemma_be_bytes_len(0, 32);
    lemma_be_bytes_len(quantity as nat, 32);
    lemma_be_bytes_len(v as nat, 32);
    let e = wrap_input_encoding(0, token, quantity, nonce, deadline, owner, root, r, s, v);
    let a = abi_word(0);
    let b = zeros(12) + token;
    let c = abi_word(quantity as nat);
    let f = zeros(12) + owner;
    let g = abi_word(v as nat);
    assert(e == a + b + c + nonce + deadline + f + root + r + s + g);
    assert(e.subrange(32, 64) =~= b);
    assert(e.subrange(64, 96) =~= c);
    assert(e.subrange(96, 128) =~= nonce);
    assert(e.subrange(128, 160) =~= deadline);
    assert(e.subrange(160, 192) =~= f);
    assert(e.subrange(192, 224) =~= root);
    assert(e.subrange(224, 256) =~= r);
    assert(e.subrange(256, 288) =~= s);
    assert(e.subrange(288, 320) =~= g);
}

/// An accepted wrap (an ephemeral consumed resource whose permit words
/// fit) emits as its one external payload the forwarder calldata whose
/// input is the wrap input: within the payload, the token stands at byte
/// 192, the quantity at 224, the left-padded permit nonce at 256, the
/// left-padded permit deadline at 288, the owner at 320, the action root at
/// 352, and the permit signature's `r`, `s` and `v` at 384, 416 and 448.
pub proof fn lemma_wrap_payload(w: TransferAuthWitness, i: ResourceLogicInstance)
    requires
        transfer_outcome(w, Ok(i)),
        w.resource.is_ephemeral,
        w.is_consumed,
        witness_fits(w),
    ensures
        w.forwarder_info matches Some(f) && f.call_type == CallType::Wrap && f.permit is Some,
        w.label_info is Some,
        ({
            let f = w.forwarder_info->Some_0;
            let p = f.permit->Some_0;
            let l = w.label_info->Some_0;
            let sig = p.permit_sig@;
            let data = i.app_data@.2[0].0;
            &&& w.resource.label_ref@ == keccak(l.forwarder_addr@ + l.erc20_token_addr@)
            &&& l.forwarder_addr@.len() == 20
            &&& l.erc20_token_addr@.len() == 20
            &&& f.ethereum_account_addr@.len() == 20
            &&& sig.len() == 65
            &&& i.app_data@ == (
                Seq::<(Seq<u8>, bool)>::empty(),
                Seq::<(Seq<u8>, bool)>::empty(),
                seq![(data, false)],
                Seq::<(Seq<u8>, bool)>::empty(),
            )
            &&& data.len() == 512
            &&& data.subrange(0, 32) == zeros(12) + l.forwarder_addr@
            &&& data.subrange(32, 64) == f.hiding_logic_bytes@
            &&& data.subrange(192, 224) == zeros(12) + l.erc20_token_addr@
            &&& data.subrange(224, 256) == abi_word(w.resource.quantity as nat)
            &&& data.subrange(256, 288) == left_padded(p.permit_nonce@)
            &&& data.subrange(288, 320) == left_padded(p.permit_deadline@)
            &&& data.subrange(320, 352) == zeros(12) + f.ethereum_account_addr@
            &&& data.subrange(352, 384) == w.action_root@
            &&& data.subrange(384, 416) == sig.subrange(0, 32)
            &&& data.subrange(416, 448) == sig.subrange(32, 64)
            &&& data.subrange(448, 480) == abi_word(sig[64] as nat)
        }),
{
    let f = w.forwarder_info->Some_0;
    let p = f.permit->Some_0;
    let l = w.label_info->Some_0;
    let sig = p.permit_sig@;
    let nw = left_padded(p.permit_nonce@);
    let dw = left_padded(p.permit_deadline@);
    let input = wrap_input_encoding(
        0,
        l.erc20_token_addr@,
        w.resource.quantity,
        nw,
        dw,
        f.ethereum_account_addr@,
        w.action_root@,
        sig.subrange(0, 32),
        sig.subrange(32, 64),
        sig[64],
    );
    let data = forwarder_calldata_encoding(l.forwarder_addr@, f.hiding_logic_bytes@, input, Seq::empty());
    assert(i.app_data@.2[0].0 == data);
    lemma_wrap_input_words(
        l.erc20_token_addr@,
        w.resource.quantity,
        nw,
        dw,
        f.ethereum_account_addr@,
        w.action_root@,
        sig.subrange(0, 32),
        sig.subrange(32, 64),
        sig[64],
    );
    lemma_calldata_words(l.forwarder_addr@, f.hiding_logic_bytes@, input, 1);
    lemma_calldata_words(l.forwarder_addr@, f.hiding_logic_bytes@, input, 2);
    lemma_calldata_words(l.forwarder_addr@, f.hiding_logic_bytes@, input, 3);
    lemma_calldata_words(l.forwarder_addr@, f.hiding_logic_bytes@, input, 4);
    lemma_calldata_words(l.forwarder_addr@, f.hiding_logic_bytes@, input, 5);
    lemma_calldata_words(l.forwarder_addr@, f.hiding_logic_bytes@, input, 6);
    lemma_calldata_words(l.forwarder_addr@, f.hiding_logic_bytes@, input, 7);
    lemma_calldata_words(l.forwarder_addr@, f.hiding_logic_bytes@, input, 8);
    lemma_calldata_words(l.forwarder_addr@, f.hiding_logic_bytes@, input, 9);
    assert(data.subrange(192, 224) == input.subrange(32, 64));
    assert(data.subrange(224, 256) == input.subrange(64, 96));
    assert(data.subrange(256, 288) == input.subrange(96, 128));
    assert(data.subrange(288, 320) == input.subrange(128, 160));
    assert(data.subrange(320, 352) == input.subrange(160, 192));
    assert(data.subrange(352, 384) == input.subrange(192, 224));
    assert(data.subrange(384, 416) == input.subrange(224, 256));
    assert(data.subrange(416, 448) == input.subrange(256, 288));
    assert(data.subrange(448, 480) == input.subrange(288, 320));
    lemma_be_bytes_len(128, 32);
    lemma_be_bytes_len(320, 32);
    lemma_be_bytes_len(448, 32);
    lemma_be_bytes_len(0, 32);
    assert(crate::evm::padded_len(320) == 320);
    assert(crate::evm::padded_len(0) == 0);
    assert(data.subrange(0, 32) =~= zeros(12) + l.forwarder_addr@);
    assert(data.subrange(32, 64) =~= f.hiding_logic_bytes@);
}

/// An accepted unwrap (an ephemeral created resource) has its value
/// reference holding the receiving account, and emits as its one external
/// payload the forwarder calldata whose input is the unwrap input: within
/// the payload, the call type stands at byte 160, the token at 192, the
/// quantity at 224 and the receiving account at 256.
pub proof fn lemma_unwrap_payload(w: TransferAuthWitness, i: ResourceLogicInstance)
    requires
        transfer_outcome(w, Ok(i)),
        w.resource.is_ephemeral,
        !w.is_consumed,
    ensures
        w.forwarder_info matches Some(f) && f.call_type == CallType::Unwrap,
        w.label_info is Some,
        ({
            let f = w.forwarder_info->Some_0;
            let l = w.label_info->Some_0;
            let data = i.app_data@.2[0].0;
            &&& w.resource.label_ref@ == keccak(l.forwarder_addr@ + l.erc20_token_addr@)
            &&& w.resource.value_ref@ == f.ethereum_account_addr@ + zeros(12)
            &&& l.forwarder_addr@.len() == 20
            &&& l.erc20_token_addr@.len() == 20
            &&& f.ethereum_account_addr@.len() == 20
            &&& i.tag@ == resource_commitment(w.resource)
            &&& i.app_data@ == (
                Seq::<(Seq<u8>, bool)>::empty(),
                Seq::<(Seq<u8>, bool)>::empty(),
                seq![(data, false)],
                Seq::<(Seq<u8>, bool)>::empty(),
            )
            &&& data.len() == 320
            &&& data.subrange(0, 32) == zeros(12) + l.forwarder_addr@
            &&& data.subrange(32, 64) == f.hiding_logic_bytes@
            &&& data.subrange(160, 192) == abi_word(1)
            &&& data.subrange(192, 224) == zeros(12) + l.erc20_token_addr@
            &&& data.subrange(224, 256) == abi_word(w.resource.quantity as nat)
            &&& data.subrange(256, 288) == zeros(12) + f.ethereum_account_addr@
        }),
{
    let f = w.forwarder_info->Some_0;
    let l = w.label_info->Some_0;
    let token = l.erc20_token_addr@;
    let account = f.ethereum_account_addr@;
    let input = unwrap_input_encoding(1, token, w.resource.quantity, account);
    let data = forwarder_calldata_encoding(l.forwarder_addr@, f.hiding_logic_bytes@, input, Seq::empty());
    assert(i.app_data@.2[0].0 == data);
    lemma_be_bytes_len(1, 32);
    lemma_be_bytes_len(w.resource.quantity as nat, 32);
    let a = abi_word(1);
    let b = zeros(12) + token;
    let c = abi_word(w.resource.quantity as nat);
    let d = zeros(12) + account;
    assert(input == a + b + c + d);
    assert(input.len() == 128);
    assert(input.subrange(0, 32) =~= a);
    assert(input.subrange(32, 64) =~= b);
    assert(input.subrange(64, 96) =~= c);
    assert(input.subrange(96, 128) =~= d);
    lemma_calldata_words(l.forwarder_addr@, f.hiding_logic_bytes@, input, 0);
    lemma_calldata_words(l.forwarder_addr@, f.hiding_logic_bytes@, input, 1);
    lemma_calldata_words(l.forwarder_addr@, f.hiding_logic_bytes@, input, 2);
    lemma_calldata_words(l.forwarder_addr@, f.hiding_logic_bytes@, input, 3);
    lemma_be_bytes_len(128, 32);
    lemma_be_bytes_len(288, 32);
    lemma_be_bytes_len(0, 32);
    assert(crate::evm::padded_len(128) == 128);
    assert(crate::evm::padded_len(0) == 0);
    assert(data.subrange(0, 32) =~= zeros(12) + l.forwarder_addr@);
    assert(data.subrange(32, 64) =~= f.hiding_logic_bytes@);
}

impl TransferAuthWitness {
    /// The resource tag: nullifier when consumed, commitment when created.
    fn tag(&self) -> (r: Result<[u8; 32], ArmError>)
        ensures
            word_result(r, spec_tag(*self)),
    {
        if self.is_consumed {
            let nk = match &self.nullifier_key {
                Some(nk) => nk,
                None => {
                    return Err(ArmError::MissingField("nullifier_key"));
                },
            };
            match self.resource.nullify(nk) {
                Ok(n) => Ok(n),
                Err(e) => Err(ArmError::from(e)),
            }
        } else {
            Ok(self.resource.commit())
        }
    }

    /// Verify the resource logic and emit its instance.
    pub fn constrain(&self) -> (r: Result<ResourceLogicInstance, ArmError>)
        requires
            !transfer_overflows(*self),
        ensures
            transfer_outcome(*self, r),
    {
        let tag = self.tag()?;
        let app_data = if self.resource.is_ephemeral {
            self.ephemeral_resource_check()?
        } else if self.is_consumed {
            self.persistent_consume()?
        } else {
            self.persistent_create()?
        };
        Ok(ResourceLogicInstance {
            tag,
            action_root: self.action_root,
            is_consumed: self.is_consumed,
            app_data,
        })
    }

    /// What the transfer logic program reveals for the witness: the digest
    /// of the instance the logic gives; the logic's error when it refuses
    /// the witness.
    pub fn logic_output(&self) -> (r: Result<[u8; 32], ArmError>)
        requires
            !transfer_overflows(*self),
        ensures
            r is Ok <==> spec_tag(*self) is Ok && spec_app_data(*self) is Ok,
            r matches Ok(d) ==> d@ == keccak(
                logic_preimage(
                    spec_tag(*self)->Ok_0,
                    self.action_root@,
                    self.is_consumed,
                    spec_app_data(*self)->Ok_0,
                ),
            ),
            r matches Err(e) ==> transfer_outcome(*self, Err(e)),
    {
        match self.constrain() {
            Ok(instance) => Ok(instance.logic_digest()),
            Err(e) => Err(e),
        }
    }

    /// The logic on a witness whose permit words fit and whose unwrap
    /// address has 20 bytes; `None` on any other witness.
    pub fn try_constrain(&self) -> (r: Option<Result<ResourceLogicInstance, ArmError>>)
        ensures
            r is None <==> !witness_fits(*self),
            r matches Some(res) ==> transfer_outcome(*self, res),
    {
        match &self.forwarder_info {
            None => {},
            Some(f) => {
                if !self.is_consumed && f.call_type == CallType::Unwrap
                    && f.ethereum_account_addr.len() != 20 {
                    return None;
                }
                match &f.permit {
                    None => {},
                    Some(p) => {
                        if p.permit_nonce.len() > 32 || p.permit_deadline.len() > 32 {
                            return None;
                        }
                    },
                }
            },
        }
        Some(self.constrain())
    }

    /// Ephemeral wrap/unwrap: check the label and build the EVM forwarder calldata.
    fn ephemeral_resource_check(&self) -> (r: Result<AppData, ArmError>)
        requires
            !ephemeral_check_overflows(*self),
        ensures
            app_data_result(r, spec_ephemeral_check(*self)),
    {
        let forwarder = match &self.forwarder_info {
            Some(f) => f,
            None => {
                return Err(ArmError::MissingField("forwarder_info"));
            },
        };
        let label = match &self.label_info {
            Some(l) => l,
            None => {
                return Err(ArmError::MissingField("label_info"));
            },
        };
        let expected_label = calculate_label_ref(
            label.forwarder_addr.as_slice(),
            label.erc20_token_addr.as_slice(),
        );
        if !eq32(&self.resource.label_ref, &expected_label) {
            return Err(ArmError::LabelRefMismatch);
        }
        let input = if self.is_consumed {
            if forwarder.call_type != CallType::Wrap {
                return Err(ArmError::InvalidCalldata("expected Wrap call type"));
            }
            let permit = match &forwarder.permit {
                Some(p) => p,
                None => {
                    return Err(ArmError::MissingField("permit"));
                },
            };
            encode_wrap_forwarder_input(
                label.erc20_token_addr.as_slice(),
                self.resource.quantity,
                permit.permit_nonce.as_slice(),
                permit.permit_deadline.as_slice(),
                forwarder.ethereum_account_addr.as_slice(),
                &self.action_root,
                permit.permit_sig.as_slice(),
            )?
        } else {
            if forwarder.call_type != CallType::Unwrap {
                return Err(ArmError::InvalidCalldata("expected Unwrap call type"));
            }
            let expected_value = value_ref_from_eth_addr(forwarder.ethereum_account_addr.as_slice());
            if !eq32(&self.resource.value_ref, &expected_value) {
                return Err(ArmError::ValueRefMismatch);
            }
            encode_unwrap_forwarder_input(
                label.erc20_token_addr.as_slice(),
                forwarder.ethereum_account_addr.as_slice(),
                self.resource.quantity,
            )?
        };
        let data = encode_forwarder_calldata(
            label.forwarder_addr.as_slice(),
            forwarder.hiding_logic_bytes,
            input,
            Vec::new(),
        )?;
        let mut external_payload: Vec<Payload> = Vec::new();
        external_payload.push(Payload { data, deletion_criterion: false });
        let r = AppData {
            resource_payload: Vec::new(),
            encryption_payload: Vec::new(),
            external_payload,
            discovery_payload: Vec::new(),
        };
        assert(r@ =~= external_app_data(data@));
        Ok(r)
    }

    /// Non-ephemeral consume: bind `value_ref` to `(auth_pk, payload)` and verify the
    /// authority signature over the action root.
    fn persistent_consume(&self) -> (r: Result<AppData, ArmError>)
        ensures
            app_data_result(r, spec_persistent_consume(*self)),
    {
        let pk = match &self.auth_pk {
            Some(pk) => pk,
            None => {
                return Err(ArmError::MissingField("auth_pk"));
            },
        };
        let sig = match &self.auth_sig {
            Some(s) => s,
            None => {
                return Err(ArmError::MissingField("auth_sig"));
            },
        };
        let payload = match &self.encryption_payload {
            Some(p) => p,
            None => {
                return Err(ArmError::MissingField("encryption_payload"));
            },
        };
        let expected_value = persistent_value_ref(pk.as_slice(), payload.as_slice());
        if !eq32(&self.resource.value_ref, &expected_value) {
            return Err(ArmError::ValueRefMismatch);
        }
        if !verify_prehash(pk.as_slice(), sig.as_slice(), &self.action_root) {
            return Err(ArmError::InvalidSignature);
        }
        Ok(app_data_default())
    }

    /// Non-ephemeral create: bind `value_ref` to `(auth_pk, payload)`, check the label,
    /// and emit the resource + discovery payloads.
    fn persistent_create(&self) -> (r: Result<AppData, ArmError>)
        ensures
            app_data_result(r, spec_persistent_create(*self)),
    {
        let pk = match &self.auth_pk {
            Some(pk) => pk,
            None => {
                return Err(ArmError::MissingField("auth_pk"));
            },
        };
        let payload = match &self.encryption_payload {
            Some(p) => p,
            None => {
                return Err(ArmError::MissingField("encryption_payload"));
            },
        };
        let label = match &self.label_info {
            Some(l) => l,
            None => {
                return Err(ArmError::MissingField("label_info"));
            },
        };
        let expected_label = calculate_label_ref(
            label.forwarder_addr.as_slice(),
            label.erc20_token_addr.as_slice(),
        );
        if !eq32(&self.resource.label_ref, &expected_label) {
            return Err(ArmError::LabelRefMismatch);
        }
        let expected_value = persistent_value_ref(pk.as_slice(), payload.as_slice());
        if !eq32(&self.resource.value_ref, &expected_value) {
            return Err(ArmError::ValueRefMismatch);
        }
        let discovery = match &self.discovery_payload {
            Some(d) => copy_bytes(d.as_slice()),
            None => Vec::new(),
        };
        let mut resource_payload: Vec<Payload> = Vec::new();
        resource_payload.push(Payload { data: copy_bytes(payload.as_slice()), deletion_criterion: true });
        let mut discovery_payload: Vec<Payload> = Vec::new();
        discovery_payload.push(Payload { data: discovery, deletion_criterion: true });
        let r = AppData {
            resource_payload,
            encryption_payload: Vec::new(),
            external_payload: Vec::new(),
            discovery_payload,
        };
        assert(r@ =~= (
            seq![(payload@, true)],
            Seq::<(Seq<u8>, bool)>::empty(),
            Seq::<(Seq<u8>, bool)>::empty(),
            seq![(discovery@, true)],
        ));
        Ok(r)
    }
}

} // verus!
