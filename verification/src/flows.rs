//! The witnesses of the three transfer flows (wrap, unwrap and send), the host-side preparation that gives the
//! created resources their nonces and every witness the action root, the
//! authority's signatures over that root, and the compliance witness
//! assembled from a flow.

use k256::ecdsa::signature::hazmat::PrehashSigner;
use k256::ecdsa::{Signature, SigningKey};
use k256::elliptic_curve::sec1::ToEncodedPoint;
use vstd::prelude::*;

use crate::bytes::{append_bytes, be_bytes, usize_be4, write_at, zeros};
use crate::error::ArmError;
use crate::evm::CallType;
use crate::hash::{keccak, keccak256};
use crate::nullifier_key::NullifierKey;
use crate::resource::{key_matches, resource_commitment, resource_nullifier, Resource};
use crate::traits::Resource as ResourceTrait;
use crate::curve::be_nat;
use crate::transfer_auth::{
    calculate_label_ref, ecdsa_prehash_verifies, persistent_value_ref, spec_app_data, spec_tag, transfer_overflows,
    value_ref_from_eth_addr, ForwarderInfo, LabelInfo, PermitInfo, TransferAuthWitness,
};
use crate::tree::{level_view, tree_root, SparseTree};
use crate::instance::{
    commitments_of, consumed_view, created_view, nullifiers_of, ActionInstance,
    ActionVerifierInput, AppData,
};
use crate::tree::Proof as MerkleProof;
use crate::witness::{
    compliance_outcome, consumed_instance_of, keys_match, created_instance_of, expected_nonce, nonce_ok,
    nullifier_bytes, ComplianceWitness, ConsumedWitness, CreatedWitness,
};

verus! {

/// `n` copies of the byte `b`.
pub open spec fn rep(b: u8, n: nat) -> Seq<u8> {
    Seq::new(n, |i: int| b)
}

/// `n` copies of the byte `b`.
fn repeat(b: u8, n: usize) -> (r: Vec<u8>)
    ensures
        r@ == rep(b, n as nat),
{
    let mut r: Vec<u8> = Vec::new();
    let mut i: usize = 0;
    while i < n
        invariant
            i <= n,
            r@ == rep(b, i as nat),
        decreases n - i,
    {
        r.push(b);
        i = i + 1;
        assert(r@ =~= rep(b, i as nat));
    }
    r
}

/// The label plaintext of the flows: forwarder `0x11…`, token `0x22…`.
pub open spec fn flow_label(l: LabelInfo) -> bool {
    l.forwarder_addr@ == rep(0x11, 20) && l.erc20_token_addr@ == rep(0x22, 20)
}

/// The label reference of the flows.
pub open spec fn flow_label_ref() -> Seq<u8> {
    keccak(rep(0x11, 20) + rep(0x22, 20))
}

/// A resource of the flows: quantity 42, the given references,
/// nonce and nullifier key commitment.
pub open spec fn flow_resource(
    r: Resource,
    logic_ref: [u8; 32],
    label_ref: Seq<u8>,
    value_ref: Seq<u8>,
    nonce: Seq<u8>,
    nk_commitment: Seq<u8>,
    is_ephemeral: bool,
) -> bool {
    &&& r.logic_ref == logic_ref
    &&& r.label_ref@ == label_ref
    &&& r.value_ref@ == value_ref
    &&& r.quantity == 42
    &&& r.nonce@ == nonce
    &&& r.nk_commitment@ == nk_commitment
    &&& r.is_ephemeral == is_ephemeral
}

/// The witness fields left unset by a flow builder beyond those named.
pub open spec fn no_authority(w: TransferAuthWitness) -> bool {
    &&& w.auth_pk is None
    &&& w.auth_sig is None
    &&& w.encryption_payload is None
    &&& w.discovery_payload is None
}

/// The witnesses the wrap flow builds.
pub open spec fn wrap_flow_shape(ws: Seq<TransferAuthWitness>, logic_ref: [u8; 32], nk_commitment: Seq<u8>, nk: NullifierKey) -> bool {
    &&& ws.len() == 2
    &&& ({
            let w = ws[0];
            &&& flow_resource(w.resource, logic_ref, flow_label_ref(), zeros(32), rep(4, 32), nk_commitment, true)
            &&& w.is_consumed
            &&& w.action_root@ == zeros(32)
            &&& w.nullifier_key == Some(nk)
            &&& no_authority(w)
            &&& w.label_info matches Some(l) && flow_label(l)
            &&& w.forwarder_info matches Some(f) && {
                &&& f.call_type == CallType::Wrap
                &&& f.hiding_logic_bytes@ == rep(9, 32)
                &&& f.ethereum_account_addr@ == rep(0x33, 20)
                &&& f.permit matches Some(p) && p.permit_nonce@ == zeros(32) && p.permit_deadline@
                    == zeros(32) && p.permit_sig@ == rep(1, 65)
            }
        })
    &&& ({
            let w = ws[1];
            &&& flow_resource(w.resource, logic_ref, flow_label_ref(), keccak(rep(2, 33) + rep(7, 16)), zeros(32), zeros(32), false)
            &&& !w.is_consumed
            &&& w.action_root@ == zeros(32)
            &&& w.nullifier_key is None
            &&& w.auth_pk matches Some(pk) && pk@ == rep(2, 33)
            &&& w.auth_sig is None
            &&& w.encryption_payload matches Some(p) && p@ == rep(7, 16)
            &&& w.discovery_payload is None
            &&& w.label_info matches Some(l) && flow_label(l)
            &&& w.forwarder_info is None
        })
}

/// The witnesses the unwrap flow builds.
pub open spec fn unwrap_flow_shape(ws: Seq<TransferAuthWitness>, logic_ref: [u8; 32], nk_commitment: Seq<u8>, nk: NullifierKey, auth_pk: Seq<u8>) -> bool {
    &&& ws.len() == 2
    &&& ({
            let w = ws[0];
            &&& flow_resource(w.resource, logic_ref, zeros(32), keccak(auth_pk + rep(7, 16)), rep(4, 32), nk_commitment, false)
            &&& w.is_consumed
            &&& w.action_root@ == zeros(32)
            &&& w.nullifier_key == Some(nk)
            &&& w.auth_pk matches Some(pk) && pk@ == auth_pk
            &&& w.auth_sig is None
            &&& w.encryption_payload matches Some(p) && p@ == rep(7, 16)
            &&& w.discovery_payload is None
            &&& w.label_info is None
            &&& w.forwarder_info is None
        })
    &&& ({
            let w = ws[1];
            &&& flow_resource(w.resource, logic_ref, flow_label_ref(), rep(0x33, 20) + zeros(12), zeros(32), zeros(32), true)
            &&& !w.is_consumed
            &&& w.action_root@ == zeros(32)
            &&& w.nullifier_key is None
            &&& no_authority(w)
            &&& w.label_info matches Some(l) && flow_label(l)
            &&& w.forwarder_info matches Some(f) && {
                &&& f.call_type == CallType::Unwrap
                &&& f.hiding_logic_bytes@ == rep(9, 32)
                &&& f.ethereum_account_addr@ == rep(0x33, 20)
                &&& f.permit is None
            }
        })
}

/// The witnesses the send flow builds.
pub open spec fn send_flow_shape(ws: Seq<TransferAuthWitness>, logic_ref: [u8; 32], nk_commitment: Seq<u8>, nk: NullifierKey, auth_pk: Seq<u8>) -> bool {
    &&& ws.len() == 2
    &&& ({
            let w = ws[0];
            &&& flow_resource(w.resource, logic_ref, zeros(32), keccak(auth_pk + rep(7, 16)), rep(4, 32), nk_commitment, false)
            &&& w.is_consumed
            &&& w.action_root@ == zeros(32)
            &&& w.nullifier_key == Some(nk)
            &&& w.auth_pk matches Some(pk) && pk@ == auth_pk
            &&& w.auth_sig is None
            &&& w.encryption_payload matches Some(p) && p@ == rep(7, 16)
            &&& w.discovery_payload is None
            &&& w.label_info is None
            &&& w.forwarder_info is None
        })
    &&& ({
            let w = ws[1];
            &&& flow_resource(w.resource, logic_ref, flow_label_ref(), keccak(auth_pk + rep(7, 16)), zeros(32), zeros(32), false)
            &&& !w.is_consumed
            &&& w.action_root@ == zeros(32)
            &&& w.nullifier_key is None
            &&& w.auth_pk matches Some(pk) && pk@ == auth_pk
            &&& w.auth_sig is None
            &&& w.encryption_payload matches Some(p) && p@ == rep(7, 16)
            &&& w.discovery_payload is None
            &&& w.label_info matches Some(l) && flow_label(l)
            &&& w.forwarder_info is None
        })
}

fn flow_label_info() -> (l: LabelInfo)
    ensures
        flow_label(l),
{
    LabelInfo { forwarder_addr: repeat(0x11, 20), erc20_token_addr: repeat(0x22, 20) }
}

fn flow_label_ref_exec() -> (r: [u8; 32])
    ensures
        r@ == flow_label_ref(),
{
    let fwd = repeat(0x11, 20);
    let token = repeat(0x22, 20);
    calculate_label_ref(fwd.as_slice(), token.as_slice())
}

/// Wrap: consume an ephemeral wrap resource (Permit2 forwarded, unverified in-circuit),
/// create the persistent wrapped-token resource (value_ref binds `keccak(pk‖payload)`,
/// no signature). `action_root` + the created `nonce` are placeholders filled by
/// `prepare_flow`.
pub fn wrap_witnesses(logic_ref: [u8; 32], nk_commitment: [u8; 32], nk: &NullifierKey) -> (r: Vec<
    TransferAuthWitness,
>)
    ensures
        wrap_flow_shape(r@, logic_ref, nk_commitment@, *nk),
{
    let label_ref = flow_label_ref_exec();
    let zero = [0u8; 32];
    assert(zero@ =~= zeros(32));
    let four = [4u8; 32];
    assert(four@ =~= rep(4, 32));
    let nine = [9u8; 32];
    assert(nine@ =~= rep(9, 32));
    let consumed = TransferAuthWitness {
        resource: Resource {
            logic_ref,
            label_ref,
            value_ref: zero,  // unchecked for wrap
            quantity: 42,
            nonce: four,
            nk_commitment,
            is_ephemeral: true,
        },
        is_consumed: true,
        action_root: zero,
        nullifier_key: Some(NullifierKey { bytes: nk.bytes }),
        auth_pk: None,
        auth_sig: None,
        encryption_payload: None,
        discovery_payload: None,
        label_info: Some(flow_label_info()),
        forwarder_info: Some(
            ForwarderInfo {
                call_type: CallType::Wrap,
                hiding_logic_bytes: nine,
                ethereum_account_addr: repeat(0x33, 20),
                permit: Some(
                    PermitInfo {
                        permit_nonce: repeat(0, 32),
                        permit_deadline: repeat(0, 32),
                        permit_sig: repeat(1, 65),
                    },
                ),
            },
        ),
    };
    assert(rep(0, 32) =~= zeros(32));
    let auth_pk = repeat(2, 33);
    let payload = repeat(7, 16);
    let value_ref = persistent_value_ref(auth_pk.as_slice(), payload.as_slice());
    let created = TransferAuthWitness {
        resource: Resource {
            logic_ref,
            label_ref,
            value_ref,
            quantity: 42,
            nonce: zero,  // filled by prepare_flow
            nk_commitment: zero,
            is_ephemeral: false,
        },
        is_consumed: false,
        action_root: zero,
        nullifier_key: None,
        auth_pk: Some(auth_pk),
        auth_sig: None,
        encryption_payload: Some(payload),
        discovery_payload: None,
        label_info: Some(flow_label_info()),
        forwarder_info: None,
    };
    let mut r: Vec<TransferAuthWitness> = Vec::new();
    r.push(consumed);
    r.push(created);
    r
}

/// Unwrap: consume a persistent resource (its `auth_sig` over the action root
/// is added by the caller once the root is known), create the ephemeral
/// unwrap resource (value_ref = the eth address; Unwrap forwarder calldata).
pub fn unwrap_witnesses(
    logic_ref: [u8; 32],
    nk_commitment: [u8; 32],
    nk: &NullifierKey,
    auth_pk: &[u8],
) -> (r: Vec<TransferAuthWitness>)
    ensures
        unwrap_flow_shape(r@, logic_ref, nk_commitment@, *nk, auth_pk@),
{
    let payload = repeat(7, 16);
    let pk_value_ref = persistent_value_ref(auth_pk, payload.as_slice());
    let label_ref = flow_label_ref_exec();
    let eth_addr = repeat(0x33, 20);
    let eth_value_ref = value_ref_from_eth_addr(eth_addr.as_slice());
    let zero = [0u8; 32];
    assert(zero@ =~= zeros(32));
    let four = [4u8; 32];
    assert(four@ =~= rep(4, 32));
    let nine = [9u8; 32];
    assert(nine@ =~= rep(9, 32));
    let consumed = TransferAuthWitness {
        resource: Resource {
            logic_ref,
            label_ref: zero,  // persistent_consume doesn't check the label
            value_ref: pk_value_ref,
            quantity: 42,
            nonce: four,
            nk_commitment,
            is_ephemeral: false,
        },
        is_consumed: true,
        action_root: zero,
        nullifier_key: Some(NullifierKey { bytes: nk.bytes }),
        auth_pk: Some(crate::instance::copy_bytes(auth_pk)),
        auth_sig: None,  // added once the action root is known
        encryption_payload: Some(payload),
        discovery_payload: None,
        label_info: None,
        forwarder_info: None,
    };
    let created = TransferAuthWitness {
        resource: Resource {
            logic_ref,
            label_ref,
            value_ref: eth_value_ref,
            quantity: 42,
            nonce: zero,
            nk_commitment: zero,
            is_ephemeral: true,
        },
        is_consumed: false,
        action_root: zero,
        nullifier_key: None,
        auth_pk: None,
        auth_sig: None,
        encryption_payload: None,
        discovery_payload: None,
        label_info: Some(flow_label_info()),
        forwarder_info: Some(
            ForwarderInfo {
                call_type: CallType::Unwrap,
                hiding_logic_bytes: nine,
                ethereum_account_addr: eth_addr,
                permit: None,
            },
        ),
    };
    let mut r: Vec<TransferAuthWitness> = Vec::new();
    r.push(consumed);
    r.push(created);
    r
}

/// Direct send: consume a persistent resource (signed by the caller once the
/// action root is known), create a persistent resource (binds value_ref +
/// label, no signature).
pub fn send_witnesses(
    logic_ref: [u8; 32],
    nk_commitment: [u8; 32],
    nk: &NullifierKey,
    auth_pk: &[u8],
) -> (r: Vec<TransferAuthWitness>)
    ensures
        send_flow_shape(r@, logic_ref, nk_commitment@, *nk, auth_pk@),
{
    let payload = repeat(7, 16);
    let value_ref = persistent_value_ref(auth_pk, payload.as_slice());
    let label_ref = flow_label_ref_exec();
    let zero = [0u8; 32];
    assert(zero@ =~= zeros(32));
    let four = [4u8; 32];
    assert(four@ =~= rep(4, 32));
    let consumed = TransferAuthWitness {
        resource: Resource {
            logic_ref,
            label_ref: zero,  // persistent_consume doesn't check the label
            value_ref,
            quantity: 42,
            nonce: four,
            nk_commitment,
            is_ephemeral: false,
        },
        is_consumed: true,
        action_root: zero,
        nullifier_key: Some(NullifierKey { bytes: nk.bytes }),
        auth_pk: Some(crate::instance::copy_bytes(auth_pk)),
        auth_sig: None,  // added once the action root is known
        encryption_payload: Some(crate::instance::copy_bytes(payload.as_slice())),
        discovery_payload: None,
        label_info: None,
        forwarder_info: None,
    };
    let created = TransferAuthWitness {
        resource: Resource {
            logic_ref,
            label_ref,
            value_ref,
            quantity: 42,
            nonce: zero,
            nk_commitment: zero,
            is_ephemeral: false,
        },
        is_consumed: false,
        action_root: zero,
        nullifier_key: None,
        auth_pk: Some(crate::instance::copy_bytes(auth_pk)),
        auth_sig: None,
        encryption_payload: Some(payload),
        discovery_payload: None,
        label_info: Some(flow_label_info()),
        forwarder_info: None,
    };
    let mut r: Vec<TransferAuthWitness> = Vec::new();
    r.push(consumed);
    r.push(created);
    r
}

/// Every consumed witness carries the nullifier key its resource is committed to.
pub open spec fn consumed_keys_ok(ws: Seq<TransferAuthWitness>) -> bool {
    forall|i: int|
        0 <= i < ws.len() && (#[trigger] ws[i]).is_consumed ==> (ws[i].nullifier_key matches Some(
            nk,
        ) && key_matches(ws[i].resource, nk.bytes@))
}

/// The nullifiers of the consumed witnesses, in their order.
pub open spec fn flow_nullifiers(ws: Seq<TransferAuthWitness>) -> Seq<Seq<u8>>
    decreases ws.len(),
{
    if ws.len() == 0 {
        Seq::empty()
    } else {
        let w = ws.last();
        let rest = flow_nullifiers(ws.drop_last());
        if w.is_consumed {
            rest.push(resource_nullifier(w.resource, w.nullifier_key->0.bytes@))
        } else {
            rest
        }
    }
}

/// The resources of the created witnesses, in their order.
pub open spec fn created_resources(ws: Seq<TransferAuthWitness>) -> Seq<Resource>
    decreases ws.len(),
{
    if ws.len() == 0 {
        Seq::empty()
    } else {
        let w = ws.last();
        let rest = created_resources(ws.drop_last());
        if w.is_consumed {
            rest
        } else {
            rest.push(w.resource)
        }
    }
}

/// The commitments of the created witnesses' resources, in their order.
pub open spec fn created_commitments(ws: Seq<TransferAuthWitness>) -> Seq<Seq<u8>> {
    created_resources(ws).map_values(|r: Resource| resource_commitment(r))
}

/// How many created witnesses come before index `i`.
pub open spec fn created_rank(ws: Seq<TransferAuthWitness>, i: int) -> nat {
    created_resources(ws.take(i)).len()
}

/// The byte strings of `s`, one after the other.
pub open spec fn joined(s: Seq<Seq<u8>>) -> Seq<u8>
    decreases s.len(),
{
    if s.len() == 0 {
        Seq::empty()
    } else {
        joined(s.drop_last()) + s.last()
    }
}

/// `after` is `before` with the action root `root` and, for a created
/// witness, the nonce `nonce`; nothing else differs.
pub open spec fn prepared_witness(
    before: TransferAuthWitness,
    after: TransferAuthWitness,
    root: Seq<u8>,
    nonce: Seq<u8>,
) -> bool {
    &&& after.action_root@ == root
    &&& after.resource.nonce@ == (if before.is_consumed {
        before.resource.nonce@
    } else {
        nonce
    })
    &&& after == (TransferAuthWitness {
        action_root: after.action_root,
        resource: Resource { nonce: after.resource.nonce, ..before.resource },
        ..before
    })
}

proof fn lemma_created_resources_same(a: Seq<TransferAuthWitness>, b: Seq<TransferAuthWitness>)
    requires
        a.len() == b.len(),
        forall|i: int|
            0 <= i < a.len() ==> (#[trigger] a[i]).resource == b[i].resource && a[i].is_consumed
                == b[i].is_consumed,
    ensures
        created_resources(a) == created_resources(b),
    decreases a.len(),
{
    if a.len() > 0 {
        lemma_created_resources_same(a.drop_last(), b.drop_last());
        assert(a.last() == a[a.len() - 1]);
    }
}

/// The nullifiers of the consumed witnesses, as a list and joined.
fn consumed_nullifiers(witnesses: &Vec<TransferAuthWitness>) -> (r: (Vec<[u8; 32]>, Vec<u8>))
    requires
        consumed_keys_ok(witnesses@),
    ensures
        level_view(r.0@) == flow_nullifiers(witnesses@),
        r.1@ == joined(flow_nullifiers(witnesses@)),
{
    let ghost start = witnesses@;
    let n = witnesses.len();
    let mut nullifiers: Vec<[u8; 32]> = Vec::new();
    let mut flat: Vec<u8> = Vec::new();
    let mut i: usize = 0;
    while i < n
        invariant
            n == start.len(),
            witnesses@ == start,
            i <= n,
            consumed_keys_ok(start),
            level_view(nullifiers@) == flow_nullifiers(start.subrange(0, i as int)),
            flat@ == joined(flow_nullifiers(start.subrange(0, i as int))),
        decreases n - i,
    {
        let ghost prev = start.subrange(0, i as int);
        assert(start.subrange(0, i + 1).drop_last() =~= prev);
        assert(start.subrange(0, i + 1).last() == start[i as int]);
        if witnesses[i].is_consumed {
            assert(start[i as int].is_consumed);
            let nk = witnesses[i].nullifier_key.as_ref().unwrap();
            let nf = match witnesses[i].resource.nullify(nk) {
                Ok(x) => x,
                Err(_) => {
                    proof {
                        assert(false);
                    }
                    [0u8; 32]
                },
            };
            nullifiers.push(nf);
            append_bytes(&mut flat, &nf);
            let ghost cur = flow_nullifiers(start.subrange(0, i + 1));
            assert(cur == flow_nullifiers(prev).push(nf@));
            assert(level_view(nullifiers@) =~= cur);
            assert(cur.drop_last() =~= flow_nullifiers(prev));
        } else {
            assert(flow_nullifiers(start.subrange(0, i + 1)) == flow_nullifiers(prev));
        }
        i = i + 1;
    }
    assert(start.subrange(0, n as int) =~= start);
    (nullifiers, flat)
}

/// The nonce of the created resource of rank `index`: the digest of the
/// joined nullifiers, the rank in four big-endian bytes and 28 zero bytes.
fn created_nonce(flat: &[u8], index: usize) -> (r: [u8; 32])
    ensures
        r@ == expected_nonce(flat@, index as nat),
{
    let rank = usize_be4(index);
    let mut pre: Vec<u8> = Vec::new();
    append_bytes(&mut pre, flat);
    append_bytes(&mut pre, &rank);
    let pad = [0u8; 28];
    append_bytes(&mut pre, &pad);
    assert(pad@ =~= zeros(28));
    keccak256(pre.as_slice())
}

/// Gives every created resource the nonce of its rank and returns the
/// commitments of the created resources, in order.
fn assign_nonces(witnesses: &mut Vec<TransferAuthWitness>, flat: &[u8]) -> (tags: Vec<[u8; 32]>)
    ensures
        final(witnesses)@.len() == old(witnesses)@.len(),
        forall|k: int|
            0 <= k < old(witnesses)@.len() ==> prepared_witness(
                old(witnesses)@[k],
                #[trigger] final(witnesses)@[k],
                old(witnesses)@[k].action_root@,
                expected_nonce(flat@, created_rank(old(witnesses)@, k)),
            ),
        level_view(tags@) == created_commitments(final(witnesses)@),
{
    proof {
        }
    let ghost start = witnesses@;
    let n = witnesses.len();
    let mut created_tags: Vec<[u8; 32]> = Vec::new();
    let mut index: usize = 0;
    let mut j: usize = 0;
    while j < n
        invariant
            n == witnesses@.len(),
            n == start.len(),
            j <= n,
            index == created_rank(start, j as int),
            index <= j,
            forall|k: int| j <= k < n ==> #[trigger] witnesses@[k] == start[k],
            forall|k: int|
                0 <= k < j ==> prepared_witness(
                    start[k],
                    #[trigger] witnesses@[k],
                    start[k].action_root@,
                    expected_nonce(flat@, created_rank(start, k)),
                ),
            level_view(created_tags@) == created_commitments(witnesses@.subrange(0, j as int)),
        decreases n - j,
    {
        let ghost before = witnesses@;
        assert(before.subrange(0, j + 1).drop_last() =~= before.subrange(0, j as int));
        assert(before.subrange(0, j + 1).last() == before[j as int]);
        assert(before[j as int] == start[j as int]);
        assert(start.take(j + 1).drop_last() =~= start.take(j as int));
        assert(start.take(j + 1).last() == start[j as int]);
        if !witnesses[j].is_consumed {
            let nonce = created_nonce(flat, index);
            witnesses[j].resource.nonce = nonce;
            let tag = witnesses[j].resource.commit();
            created_tags.push(tag);
            proof {
                let after = witnesses@;
                assert(after.subrange(0, j as int) =~= before.subrange(0, j as int));
                assert(after.subrange(0, j + 1).drop_last() =~= after.subrange(0, j as int));
                assert(after.subrange(0, j + 1).last() == after[j as int]);
                let rs = created_resources(after.subrange(0, j as int));
                assert(created_resources(after.subrange(0, j + 1)) == rs.push(
                    after[j as int].resource,
                ));
                assert(rs.push(after[j as int].resource).map_values(
                    |r: Resource| resource_commitment(r),
                ) =~= rs.map_values(|r: Resource| resource_commitment(r)).push(
                    resource_commitment(after[j as int].resource),
                ));
                assert(level_view(created_tags@) =~= created_commitments(
                    after.subrange(0, j + 1),
                ));
            }
            index = index + 1;
        } else {
            assert(level_view(created_tags@) =~= created_commitments(
                before.subrange(0, j + 1),
            ));
        }
        j = j + 1;
    }
    assert(witnesses@.subrange(0, n as int) =~= witnesses@);
    created_tags
}

/// The tags `a` followed by the tags `b`.
fn chain_tags(a: &Vec<[u8; 32]>, b: &Vec<[u8; 32]>) -> (r: Vec<[u8; 32]>)
    ensures
        r@ == a@ + b@,
{
    let mut all: Vec<[u8; 32]> = Vec::new();
    let mut q: usize = 0;
    while q < a.len()
        invariant
            q <= a@.len(),
            all@ == a@.subrange(0, q as int),
        decreases a@.len() - q,
    {
        all.push(a[q]);
        q = q + 1;
        assert(all@ =~= a@.subrange(0, q as int));
    }
    let mut q: usize = 0;
    while q < b.len()
        invariant
            q <= b@.len(),
            all@ == a@ + b@.subrange(0, q as int),
        decreases b@.len() - q,
    {
        all.push(b[q]);
        q = q + 1;
        assert(all@ =~= a@ + b@.subrange(0, q as int));
    }
    assert(all@ =~= a@ + b@);
    all
}

/// Sets the action root of every witness to `root`.
fn set_action_root(witnesses: &mut Vec<TransferAuthWitness>, root: [u8; 32])
    ensures
        final(witnesses)@.len() == old(witnesses)@.len(),
        forall|m: int|
            0 <= m < old(witnesses)@.len() ==> (#[trigger] final(witnesses)@[m]) == (
            TransferAuthWitness { action_root: root, ..old(witnesses)@[m] }),
{
    let ghost mid = witnesses@;
    let n = witnesses.len();
    let mut k: usize = 0;
    while k < n
        invariant
            n == witnesses@.len(),
            n == mid.len(),
            k <= n,
            forall|m: int| k <= m < n ==> #[trigger] witnesses@[m] == mid[m],
            forall|m: int|
                0 <= m < k ==> #[trigger] witnesses@[m] == (TransferAuthWitness {
                    action_root: root,
                    ..mid[m]
                }),
        decreases n - k,
    {
        witnesses[k].action_root = root;
        k = k + 1;
    }
}

/// Fills in what a flow's witnesses can only know once all of them are
/// chosen: each created resource gets the nonce that its rank among the
/// created ones calls for (the digest of the consumed nullifiers followed by
/// the rank in four big-endian bytes and 28 zero bytes), and every witness
/// gets the action root, the root of the tree over the nullifiers followed
/// by the created commitments. Returns the action root.
pub fn prepare_flow(witnesses: &mut Vec<TransferAuthWitness>) -> (action_root: [u8; 32])
    requires
        old(witnesses)@.len() > 0,
        consumed_keys_ok(old(witnesses)@),
    ensures
        final(witnesses)@.len() == old(witnesses)@.len(),
        forall|i: int|
            0 <= i < old(witnesses)@.len() ==> prepared_witness(
                old(witnesses)@[i],
                #[trigger] final(witnesses)@[i],
                action_root@,
                expected_nonce(
                    joined(flow_nullifiers(old(witnesses)@)),
                    created_rank(old(witnesses)@, i),
                ),
            ),
        action_root@ == tree_root(
            flow_nullifiers(old(witnesses)@) + created_commitments(final(witnesses)@),
        ),
{
    let ghost start = witnesses@;
    let (nullifiers, flat) = consumed_nullifiers(witnesses);
    let created_tags = assign_nonces(witnesses, flat.as_slice());
    let ghost mid = witnesses@;
    let all_tags = chain_tags(&nullifiers, &created_tags);
    assert(level_view(all_tags@) =~= level_view(nullifiers@) + level_view(created_tags@));
    proof {
        lemma_prepared_same_flags(start, mid, flat@);
        lemma_created_commitments_same_flags(start, mid);
        assert(level_view(all_tags@).len() == all_tags@.len());
        assert(all_tags@.len() > 0);
    }
    let tree = SparseTree::compute_tree(all_tags.as_slice()).unwrap();
    let root = *tree.root().unwrap();
    set_action_root(witnesses, root);
    proof {
        lemma_root_keeps_prepared(start, mid, witnesses@, root, flat@);
    }
    root
}

proof fn lemma_prepared_same_flags(
    start: Seq<TransferAuthWitness>,
    mid: Seq<TransferAuthWitness>,
    flat: Seq<u8>,
)
    requires
        mid.len() == start.len(),
        forall|k: int|
            0 <= k < start.len() ==> prepared_witness(
                start[k],
                #[trigger] mid[k],
                start[k].action_root@,
                expected_nonce(flat, created_rank(start, k)),
            ),
    ensures
        forall|i: int| 0 <= i < start.len() ==> start[i].is_consumed == (#[trigger] mid[i]).is_consumed,
{
    assert forall|i: int| 0 <= i < start.len() implies start[i].is_consumed
        == (#[trigger] mid[i]).is_consumed by {
        assert(prepared_witness(
            start[i],
            mid[i],
            start[i].action_root@,
            expected_nonce(flat, created_rank(start, i)),
        ));
    }
}

/// Setting the action root keeps what the nonces made of the witnesses.
proof fn lemma_root_keeps_prepared(
    start: Seq<TransferAuthWitness>,
    mid: Seq<TransferAuthWitness>,
    fin: Seq<TransferAuthWitness>,
    root: [u8; 32],
    flat: Seq<u8>,
)
    requires
        mid.len() == start.len(),
        fin.len() == start.len(),
        forall|k: int|
            0 <= k < start.len() ==> prepared_witness(
                start[k],
                #[trigger] mid[k],
                start[k].action_root@,
                expected_nonce(flat, created_rank(start, k)),
            ),
        forall|m: int|
            0 <= m < mid.len() ==> (#[trigger] fin[m]) == (TransferAuthWitness {
                action_root: root,
                ..mid[m]
            }),
    ensures
        forall|i: int|
            0 <= i < start.len() ==> prepared_witness(
                start[i],
                #[trigger] fin[i],
                root@,
                expected_nonce(flat, created_rank(start, i)),
            ),
        created_commitments(fin) == created_commitments(mid),
{
    assert forall|i: int| 0 <= i < mid.len() implies (#[trigger] fin[i]).resource
        == mid[i].resource && fin[i].is_consumed == mid[i].is_consumed by {
        assert(fin[i] == (TransferAuthWitness { action_root: root, ..mid[i] }));
    }
    lemma_created_resources_same(fin, mid);
    assert forall|i: int| 0 <= i < start.len() implies prepared_witness(
        start[i],
        #[trigger] fin[i],
        root@,
        expected_nonce(flat, created_rank(start, i)),
    ) by {
        assert(fin[i] == (TransferAuthWitness { action_root: root, ..mid[i] }));
        assert(prepared_witness(
            start[i],
            mid[i],
            start[i].action_root@,
            expected_nonce(flat, created_rank(start, i)),
        ));
    }
}

/// Only the consumed flags decide how many nullifiers and created
/// commitments a list of witnesses has.
proof fn lemma_created_commitments_same_flags(a: Seq<TransferAuthWitness>, b: Seq<TransferAuthWitness>)
    requires
        a.len() == b.len(),
        forall|i: int| 0 <= i < a.len() ==> a[i].is_consumed == (#[trigger] b[i]).is_consumed,
    ensures
        flow_nullifiers(a).len() + created_resources(b).len() == a.len(),
    decreases a.len(),
{
    if a.len() > 0 {
        lemma_created_commitments_same_flags(a.drop_last(), b.drop_last());
        assert(a.last() == a[a.len() - 1]);
        assert(b.last() == b[b.len() - 1]);
    }
}

/// The joined nullifiers of consumed witnesses are the joined list of
/// their nullifiers.
proof fn lemma_nullifier_bytes_joined(cs: Seq<ConsumedWitness>, ns: Seq<Seq<u8>>)
    requires
        cs.len() == ns.len(),
        forall|c: int|
            0 <= c < cs.len() ==> resource_nullifier(
                (#[trigger] cs[c]).resource,
                cs[c].nullifier_key.bytes@,
            ) == ns[c],
    ensures
        nullifier_bytes(cs) == joined(ns),
    decreases cs.len(),
{
    if cs.len() > 0 {
        lemma_nullifier_bytes_joined(cs.drop_last(), ns.drop_last());
        assert(cs.last() == cs[cs.len() - 1]);
    }
}

/// How many created witnesses a list has depends only on which are consumed.
proof fn lemma_created_len_same(a: Seq<TransferAuthWitness>, b: Seq<TransferAuthWitness>)
    requires
        a.len() == b.len(),
        forall|i: int| 0 <= i < a.len() ==> a[i].is_consumed == (#[trigger] b[i]).is_consumed,
    ensures
        created_resources(a).len() == created_resources(b).len(),
    decreases a.len(),
{
    if a.len() > 0 {
        lemma_created_len_same(a.drop_last(), b.drop_last());
        assert(a.last() == a[a.len() - 1]);
        assert(b.last() == b[b.len() - 1]);
    }
}

/// The ranks of created witnesses depend only on which are consumed.
proof fn lemma_created_rank_same(a: Seq<TransferAuthWitness>, b: Seq<TransferAuthWitness>)
    requires
        a.len() == b.len(),
        forall|i: int| 0 <= i < a.len() ==> a[i].is_consumed == (#[trigger] b[i]).is_consumed,
    ensures
        forall|i: int| 0 <= i <= a.len() ==> #[trigger] created_rank(a, i) == created_rank(b, i),
{
    assert forall|i: int| 0 <= i <= a.len() implies #[trigger] created_rank(a, i) == created_rank(
        b,
        i,
    ) by {
        assert forall|k: int| 0 <= k < i implies a.take(i)[k].is_consumed == (#[trigger] b.take(
            i,
        )[k]).is_consumed by {
            assert(a.take(i)[k] == a[k]);
            assert(b.take(i)[k] == b[k]);
        }
        lemma_created_len_same(a.take(i), b.take(i));
    }
}

/// Every created witness carries the nonce of its rank among the created
/// ones, over the flow's joined nullifiers.
pub open spec fn nonces_assigned(ws: Seq<TransferAuthWitness>) -> bool {
    forall|i: int|
        0 <= i < ws.len() && !(#[trigger] ws[i]).is_consumed ==> ws[i].resource.nonce@
            == expected_nonce(joined(flow_nullifiers(ws)), created_rank(ws, i))
}

/// Up to index `k`, the created resources carry the nonces of their ranks
/// over `base`.
proof fn lemma_created_nonces_prefix(ws: Seq<TransferAuthWitness>, base: Seq<u8>, k: int)
    requires
        0 <= k <= ws.len(),
        forall|i: int|
            0 <= i < ws.len() && !(#[trigger] ws[i]).is_consumed ==> ws[i].resource.nonce@
                == expected_nonce(base, created_rank(ws, i)),
    ensures
        forall|r: int|
            0 <= r < created_resources(ws.take(k)).len() ==> (#[trigger] created_resources(
                ws.take(k),
            )[r]).nonce@ == expected_nonce(base, r as nat),
    decreases k,
{
    if k > 0 {
        lemma_created_nonces_prefix(ws, base, k - 1);
        assert(ws.take(k).drop_last() =~= ws.take(k - 1));
        assert(ws.take(k).last() == ws[k - 1]);
        let prev = created_resources(ws.take(k - 1));
        assert(created_rank(ws, k - 1) == prev.len());
        if ws[k - 1].is_consumed {
            assert(created_resources(ws.take(k)) == prev);
        } else {
            assert(created_resources(ws.take(k)) == prev.push(ws[k - 1].resource));
            assert(ws[k - 1].resource.nonce@ == expected_nonce(base, prev.len()));
        }
    } else {
        assert(ws.take(0) =~= Seq::<TransferAuthWitness>::empty());
    }
}

/// A compliance witness whose consumed side has the nullifiers of a list of
/// witnesses with assigned nonces, in order, and whose created side holds
/// their created resources in order, passes the nonce check at every created
/// index.
pub proof fn lemma_assigned_nonces_pass_compliance(ws: Seq<TransferAuthWitness>, cw: ComplianceWitness)
    requires
        nonces_assigned(ws),
        cw.consumed@.len() == flow_nullifiers(ws).len(),
        forall|c: int|
            0 <= c < cw.consumed@.len() ==> resource_nullifier(
                (#[trigger] cw.consumed@[c]).resource,
                cw.consumed@[c].nullifier_key.bytes@,
            ) == flow_nullifiers(ws)[c],
        cw.created@.len() == created_resources(ws).len(),
        forall|j: int|
            0 <= j < cw.created@.len() ==> (#[trigger] cw.created@[j]).resource == created_resources(
                ws,
            )[j],
    ensures
        forall|j: int| 0 <= j < cw.created@.len() ==> #[trigger] nonce_ok(cw, j),
{
    let base = joined(flow_nullifiers(ws));
    lemma_nullifier_bytes_joined(cw.consumed@, flow_nullifiers(ws));
    lemma_created_nonces_prefix(ws, base, ws.len() as int);
    assert(ws.take(ws.len() as int) =~= ws);
    assert forall|j: int| 0 <= j < cw.created@.len() implies #[trigger] nonce_ok(cw, j) by {
        assert(cw.created@[j].resource == created_resources(ws)[j]);
        assert(created_resources(ws)[j].nonce@ == expected_nonce(base, j as nat));
    }
}

/// After `prepare_flow`, every created witness carries the nonce of its rank.
proof fn lemma_prepared_nonces_assigned(
    before: Seq<TransferAuthWitness>,
    after: Seq<TransferAuthWitness>,
    root: Seq<u8>,
)
    requires
        after.len() == before.len(),
        forall|i: int|
            0 <= i < before.len() ==> prepared_witness(
                before[i],
                #[trigger] after[i],
                root,
                expected_nonce(joined(flow_nullifiers(before)), created_rank(before, i)),
            ),
    ensures
        nonces_assigned(after),
        flow_nullifiers(after) == flow_nullifiers(before),
{
    assert forall|i: int| 0 <= i < before.len() implies (#[trigger] after[i]).is_consumed
        == before[i].is_consumed && (before[i].is_consumed ==> after[i].resource
        == before[i].resource && after[i].nullifier_key == before[i].nullifier_key) by {
        assert(prepared_witness(
            before[i],
            after[i],
            root,
            expected_nonce(joined(flow_nullifiers(before)), created_rank(before, i)),
        ));
        if before[i].is_consumed {
            assert(after[i].resource.nonce =~= before[i].resource.nonce);
        }
    }
    lemma_flow_nullifiers_same(before, after);
    lemma_created_rank_same(before, after);
    assert forall|i: int| 0 <= i < after.len() && !(#[trigger] after[i]).is_consumed implies after[i].resource.nonce@
        == expected_nonce(joined(flow_nullifiers(after)), created_rank(after, i)) by {
        assert(prepared_witness(
            before[i],
            after[i],
            root,
            expected_nonce(joined(flow_nullifiers(before)), created_rank(before, i)),
        ));
        assert(created_rank(before, i) == created_rank(after, i));
    }
}

/// The nonces that `prepare_flow` gives the created resources are the ones
/// the compliance logic checks: a compliance witness whose consumed side has
/// the flow's nullifiers in order, and whose created side holds the flow's
/// prepared created resources in order, passes the nonce check at every
/// created index.
pub proof fn lemma_prepared_nonces_pass_compliance(
    before: Seq<TransferAuthWitness>,
    after: Seq<TransferAuthWitness>,
    root: Seq<u8>,
    cw: ComplianceWitness,
)
    requires
        after.len() == before.len(),
        forall|i: int|
            0 <= i < before.len() ==> prepared_witness(
                before[i],
                #[trigger] after[i],
                root,
                expected_nonce(joined(flow_nullifiers(before)), created_rank(before, i)),
            ),
        cw.consumed@.len() == flow_nullifiers(before).len(),
        forall|c: int|
            0 <= c < cw.consumed@.len() ==> resource_nullifier(
                (#[trigger] cw.consumed@[c]).resource,
                cw.consumed@[c].nullifier_key.bytes@,
            ) == flow_nullifiers(before)[c],
        cw.created@.len() == created_resources(after).len(),
        forall|j: int|
            0 <= j < cw.created@.len() ==> (#[trigger] cw.created@[j]).resource == created_resources(
                after,
            )[j],
    ensures
        forall|j: int| 0 <= j < cw.created@.len() ==> #[trigger] nonce_ok(cw, j),
{
    lemma_prepared_nonces_assigned(before, after, root);
    lemma_assigned_nonces_pass_compliance(after, cw);
}

/// The transfer logic accepts the witness: it runs on it, and both its tag
/// and its application data are computed without error.
pub open spec fn transfer_accepts(w: TransferAuthWitness) -> bool {
    &&& !transfer_overflows(w)
    &&& spec_tag(w) is Ok
    &&& spec_app_data(w) is Ok
}

/// Once prepared, the wrap flow of a nullifier key is accepted by the
/// transfer logic at every witness.
pub proof fn lemma_prepared_wrap_flow_accepted(
    before: Seq<TransferAuthWitness>,
    after: Seq<TransferAuthWitness>,
    root: Seq<u8>,
    logic_ref: [u8; 32],
    nk: NullifierKey,
)
    requires
        wrap_flow_shape(before, logic_ref, keccak(nk.bytes@), nk),
        after.len() == before.len(),
        forall|i: int|
            0 <= i < before.len() ==> prepared_witness(
                before[i],
                #[trigger] after[i],
                root,
                expected_nonce(joined(flow_nullifiers(before)), created_rank(before, i)),
            ),
    ensures
        forall|i: int| 0 <= i < after.len() ==> transfer_accepts(#[trigger] after[i]),
{
    let n0 = expected_nonce(joined(flow_nullifiers(before)), created_rank(before, 0));
    let n1 = expected_nonce(joined(flow_nullifiers(before)), created_rank(before, 1));
    assert(prepared_witness(before[0], after[0], root, n0));
    assert(prepared_witness(before[1], after[1], root, n1));
    assert(rep(0x11, 20).len() == 20);
    assert(rep(0x22, 20).len() == 20);
    assert(rep(0x33, 20).len() == 20);
    assert(rep(1, 65).len() == 65);
    assert(zeros(32).len() == 32);
    assert(transfer_accepts(after[0]));
    assert(transfer_accepts(after[1]));
}

/// The order `n` of the group of secp256k1.
pub open spec fn group_order() -> nat {
    0xFFFFFFFFFFFFFFFFFFFFFFFFFFFFFFFEBAAEDCE6AF48A03BBFD25E8CD0364141nat
}

/// The compressed SEC1 encoding of the public key of the secret scalar
/// given big-endian by `sk`.
pub uninterp spec fn ecdsa_public_key(sk: Seq<u8>) -> Seq<u8>;

/// The ECDSA signature `r ‖ s` (with low `s`, the nonce of RFC 6979) by
/// the secret scalar `sk` of the prehashed message `prehash`; `None` when no
/// signature can be made.
pub uninterp spec fn ecdsa_signature(sk: Seq<u8>, prehash: Seq<u8>) -> Option<Seq<u8>>;

/// The compressed public key of the secret scalar `sk` (`k256`:
/// `SigningKey::from_slice`, `verifying_key`, `to_encoded_point(true)`):
/// `None` exactly when `sk` is zero or not below the group order; the key
/// itself is named, not described.
#[verifier::external_body]
fn public_key_of(sk: &[u8; 32]) -> (r: Option<Vec<u8>>)
    ensures
        r is Some <==> 0 < be_nat(sk@) < group_order(),
        r matches Some(pk) ==> pk@ == ecdsa_public_key(sk@),
{
    match SigningKey::from_slice(sk) {
        Ok(key) => Some(key.verifying_key().as_affine().to_encoded_point(true).as_bytes().to_vec()),
        Err(_) => None,
    }
}

/// Signs a 32-byte prehash with the secret scalar `sk` (`k256`:
/// `SigningKey::from_slice`, `PrehashSigner::sign_prehash`, then
/// `Signature::to_bytes`). The nonce being that of RFC 6979, whether a
/// signature is made and which one depends on `sk` and the prehash alone:
/// the outcome is named. A signature is made only under a valid scalar, and,
/// ECDSA being correct and `k256` making low-`s` signatures, it verifies
/// under the scalar's public key.
#[verifier::external_body]
fn sign_prehash(sk: &[u8; 32], prehash: &[u8; 32]) -> (r: Option<Vec<u8>>)
    ensures
        ecdsa_signature(sk@, prehash@) == (match r {
            Some(sig) => Some(sig@),
            None => None::<Seq<u8>>,
        }),
        r is Some ==> 0 < be_nat(sk@) < group_order(),
        r matches Some(sig) ==> ecdsa_prehash_verifies(ecdsa_public_key(sk@), sig@, prehash@),
{
    let key = match SigningKey::from_slice(sk) {
        Ok(k) => k,
        Err(_) => return None,
    };
    match PrehashSigner::<Signature>::sign_prehash(&key, prehash) {
        Ok(sig) => Some(sig.to_bytes().to_vec()),
        Err(_) => None,
    }
}

/// `after` is `before` signed by `sk`: a persistent consumed witness gets the
/// signature of its action root, which verifies under the public key of
/// `sk`; every other witness is left as it is.
pub open spec fn signed_witness(before: TransferAuthWitness, after: TransferAuthWitness, sk: Seq<u8>) -> bool {
    if before.is_consumed && !before.resource.is_ephemeral {
        &&& after.auth_sig matches Some(sig) && ecdsa_signature(sk, before.action_root@) == Some(
            sig@,
        )
            && ecdsa_prehash_verifies(ecdsa_public_key(sk), sig@, before.action_root@)
        &&& after == (TransferAuthWitness { auth_sig: after.auth_sig, ..before })
    } else {
        after == before
    }
}

/// A signature by `sk` can be made of the action root of every persistent
/// consumed witness.
pub open spec fn flow_signable(ws: Seq<TransferAuthWitness>, sk: Seq<u8>) -> bool {
    forall|i: int|
        0 <= i < ws.len() && (#[trigger] ws[i]).is_consumed && !ws[i].resource.is_ephemeral
            ==> ecdsa_signature(sk, ws[i].action_root@) is Some
}

/// Signs the action root of every persistent consumed witness with the
/// secret scalar `sk`, as the authority of those resources does once the
/// root is known. Returns false when a signature could not be made.
pub fn sign_flow(witnesses: &mut Vec<TransferAuthWitness>, sk: &[u8; 32]) -> (ok: bool)
    ensures
        final(witnesses)@.len() == old(witnesses)@.len(),
        ok <==> flow_signable(old(witnesses)@, sk@),
        ok ==> forall|i: int|
            0 <= i < old(witnesses)@.len() ==> signed_witness(
                old(witnesses)@[i],
                #[trigger] final(witnesses)@[i],
                sk@,
            ),
{
    let ghost start = witnesses@;
    let n = witnesses.len();
    let mut i: usize = 0;
    while i < n
        invariant
            n == witnesses@.len(),
            n == start.len(),
            start == old(witnesses)@,
            i <= n,
            forall|k: int| i <= k < n ==> #[trigger] witnesses@[k] == start[k],
            forall|k: int| 0 <= k < i ==> signed_witness(start[k], #[trigger] witnesses@[k], sk@),
        decreases n - i,
    {
        if witnesses[i].is_consumed && !witnesses[i].resource.is_ephemeral {
            let root = witnesses[i].action_root;
            match sign_prehash(sk, &root) {
                Some(sig) => {
                    witnesses[i].auth_sig = Some(sig);
                },
                None => {
                    assert(start[i as int].is_consumed && !start[i as int].resource.is_ephemeral);
                    assert(ecdsa_signature(sk@, start[i as int].action_root@) is None);
                    return false;
                },
            }
        }
        i = i + 1;
    }
    assert forall|k: int|
        0 <= k < start.len() && (#[trigger] start[k]).is_consumed && !start[k].resource.is_ephemeral
            implies ecdsa_signature(sk@, start[k].action_root@) is Some by {
        assert(signed_witness(start[k], witnesses@[k], sk@));
    }
    true
}

/// Once prepared and signed by the secret scalar whose public key it
/// carries, the send flow of a nullifier key is accepted by the transfer
/// logic at every witness.
pub proof fn lemma_signed_send_flow_accepted(
    before: Seq<TransferAuthWitness>,
    prepared: Seq<TransferAuthWitness>,
    signed: Seq<TransferAuthWitness>,
    root: Seq<u8>,
    logic_ref: [u8; 32],
    nk: NullifierKey,
    sk: Seq<u8>,
)
    requires
        send_flow_shape(before, logic_ref, keccak(nk.bytes@), nk, ecdsa_public_key(sk)),
        prepared.len() == before.len(),
        forall|i: int|
            0 <= i < before.len() ==> prepared_witness(
                before[i],
                #[trigger] prepared[i],
                root,
                expected_nonce(joined(flow_nullifiers(before)), created_rank(before, i)),
            ),
        signed.len() == prepared.len(),
        forall|i: int| 0 <= i < prepared.len() ==> signed_witness(prepared[i], #[trigger] signed[i], sk),
    ensures
        forall|i: int| 0 <= i < signed.len() ==> transfer_accepts(#[trigger] signed[i]),
{
    let n0 = expected_nonce(joined(flow_nullifiers(before)), created_rank(before, 0));
    let n1 = expected_nonce(joined(flow_nullifiers(before)), created_rank(before, 1));
    assert(prepared_witness(before[0], prepared[0], root, n0));
    assert(prepared_witness(before[1], prepared[1], root, n1));
    assert(signed_witness(prepared[0], signed[0], sk));
    assert(signed_witness(prepared[1], signed[1], sk));
    assert(rep(0x11, 20).len() == 20);
    assert(rep(0x22, 20).len() == 20);
    assert(transfer_accepts(signed[0]));
    assert(transfer_accepts(signed[1]));
}

/// Once prepared and signed by the secret scalar whose public key it
/// carries, the unwrap flow of a nullifier key is accepted by the transfer
/// logic at every witness.
pub proof fn lemma_signed_unwrap_flow_accepted(
    before: Seq<TransferAuthWitness>,
    prepared: Seq<TransferAuthWitness>,
    signed: Seq<TransferAuthWitness>,
    root: Seq<u8>,
    logic_ref: [u8; 32],
    nk: NullifierKey,
    sk: Seq<u8>,
)
    requires
        unwrap_flow_shape(before, logic_ref, keccak(nk.bytes@), nk, ecdsa_public_key(sk)),
        prepared.len() == before.len(),
        forall|i: int|
            0 <= i < before.len() ==> prepared_witness(
                before[i],
                #[trigger] prepared[i],
                root,
                expected_nonce(joined(flow_nullifiers(before)), created_rank(before, i)),
            ),
        signed.len() == prepared.len(),
        forall|i: int| 0 <= i < prepared.len() ==> signed_witness(prepared[i], #[trigger] signed[i], sk),
    ensures
        forall|i: int| 0 <= i < signed.len() ==> transfer_accepts(#[trigger] signed[i]),
{
    let n0 = expected_nonce(joined(flow_nullifiers(before)), created_rank(before, 0));
    let n1 = expected_nonce(joined(flow_nullifiers(before)), created_rank(before, 1));
    assert(prepared_witness(before[0], prepared[0], root, n0));
    assert(prepared_witness(before[1], prepared[1], root, n1));
    assert(signed_witness(prepared[0], signed[0], sk));
    assert(signed_witness(prepared[1], signed[1], sk));
    assert(rep(0x11, 20).len() == 20);
    assert(rep(0x22, 20).len() == 20);
    assert(rep(0x33, 20).len() == 20);
    assert(transfer_accepts(signed[0]));
    assert(transfer_accepts(signed[1]));
}

/// The nullifiers of a flow depend only on which witnesses are consumed and
/// on their resources and keys.
proof fn lemma_flow_nullifiers_same(a: Seq<TransferAuthWitness>, b: Seq<TransferAuthWitness>)
    requires
        a.len() == b.len(),
        forall|i: int|
            0 <= i < a.len() ==> (#[trigger] b[i]).is_consumed == a[i].is_consumed && (
            a[i].is_consumed ==> b[i].resource == a[i].resource && b[i].nullifier_key
                == a[i].nullifier_key),
    ensures
        flow_nullifiers(a) == flow_nullifiers(b),
    decreases a.len(),
{
    if a.len() > 0 {
        lemma_flow_nullifiers_same(a.drop_last(), b.drop_last());
        assert(b.last() == b[b.len() - 1]);
    }
}

/// Preparing and then signing a flow keeps its tags: the nullifiers of the
/// flow as built, followed by the commitments of the created resources.
proof fn lemma_prepared_signed_tags(
    before: Seq<TransferAuthWitness>,
    prepared: Seq<TransferAuthWitness>,
    signed: Seq<TransferAuthWitness>,
    root: Seq<u8>,
    sk: Seq<u8>,
)
    requires
        prepared.len() == before.len(),
        forall|i: int|
            0 <= i < before.len() ==> prepared_witness(
                before[i],
                #[trigger] prepared[i],
                root,
                expected_nonce(joined(flow_nullifiers(before)), created_rank(before, i)),
            ),
        signed.len() == prepared.len(),
        forall|i: int| 0 <= i < prepared.len() ==> signed_witness(prepared[i], #[trigger] signed[i], sk),
    ensures
        flow_nullifiers(signed) == flow_nullifiers(before),
        created_commitments(signed) == created_commitments(prepared),
        forall|i: int| 0 <= i < signed.len() ==> (#[trigger] signed[i]).action_root@ == root,
{
    assert forall|i: int| 0 <= i < before.len() implies (#[trigger] signed[i]).is_consumed
        == before[i].is_consumed && (before[i].is_consumed ==> signed[i].resource
        == before[i].resource && signed[i].nullifier_key == before[i].nullifier_key) by {
        assert(prepared_witness(
            before[i],
            prepared[i],
            root,
            expected_nonce(joined(flow_nullifiers(before)), created_rank(before, i)),
        ));
        assert(signed_witness(prepared[i], signed[i], sk));
        if before[i].is_consumed {
            assert(prepared[i].resource.nonce@ == before[i].resource.nonce@);
            assert(prepared[i].resource.nonce =~= before[i].resource.nonce);
        }
    }
    lemma_flow_nullifiers_same(before, signed);
    assert forall|i: int| 0 <= i < prepared.len() implies (#[trigger] signed[i]).resource
        == prepared[i].resource && signed[i].is_consumed == prepared[i].is_consumed
        && signed[i].action_root@ == root by {
        assert(prepared_witness(
            before[i],
            prepared[i],
            root,
            expected_nonce(joined(flow_nullifiers(before)), created_rank(before, i)),
        ));
        assert(signed_witness(prepared[i], signed[i], sk));
    }
    lemma_created_resources_same(signed, prepared);
}

/// The three transfer flows.
#[derive(Debug, Clone, Copy, PartialEq, Eq, Structural)]
pub enum TransferFlow {
    Wrap,
    Unwrap,
    Send,
}

/// What a built flow is: a consumed then a created witness, sharing the
/// action root `root`, the root of the tree over the flow's nullifiers and
/// created commitments, with the created nonce of its rank, each accepted by
/// the transfer logic.
pub open spec fn built_flow(ws: Seq<TransferAuthWitness>, root: Seq<u8>) -> bool {
    &&& ws.len() == 2
    &&& ws[0].is_consumed
    &&& !ws[1].is_consumed
    &&& forall|i: int| 0 <= i < ws.len() ==> (#[trigger] ws[i]).action_root@ == root
    &&& root == tree_root(flow_nullifiers(ws) + created_commitments(ws))
    &&& nonces_assigned(ws)
    &&& forall|i: int| 0 <= i < ws.len() ==> transfer_accepts(#[trigger] ws[i])
}

/// Signing keeps the nonces of a flow assigned.
proof fn lemma_signed_keeps_nonces(
    prepared: Seq<TransferAuthWitness>,
    signed: Seq<TransferAuthWitness>,
    sk: Seq<u8>,
)
    requires
        nonces_assigned(prepared),
        signed.len() == prepared.len(),
        forall|i: int| 0 <= i < prepared.len() ==> signed_witness(prepared[i], #[trigger] signed[i], sk),
    ensures
        nonces_assigned(signed),
{
    assert forall|i: int| 0 <= i < prepared.len() implies (#[trigger] signed[i]).is_consumed
        == prepared[i].is_consumed && signed[i].resource == prepared[i].resource
        && signed[i].nullifier_key == prepared[i].nullifier_key by {
        assert(signed_witness(prepared[i], signed[i], sk));
    }
    lemma_flow_nullifiers_same(prepared, signed);
    lemma_created_rank_same(prepared, signed);
    assert forall|i: int| 0 <= i < signed.len() && !(#[trigger] signed[i]).is_consumed implies signed[i].resource.nonce@
        == expected_nonce(joined(flow_nullifiers(signed)), created_rank(signed, i)) by {
        assert(created_rank(prepared, i) == created_rank(signed, i));
        assert(!prepared[i].is_consumed);
    }
}

/// `prepared` is the witnesses of `flow` for the logic `logic_ref`, the
/// nullifier key `nk` and the authority whose secret scalar is `sk`, as built
/// (`before`), then prepared: with their nonces and the action root `root`,
/// the root of the tree over the flow's nullifiers and created commitments.
pub open spec fn prepared_flow(
    flow: TransferFlow,
    before: Seq<TransferAuthWitness>,
    prepared: Seq<TransferAuthWitness>,
    root: Seq<u8>,
    logic_ref: [u8; 32],
    nk: NullifierKey,
    sk: Seq<u8>,
) -> bool {
    &&& match flow {
        TransferFlow::Wrap => wrap_flow_shape(before, logic_ref, keccak(nk.bytes@), nk),
        TransferFlow::Unwrap => unwrap_flow_shape(
            before,
            logic_ref,
            keccak(nk.bytes@),
            nk,
            ecdsa_public_key(sk),
        ),
        TransferFlow::Send => send_flow_shape(
            before,
            logic_ref,
            keccak(nk.bytes@),
            nk,
            ecdsa_public_key(sk),
        ),
    }
    &&& prepared.len() == before.len()
    &&& forall|i: int|
        0 <= i < before.len() ==> prepared_witness(
            before[i],
            #[trigger] prepared[i],
            root,
            expected_nonce(joined(flow_nullifiers(before)), created_rank(before, i)),
        )
    &&& root == tree_root(flow_nullifiers(before) + created_commitments(prepared))
}

/// `ws` is `prepared` signed by the secret scalar `sk`.
pub open spec fn signed_from(prepared: Seq<TransferAuthWitness>, ws: Seq<TransferAuthWitness>, sk: Seq<u8>) -> bool {
    &&& ws.len() == prepared.len()
    &&& forall|i: int| 0 <= i < prepared.len() ==> signed_witness(prepared[i], #[trigger] ws[i], sk)
}

/// `ws` is the witnesses of `flow`, as built (`before`), prepared with the
/// action root `root` (`prepared`), then signed by `sk`.
pub open spec fn built_from(
    flow: TransferFlow,
    before: Seq<TransferAuthWitness>,
    prepared: Seq<TransferAuthWitness>,
    ws: Seq<TransferAuthWitness>,
    root: Seq<u8>,
    logic_ref: [u8; 32],
    nk: NullifierKey,
    sk: Seq<u8>,
) -> bool {
    &&& prepared_flow(flow, before, prepared, root, logic_ref, nk, sk)
    &&& signed_from(prepared, ws, sk)
}

/// Builds the witnesses of `flow` for the logic `logic_ref`, the nullifier
/// key `nk` and the authority whose secret scalar is `sk`, then prepares them
/// and signs what the authority must sign, ready for proving. `None` exactly
/// when `sk` is not a valid scalar, or when a signature of the prepared
/// flow's action root cannot be made (a wrap needs none).
pub fn build_flow(flow: TransferFlow, logic_ref: [u8; 32], nk: &NullifierKey, sk: &[u8; 32]) -> (r:
    Option<(Vec<TransferAuthWitness>, [u8; 32])>)
    ensures
        r is Some ==> 0 < be_nat(sk@) < group_order(),
        flow == TransferFlow::Wrap && 0 < be_nat(sk@) < group_order() ==> r is Some,
        r matches Some((ws, root)) ==> built_flow(ws@, root@),
        r matches Some((ws, root)) ==> exists|before: Seq<TransferAuthWitness>, prepared: Seq<TransferAuthWitness>|
            #[trigger] built_from(flow, before, prepared, ws@, root@, logic_ref, *nk, sk@),
        0 < be_nat(sk@) < group_order() ==> exists|
            before: Seq<TransferAuthWitness>,
            prepared: Seq<TransferAuthWitness>,
            root: Seq<u8>,
        |
            #[trigger] prepared_flow(flow, before, prepared, root, logic_ref, *nk, sk@) && (r is Some
                <==> (flow == TransferFlow::Wrap || flow_signable(prepared, sk@))),
{
    let nk_commitment = keccak256(&nk.bytes);
    let auth_pk = match public_key_of(sk) {
        Some(pk) => pk,
        None => return None,
    };
    let mut ws = match flow {
        TransferFlow::Wrap => wrap_witnesses(logic_ref, nk_commitment, nk),
        TransferFlow::Unwrap => unwrap_witnesses(logic_ref, nk_commitment, nk, auth_pk.as_slice()),
        TransferFlow::Send => send_witnesses(logic_ref, nk_commitment, nk, auth_pk.as_slice()),
    };
    let ghost before = ws@;
    proof {
        assert(consumed_keys_ok(before));
    }
    let root = prepare_flow(&mut ws);
    let ghost prepared = ws@;
    proof {
        assert(prepared_flow(flow, before, prepared, root@, logic_ref, *nk, sk@));
    }
    if !sign_flow(&mut ws, sk) {
        proof {
            if flow == TransferFlow::Wrap {
                assert(!(before[1].is_consumed));
                assert(before[0].resource.is_ephemeral);
                assert(prepared_witness(
                    before[0],
                    prepared[0],
                    root@,
                    expected_nonce(joined(flow_nullifiers(before)), created_rank(before, 0)),
                ));
                assert(prepared_witness(
                    before[1],
                    prepared[1],
                    root@,
                    expected_nonce(joined(flow_nullifiers(before)), created_rank(before, 1)),
                ));
            }
        }
        return None;
    }
    proof {
        assert(built_from(flow, before, prepared, ws@, root@, logic_ref, *nk, sk@));
        lemma_prepared_signed_tags(before, prepared, ws@, root@, sk@);
        lemma_prepared_nonces_assigned(before, prepared, root@);
        lemma_signed_keeps_nonces(prepared, ws@, sk@);
        match flow {
            TransferFlow::Wrap => {
                lemma_prepared_wrap_flow_accepted(before, prepared, root@, logic_ref, *nk);
                assert forall|i: int| 0 <= i < ws@.len() implies transfer_accepts(
                    #[trigger] ws@[i],
                ) by {
                    assert(signed_witness(prepared[i], ws@[i], sk@));
                    assert(transfer_accepts(prepared[i]));
                    if i == 0 {
                        assert(prepared[0].resource.is_ephemeral);
                    }
                }
            },
            TransferFlow::Unwrap => {
                lemma_signed_unwrap_flow_accepted(before, prepared, ws@, root@, logic_ref, *nk, sk@);
            },
            TransferFlow::Send => {
                lemma_signed_send_flow_accepted(before, prepared, ws@, root@, logic_ref, *nk, sk@);
            },
        }
    }
    Some((ws, root))
}

/// The consumed witnesses of a list, in order.
pub open spec fn consumed_witnesses(ws: Seq<TransferAuthWitness>) -> Seq<TransferAuthWitness>
    decreases ws.len(),
{
    if ws.len() == 0 {
        Seq::empty()
    } else {
        let rest = consumed_witnesses(ws.drop_last());
        if ws.last().is_consumed {
            rest.push(ws.last())
        } else {
            rest
        }
    }
}

/// The created witnesses of a list, in order.
pub open spec fn created_witnesses(ws: Seq<TransferAuthWitness>) -> Seq<TransferAuthWitness>
    decreases ws.len(),
{
    if ws.len() == 0 {
        Seq::empty()
    } else {
        let rest = created_witnesses(ws.drop_last());
        if ws.last().is_consumed {
            rest
        } else {
            rest.push(ws.last())
        }
    }
}

/// The nullifiers of a flow are those of its consumed witnesses, and its
/// created resources those of its created witnesses.
proof fn lemma_flow_parts(ws: Seq<TransferAuthWitness>)
    ensures
        flow_nullifiers(ws).len() == consumed_witnesses(ws).len(),
        forall|c: int|
            0 <= c < consumed_witnesses(ws).len() ==> flow_nullifiers(ws)[c] == resource_nullifier(
                (#[trigger] consumed_witnesses(ws)[c]).resource,
                consumed_witnesses(ws)[c].nullifier_key->0.bytes@,
            ),
        created_resources(ws).len() == created_witnesses(ws).len(),
        forall|j: int|
            0 <= j < created_witnesses(ws).len() ==> created_resources(ws)[j] == (
            #[trigger] created_witnesses(ws)[j]).resource,
        consumed_witnesses(ws).len() + created_witnesses(ws).len() == ws.len(),
    decreases ws.len(),
{
    if ws.len() > 0 {
        lemma_flow_parts(ws.drop_last());
    }
}

/// A copy of a resource.
fn copy_resource(r: &Resource) -> (c: Resource)
    ensures
        c == *r,
{
    Resource {
        logic_ref: r.logic_ref,
        label_ref: r.label_ref,
        value_ref: r.value_ref,
        quantity: r.quantity,
        nonce: r.nonce,
        nk_commitment: r.nk_commitment,
        is_ephemeral: r.is_ephemeral,
    }
}

/// `x` is the consumed witness of the compliance unit made from the flow's
/// witness `w`, with the application data and logic proof commitment given
/// for it.
pub open spec fn flow_consumed_witness(
    x: ConsumedWitness,
    w: TransferAuthWitness,
    app_data: AppData,
    logic_proof: [u8; 32],
) -> bool {
    &&& x.resource == w.resource
    &&& w.nullifier_key == Some(x.nullifier_key)
    &&& x.path.path@.len() == 0
    &&& x.delta_extra_input@ == rep(7, 32)
    &&& x.logic_hiding_input@ == rep(9, 32)
    &&& x.app_data@ == app_data@
    &&& x.logic_proof == logic_proof
}

/// `x` is the created witness of the compliance unit made from the flow's
/// witness `w`, with the application data and logic proof commitment given
/// for it.
pub open spec fn flow_created_witness(
    x: CreatedWitness,
    w: TransferAuthWitness,
    app_data: AppData,
    logic_proof: [u8; 32],
) -> bool {
    &&& x.resource == w.resource
    &&& x.delta_extra_input@ == rep(8, 32)
    &&& x.logic_hiding_input@ == rep(10, 32)
    &&& x.app_data@ == app_data@
    &&& x.logic_proof == logic_proof
}

/// `cw` is the compliance witness of the flow `ws`: its consumed witnesses,
/// then its created ones, each side in the flow's order, which is also the
/// order of the application data and the logic proof commitments.
pub open spec fn flow_compliance(
    ws: Seq<TransferAuthWitness>,
    app_datas: Seq<AppData>,
    logic_proofs: Seq<[u8; 32]>,
    action_root: [u8; 32],
    cw: ComplianceWitness,
) -> bool {
    &&& cw.action_root == action_root
    &&& cw.consumed@.len() == consumed_witnesses(ws).len()
    &&& forall|c: int|
        0 <= c < cw.consumed@.len() ==> flow_consumed_witness(
            #[trigger] cw.consumed@[c],
            consumed_witnesses(ws)[c],
            app_datas[c],
            logic_proofs[c],
        )
    &&& cw.created@.len() == created_witnesses(ws).len()
    &&& forall|j: int|
        0 <= j < cw.created@.len() ==> flow_created_witness(
            #[trigger] cw.created@[j],
            created_witnesses(ws)[j],
            app_datas[cw.consumed@.len() + j],
            logic_proofs[cw.consumed@.len() + j],
        )
}

/// The compliance witness of a flow, assembled once the logic of every
/// resource is proved: the consumed witnesses, then
/// the created ones, each side in the flow's order, which is also the order
/// of the application data and the logic proof commitments given; empty
/// Merkle paths, and fixed extra inputs and hiding randomness. When the
/// flow's nonces are assigned, it passes the nonce check of the compliance
/// logic at every created index.
pub fn flow_compliance_witness(
    ws: &Vec<TransferAuthWitness>,
    app_datas: &Vec<AppData>,
    logic_proofs: &Vec<[u8; 32]>,
    action_root: [u8; 32],
) -> (r: ComplianceWitness)
    requires
        forall|i: int|
            0 <= i < ws@.len() && (#[trigger] ws@[i]).is_consumed ==> ws@[i].nullifier_key is Some,
        app_datas@.len() == ws@.len(),
        logic_proofs@.len() == ws@.len(),
    ensures
        flow_compliance(ws@, app_datas@, logic_proofs@, action_root, r),
        nonces_assigned(ws@) ==> forall|j: int| 0 <= j < r.created@.len() ==> #[trigger] nonce_ok(r, j),
{
    let n = ws.len();
    let mut consumed: Vec<ConsumedWitness> = Vec::new();
    let mut i: usize = 0;
    while i < n
        invariant
            n == ws@.len(),
            i <= n,
            forall|k: int|
                0 <= k < ws@.len() && (#[trigger] ws@[k]).is_consumed ==> ws@[k].nullifier_key is Some,
            app_datas@.len() == n,
            logic_proofs@.len() == n,
            consumed@.len() == consumed_witnesses(ws@.take(i as int)).len(),
            consumed@.len() <= i,
            forall|c: int|
                0 <= c < consumed@.len() ==> flow_consumed_witness(
                    #[trigger] consumed@[c],
                    consumed_witnesses(ws@.take(i as int))[c],
                    app_datas@[c],
                    logic_proofs@[c],
                ),
        decreases n - i,
    {
        assert(ws@.take(i + 1).drop_last() =~= ws@.take(i as int));
        assert(ws@.take(i + 1).last() == ws@[i as int]);
        if ws[i].is_consumed {
            let pos = consumed.len();
            let w = &ws[i];
            let nk = w.nullifier_key.as_ref().unwrap();
            let x = ConsumedWitness {
                resource: copy_resource(&w.resource),
                nullifier_key: NullifierKey { bytes: nk.bytes },
                path: MerkleProof { path: Vec::new() },
                delta_extra_input: [7u8; 32],
                logic_hiding_input: [9u8; 32],
                app_data: app_datas[pos].copy(),
                logic_proof: logic_proofs[pos],
            };
            assert(x.delta_extra_input@ =~= rep(7, 32));
            assert(x.logic_hiding_input@ =~= rep(9, 32));
            consumed.push(x);
        }
        i = i + 1;
    }
    assert(ws@.take(n as int) =~= ws@);
    proof {
        lemma_flow_parts(ws@);
    }
    let m = consumed.len();
    let mut created: Vec<CreatedWitness> = Vec::new();
    let mut i: usize = 0;
    while i < n
        invariant
            n == ws@.len(),
            i <= n,
            m == consumed_witnesses(ws@).len(),
            m + created_witnesses(ws@).len() == n,
            app_datas@.len() == n,
            logic_proofs@.len() == n,
            created@.len() == created_witnesses(ws@.take(i as int)).len(),
            created@.len() <= i,
            forall|j: int|
                0 <= j < created@.len() ==> flow_created_witness(
                    #[trigger] created@[j],
                    created_witnesses(ws@.take(i as int))[j],
                    app_datas@[m + j],
                    logic_proofs@[m + j],
                ),
        decreases n - i,
    {
        assert(ws@.take(i + 1).drop_last() =~= ws@.take(i as int));
        assert(ws@.take(i + 1).last() == ws@[i as int]);
        if !ws[i].is_consumed {
            proof {
                lemma_created_prefix_len(ws@, i as int);
            }
            let pos = m + created.len();
            let w = &ws[i];
            let x = CreatedWitness {
                resource: copy_resource(&w.resource),
                delta_extra_input: [8u8; 32],
                logic_hiding_input: [10u8; 32],
                app_data: app_datas[pos].copy(),
                logic_proof: logic_proofs[pos],
            };
            assert(x.delta_extra_input@ =~= rep(8, 32));
            assert(x.logic_hiding_input@ =~= rep(10, 32));
            created.push(x);
        }
        i = i + 1;
    }
    assert(ws@.take(n as int) =~= ws@);
    let r = ComplianceWitness { consumed, created, action_root };
    proof {
        lemma_flow_parts(ws@);
        if nonces_assigned(ws@) {
            assert forall|c: int| 0 <= c < r.consumed@.len() implies resource_nullifier(
                (#[trigger] r.consumed@[c]).resource,
                r.consumed@[c].nullifier_key.bytes@,
            ) == flow_nullifiers(ws@)[c] by {
                assert(flow_consumed_witness(
                    r.consumed@[c],
                    consumed_witnesses(ws@)[c],
                    app_datas@[c],
                    logic_proofs@[c],
                ));
            }
            assert forall|j: int| 0 <= j < r.created@.len() implies (
            #[trigger] r.created@[j]).resource == created_resources(ws@)[j] by {
                assert(flow_created_witness(
                    r.created@[j],
                    created_witnesses(ws@)[j],
                    app_datas@[m + j],
                    logic_proofs@[m + j],
                ));
            }
            lemma_assigned_nonces_pass_compliance(ws@, r);
        }
    }
    r
}

/// The created witnesses before index `i` are fewer than the created
/// witnesses in all, when the witness at `i` is created.
proof fn lemma_created_prefix_len(ws: Seq<TransferAuthWitness>, i: int)
    requires
        0 <= i < ws.len(),
        !ws[i].is_consumed,
    ensures
        created_witnesses(ws.take(i)).len() < created_witnesses(ws).len(),
{
    lemma_created_witnesses_monotone(ws, i + 1);
    assert(ws.take(i + 1).drop_last() =~= ws.take(i));
    assert(ws.take(i + 1).last() == ws[i]);
}

proof fn lemma_created_witnesses_monotone(ws: Seq<TransferAuthWitness>, k: int)
    requires
        0 <= k <= ws.len(),
    ensures
        created_witnesses(ws.take(k)).len() <= created_witnesses(ws).len(),
    decreases ws.len() - k,
{
    if k < ws.len() {
        lemma_created_witnesses_monotone(ws, k + 1);
        assert(ws.take(k + 1).drop_last() =~= ws.take(k));
    } else {
        assert(ws.take(k) =~= ws);
    }
}

/// The verifier recomputes the action root of a built flow: when the
/// compliance logic accepts the flow's compliance witness, the tags that a
/// verifier takes from the instance it gives (the consumed nullifiers, then
/// the created commitments) are the flow's nullifiers followed by its created
/// commitments, so their tree has the root that every witness of the flow
/// carries.
pub proof fn lemma_flow_instance_root(
    ws: Seq<TransferAuthWitness>,
    root: Seq<u8>,
    app_datas: Seq<AppData>,
    logic_proofs: Seq<[u8; 32]>,
    action_root: [u8; 32],
    cw: ComplianceWitness,
    a: ActionInstance,
    input: ActionVerifierInput,
)
    requires
        built_flow(ws, root),
        flow_compliance(ws, app_datas, logic_proofs, action_root, cw),
        compliance_outcome(cw, Ok(a)),
        input.consumed@ == a.consumed@,
        input.created@ == a.created@,
    ensures
        level_view(input.spec_tags()) == flow_nullifiers(ws) + created_commitments(ws),
        tree_root(level_view(input.spec_tags())) == root,
{
    lemma_flow_parts(ws);
    let nf = flow_nullifiers(ws);
    let cc = created_commitments(ws);
    assert(cw.consumed@.len() > 0);
    assert(consumed_view(a.consumed@) == cw.consumed@.map_values(
        |c: ConsumedWitness| consumed_instance_of(c),
    ));
    assert(created_view(a.created@) == cw.created@.map_values(
        |c: CreatedWitness| created_instance_of(c),
    ));
    assert forall|c: int| 0 <= c < a.consumed@.len() implies (#[trigger] a.consumed@[c]).nullifier@
        == nf[c] by {
        assert(consumed_view(a.consumed@)[c] == a.consumed@[c]@);
        assert(flow_consumed_witness(
            cw.consumed@[c],
            consumed_witnesses(ws)[c],
            app_datas[c],
            logic_proofs[c],
        ));
    }
    assert forall|j: int| 0 <= j < a.created@.len() implies (#[trigger] a.created@[j]).commitment@
        == cc[j] by {
        assert(created_view(a.created@)[j] == a.created@[j]@);
        assert(flow_created_witness(
            cw.created@[j],
            created_witnesses(ws)[j],
            app_datas[cw.consumed@.len() + j],
            logic_proofs[cw.consumed@.len() + j],
        ));
    }
    assert(level_view(nullifiers_of(a.consumed@)) =~= nf);
    assert(level_view(commitments_of(a.created@)) =~= cc);
    assert(level_view(input.spec_tags()) =~= nf + cc);
}

/// The compliance logic accepts the compliance witness of a built flow:
/// every consumed resource comes with the key it is committed to, and the
/// logic gives an instance, whatever the application data and logic proofs.
pub proof fn lemma_built_flow_compliance_accepted(
    ws: Seq<TransferAuthWitness>,
    root: Seq<u8>,
    app_datas: Seq<AppData>,
    logic_proofs: Seq<[u8; 32]>,
    action_root: [u8; 32],
    cw: ComplianceWitness,
    r: Result<ActionInstance, ArmError>,
)
    requires
        built_flow(ws, root),
        flow_compliance(ws, app_datas, logic_proofs, action_root, cw),
        compliance_outcome(cw, r),
    ensures
        keys_match(cw.consumed@),
        r is Ok,
{
    lemma_flow_parts(ws);
    assert(ws.drop_last().drop_last() =~= Seq::<TransferAuthWitness>::empty());
    assert(ws.drop_last().last() == ws[0]);
    assert(ws.last() == ws[1]);
    reveal_with_fuel(consumed_witnesses, 3);
    reveal_with_fuel(created_witnesses, 3);
    assert(consumed_witnesses(ws) =~= seq![ws[0]]);
    assert(created_witnesses(ws) =~= seq![ws[1]]);
    assert(transfer_accepts(ws[0]));
    assert(flow_consumed_witness(cw.consumed@[0], ws[0], app_datas[0], logic_proofs[0]));
    assert(keys_match(cw.consumed@));
    assert(nonces_assigned(ws));
    lemma_assigned_nonces_pass_compliance(ws, cw);
    assert(nonce_ok(cw, 0));
}

} // verus!
