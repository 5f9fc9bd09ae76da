//! The statement a compliance proof reveals: the Keccak-256 digest of the
//! Solidity ABI encoding of the action instance.

use alloy_sol_types::SolValue;
use vstd::prelude::*;

use crate::curve::{point_x, point_y};
use crate::bytes::zeros;
use crate::error::ArmError;
use crate::hash::{keccak, keccak256};
use crate::instance::{ActionInstanceView, SolActionInstance, SolAppData, SolPayload};
use crate::witness::{
    compliance_outcome, consumed_delta, consumed_instance_of, created_delta, created_instance_of,
    keys_match, nonce_ok, ComplianceWitness, ConsumedWitness, CreatedWitness,
};

verus! {

/// The ABI encoding (`abi_encode` of `alloy_sol_types`) of an action instance
/// as the single value `(SolConsumedInstance[], SolCreatedInstance[],
/// bytes32, bytes32, bytes32, bytes32)`.
pub uninterp spec fn action_instance_abi(v: ActionInstanceView) -> Seq<u8>;

/// ABI-encodes an action instance (`SolValue::abi_encode` of
/// `alloy_sol_types` on the tuple of its fields, each payload a
/// `(bytes, bool)`, each application data a tuple of four payload lists, each
/// 32-byte word a `bytes32`), which encodes as the struct of the same fields.
/// The encoding is named, not described.
#[verifier::external_body]
fn abi_encode_action_instance(i: &SolActionInstance) -> (r: Vec<u8>)
    ensures
        r@ == action_instance_abi(i@),
{
    let p = |v: &Vec<SolPayload>| Vec::from_iter(v.iter().map(|x| (x.data.clone(), x.deletion_criterion)));
    let a = |d: &SolAppData| (p(&d.resource_payload), p(&d.encryption_payload), p(&d.external_payload), p(&d.discovery_payload));
    let c = Vec::from_iter(i.consumed.iter().map(|x| (x.nullifier, x.root, x.outer_logic_ref, a(&x.app_data))));
    let d = Vec::from_iter(i.created.iter().map(|x| (x.commitment, x.outer_logic_ref, a(&x.app_data))));
    (c, d, i.delta_x, i.delta_y, i.kind_table_commitment, i.action_root).abi_encode()
}

/// The action instance the compliance logic gives for `w`, as plain values:
/// the instances of its resources in order, the summed delta's coordinates,
/// no kind table, and the witness's action root.
pub open spec fn compliance_instance_view(w: ComplianceWitness) -> ActionInstanceView {
    let delta = created_delta(consumed_delta(w.consumed@), w.created@);
    (
        w.consumed@.map_values(|c: ConsumedWitness| consumed_instance_of(c)),
        w.created@.map_values(|c: CreatedWitness| created_instance_of(c)),
        point_x(delta),
        point_y(delta),
        zeros(32),
        w.action_root@,
    )
}

/// What the compliance program reveals for `w`: the digest of the ABI
/// encoding of the action instance the compliance logic gives; the logic's
/// error when it refuses the witness.
pub fn compliance_digest(w: &ComplianceWitness) -> (r: Result<[u8; 32], ArmError>)
    requires
        keys_match(w.consumed@),
    ensures
        r is Ok <==> w.consumed@.len() > 0 && forall|j: int|
            0 <= j < w.created@.len() ==> #[trigger] nonce_ok(*w, j),
        r matches Ok(d) ==> d@ == keccak(action_instance_abi(compliance_instance_view(*w))),
        r matches Err(e) ==> compliance_outcome(*w, Err(e)),
{
    match w.constrain() {
        Ok(a) => {
            let s = a.to_sol();
            assert(s@ == compliance_instance_view(*w));
            let bytes = abi_encode_action_instance(&s);
            Ok(keccak256(bytes.as_slice()))
        },
        Err(e) => Err(e),
    }
}

} // verus!
