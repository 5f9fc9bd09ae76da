//! The witness of a compliance unit and the compliance logic: every
//! consumed and created resource is turned into its instance, the nonces of
//! created resources are checked against the consumed nullifiers, and the
//! resources' deltas are summed.

use vstd::prelude::*;

use crate::bytes::{append_bytes, be_bytes, concat32, eq32, le_bytes, lemma_be_bytes_len, usize_be4, write_at, zeros};
use crate::curve::{
    ec_add, ec_mul_le, ec_sub, generator, generator_sec1, point_add, point_mul_le, point_sub,
    point_x, point_y, CurvePoint,
};
use crate::error::ArmError;
use crate::hash::{keccak, keccak256};
use crate::instance::{
    concat_words, consumed_view, created_view, logic_preimage, widened, ActionInstance, AppData,
    AppDataView, ConsumedInstance, ConsumedView, CreatedInstance, CreatedView,
    ResourceLogicInstance,
};
use crate::proving::LOGIC_VM_COMMIT;
use crate::nullifier_key::NullifierKey;
use crate::resource::{
    key_matches, resource_commitment, resource_kind, resource_nullifier, Resource,
};
use crate::traits::Resource as ResourceTrait;
use crate::tree::{path_root, Proof as MerkleProof};

verus! {

/// The witness of a consumed resource.
#[derive(Debug)]
pub struct ConsumedWitness {
    pub resource: Resource,
    pub nullifier_key: NullifierKey,
    pub path: MerkleProof,
    pub delta_extra_input: [u8; 32],
    pub logic_hiding_input: [u8; 32],
    pub app_data: AppData,
    pub logic_proof: [u8; 32],
}

/// The witness of a created resource.
#[derive(Debug)]
pub struct CreatedWitness {
    pub resource: Resource,
    pub delta_extra_input: [u8; 32],
    pub logic_hiding_input: [u8; 32],
    pub app_data: AppData,
    pub logic_proof: [u8; 32],
}

/// The witness of a compliance unit.
#[derive(Debug)]
pub struct ComplianceWitness {
    pub consumed: Vec<ConsumedWitness>,
    pub created: Vec<CreatedWitness>,
    pub action_root: [u8; 32],
}

/// The outer logic reference: the digest of the logic reference followed by
/// the hiding randomness.
pub open spec fn outer_logic_ref(logic_ref: Seq<u8>, randomness: Seq<u8>) -> Seq<u8> {
    keccak(logic_ref + randomness)
}

/// The instance of a consumed resource, as plain values.
pub open spec fn consumed_instance_of(w: ConsumedWitness) -> ConsumedView {
    (
        resource_nullifier(w.resource, w.nullifier_key.bytes@),
        if w.resource.is_ephemeral {
            zeros(32)
        } else {
            path_root(w.path.steps(), resource_commitment(w.resource))
        },
        outer_logic_ref(w.resource.logic_ref@, w.logic_hiding_input@),
        w.app_data@,
    )
}

/// The instance of a created resource, as plain values.
pub open spec fn created_instance_of(w: CreatedWitness) -> CreatedView {
    (
        resource_commitment(w.resource),
        outer_logic_ref(w.resource.logic_ref@, w.logic_hiding_input@),
        w.app_data@,
    )
}

/// The little-endian scalar bytes of a quantity: its 16 bytes, then zeros.
pub open spec fn quantity_scalar(quantity: u128) -> Seq<u8> {
    le_bytes(quantity as nat, 16) + zeros(16)
}

/// The delta of a resource: its kind times its quantity, plus the generator
/// times the extra input.
pub open spec fn resource_delta(r: Resource, extra: Seq<u8>) -> Seq<u8> {
    ec_add(
        ec_mul_le(resource_kind(r.logic_ref@, r.label_ref@), quantity_scalar(r.quantity)),
        ec_mul_le(generator_sec1(), extra),
    )
}

/// The running delta after the consumed resources: each one's delta
/// subtracted from the point at infinity in order.
pub open spec fn consumed_delta(cs: Seq<ConsumedWitness>) -> Seq<u8>
    decreases cs.len(),
{
    if cs.len() == 0 {
        seq![0u8]
    } else {
        ec_sub(
            consumed_delta(cs.drop_last()),
            resource_delta(cs.last().resource, cs.last().delta_extra_input@),
        )
    }
}

/// The running delta after the created resources, starting from `start`:
/// each one's delta added in order.
pub open spec fn created_delta(start: Seq<u8>, ds: Seq<CreatedWitness>) -> Seq<u8>
    decreases ds.len(),
{
    if ds.len() == 0 {
        start
    } else {
        ec_add(
            created_delta(start, ds.drop_last()),
            resource_delta(ds.last().resource, ds.last().delta_extra_input@),
        )
    }
}

/// The nonce the created resource at `index` must carry: the digest of the
/// consumed nullifiers followed by a 32-byte word holding the index as four
/// big-endian bytes.
pub open spec fn expected_nonce(nullifiers: Seq<u8>, index: nat) -> Seq<u8> {
    keccak(nullifiers + be_bytes(index, 4) + zeros(28))
}

/// The four big-endian bytes of a 32-bit value determine it.
proof fn lemma_be4_injective(a: u32, b: u32)
    requires
        be_bytes(a as nat, 4) == be_bytes(b as nat, 4),
    ensures
        a == b,
{
    reveal_with_fuel(be_bytes, 5);
    let sa = be_bytes(a as nat, 4);
    let sb = be_bytes(b as nat, 4);
    assert(sa[3] == sb[3]);
    assert(sa[2] == sb[2]);
    assert(sa[1] == sb[1]);
    assert(sa[0] == sb[0]);
    assert(a % 256 == b % 256);
    assert((a / 256) % 256 == (b / 256) % 256);
    assert((a / 256 / 256) % 256 == (b / 256 / 256) % 256);
    assert((a / 256 / 256 / 256) % 256 == (b / 256 / 256 / 256) % 256);
    assert(a == b) by (bit_vector)
        requires
            a % 256 == b % 256,
            (a / 256) % 256 == (b / 256) % 256,
            (a / 256 / 256) % 256 == (b / 256 / 256) % 256,
            (a / 256 / 256 / 256) % 256 == (b / 256 / 256 / 256) % 256,
    ;
}

/// What a created resource's nonce is the digest of determines the
/// nullifiers and the index (below 2^32) it was made from: two created
/// resources of one compliance unit, or of units with different nullifiers,
/// are asked for digests of different inputs.
pub proof fn lemma_nonce_preimage_injective(n1: Seq<u8>, j: nat, n2: Seq<u8>, k: nat)
    requires
        j < 0x1_0000_0000,
        k < 0x1_0000_0000,
        n1 + be_bytes(j, 4) + zeros(28) == n2 + be_bytes(k, 4) + zeros(28),
    ensures
        n1 == n2,
        j == k,
{
    lemma_be_bytes_len(j, 4);
    lemma_be_bytes_len(k, 4);
    let p1 = n1 + be_bytes(j, 4) + zeros(28);
    let p2 = n2 + be_bytes(k, 4) + zeros(28);
    assert(p1.len() == n1.len() + 32);
    assert(p2.len() == n2.len() + 32);
    assert(n1.len() == n2.len());
    assert(n1 =~= p1.subrange(0, n1.len() as int));
    assert(n2 =~= p2.subrange(0, n2.len() as int));
    assert(be_bytes(j, 4) =~= p1.subrange(n1.len() as int, n1.len() as int + 4));
    assert(be_bytes(k, 4) =~= p2.subrange(n2.len() as int, n2.len() as int + 4));
    lemma_be4_injective(j as u32, k as u32);
}

/// The consumed nullifiers of a witness, concatenated.
pub open spec fn nullifier_bytes(cs: Seq<ConsumedWitness>) -> Seq<u8>
    decreases cs.len(),
{
    if cs.len() == 0 {
        Seq::empty()
    } else {
        nullifier_bytes(cs.drop_last()) + resource_nullifier(
            cs.last().resource,
            cs.last().nullifier_key.bytes@,
        )
    }
}

/// Every consumed resource is committed to the nullifier key it comes with.
pub open spec fn keys_match(cs: Seq<ConsumedWitness>) -> bool {
    forall|i: int| 0 <= i < cs.len() ==> key_matches(#[trigger] cs[i].resource, cs[i].nullifier_key.bytes@)
}

/// The created resource at `j` carries the nonce its index calls for.
pub open spec fn nonce_ok(w: ComplianceWitness, j: int) -> bool {
    w.created@[j].resource.nonce@ == expected_nonce(nullifier_bytes(w.consumed@), j as nat)
}

/// What the compliance logic gives for `w`: refused when nothing is
/// consumed, refused when a created resource's nonce is not the one its index
/// calls for, and otherwise the instances of all resources in order, the
/// summed delta's coordinates, no kind table, and the witness's action root.
pub open spec fn compliance_outcome(w: ComplianceWitness, r: Result<ActionInstance, ArmError>) -> bool {
    if w.consumed@.len() == 0 {
        r == Err::<ActionInstance, ArmError>(ArmError::ComplianceProofEmptyNullifierArray)
    } else if exists|j: int| 0 <= j < w.created@.len() && !nonce_ok(w, j) {
        r == Err::<ActionInstance, ArmError>(ArmError::ComplianceProofCreatedResourceNonceMismatch)
    } else {
        r matches Ok(a) && {
            let delta = created_delta(consumed_delta(w.consumed@), w.created@);
            &&& consumed_view(a.consumed@) == w.consumed@.map_values(
                |c: ConsumedWitness| consumed_instance_of(c),
            )
            &&& created_view(a.created@) == w.created@.map_values(
                |c: CreatedWitness| created_instance_of(c),
            )
            &&& a.delta_x@ == point_x(delta)
            &&& a.delta_y@ == point_y(delta)
            &&& a.kind_table_commitment@ == zeros(32)
            &&& a.action_root == w.action_root
        }
    }
}

/// Consuming one more resource subtracts exactly its delta (kind times
/// quantity, plus the generator times its extra input) from the unit's
/// running delta, whether the resource is ephemeral or persistent; with
/// nothing consumed the delta is the point at infinity.
pub proof fn lemma_consumed_delta_step(cs: Seq<ConsumedWitness>, c: ConsumedWitness)
    ensures
        consumed_delta(Seq::<ConsumedWitness>::empty()) == seq![0u8],
        consumed_delta(cs.push(c)) == ec_sub(
            consumed_delta(cs),
            resource_delta(c.resource, c.delta_extra_input@),
        ),
{
    assert(cs.push(c).drop_last() =~= cs);
    assert(cs.push(c).last() == c);
}

/// Creating one more resource adds exactly its delta to the unit's running
/// delta, whether the resource is ephemeral or persistent; with nothing
/// created the delta is the one the consumed resources left.
pub proof fn lemma_created_delta_step(start: Seq<u8>, ds: Seq<CreatedWitness>, d: CreatedWitness)
    ensures
        created_delta(start, Seq::<CreatedWitness>::empty()) == start,
        created_delta(start, ds.push(d)) == ec_add(
            created_delta(start, ds),
            resource_delta(d.resource, d.delta_extra_input@),
        ),
{
    assert(ds.push(d).drop_last() =~= ds);
    assert(ds.push(d).last() == d);
}

/// A unit that consumes one resource and creates one reveals the
/// coordinates of the created resource's delta minus the consumed one's,
/// whatever their ephemerality.
pub proof fn lemma_one_to_one_delta(w: ComplianceWitness, a: ActionInstance)
    requires
        w.consumed@.len() == 1,
        w.created@.len() == 1,
        compliance_outcome(w, Ok(a)),
    ensures
        ({
            let c = w.consumed@[0];
            let d = w.created@[0];
            let delta = ec_add(
                ec_sub(seq![0u8], resource_delta(c.resource, c.delta_extra_input@)),
                resource_delta(d.resource, d.delta_extra_input@),
            );
            a.delta_x@ == point_x(delta) && a.delta_y@ == point_y(delta)
        }),
{
    lemma_consumed_delta_step(Seq::empty(), w.consumed@[0]);
    lemma_created_delta_step(consumed_delta(Seq::empty()), Seq::empty(), w.created@[0]);
    lemma_created_delta_step(
        consumed_delta(Seq::empty().push(w.consumed@[0])),
        Seq::empty(),
        w.created@[0],
    );
    assert(w.consumed@ =~= Seq::<ConsumedWitness>::empty().push(w.consumed@[0]));
    assert(w.created@ =~= Seq::<CreatedWitness>::empty().push(w.created@[0]));
}

/// Each consumed resource of an accepted unit is revealed by its nullifier
/// under the key it comes with, and by the root its path leads to from its
/// commitment when persistent, 32 zero bytes when ephemeral; each created
/// resource by its commitment.
pub proof fn lemma_unit_instances(w: ComplianceWitness, a: ActionInstance)
    requires
        compliance_outcome(w, Ok(a)),
    ensures
        a.consumed@.len() == w.consumed@.len(),
        a.created@.len() == w.created@.len(),
        forall|k: int| 0 <= k < w.consumed@.len() ==> {
            let c = #[trigger] w.consumed@[k];
            &&& a.consumed@[k].nullifier@ == keccak(
                resource_commitment(c.resource) + c.nullifier_key.bytes@,
            )
            &&& a.consumed@[k].root@ == if c.resource.is_ephemeral {
                zeros(32)
            } else {
                path_root(c.path.steps(), resource_commitment(c.resource))
            }
        },
        forall|k: int| 0 <= k < w.created@.len() ==> (#[trigger] a.created@[k]).commitment@
            == resource_commitment(w.created@[k].resource),
{
    assert(consumed_view(a.consumed@).len() == a.consumed@.len());
    assert(created_view(a.created@).len() == a.created@.len());
    assert forall|k: int| 0 <= k < w.consumed@.len() implies {
        let c = #[trigger] w.consumed@[k];
        &&& a.consumed@[k].nullifier@ == keccak(
            resource_commitment(c.resource) + c.nullifier_key.bytes@,
        )
        &&& a.consumed@[k].root@ == if c.resource.is_ephemeral {
            zeros(32)
        } else {
            path_root(c.path.steps(), resource_commitment(c.resource))
        }
    } by {
        assert(consumed_view(a.consumed@)[k] == a.consumed@[k]@);
    }
    assert forall|k: int| 0 <= k < w.created@.len() implies (#[trigger] a.created@[k]).commitment@
        == resource_commitment(w.created@[k].resource) by {
        assert(created_view(a.created@)[k] == a.created@[k]@);
    }
}

/// The nullifier of a consumed witness under the key it comes with.
pub open spec fn witness_nullifier(c: ConsumedWitness) -> Seq<u8> {
    resource_nullifier(c.resource, c.nullifier_key.bytes@)
}

/// The bytes the created nonces are digests of are the nullifiers of all
/// consumed resources, in order: one more consumed resource appends its
/// nullifier, and the whole is their concatenation.
pub proof fn lemma_nullifier_bytes_all(cs: Seq<ConsumedWitness>, c: ConsumedWitness)
    ensures
        nullifier_bytes(Seq::<ConsumedWitness>::empty()) == Seq::<u8>::empty(),
        nullifier_bytes(cs.push(c)) == nullifier_bytes(cs) + witness_nullifier(c),
        nullifier_bytes(cs) == cs.map_values(|x: ConsumedWitness| witness_nullifier(x)).flatten(),
    decreases cs.len(),
{
    assert(cs.push(c).drop_last() =~= cs);
    let m = cs.map_values(|x: ConsumedWitness| witness_nullifier(x));
    m.lemma_flatten_and_flatten_alt_are_equivalent();
    if cs.len() > 0 {
        lemma_nullifier_bytes_all(cs.drop_last(), cs.last());
        assert(m.drop_last() =~= cs.drop_last().map_values(|x: ConsumedWitness| witness_nullifier(x)));
        m.drop_last().lemma_flatten_and_flatten_alt_are_equivalent();
    }
}

/// Every created resource of an accepted unit carries the digest of the
/// nullifiers the unit reveals, all of them in order, followed by its
/// index word.
pub proof fn lemma_nonces_cover_all_nullifiers(w: ComplianceWitness, a: ActionInstance, j: int)
    requires
        compliance_outcome(w, Ok(a)),
        0 <= j < w.created@.len(),
    ensures
        w.created@[j].resource.nonce@ == expected_nonce(
            a.consumed@.map_values(|i: ConsumedInstance| i.nullifier@).flatten(),
            j as nat,
        ),
{
    assert(nonce_ok(w, j));
    lemma_nullifier_bytes_all(w.consumed@, w.consumed@[0]);
    let ms = a.consumed@.map_values(|i: ConsumedInstance| i.nullifier@);
    let mw = w.consumed@.map_values(|x: ConsumedWitness| witness_nullifier(x));
    assert(ms.len() == mw.len()) by {
        assert(consumed_view(a.consumed@).len() == a.consumed@.len());
    }
    assert forall|i: int| 0 <= i < ms.len() implies ms[i] == mw[i] by {
        assert(consumed_view(a.consumed@)[i] == a.consumed@[i]@);
    }
    assert(ms =~= mw);
}

/// Binds a resource to its logic: the outer logic reference committing to
/// the logic reference under the hiding randomness. The logic proof of the
/// instance `(tag, action_root, is_consumed, app_data)` is not checked here:
/// `ComplianceWitness::logic_obligations` states what the zkVM's deferred
/// proof verification must establish of `proof`.
fn process_logic_instance(
    tag: [u8; 32],
    is_consumed: bool,
    logic_ref: [u8; 32],
    app_data: &AppData,
    proof: [u8; 32],
    action_root: [u8; 32],
    randomness: [u8; 32],
) -> (r: Result<[u8; 32], ArmError>)
    ensures
        r matches Ok(o) && o@ == outer_logic_ref(logic_ref@, randomness@),
{
    let bytes = concat32(&logic_ref, &randomness);
    Ok(keccak256(&bytes))
}

impl ConsumedWitness {
    /// The instance of the consumed resource.
    pub fn constrain(&self, action_root: [u8; 32]) -> (r: Result<ConsumedInstance, ArmError>)
        requires
            key_matches(self.resource, self.nullifier_key.bytes@),
        ensures
            r matches Ok(i) && i@ == consumed_instance_of(*self),
    {
        let commitment = self.resource.commit();
        let root = if self.resource.is_ephemeral {
            let z = [0u8; 32];
            assert(z@ =~= zeros(32));
            z
        } else {
            self.path.compute_root(commitment)
        };
        let nullifier = match self.resource.nullify(&self.nullifier_key) {
            Ok(n) => n,
            Err(_) => {
                assert(false);
                [0u8; 32]
            },
        };
        let outer_logic_ref = process_logic_instance(
            nullifier,
            true,
            self.resource.logic_ref,
            &self.app_data,
            self.logic_proof,
            action_root,
            self.logic_hiding_input,
        )?;
        Ok(ConsumedInstance { nullifier, root, outer_logic_ref, app_data: self.app_data.copy() })
    }
}

impl CreatedWitness {
    /// The instance of the created resource.
    pub fn constrain(&self, action_root: [u8; 32]) -> (r: Result<CreatedInstance, ArmError>)
        ensures
            r matches Ok(i) && i@ == created_instance_of(*self),
    {
        let commitment = self.resource.commit();
        let outer_logic_ref = process_logic_instance(
            commitment,
            false,
            self.resource.logic_ref,
            &self.app_data,
            self.logic_proof,
            action_root,
            self.logic_hiding_input,
        )?;
        Ok(CreatedInstance { commitment, outer_logic_ref, app_data: self.app_data.copy() })
    }
}

/// The scalar bytes of a quantity: its little-endian bytes, then zeros.
pub(crate) fn quantity_to_scalar(quantity: u128) -> (r: [u8; 32])
    ensures
        r@ == quantity_scalar(quantity),
{
    let mut bytes = [0u8; 32];
    let q = crate::bytes::u128_le_bytes(quantity);
    proof {
        crate::bytes::lemma_le_bytes_len(quantity as nat, 16);
    }
    write_at(&mut bytes, 0, q.as_slice());
    assert(bytes@ =~= quantity_scalar(quantity));
    bytes
}

/// The delta of a resource under the extra input `rcv`.
fn to_delta(resource: &Resource, rcv: &[u8; 32]) -> (r: CurvePoint)
    ensures
        r.wf(),
        r@ == resource_delta(*resource, rcv@),
{
    let kind = resource.kind();
    let q = quantity_to_scalar(resource.quantity);
    let a = point_mul_le(&kind, &q);
    let g = generator();
    let b = point_mul_le(&g, rcv);
    point_add(&a, &b)
}

impl ComplianceWitness {
    /// The core logic of the compliance guest program.
    pub fn constrain(&self) -> (r: Result<ActionInstance, ArmError>)
        requires
            keys_match(self.consumed@),
        ensures
            compliance_outcome(*self, r),
    {
        let mut delta = CurvePoint::identity();
        let mut consumed_instances: Vec<ConsumedInstance> = Vec::new();
        let mut nullifiers: Vec<u8> = Vec::new();
        let mut i: usize = 0;
        while i < self.consumed.len()
            invariant
                keys_match(self.consumed@),
                i <= self.consumed@.len(),
                delta.wf(),
                delta@ == consumed_delta(self.consumed@.take(i as int)),
                consumed_instances@.len() == i,
                forall|j: int|
                    0 <= j < i ==> #[trigger] consumed_instances@[j]@ == consumed_instance_of(
                        self.consumed@[j],
                    ),
                nullifiers@ == nullifier_bytes(self.consumed@.take(i as int)),
            decreases self.consumed@.len() - i,
        {
            let x = &self.consumed[i];
            assert(self.consumed@.take(i + 1).drop_last() =~= self.consumed@.take(i as int));
            let d = to_delta(&x.resource, &x.delta_extra_input);
            delta = point_sub(&delta, &d);
            assert(key_matches(self.consumed@[i as int].resource, self.consumed@[i as int].nullifier_key.bytes@));
            let inst = x.constrain(self.action_root)?;
            append_bytes(&mut nullifiers, &inst.nullifier);
            consumed_instances.push(inst);
            i = i + 1;
        }
        assert(self.consumed@.take(i as int) =~= self.consumed@);
        assert(consumed_view(consumed_instances@) =~= self.consumed@.map_values(
            |c: ConsumedWitness| consumed_instance_of(c),
        ));
        let length = self.consumed.len();
        if length == 0 {
            return Err(ArmError::ComplianceProofEmptyNullifierArray);
        }
        let ghost start = delta@;
        let mut created_instances: Vec<CreatedInstance> = Vec::new();
        let mut index: usize = 0;
        while index < self.created.len()
            invariant
                index <= self.created@.len(),
                self.consumed@.len() > 0,
                start == consumed_delta(self.consumed@),
                nullifiers@ == nullifier_bytes(self.consumed@),
                delta.wf(),
                delta@ == created_delta(start, self.created@.take(index as int)),
                created_instances@.len() == index,
                forall|j: int|
                    0 <= j < index ==> #[trigger] created_instances@[j]@ == created_instance_of(
                        self.created@[j],
                    ),
                forall|j: int| 0 <= j < index ==> nonce_ok(*self, j),
            decreases self.created@.len() - index,
        {
            let witness = &self.created[index];
            assert(self.created@.take(index + 1).drop_last() =~= self.created@.take(index as int));
            let d = to_delta(&witness.resource, &witness.delta_extra_input);
            delta = point_add(&delta, &d);
            let mut index_bytes = [0u8; 32];
            let ib = usize_be4(index);
            write_at(&mut index_bytes, 0, &ib);
            proof {
                crate::bytes::lemma_be_bytes_len(index as nat, 4);
            }
            assert(index_bytes@ =~= be_bytes(index as nat, 4) + zeros(28));
            let mut buf: Vec<u8> = Vec::new();
            append_bytes(&mut buf, nullifiers.as_slice());
            append_bytes(&mut buf, &index_bytes);
            assert(buf@ =~= nullifiers@ + be_bytes(index as nat, 4) + zeros(28));
            let hash = keccak256(buf.as_slice());
            if !eq32(&witness.resource.nonce, &hash) {
                assert(!nonce_ok(*self, index as int));
                assert(self.consumed@.len() != 0);
                assert(exists|j: int| 0 <= j < self.created@.len() && !nonce_ok(*self, j));
                return Err(ArmError::ComplianceProofCreatedResourceNonceMismatch);
            }
            let inst = witness.constrain(self.action_root)?;
            created_instances.push(inst);
            index = index + 1;
        }
        assert(self.created@.take(index as int) =~= self.created@);
        assert(created_view(created_instances@) =~= self.created@.map_values(
            |c: CreatedWitness| created_instance_of(c),
        ));
        let (delta_x, delta_y) = delta.coordinates();
        let kind_table_commitment = [0u8; 32];
        assert(kind_table_commitment@ =~= zeros(32));
        Ok(ActionInstance {
            created: created_instances,
            consumed: consumed_instances,
            delta_x,
            delta_y,
            kind_table_commitment,
            action_root: self.action_root,
        })
    }

    /// The compliance logic where every consumed resource comes with the
    /// nullifier key it is committed to; `None` when one does not (a
    /// witness on which `constrain` cannot run).
    pub fn try_constrain(&self) -> (r: Option<Result<ActionInstance, ArmError>>)
        ensures
            r is None <==> !keys_match(self.consumed@),
            r matches Some(res) ==> compliance_outcome(*self, res),
    {
        let mut i: usize = 0;
        while i < self.consumed.len()
            invariant
                i <= self.consumed@.len(),
                forall|j: int| 0 <= j < i ==> key_matches(#[trigger] self.consumed@[j].resource, self.consumed@[j].nullifier_key.bytes@),
            decreases self.consumed@.len() - i,
        {
            if self.consumed[i].resource.nullify(&self.consumed[i].nullifier_key).is_err() {
                return None;
            }
            i = i + 1;
        }
        Some(self.constrain())
    }
}

/// A logic proof that the compliance program has the zkVM verify: the
/// commitment to the proof, and the output the proof must have, namely the
/// resource's logic as program, the standard extension set of resource
/// logics, and as public values the digest of the logic instance, each byte
/// widened to a word.
#[derive(Debug)]
pub struct LogicObligation {
    pub proof: [u8; 32],
    pub app_exe_commit: [u8; 32],
    pub app_vm_commit: [u8; 32],
    pub user_public_values: Vec<u8>,
}

/// `o` asks `proof` to show that the logic `logic_ref` accepts the instance
/// `(tag, action_root, is_consumed, app_data)`.
pub open spec fn obligation_for(
    o: LogicObligation,
    proof: [u8; 32],
    logic_ref: [u8; 32],
    tag: Seq<u8>,
    action_root: Seq<u8>,
    is_consumed: bool,
    app_data: AppDataView,
) -> bool {
    &&& o.proof == proof
    &&& o.app_exe_commit == logic_ref
    &&& o.app_vm_commit == LOGIC_VM_COMMIT
    &&& o.user_public_values@ == widened(
        keccak(logic_preimage(tag, action_root, is_consumed, app_data)),
    )
}

fn obligation(
    tag: [u8; 32],
    is_consumed: bool,
    logic_ref: [u8; 32],
    app_data: &AppData,
    proof: [u8; 32],
    action_root: [u8; 32],
) -> (o: LogicObligation)
    ensures
        obligation_for(o, proof, logic_ref, tag@, action_root@, is_consumed, app_data@),
{
    let instance = ResourceLogicInstance { tag, action_root, is_consumed, app_data: app_data.copy() };
    LogicObligation {
        proof,
        app_exe_commit: logic_ref,
        app_vm_commit: LOGIC_VM_COMMIT,
        user_public_values: instance.revealed_bytes(),
    }
}

impl ComplianceWitness {
    /// The logic proofs the compliance program has the zkVM verify, one per
    /// resource: the consumed ones in order, under their nullifiers, then the
    /// created ones, under their commitments, all under the witness's action
    /// root.
    pub fn logic_obligations(&self) -> (r: Vec<LogicObligation>)
        requires
            keys_match(self.consumed@),
        ensures
            r@.len() == self.consumed@.len() + self.created@.len(),
            forall|c: int|
                0 <= c < self.consumed@.len() ==> obligation_for(
                    #[trigger] r@[c],
                    self.consumed@[c].logic_proof,
                    self.consumed@[c].resource.logic_ref,
                    resource_nullifier(
                        self.consumed@[c].resource,
                        self.consumed@[c].nullifier_key.bytes@,
                    ),
                    self.action_root@,
                    true,
                    self.consumed@[c].app_data@,
                ),
            forall|j: int|
                0 <= j < self.created@.len() ==> obligation_for(
                    #[trigger] r@[self.consumed@.len() + j],
                    self.created@[j].logic_proof,
                    self.created@[j].resource.logic_ref,
                    resource_commitment(self.created@[j].resource),
                    self.action_root@,
                    false,
                    self.created@[j].app_data@,
                ),
    {
        let mut r: Vec<LogicObligation> = Vec::new();
        let mut i: usize = 0;
        while i < self.consumed.len()
            invariant
                i <= self.consumed@.len(),
                r@.len() == i,
                keys_match(self.consumed@),
                forall|c: int|
                    0 <= c < i ==> obligation_for(
                        #[trigger] r@[c],
                        self.consumed@[c].logic_proof,
                        self.consumed@[c].resource.logic_ref,
                        resource_nullifier(
                            self.consumed@[c].resource,
                            self.consumed@[c].nullifier_key.bytes@,
                        ),
                        self.action_root@,
                        true,
                        self.consumed@[c].app_data@,
                    ),
            decreases self.consumed@.len() - i,
        {
            let w = &self.consumed[i];
            assert(key_matches(self.consumed@[i as int].resource, self.consumed@[i as int].nullifier_key.bytes@));
            let tag = match w.resource.nullify(&w.nullifier_key) {
                Ok(n) => n,
                Err(_) => {
                    assert(false);
                    [0u8; 32]
                },
            };
            r.push(obligation(tag, true, w.resource.logic_ref, &w.app_data, w.logic_proof, self.action_root));
            i = i + 1;
        }
        let n = self.consumed.len();
        let mut j: usize = 0;
        while j < self.created.len()
            invariant
                j <= self.created@.len(),
                n == self.consumed@.len(),
                r@.len() == n + j,
                forall|c: int|
                    0 <= c < n ==> obligation_for(
                        #[trigger] r@[c],
                        self.consumed@[c].logic_proof,
                        self.consumed@[c].resource.logic_ref,
                        resource_nullifier(
                            self.consumed@[c].resource,
                            self.consumed@[c].nullifier_key.bytes@,
                        ),
                        self.action_root@,
                        true,
                        self.consumed@[c].app_data@,
                    ),
                forall|k: int|
                    0 <= k < j ==> obligation_for(
                        #[trigger] r@[n + k],
                        self.created@[k].logic_proof,
                        self.created@[k].resource.logic_ref,
                        resource_commitment(self.created@[k].resource),
                        self.action_root@,
                        false,
                        self.created@[k].app_data@,
                    ),
            decreases self.created@.len() - j,
        {
            let w = &self.created[j];
            let tag = w.resource.commit();
            r.push(obligation(tag, false, w.resource.logic_ref, &w.app_data, w.logic_proof, self.action_root));
            j = j + 1;
        }
        r
    }
}

} // verus!
