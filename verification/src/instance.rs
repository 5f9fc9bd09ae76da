//! The public data of the resource machine: payloads and application data,
//! the instances of compliance units and resource logics, and transactions.

use std::collections::BTreeSet;
use vstd::prelude::*;

use crate::bytes::{append_bytes, le_bytes, usize_le4};
use crate::curve::{is_curve_point, point_from_affine, CurvePoint};
use crate::error::ArmError;
use crate::hash::{keccak, keccak256};
use crate::tree::{level_view, tree_root, SparseTree};

verus! {

/// A blob of data with its deletion criterion.
#[derive(Debug, Clone, Default)]
pub struct Payload {
    pub data: Vec<u8>,
    pub deletion_criterion: bool,
}

/// The application data of a resource: four lists of payloads.
#[derive(Debug, Clone, Default)]
pub struct AppData {
    pub resource_payload: Vec<Payload>,
    pub encryption_payload: Vec<Payload>,
    pub external_payload: Vec<Payload>,
    pub discovery_payload: Vec<Payload>,
}

/// A payload as plain values: its bytes and its deletion criterion.
pub type PayloadView = (Seq<u8>, bool);

/// Application data as plain values: the four payload lists in order
/// (resource, encryption, external, discovery).
pub type AppDataView = (Seq<PayloadView>, Seq<PayloadView>, Seq<PayloadView>, Seq<PayloadView>);

impl View for Payload {
    type V = PayloadView;

    open spec fn view(&self) -> PayloadView {
        (self.data@, self.deletion_criterion)
    }
}

/// The plain values of a list of payloads.
pub open spec fn payloads_view(ps: Seq<Payload>) -> Seq<PayloadView> {
    ps.map_values(|p: Payload| p@)
}

impl View for AppData {
    type V = AppDataView;

    open spec fn view(&self) -> AppDataView {
        (
            payloads_view(self.resource_payload@),
            payloads_view(self.encryption_payload@),
            payloads_view(self.external_payload@),
            payloads_view(self.discovery_payload@),
        )
    }
}

/// The application data with no payload at all.
pub open spec fn empty_app_data() -> AppDataView {
    (Seq::empty(), Seq::empty(), Seq::empty(), Seq::empty())
}

/// A copy of a byte string.
pub fn copy_bytes(s: &[u8]) -> (r: Vec<u8>)
    ensures
        r@ == s@,
{
    let mut r: Vec<u8> = Vec::new();
    append_bytes(&mut r, s);
    assert(r@ =~= s@);
    r
}

impl Payload {
    /// A copy of the payload.
    pub fn copy(&self) -> (r: Payload)
        ensures
            r@ == self@,
    {
        Payload { data: copy_bytes(self.data.as_slice()), deletion_criterion: self.deletion_criterion }
    }

    /// The ABI representation of the payload.
    pub fn to_sol(&self) -> (r: SolPayload)
        ensures
            r@ == self@,
    {
        SolPayload { data: copy_bytes(self.data.as_slice()), deletion_criterion: self.deletion_criterion }
    }
}

/// A copy of a list of payloads.
fn copy_payloads(ps: &Vec<Payload>) -> (r: Vec<Payload>)
    ensures
        payloads_view(r@) == payloads_view(ps@),
{
    let mut r: Vec<Payload> = Vec::new();
    let mut i: usize = 0;
    while i < ps.len()
        invariant
            i <= ps@.len(),
            r@.len() == i,
            forall|j: int| 0 <= j < i ==> #[trigger] r@[j]@ == ps@[j]@,
        decreases ps@.len() - i,
    {
        r.push(ps[i].copy());
        i = i + 1;
    }
    assert(payloads_view(r@) =~= payloads_view(ps@));
    r
}

/// The ABI representations of a list of payloads.
fn payloads_to_sol(ps: &Vec<Payload>) -> (r: Vec<SolPayload>)
    ensures
        sol_payloads_view(r@) == payloads_view(ps@),
{
    let mut r: Vec<SolPayload> = Vec::new();
    let mut i: usize = 0;
    while i < ps.len()
        invariant
            i <= ps@.len(),
            r@.len() == i,
            forall|j: int| 0 <= j < i ==> #[trigger] r@[j]@ == ps@[j]@,
        decreases ps@.len() - i,
    {
        r.push(ps[i].to_sol());
        i = i + 1;
    }
    assert(sol_payloads_view(r@) =~= payloads_view(ps@));
    r
}

impl AppData {
    /// A copy of the application data.
    pub fn copy(&self) -> (r: AppData)
        ensures
            r@ == self@,
    {
        AppData {
            resource_payload: copy_payloads(&self.resource_payload),
            encryption_payload: copy_payloads(&self.encryption_payload),
            external_payload: copy_payloads(&self.external_payload),
            discovery_payload: copy_payloads(&self.discovery_payload),
        }
    }

    /// The ABI representation of the application data.
    pub fn to_sol(&self) -> (r: SolAppData)
        ensures
            r@ == self@,
    {
        SolAppData {
            resource_payload: payloads_to_sol(&self.resource_payload),
            encryption_payload: payloads_to_sol(&self.encryption_payload),
            external_payload: payloads_to_sol(&self.external_payload),
            discovery_payload: payloads_to_sol(&self.discovery_payload),
        }
    }
}

/// Application data with no payload.
pub fn app_data_default() -> (r: AppData)
    ensures
        r@ == empty_app_data(),
{
    let r = AppData {
        resource_payload: Vec::new(),
        encryption_payload: Vec::new(),
        external_payload: Vec::new(),
        discovery_payload: Vec::new(),
    };
    assert(r@ =~= empty_app_data());
    r
}

/// Instance returned by the compliance program for each consumed resource.
#[derive(Debug)]
pub struct ConsumedInstance {
    pub nullifier: [u8; 32],
    pub root: [u8; 32],
    pub outer_logic_ref: [u8; 32],
    pub app_data: AppData,
}

/// Instance returned by the compliance program for each created resource.
#[derive(Debug)]
pub struct CreatedInstance {
    pub commitment: [u8; 32],
    pub outer_logic_ref: [u8; 32],
    pub app_data: AppData,
}

/// A type implementing both compliance instance and action interfaces.
#[derive(Debug)]
pub struct ActionInstance {
    pub consumed: Vec<ConsumedInstance>,
    pub created: Vec<CreatedInstance>,
    pub delta_x: [u8; 32],
    pub delta_y: [u8; 32],
    pub kind_table_commitment: [u8; 32],
    pub action_root: [u8; 32],
}

/// A type implementing both compliance unit and action interfaces.
#[derive(Debug)]
pub struct ActionVerifierInput {
    pub consumed: Vec<ConsumedInstance>,
    pub created: Vec<CreatedInstance>,
    pub delta_x: [u8; 32],
    pub delta_y: [u8; 32],
    pub compliance_proof: Vec<u8>,
}

/// A transaction of the resource machine, with one compliance unit per action.
#[derive(Debug)]
pub struct Transaction {
    pub units: Vec<ActionVerifierInput>,
    pub delta_proof: [u8; 65],
}

/// ABI representation of a payload (`struct SolPayload { bytes data; bool deletionCriterion; }`).
#[derive(Debug, Clone)]
pub struct SolPayload {
    pub data: Vec<u8>,
    pub deletion_criterion: bool,
}

/// ABI representation of application data (four `SolPayload[]` lists).
#[derive(Debug, Clone)]
pub struct SolAppData {
    pub resource_payload: Vec<SolPayload>,
    pub encryption_payload: Vec<SolPayload>,
    pub external_payload: Vec<SolPayload>,
    pub discovery_payload: Vec<SolPayload>,
}

/// ABI representation of a consumed instance
/// (`bytes32 nullifier; bytes32 root; bytes32 outerLogicRef; SolAppData appData;`).
#[derive(Debug, Clone)]
pub struct SolConsumedInstance {
    pub nullifier: [u8; 32],
    pub root: [u8; 32],
    pub outer_logic_ref: [u8; 32],
    pub app_data: SolAppData,
}

/// ABI representation of a created instance
/// (`bytes32 commitment; bytes32 outerLogicRef; SolAppData appData;`).
#[derive(Debug, Clone)]
pub struct SolCreatedInstance {
    pub commitment: [u8; 32],
    pub outer_logic_ref: [u8; 32],
    pub app_data: SolAppData,
}

/// ABI representation of an action instance.
#[derive(Debug, Clone)]
pub struct SolActionInstance {
    pub consumed: Vec<SolConsumedInstance>,
    pub created: Vec<SolCreatedInstance>,
    pub delta_x: [u8; 32],
    pub delta_y: [u8; 32],
    pub kind_table_commitment: [u8; 32],
    pub action_root: [u8; 32],
}

impl View for SolPayload {
    type V = PayloadView;

    open spec fn view(&self) -> PayloadView {
        (self.data@, self.deletion_criterion)
    }
}

pub open spec fn sol_payloads_view(ps: Seq<SolPayload>) -> Seq<PayloadView> {
    ps.map_values(|p: SolPayload| p@)
}

impl View for SolAppData {
    type V = AppDataView;

    open spec fn view(&self) -> AppDataView {
        (
            sol_payloads_view(self.resource_payload@),
            sol_payloads_view(self.encryption_payload@),
            sol_payloads_view(self.external_payload@),
            sol_payloads_view(self.discovery_payload@),
        )
    }
}

/// An action instance as plain values: its consumed and created instances,
/// then the delta coordinates, the kind table commitment and the action root.
pub type ActionInstanceView = (Seq<ConsumedView>, Seq<CreatedView>, Seq<u8>, Seq<u8>, Seq<u8>, Seq<u8>);

impl View for SolActionInstance {
    type V = ActionInstanceView;

    open spec fn view(&self) -> ActionInstanceView {
        (
            sol_consumed_view(self.consumed@),
            sol_created_view(self.created@),
            self.delta_x@,
            self.delta_y@,
            self.kind_table_commitment@,
            self.action_root@,
        )
    }
}

/// A consumed instance as plain values: nullifier, root, outer logic
/// reference and application data.
pub type ConsumedView = (Seq<u8>, Seq<u8>, Seq<u8>, AppDataView);

/// A created instance as plain values: commitment, outer logic reference
/// and application data.
pub type CreatedView = (Seq<u8>, Seq<u8>, AppDataView);

impl View for ConsumedInstance {
    type V = ConsumedView;

    open spec fn view(&self) -> ConsumedView {
        (self.nullifier@, self.root@, self.outer_logic_ref@, self.app_data@)
    }
}

impl View for CreatedInstance {
    type V = CreatedView;

    open spec fn view(&self) -> CreatedView {
        (self.commitment@, self.outer_logic_ref@, self.app_data@)
    }
}

impl View for SolConsumedInstance {
    type V = ConsumedView;

    open spec fn view(&self) -> ConsumedView {
        (self.nullifier@, self.root@, self.outer_logic_ref@, self.app_data@)
    }
}

impl View for SolCreatedInstance {
    type V = CreatedView;

    open spec fn view(&self) -> CreatedView {
        (self.commitment@, self.outer_logic_ref@, self.app_data@)
    }
}

pub open spec fn consumed_view(cs: Seq<ConsumedInstance>) -> Seq<ConsumedView> {
    cs.map_values(|c: ConsumedInstance| c@)
}

pub open spec fn created_view(cs: Seq<CreatedInstance>) -> Seq<CreatedView> {
    cs.map_values(|c: CreatedInstance| c@)
}

pub open spec fn sol_consumed_view(cs: Seq<SolConsumedInstance>) -> Seq<ConsumedView> {
    cs.map_values(|c: SolConsumedInstance| c@)
}

pub open spec fn sol_created_view(cs: Seq<SolCreatedInstance>) -> Seq<CreatedView> {
    cs.map_values(|c: SolCreatedInstance| c@)
}

impl ConsumedInstance {
    /// The ABI representation of the instance.
    pub fn to_sol(&self) -> (r: SolConsumedInstance)
        ensures
            r@ == self@,
    {
        SolConsumedInstance {
            nullifier: self.nullifier,
            root: self.root,
            outer_logic_ref: self.outer_logic_ref,
            app_data: self.app_data.to_sol(),
        }
    }
}

impl CreatedInstance {
    /// The ABI representation of the instance.
    pub fn to_sol(&self) -> (r: SolCreatedInstance)
        ensures
            r@ == self@,
    {
        SolCreatedInstance {
            commitment: self.commitment,
            outer_logic_ref: self.outer_logic_ref,
            app_data: self.app_data.to_sol(),
        }
    }
}

impl ActionInstance {
    /// The ABI representation of the instance: each consumed and created
    /// instance in order, and the four 32-byte words.
    pub fn to_sol(&self) -> (r: SolActionInstance)
        ensures
            sol_consumed_view(r.consumed@) == consumed_view(self.consumed@),
            sol_created_view(r.created@) == created_view(self.created@),
            r.delta_x == self.delta_x,
            r.delta_y == self.delta_y,
            r.kind_table_commitment == self.kind_table_commitment,
            r.action_root == self.action_root,
    {
        let mut consumed: Vec<SolConsumedInstance> = Vec::new();
        let mut i: usize = 0;
        while i < self.consumed.len()
            invariant
                i <= self.consumed@.len(),
                consumed@.len() == i,
                forall|j: int| 0 <= j < i ==> #[trigger] consumed@[j]@ == self.consumed@[j]@,
            decreases self.consumed@.len() - i,
        {
            consumed.push(self.consumed[i].to_sol());
            i = i + 1;
        }
        let mut created: Vec<SolCreatedInstance> = Vec::new();
        let mut i: usize = 0;
        while i < self.created.len()
            invariant
                i <= self.created@.len(),
                created@.len() == i,
                forall|j: int| 0 <= j < i ==> #[trigger] created@[j]@ == self.created@[j]@,
            decreases self.created@.len() - i,
        {
            created.push(self.created[i].to_sol());
            i = i + 1;
        }
        assert(sol_consumed_view(consumed@) =~= consumed_view(self.consumed@));
        assert(sol_created_view(created@) =~= created_view(self.created@));
        SolActionInstance {
            consumed,
            created,
            delta_x: self.delta_x,
            delta_y: self.delta_y,
            kind_table_commitment: self.kind_table_commitment,
            action_root: self.action_root,
        }
    }
}

/// The concatenation of a list of 32-byte words.
pub open spec fn concat_words(ws: Seq<[u8; 32]>) -> Seq<u8>
    decreases ws.len(),
{
    if ws.len() == 0 {
        Seq::empty()
    } else {
        concat_words(ws.drop_last()) + ws.last()@
    }
}

/// The consumed nullifiers of a list of consumed instances.
pub open spec fn nullifiers_of(cs: Seq<ConsumedInstance>) -> Seq<[u8; 32]> {
    cs.map_values(|c: ConsumedInstance| c.nullifier)
}

/// The roots of a list of consumed instances.
pub open spec fn roots_of(cs: Seq<ConsumedInstance>) -> Seq<[u8; 32]> {
    cs.map_values(|c: ConsumedInstance| c.root)
}

/// The commitments of a list of created instances.
pub open spec fn commitments_of(cs: Seq<CreatedInstance>) -> Seq<[u8; 32]> {
    cs.map_values(|c: CreatedInstance| c.commitment)
}

impl ActionVerifierInput {
    /// The tags of the action in canonical order: the consumed nullifiers,
    /// then the created commitments.
    pub open spec fn spec_tags(&self) -> Seq<[u8; 32]> {
        nullifiers_of(self.consumed@) + commitments_of(self.created@)
    }

    /// The message the delta proof signs: the tags, concatenated.
    pub fn delta_msg(&self) -> (msg: Vec<u8>)
        ensures
            msg@ == concat_words(self.spec_tags()),
    {
        let tags = self.tags();
        let mut msg: Vec<u8> = Vec::new();
        let mut i: usize = 0;
        while i < tags.len()
            invariant
                tags@ == self.spec_tags(),
                i <= tags@.len(),
                msg@ == concat_words(tags@.take(i as int)),
            decreases tags@.len() - i,
        {
            assert(tags@.take(i + 1).drop_last() =~= tags@.take(i as int));
            append_bytes(&mut msg, &tags[i]);
            i = i + 1;
        }
        assert(tags@.take(tags@.len() as int) =~= tags@);
        msg
    }

    /// The action's tags in canonical order: consumed nullifiers, then created
    /// commitments. The action tree is built over exactly this sequence.
    pub fn tags(&self) -> (r: Vec<[u8; 32]>)
        ensures
            r@ == self.spec_tags(),
    {
        let mut r: Vec<[u8; 32]> = Vec::new();
        let mut i: usize = 0;
        while i < self.consumed.len()
            invariant
                i <= self.consumed@.len(),
                r@ == nullifiers_of(self.consumed@).take(i as int),
            decreases self.consumed@.len() - i,
        {
            r.push(self.consumed[i].nullifier);
            i = i + 1;
            assert(r@ =~= nullifiers_of(self.consumed@).take(i as int));
        }
        let mut i: usize = 0;
        while i < self.created.len()
            invariant
                i <= self.created@.len(),
                r@ == nullifiers_of(self.consumed@) + commitments_of(self.created@).take(i as int),
            decreases self.created@.len() - i,
        {
            r.push(self.created[i].commitment);
            i = i + 1;
            assert(r@ =~= nullifiers_of(self.consumed@) + commitments_of(self.created@).take(
                i as int,
            ));
        }
        assert(r@ =~= self.spec_tags());
        r
    }

    /// The delta of the action as a curve point, refused when `(delta_x,
    /// delta_y)` is not a point of the curve.
    pub fn delta_point(&self) -> (r: Result<CurvePoint, ArmError>)
        ensures
            r is Ok <==> is_curve_point(seq![4u8] + self.delta_x@ + self.delta_y@),
            r matches Ok(p) ==> p@ == seq![4u8] + self.delta_x@ + self.delta_y@,
            r matches Err(e) ==> e == ArmError::InvalidDelta,
    {
        match point_from_affine(&self.delta_x, &self.delta_y) {
            Some(p) => Ok(p),
            None => Err(ArmError::InvalidDelta),
        }
    }

    /// The action root the compliance proof commits to: the root of the
    /// tree over the tags; refused as an invalid proof when there are no tags.
    pub fn action_root(&self) -> (r: Result<[u8; 32], ArmError>)
        ensures
            r is Ok <==> self.spec_tags().len() > 0,
            r matches Ok(root) ==> root@ == tree_root(level_view(self.spec_tags())),
            r matches Err(e) ==> e == ArmError::InvalidProof,
    {
        let tags = self.tags();
        match SparseTree::compute_tree(tags.as_slice()) {
            Ok(tree) => match tree.root() {
                Some(root) => Ok(*root),
                None => Err(ArmError::InvalidProof),
            },
            Err(_) => Err(ArmError::InvalidProof),
        }
    }
}


/// Inserts `x` into `set` (`BTreeSet::insert`, for 32-byte arrays ordered
/// lexicographically): the set gains `x`, and the result tells whether `x`
/// was not in it before.
#[verifier::external_body]
fn set_insert(set: &mut BTreeSet<[u8; 32]>, x: [u8; 32]) -> (fresh: bool)
    ensures
        final(set)@ == old(set)@.insert(x),
        fresh == !old(set)@.contains(x),
{
    set.insert(x)
}

/// The nullifiers of the transaction's units, unit by unit.
pub open spec fn tx_nullifiers(units: Seq<ActionVerifierInput>) -> Seq<[u8; 32]>
    decreases units.len(),
{
    if units.len() == 0 {
        Seq::empty()
    } else {
        tx_nullifiers(units.drop_last()) + nullifiers_of(units.last().consumed@)
    }
}

/// The commitments of the transaction's units, unit by unit.
pub open spec fn tx_commitments(units: Seq<ActionVerifierInput>) -> Seq<[u8; 32]>
    decreases units.len(),
{
    if units.len() == 0 {
        Seq::empty()
    } else {
        tx_commitments(units.drop_last()) + commitments_of(units.last().created@)
    }
}

/// The roots of the transaction's consumed instances, unit by unit.
pub open spec fn tx_roots(units: Seq<ActionVerifierInput>) -> Seq<[u8; 32]>
    decreases units.len(),
{
    if units.len() == 0 {
        Seq::empty()
    } else {
        tx_roots(units.drop_last()) + roots_of(units.last().consumed@)
    }
}

/// The tags of one unit in the order they are checked, each flagged `true`
/// for a nullifier and `false` for a commitment.
pub open spec fn unit_events(u: ActionVerifierInput) -> Seq<(bool, [u8; 32])> {
    nullifiers_of(u.consumed@).map_values(|n: [u8; 32]| (true, n)) + commitments_of(
        u.created@,
    ).map_values(|c: [u8; 32]| (false, c))
}

/// The flagged tags of a transaction, unit by unit.
pub open spec fn tx_events(units: Seq<ActionVerifierInput>) -> Seq<(bool, [u8; 32])>
    decreases units.len(),
{
    if units.len() == 0 {
        Seq::empty()
    } else {
        tx_events(units.drop_last()) + unit_events(units.last())
    }
}

/// The flag of the first event that repeats an earlier one (same flag, same
/// tag), if any.
pub open spec fn first_repeat(events: Seq<(bool, [u8; 32])>) -> Option<bool>
    decreases events.len(),
{
    if events.len() == 0 {
        None
    } else if first_repeat(events.drop_last()) is Some {
        first_repeat(events.drop_last())
    } else if events.drop_last().contains(events.last()) {
        Some(events.last().0)
    } else {
        None
    }
}

/// The tags flagged `flag` among `events`.
pub open spec fn flagged(events: Seq<(bool, [u8; 32])>, flag: bool) -> Set<[u8; 32]> {
    Set::new(|v: [u8; 32]| events.contains((flag, v)))
}

impl Transaction {
    /// All nullifiers in the transaction, as ordered by the actions.
    pub fn nullifiers(&self) -> (r: Vec<[u8; 32]>)
        ensures
            r@ == tx_nullifiers(self.units@),
    {
        let mut r: Vec<[u8; 32]> = Vec::new();
        let mut u: usize = 0;
        while u < self.units.len()
            invariant
                u <= self.units@.len(),
                r@ == tx_nullifiers(self.units@.take(u as int)),
            decreases self.units@.len() - u,
        {
            let ghost before = r@;
            let mut i: usize = 0;
            while i < self.units[u].consumed.len()
                invariant
                    u < self.units@.len(),
                    i <= self.units@[u as int].consumed@.len(),
                    r@ == before + nullifiers_of(self.units@[u as int].consumed@).take(i as int),
                decreases self.units@[u as int].consumed@.len() - i,
            {
                r.push(self.units[u].consumed[i].nullifier);
                i = i + 1;
                assert(r@ =~= before + nullifiers_of(self.units@[u as int].consumed@).take(
                    i as int,
                ));
            }
            assert(self.units@.take(u + 1).drop_last() =~= self.units@.take(u as int));
            assert(nullifiers_of(self.units@[u as int].consumed@).take(i as int) =~= nullifiers_of(
                self.units@[u as int].consumed@,
            ));
            u = u + 1;
        }
        assert(self.units@.take(u as int) =~= self.units@);
        r
    }

    /// All commitments in the transaction, as ordered by the actions.
    pub fn commitments(&self) -> (r: Vec<[u8; 32]>)
        ensures
            r@ == tx_commitments(self.units@),
    {
        let mut r: Vec<[u8; 32]> = Vec::new();
        let mut u: usize = 0;
        while u < self.units.len()
            invariant
                u <= self.units@.len(),
                r@ == tx_commitments(self.units@.take(u as int)),
            decreases self.units@.len() - u,
        {
            let ghost before = r@;
            let mut i: usize = 0;
            while i < self.units[u].created.len()
                invariant
                    u < self.units@.len(),
                    i <= self.units@[u as int].created@.len(),
                    r@ == before + commitments_of(self.units@[u as int].created@).take(i as int),
                decreases self.units@[u as int].created@.len() - i,
            {
                r.push(self.units[u].created[i].commitment);
                i = i + 1;
                assert(r@ =~= before + commitments_of(self.units@[u as int].created@).take(
                    i as int,
                ));
            }
            assert(self.units@.take(u + 1).drop_last() =~= self.units@.take(u as int));
            assert(commitments_of(self.units@[u as int].created@).take(i as int)
                =~= commitments_of(self.units@[u as int].created@));
            u = u + 1;
        }
        assert(self.units@.take(u as int) =~= self.units@);
        r
    }

    /// The set of roots against which the transaction consumes resources.
    pub fn roots(&self) -> (r: BTreeSet<[u8; 32]>)
        ensures
            r@ == tx_roots(self.units@).to_set(),
    {
        let mut r: BTreeSet<[u8; 32]> = BTreeSet::new();
        let mut u: usize = 0;
        while u < self.units.len()
            invariant
                u <= self.units@.len(),
                r@ == tx_roots(self.units@.take(u as int)).to_set(),
            decreases self.units@.len() - u,
        {
            let ghost before = tx_roots(self.units@.take(u as int));
            let mut i: usize = 0;
            while i < self.units[u].consumed.len()
                invariant
                    u < self.units@.len(),
                    i <= self.units@[u as int].consumed@.len(),
                    r@ == (before + roots_of(self.units@[u as int].consumed@).take(
                        i as int,
                    )).to_set(),
                decreases self.units@[u as int].consumed@.len() - i,
            {
                let ghost prev = before + roots_of(self.units@[u as int].consumed@).take(i as int);
                let x = self.units[u].consumed[i].root;
                set_insert(&mut r, x);
                i = i + 1;
                let ghost next = before + roots_of(self.units@[u as int].consumed@).take(i as int);
                assert(next =~= prev.push(x));
                assert(next.to_set() =~= prev.to_set().insert(x)) by {
                    assert forall|y: [u8; 32]| next.contains(y) <==> prev.contains(y) || y == x by {
                        if next.contains(y) {
                            let j = choose|j: int| 0 <= j < next.len() && next[j] == y;
                            if j < prev.len() {
                                assert(prev[j] == y);
                            }
                        }
                        if prev.contains(y) {
                            let j = choose|j: int| 0 <= j < prev.len() && prev[j] == y;
                            assert(next[j] == y);
                        }
                        if y == x {
                            assert(next[next.len() - 1] == y);
                        }
                    }
                }
            }
            assert(self.units@.take(u + 1).drop_last() =~= self.units@.take(u as int));
            assert(roots_of(self.units@[u as int].consumed@).take(i as int) =~= roots_of(
                self.units@[u as int].consumed@,
            ));
            u = u + 1;
        }
        assert(self.units@.take(u as int) =~= self.units@);
        r
    }

    /// The tags of the transaction flagged as nullifier or commitment, in the
    /// order they are checked.
    fn events(&self) -> (r: Vec<(bool, [u8; 32])>)
        ensures
            r@ == tx_events(self.units@),
    {
        let mut r: Vec<(bool, [u8; 32])> = Vec::new();
        let mut u: usize = 0;
        while u < self.units.len()
            invariant
                u <= self.units@.len(),
                r@ == tx_events(self.units@.take(u as int)),
            decreases self.units@.len() - u,
        {
            let ghost before = r@;
            let ghost ns = nullifiers_of(self.units@[u as int].consumed@).map_values(
                |n: [u8; 32]| (true, n),
            );
            let ghost cs = commitments_of(self.units@[u as int].created@).map_values(
                |c: [u8; 32]| (false, c),
            );
            let mut i: usize = 0;
            while i < self.units[u].consumed.len()
                invariant
                    u < self.units@.len(),
                    ns == nullifiers_of(self.units@[u as int].consumed@).map_values(
                        |n: [u8; 32]| (true, n),
                    ),
                    i <= self.units@[u as int].consumed@.len(),
                    r@ == before + ns.take(i as int),
                decreases self.units@[u as int].consumed@.len() - i,
            {
                r.push((true, self.units[u].consumed[i].nullifier));
                i = i + 1;
                assert(r@ =~= before + ns.take(i as int));
            }
            assert(ns.take(i as int) =~= ns);
            let mut i: usize = 0;
            while i < self.units[u].created.len()
                invariant
                    u < self.units@.len(),
                    cs == commitments_of(self.units@[u as int].created@).map_values(
                        |c: [u8; 32]| (false, c),
                    ),
                    i <= self.units@[u as int].created@.len(),
                    r@ == before + ns + cs.take(i as int),
                decreases self.units@[u as int].created@.len() - i,
            {
                r.push((false, self.units[u].created[i].commitment));
                i = i + 1;
                assert(r@ =~= before + ns + cs.take(i as int));
            }
            assert(cs.take(i as int) =~= cs);
            assert(self.units@.take(u + 1).drop_last() =~= self.units@.take(u as int));
            assert(r@ =~= before + unit_events(self.units@[u as int]));
            u = u + 1;
        }
        assert(self.units@.take(u as int) =~= self.units@);
        r
    }

    /// The message the transaction's delta proof signs: the delta messages
    /// of its units, one after the other.
    pub fn delta_msg(&self) -> (msg: Vec<u8>)
        ensures
            msg@ == tx_delta_msg(self.units@),
    {
        let mut msg: Vec<u8> = Vec::new();
        let mut u: usize = 0;
        while u < self.units.len()
            invariant
                u <= self.units@.len(),
                msg@ == tx_delta_msg(self.units@.take(u as int)),
            decreases self.units@.len() - u,
        {
            let part = self.units[u].delta_msg();
            append_bytes(&mut msg, part.as_slice());
            assert(self.units@.take(u + 1).drop_last() =~= self.units@.take(u as int));
            u = u + 1;
        }
        assert(self.units@.take(u as int) =~= self.units@);
        msg
    }

    /// The deltas of the units as curve points, in order; refused as
    /// `InvalidDelta` when the delta of some unit is not a point of the curve.
    pub fn delta_points(&self) -> (r: Result<Vec<CurvePoint>, ArmError>)
        ensures
            r is Ok <==> forall|u: int|
                0 <= u < self.units@.len() ==> is_curve_point(
                    seq![4u8] + (#[trigger] self.units@[u]).delta_x@ + self.units@[u].delta_y@,
                ),
            r matches Ok(ps) ==> ps@.len() == self.units@.len() && forall|u: int|
                0 <= u < ps@.len() ==> (#[trigger] ps@[u])@ == seq![4u8]
                    + self.units@[u].delta_x@ + self.units@[u].delta_y@,
            r matches Err(e) ==> e == ArmError::InvalidDelta,
    {
        let mut ps: Vec<CurvePoint> = Vec::new();
        let mut u: usize = 0;
        while u < self.units.len()
            invariant
                u <= self.units@.len(),
                ps@.len() == u,
                forall|k: int|
                    0 <= k < u ==> is_curve_point(
                        seq![4u8] + (#[trigger] self.units@[k]).delta_x@ + self.units@[k].delta_y@,
                    ),
                forall|k: int|
                    0 <= k < u ==> (#[trigger] ps@[k])@ == seq![4u8] + self.units@[k].delta_x@
                        + self.units@[k].delta_y@,
            decreases self.units@.len() - u,
        {
            match self.units[u].delta_point() {
                Ok(p) => ps.push(p),
                Err(e) => {
                    return Err(e);
                },
            }
            u = u + 1;
        }
        Ok(ps)
    }

    /// The uniqueness checks of transaction verification: scanning the units
    /// in order, each unit's nullifiers and then its commitments, the first
    /// nullifier seen twice is a `NullifierDuplication` and the first
    /// commitment seen twice a `CommitmentDuplication`.
    pub fn check_tag_uniqueness(&self) -> (r: Result<(), ArmError>)
        ensures
            r is Ok <==> first_repeat(tx_events(self.units@)) is None,
            r == Err::<(), ArmError>(ArmError::NullifierDuplication) <==> first_repeat(
                tx_events(self.units@),
            ) == Some(true),
            r == Err::<(), ArmError>(ArmError::CommitmentDuplication) <==> first_repeat(
                tx_events(self.units@),
            ) == Some(false),
    {
        let events = self.events();
        let ghost ev = events@;
        let mut seen_nullifiers: BTreeSet<[u8; 32]> = BTreeSet::new();
        let mut seen_commitments: BTreeSet<[u8; 32]> = BTreeSet::new();
        let mut k: usize = 0;
        assert(flagged(ev.take(0), true) =~= Set::empty());
        assert(flagged(ev.take(0), false) =~= Set::empty());
        while k < events.len()
            invariant
                ev == events@,
                ev == tx_events(self.units@),
                k <= ev.len(),
                seen_nullifiers@ == flagged(ev.take(k as int), true),
                seen_commitments@ == flagged(ev.take(k as int), false),
                first_repeat(ev.take(k as int)) is None,
            decreases ev.len() - k,
        {
            let (flag, tag) = events[k];
            let ghost prefix = ev.take(k as int);
            let ghost next = ev.take(k + 1);
            assert(next.drop_last() =~= prefix);
            assert(next.last() == (flag, tag));
            let fresh = if flag {
                set_insert(&mut seen_nullifiers, tag)
            } else {
                set_insert(&mut seen_commitments, tag)
            };
            assert(prefix.contains((flag, tag)) == !fresh);
            if !fresh {
                proof {
                    lemma_first_repeat_prefix(ev, (k + 1) as nat);
                }
                return if flag {
                    Err(ArmError::NullifierDuplication)
                } else {
                    Err(ArmError::CommitmentDuplication)
                };
            }
            assert(flagged(next, true) =~= if flag {
                flagged(prefix, true).insert(tag)
            } else {
                flagged(prefix, true)
            }) by {
                assert forall|v: [u8; 32]| next.contains((true, v)) <==> prefix.contains((true, v))
                    || (flag && v == tag) by {
                    if next.contains((true, v)) {
                        let j = choose|j: int| 0 <= j < next.len() && next[j] == (true, v);
                        if j < prefix.len() {
                            assert(prefix[j] == (true, v));
                        }
                    }
                    if prefix.contains((true, v)) {
                        let j = choose|j: int| 0 <= j < prefix.len() && prefix[j] == (true, v);
                        assert(next[j] == (true, v));
                    }
                    if flag && v == tag {
                        assert(next[k as int] == (true, v));
                    }
                }
            }
            assert(flagged(next, false) =~= if !flag {
                flagged(prefix, false).insert(tag)
            } else {
                flagged(prefix, false)
            }) by {
                assert forall|v: [u8; 32]| next.contains((false, v)) <==> prefix.contains(
                    (false, v),
                ) || (!flag && v == tag) by {
                    if next.contains((false, v)) {
                        let j = choose|j: int| 0 <= j < next.len() && next[j] == (false, v);
                        if j < prefix.len() {
                            assert(prefix[j] == (false, v));
                        }
                    }
                    if prefix.contains((false, v)) {
                        let j = choose|j: int| 0 <= j < prefix.len() && prefix[j] == (false, v);
                        assert(next[j] == (false, v));
                    }
                    if !flag && v == tag {
                        assert(next[k as int] == (false, v));
                    }
                }
            }
            k = k + 1;
        }
        assert(ev.take(k as int) =~= ev);
        Ok(())
    }
}

/// Once a prefix of `events` has a repeat, the whole list has the same first repeat.
proof fn lemma_first_repeat_prefix(events: Seq<(bool, [u8; 32])>, n: nat)
    requires
        n <= events.len(),
        first_repeat(events.take(n as int)) is Some,
    ensures
        first_repeat(events) == first_repeat(events.take(n as int)),
    decreases events.len() - n,
{
    if n < events.len() {
        assert(events.take((n + 1) as int).drop_last() =~= events.take(n as int));
        lemma_first_repeat_prefix(events, n + 1);
    } else {
        assert(events.take(n as int) =~= events);
    }
}

/// The tags of `events` flagged `flag`, in order.
pub open spec fn tagged(events: Seq<(bool, [u8; 32])>, flag: bool) -> Seq<[u8; 32]>
    decreases events.len(),
{
    if events.len() == 0 {
        Seq::empty()
    } else if events.last().0 == flag {
        tagged(events.drop_last(), flag).push(events.last().1)
    } else {
        tagged(events.drop_last(), flag)
    }
}

proof fn lemma_push_no_duplicates<T>(s: Seq<T>, x: T)
    ensures
        s.push(x).no_duplicates() <==> s.no_duplicates() && !s.contains(x),
{
    let t = s.push(x);
    if t.no_duplicates() {
        assert forall|i: int, j: int|
            0 <= i < s.len() && 0 <= j < s.len() && i != j implies s[i] != s[j] by {
            assert(t[i] == s[i] && t[j] == s[j]);
        }
        if s.contains(x) {
            let i = choose|i: int| 0 <= i < s.len() && s[i] == x;
            assert(t[i] == t[s.len() as int]);
        }
    }
    if s.no_duplicates() && !s.contains(x) {
        assert forall|i: int, j: int|
            0 <= i < t.len() && 0 <= j < t.len() && i != j implies t[i] != t[j] by {
            if i < s.len() && j < s.len() {
                assert(t[i] == s[i] && t[j] == s[j]);
            } else if i < s.len() {
                assert(t[i] == s[i]);
            } else if j < s.len() {
                assert(t[j] == s[j]);
            }
        }
    }
}

/// The first repeat is absent exactly when no event occurs twice.
proof fn lemma_first_repeat_none(events: Seq<(bool, [u8; 32])>)
    ensures
        first_repeat(events) is None <==> events.no_duplicates(),
    decreases events.len(),
{
    if events.len() > 0 {
        let p = events.drop_last();
        lemma_first_repeat_none(p);
        assert(p.push(events.last()) =~= events);
        lemma_push_no_duplicates(p, events.last());
    }
}

/// An event is among `events` exactly when its tag is among those flagged alike.
proof fn lemma_tagged_contains(events: Seq<(bool, [u8; 32])>, e: (bool, [u8; 32]))
    ensures
        events.contains(e) <==> tagged(events, e.0).contains(e.1),
    decreases events.len(),
{
    if events.len() > 0 {
        let p = events.drop_last();
        lemma_tagged_contains(p, e);
        assert(p.push(events.last()) =~= events);
        let t = tagged(p, e.0);
        if events.contains(e) {
            let i = choose|i: int| 0 <= i < events.len() && events[i] == e;
            if i < p.len() {
                assert(p[i] == e);
            }
        }
        if p.contains(e) {
            let i = choose|i: int| 0 <= i < p.len() && p[i] == e;
            assert(events[i] == e);
        }
        if events.last().0 == e.0 {
            if t.push(events.last().1).contains(e.1) {
                let i = choose|i: int| 0 <= i < t.len() + 1 && t.push(events.last().1)[i] == e.1;
                if i < t.len() {
                    assert(t[i] == e.1);
                } else {
                    assert(events.last() == e);
                    assert(events[events.len() - 1] == e);
                }
            }
            if t.contains(e.1) {
                let i = choose|i: int| 0 <= i < t.len() && t[i] == e.1;
                assert(t.push(events.last().1)[i] == e.1);
            }
            if events.last() == e {
                assert(t.push(events.last().1)[t.len() as int] == e.1);
            }
        }
    }
}

/// No event occurs twice exactly when no tag occurs twice among those
/// flagged alike.
proof fn lemma_tagged_no_duplicates(events: Seq<(bool, [u8; 32])>)
    ensures
        events.no_duplicates() <==> tagged(events, true).no_duplicates() && tagged(
            events,
            false,
        ).no_duplicates(),
    decreases events.len(),
{
    if events.len() > 0 {
        let p = events.drop_last();
        let e = events.last();
        lemma_tagged_no_duplicates(p);
        assert(p.push(e) =~= events);
        lemma_push_no_duplicates(p, e);
        lemma_tagged_contains(p, e);
        lemma_push_no_duplicates(tagged(p, e.0), e.1);
    }
}

proof fn lemma_tagged_concat(a: Seq<(bool, [u8; 32])>, b: Seq<(bool, [u8; 32])>, flag: bool)
    ensures
        tagged(a + b, flag) == tagged(a, flag) + tagged(b, flag),
    decreases b.len(),
{
    if b.len() == 0 {
        assert(a + b =~= a);
        assert(tagged(a, flag) + tagged(b, flag) =~= tagged(a, flag));
    } else {
        lemma_tagged_concat(a, b.drop_last(), flag);
        assert((a + b).drop_last() =~= a + b.drop_last());
        assert((a + b).last() == b.last());
        if b.last().0 == flag {
            assert(tagged(a, flag) + tagged(b.drop_last(), flag).push(b.last().1) =~= (tagged(
                a,
                flag,
            ) + tagged(b.drop_last(), flag)).push(b.last().1));
        }
    }
}

proof fn lemma_tagged_uniform(ts: Seq<[u8; 32]>, f: bool, flag: bool)
    ensures
        tagged(ts.map_values(|t: [u8; 32]| (f, t)), flag) == if f == flag {
            ts
        } else {
            Seq::empty()
        },
    decreases ts.len(),
{
    let m = ts.map_values(|t: [u8; 32]| (f, t));
    if ts.len() > 0 {
        lemma_tagged_uniform(ts.drop_last(), f, flag);
        assert(m.drop_last() =~= ts.drop_last().map_values(|t: [u8; 32]| (f, t)));
        if f == flag {
            assert(ts.drop_last().push(ts.last()) =~= ts);
        }
    } else {
        assert(ts =~= Seq::empty());
    }
}

proof fn lemma_tagged_events(units: Seq<ActionVerifierInput>)
    ensures
        tagged(tx_events(units), true) == tx_nullifiers(units),
        tagged(tx_events(units), false) == tx_commitments(units),
    decreases units.len(),
{
    if units.len() > 0 {
        let u = units.last();
        lemma_tagged_events(units.drop_last());
        let ns = nullifiers_of(u.consumed@).map_values(|n: [u8; 32]| (true, n));
        let cs = commitments_of(u.created@).map_values(|c: [u8; 32]| (false, c));
        lemma_tagged_concat(tx_events(units.drop_last()), ns + cs, true);
        lemma_tagged_concat(tx_events(units.drop_last()), ns + cs, false);
        lemma_tagged_concat(ns, cs, true);
        lemma_tagged_concat(ns, cs, false);
        lemma_tagged_uniform(nullifiers_of(u.consumed@), true, true);
        lemma_tagged_uniform(nullifiers_of(u.consumed@), true, false);
        lemma_tagged_uniform(commitments_of(u.created@), false, true);
        lemma_tagged_uniform(commitments_of(u.created@), false, false);
        assert(nullifiers_of(u.consumed@) + Seq::<[u8; 32]>::empty() =~= nullifiers_of(u.consumed@));
        assert(Seq::<[u8; 32]>::empty() + commitments_of(u.created@) =~= commitments_of(u.created@));
    }
}

/// A transaction passes the uniqueness checks of its verification exactly
/// when its nullifiers (as `nullifiers` lists them) are pairwise distinct and
/// its commitments (as `commitments` lists them) are pairwise distinct.
pub proof fn lemma_uniqueness_check_means_distinct_tags(units: Seq<ActionVerifierInput>)
    ensures
        first_repeat(tx_events(units)) is None <==> tx_nullifiers(units).no_duplicates()
            && tx_commitments(units).no_duplicates(),
{
    lemma_first_repeat_none(tx_events(units));
    lemma_tagged_no_duplicates(tx_events(units));
    lemma_tagged_events(units);
}

/// Resource Logic Instance returned by any custom guest program.
#[derive(Debug, Default)]
pub struct ResourceLogicInstance {
    pub tag: [u8; 32],
    pub action_root: [u8; 32],
    pub is_consumed: bool,
    pub app_data: AppData,
}

/// The body of a payload list's encoding: each payload as its length in
/// four little-endian bytes, its data, and its deletion criterion as a byte.
pub open spec fn payloads_body(ps: Seq<PayloadView>) -> Seq<u8>
    decreases ps.len(),
{
    if ps.len() == 0 {
        Seq::empty()
    } else {
        payloads_body(ps.drop_last()) + le_bytes(ps.last().0.len(), 4) + ps.last().0 + seq![
            if ps.last().1 {
                1u8
            } else {
                0u8
            },
        ]
    }
}

/// The encoding of a payload list: its length in four little-endian bytes,
/// then its payloads.
pub open spec fn payloads_encoding(ps: Seq<PayloadView>) -> Seq<u8> {
    le_bytes(ps.len(), 4) + payloads_body(ps)
}

/// The bytes the logic digest commits to: tag, action root, the consumed
/// flag as a byte, then the four payload lists.
pub open spec fn logic_preimage(
    tag: Seq<u8>,
    action_root: Seq<u8>,
    is_consumed: bool,
    app_data: AppDataView,
) -> Seq<u8> {
    tag + action_root + seq![if is_consumed { 1u8 } else { 0u8 }] + payloads_encoding(app_data.0)
        + payloads_encoding(app_data.1) + payloads_encoding(app_data.2) + payloads_encoding(
        app_data.3,
    )
}

/// Appends the encoding of a payload list to `buf`.
fn encode_payloads(buf: &mut Vec<u8>, list: &Vec<Payload>)
    ensures
        final(buf)@ == old(buf)@ + payloads_encoding(payloads_view(list@)),
{
    let ghost start = buf@;
    let ghost pv = payloads_view(list@);
    let n = usize_le4(list.len());
    append_bytes(buf, n.as_slice());
    let mut i: usize = 0;
    while i < list.len()
        invariant
            pv == payloads_view(list@),
            i <= list@.len(),
            buf@ == start + le_bytes(list@.len() as nat, 4) + payloads_body(pv.take(i as int)),
        decreases list@.len() - i,
    {
        let ghost before = buf@;
        assert(pv.take(i + 1).drop_last() =~= pv.take(i as int));
        assert(pv.take(i + 1).last() == list@[i as int]@);
        let len = usize_le4(list[i].data.len());
        append_bytes(buf, len.as_slice());
        append_bytes(buf, list[i].data.as_slice());
        buf.push(if list[i].deletion_criterion { 1u8 } else { 0u8 });
        i = i + 1;
        assert(buf@ =~= start + le_bytes(list@.len() as nat, 4) + payloads_body(pv.take(i as int)));
    }
    assert(pv.take(i as int) =~= pv);
    assert(buf@ =~= start + payloads_encoding(pv));
}

impl ResourceLogicInstance {
    /// The Keccak-256 commitment to the instance.
    pub fn logic_digest(&self) -> (r: [u8; 32])
        ensures
            r@ == keccak(
                logic_preimage(self.tag@, self.action_root@, self.is_consumed, self.app_data@),
            ),
    {
        let mut buf: Vec<u8> = Vec::new();
        append_bytes(&mut buf, &self.tag);
        append_bytes(&mut buf, &self.action_root);
        buf.push(if self.is_consumed { 1u8 } else { 0u8 });
        encode_payloads(&mut buf, &self.app_data.resource_payload);
        encode_payloads(&mut buf, &self.app_data.encryption_payload);
        encode_payloads(&mut buf, &self.app_data.external_payload);
        encode_payloads(&mut buf, &self.app_data.discovery_payload);
        assert(buf@ =~= logic_preimage(
            self.tag@,
            self.action_root@,
            self.is_consumed,
            self.app_data@,
        ));
        keccak256(buf.as_slice())
    }

    /// The public values a logic proof of this instance must reveal: each
    /// byte of the logic digest widened to a four-byte word.
    pub fn revealed_bytes(&self) -> (r: Vec<u8>)
        ensures
            r@ == widened(
                keccak(
                    logic_preimage(self.tag@, self.action_root@, self.is_consumed, self.app_data@),
                ),
            ),
    {
        let digest = self.logic_digest();
        let mut r: Vec<u8> = Vec::new();
        let mut i: usize = 0;
        while i < 32
            invariant
                i <= 32,
                r@ == widened(digest@.take(i as int)),
            decreases 32 - i,
        {
            assert(digest@.take(i + 1).drop_last() =~= digest@.take(i as int));
            r.push(digest[i]);
            r.push(0u8);
            r.push(0u8);
            r.push(0u8);
            i = i + 1;
            assert(r@ =~= widened(digest@.take(i as int)));
        }
        assert(digest@.take(32) =~= digest@);
        r
    }
}

/// The delta messages of a list of units, one after the other.
pub open spec fn tx_delta_msg(units: Seq<ActionVerifierInput>) -> Seq<u8>
    decreases units.len(),
{
    if units.len() == 0 {
        Seq::empty()
    } else {
        tx_delta_msg(units.drop_last()) + concat_words(units.last().spec_tags())
    }
}

/// Each byte followed by three zero bytes: bytes widened to little-endian
/// four-byte words.
pub open spec fn widened(bytes: Seq<u8>) -> Seq<u8>
    decreases bytes.len(),
{
    if bytes.len() == 0 {
        Seq::empty()
    } else {
        widened(bytes.drop_last()) + seq![bytes.last(), 0u8, 0u8, 0u8]
    }
}

} // verus!
