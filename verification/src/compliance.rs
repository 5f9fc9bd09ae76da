//! A trivial compliance unit: consumed resources are nullified and proved
//! against a Merkle root, created resources carry nonces derived from the
//! consumed nullifiers, and no delta is computed.

use vstd::prelude::*;

use crate::bytes::{append_bytes, be_bytes, eq32, usize_be4, write_at, zeros};
use crate::error::ArmError;
use crate::hash::keccak256;
use crate::nullifier_key::NullifierKey;
use crate::resource::{key_matches, resource_commitment, resource_nullifier, Resource};
use crate::traits::Resource as ResourceTrait;
use crate::tree::{path_root, Proof};
use crate::witness::expected_nonce;

verus! {

#[derive(Debug, Clone)]
pub struct ConsumedWitness {
    pub resource: Resource,
    pub nullifier_key: NullifierKey,
    pub path: Proof,
    pub delta_extra_input: [u8; 32],
}

#[derive(Debug, Clone)]
pub struct CreatedWitness {
    pub resource: Resource,
    pub delta_extra_input: [u8; 32],
}

#[derive(Debug, Clone)]
pub struct ComplianceWitness {
    pub consumed: Vec<ConsumedWitness>,
    pub created: Vec<CreatedWitness>,
}

pub struct ConsumedInstance {
    pub nullifier: [u8; 32],
    pub root: [u8; 32],
    pub logic_ref: [u8; 32],
}

pub struct CreatedInstance {
    pub commitment: [u8; 32],
    pub logic_ref: [u8; 32],
}

pub struct ComplianceInstance {
    pub consumed: Vec<ConsumedInstance>,
    pub created: Vec<CreatedInstance>,
    pub delta_x: [u32; 8],
    pub delta_y: [u32; 8],
}

impl View for ConsumedInstance {
    type V = (Seq<u8>, Seq<u8>, Seq<u8>);

    open spec fn view(&self) -> (Seq<u8>, Seq<u8>, Seq<u8>) {
        (self.nullifier@, self.root@, self.logic_ref@)
    }
}

/// A consumed instance as plain values: nullifier, root and logic reference.
pub open spec fn consumed_instance_of(w: ConsumedWitness) -> (Seq<u8>, Seq<u8>, Seq<u8>) {
    (
        resource_nullifier(w.resource, w.nullifier_key.bytes@),
        path_root(w.path.steps(), resource_commitment(w.resource)),
        w.resource.logic_ref@,
    )
}

/// The consumed nullifiers of a witness, concatenated.
pub open spec fn nullifier_bytes(cs: Seq<ConsumedWitness>) -> Seq<u8>
    decreases cs.len(),
{
    if cs.len() == 0 {
        Seq::empty()
    } else {
        nullifier_bytes(cs.drop_last()) + resource_nullifier(
            cs.last().resource,
            cs.last().nullifier_key.bytes@,
        )
    }
}

/// Every consumed resource is committed to the nullifier key it comes with.
pub open spec fn keys_match(cs: Seq<ConsumedWitness>) -> bool {
    forall|i: int|
        0 <= i < cs.len() ==> key_matches(#[trigger] cs[i].resource, cs[i].nullifier_key.bytes@)
}

/// The created resource at `j` carries the nonce its index calls for.
pub open spec fn nonce_ok(w: ComplianceWitness, j: int) -> bool {
    w.created@[j].resource.nonce@ == expected_nonce(nullifier_bytes(w.consumed@), j as nat)
}

/// What the compliance logic gives for `w`.
pub open spec fn compliance_outcome(w: ComplianceWitness, r: Result<ComplianceInstance, ArmError>) -> bool {
    if w.consumed@.len() == 0 {
        r == Err::<ComplianceInstance, ArmError>(ArmError::ComplianceProofEmptyNullifierArray)
    } else if exists|j: int| 0 <= j < w.created@.len() && !nonce_ok(w, j) {
        r == Err::<ComplianceInstance, ArmError>(
            ArmError::ComplianceProofCreatedResourceNonceMismatch,
        )
    } else {
        r matches Ok(c) && {
            &&& c.consumed@.len() == w.consumed@.len()
            &&& forall|i: int|
                0 <= i < w.consumed@.len() ==> #[trigger] c.consumed@[i]@ == consumed_instance_of(w.consumed@[i])
            &&& c.created@.len() == w.created@.len()
            &&& forall|i: int|
                0 <= i < w.created@.len() ==> #[trigger] c.created@[i].commitment@
                    == resource_commitment(w.created@[i].resource) && c.created@[i].logic_ref
                    == w.created@[i].resource.logic_ref
            &&& c.delta_x@ == Seq::new(8, |i: int| 0u32)
            &&& c.delta_y@ == Seq::new(8, |i: int| 0u32)
        }
    }
}

/// The nullifier of a consumed witness under the key it comes with.
pub open spec fn nullifier_of(c: ConsumedWitness) -> Seq<u8> {
    resource_nullifier(c.resource, c.nullifier_key.bytes@)
}

/// The bytes the created nonces are digests of are the nullifiers of all
/// consumed resources, in order: one more consumed resource appends its
/// nullifier, and the whole is their concatenation.
pub proof fn lemma_nullifier_bytes_all(cs: Seq<ConsumedWitness>, c: ConsumedWitness)
    ensures
        nullifier_bytes(Seq::<ConsumedWitness>::empty()) == Seq::<u8>::empty(),
        nullifier_bytes(cs.push(c)) == nullifier_bytes(cs) + nullifier_of(c),
        nullifier_bytes(cs) == cs.map_values(|x: ConsumedWitness| nullifier_of(x)).flatten(),
    decreases cs.len(),
{
    assert(cs.push(c).drop_last() =~= cs);
    let m = cs.map_values(|x: ConsumedWitness| nullifier_of(x));
    m.lemma_flatten_and_flatten_alt_are_equivalent();
    if cs.len() > 0 {
        lemma_nullifier_bytes_all(cs.drop_last(), cs.last());
        assert(m.drop_last() =~= cs.drop_last().map_values(|x: ConsumedWitness| nullifier_of(x)));
        m.drop_last().lemma_flatten_and_flatten_alt_are_equivalent();
    }
}

/// Every created resource of an accepted unit carries the digest of the
/// nullifiers the unit reveals, all of them in order, followed by its
/// index word.
pub proof fn lemma_nonces_cover_all_nullifiers(w: ComplianceWitness, c: ComplianceInstance, j: int)
    requires
        compliance_outcome(w, Ok(c)),
        0 <= j < w.created@.len(),
    ensures
        w.created@[j].resource.nonce@ == expected_nonce(
            c.consumed@.map_values(|i: ConsumedInstance| i.nullifier@).flatten(),
            j as nat,
        ),
{
    assert(nonce_ok(w, j));
    lemma_nullifier_bytes_all(w.consumed@, w.consumed@[0]);
    let ms = c.consumed@.map_values(|i: ConsumedInstance| i.nullifier@);
    let mw = w.consumed@.map_values(|x: ConsumedWitness| nullifier_of(x));
    assert forall|i: int| 0 <= i < ms.len() implies ms[i] == mw[i] by {
        assert(c.consumed@[i]@ == consumed_instance_of(w.consumed@[i]));
    }
    assert(ms =~= mw);
}

impl ConsumedWitness {
    /// The instance of the consumed resource.
    pub fn constrain(&self) -> (r: ConsumedInstance)
        requires
            key_matches(self.resource, self.nullifier_key.bytes@),
        ensures
            r@ == consumed_instance_of(*self),
    {
        let commitment = self.resource.commit();
        let nullifier = match self.resource.nullify(&self.nullifier_key) {
            Ok(n) => n,
            Err(_) => {
                assert(false);
                [0u8; 32]
            },
        };
        ConsumedInstance {
            nullifier,
            root: self.path.compute_root(commitment),
            logic_ref: self.resource.logic_ref,
        }
    }
}

impl CreatedWitness {
    /// The instance of the created resource.
    pub fn constrain(&self) -> (r: CreatedInstance)
        ensures
            r.commitment@ == resource_commitment(self.resource),
            r.logic_ref == self.resource.logic_ref,
    {
        CreatedInstance { commitment: self.resource.commit(), logic_ref: self.resource.logic_ref }
    }
}

impl ComplianceWitness {
    /// Function providing the core logic for the guest program.
    pub fn constrain(&self) -> (r: Result<ComplianceInstance, ArmError>)
        requires
            keys_match(self.consumed@),
        ensures
            compliance_outcome(*self, r),
    {
        let mut consumed_instances: Vec<ConsumedInstance> = Vec::new();
        let mut nullifiers: Vec<u8> = Vec::new();
        let mut i: usize = 0;
        while i < self.consumed.len()
            invariant
                keys_match(self.consumed@),
                i <= self.consumed@.len(),
                consumed_instances@.len() == i,
                forall|j: int|
                    0 <= j < i ==> #[trigger] consumed_instances@[j]@ == consumed_instance_of(self.consumed@[j]),
                nullifiers@ == nullifier_bytes(self.consumed@.take(i as int)),
            decreases self.consumed@.len() - i,
        {
            assert(self.consumed@.take(i + 1).drop_last() =~= self.consumed@.take(i as int));
            assert(key_matches(
                self.consumed@[i as int].resource,
                self.consumed@[i as int].nullifier_key.bytes@,
            ));
            let inst = self.consumed[i].constrain();
            append_bytes(&mut nullifiers, &inst.nullifier);
            consumed_instances.push(inst);
            i = i + 1;
        }
        assert(self.consumed@.take(i as int) =~= self.consumed@);
        let length = self.consumed.len();
        // if the nullifier array is empty we cannot guarantee
        // commitment uniqueness
        if length == 0 {
            return Err(ArmError::ComplianceProofEmptyNullifierArray);
        }
        let mut created_instances: Vec<CreatedInstance> = Vec::new();
        let mut index: usize = 0;
        while index < self.created.len()
            invariant
                index <= self.created@.len(),
                self.consumed@.len() > 0,
                nullifiers@ == nullifier_bytes(self.consumed@),
                created_instances@.len() == index,
                forall|j: int|
                    0 <= j < index ==> #[trigger] created_instances@[j].commitment@
                        == resource_commitment(self.created@[j].resource)
                        && created_instances@[j].logic_ref == self.created@[j].resource.logic_ref,
                forall|j: int| 0 <= j < index ==> nonce_ok(*self, j),
            decreases self.created@.len() - index,
        {
            let witness = &self.created[index];
            let mut index_bytes = [0u8; 32];
            let ib = usize_be4(index);
            write_at(&mut index_bytes, 0, &ib);
            proof {
                crate::bytes::lemma_be_bytes_len(index as nat, 4);
            }
            assert(index_bytes@ =~= be_bytes(index as nat, 4) + zeros(28));
            let mut buf: Vec<u8> = Vec::new();
            append_bytes(&mut buf, nullifiers.as_slice());
            append_bytes(&mut buf, &index_bytes);
            assert(buf@ =~= nullifiers@ + be_bytes(index as nat, 4) + zeros(28));
            let hash = keccak256(buf.as_slice());
            if !eq32(&witness.resource.nonce, &hash) {
                assert(!nonce_ok(*self, index as int));
                assert(exists|j: int| 0 <= j < self.created@.len() && !nonce_ok(*self, j));
                return Err(ArmError::ComplianceProofCreatedResourceNonceMismatch);
            }
            created_instances.push(
                CreatedInstance {
                    commitment: witness.resource.commit(),
                    logic_ref: witness.resource.logic_ref,
                },
            );
            index = index + 1;
        }
        let delta_x = [0u32; 8];
        let delta_y = [0u32; 8];
        assert(delta_x@ =~= Seq::new(8, |i: int| 0u32));
        Ok(
            ComplianceInstance {
                created: created_instances,
                consumed: consumed_instances,
                delta_x,
                delta_y,
            },
        )
    }

    /// The compliance logic on a witness it can run on, where every consumed
    /// resource comes with the key it is committed to; `None` on any other
    /// witness.
    pub fn try_constrain(&self) -> (r: Option<Result<ComplianceInstance, ArmError>>)
        ensures
            r is None <==> !keys_match(self.consumed@),
            r matches Some(res) ==> compliance_outcome(*self, res),
    {
        let mut i: usize = 0;
        while i < self.consumed.len()
            invariant
                i <= self.consumed@.len(),
                forall|j: int|
                    0 <= j < i ==> key_matches(
                        #[trigger] self.consumed@[j].resource,
                        self.consumed@[j].nullifier_key.bytes@,
                    ),
            decreases self.consumed@.len() - i,
        {
            if self.consumed[i].resource.nullify(&self.consumed[i].nullifier_key).is_err() {
                return None;
            }
            i = i + 1;
        }
        Some(self.constrain())
    }
}

} // verus!
