//! Sparse Merkle trees over 32-byte leaves: construction from the leaves,
//! membership paths, and recomputation of a root from a path.
//!
//! Missing right children are filled with default nodes: the default leaf is
//! the Keccak-256 digest of the bytes of `"EMPTY"`, and the default node one
//! level up is the hash of two default nodes of the level below.

use vstd::prelude::*;

use crate::bytes::eq32;
use crate::hash::{hash_two_stack, keccak, keccak256};

verus! {

/// The sparse Merkle tree, level by level: `nodes[0]` holds the leaves and
/// the last level holds the root alone.
#[derive(Debug, Clone, PartialEq, Eq)]
pub struct SparseTree {
    nodes: Vec<Vec<[u8; 32]>>,
}

/// One step of a Merkle path: the sibling node and the flag that tells on
/// which side the sibling is hashed in.
#[derive(Debug, Clone, PartialEq, Eq)]
pub struct Sibling {
    pub is_left: bool,
    pub node: [u8; 32],
}

/// A Merkle path, from the leaf level upwards.
#[derive(Debug, Clone, PartialEq, Eq)]
pub struct Proof {
    pub path: Vec<Sibling>,
}

#[derive(Debug, Clone, PartialEq, Eq)]
pub enum TreeError {
    EmptyTree,
}

/// The bytes of the string `"EMPTY"`.
pub open spec fn empty_preimage() -> Seq<u8> {
    seq![0x45u8, 0x4du8, 0x50u8, 0x54u8, 0x59u8]
}

/// The hash of an inner node from its left and right children.
pub open spec fn node_hash(left: Seq<u8>, right: Seq<u8>) -> Seq<u8> {
    keccak(left + right)
}

/// The default node at `level`: a hash of `"EMPTY"` for leaves, and the
/// hash of two default children above.
pub open spec fn empty_node(level: nat) -> Seq<u8>
    decreases level,
{
    if level == 0 {
        keccak(empty_preimage())
    } else {
        node_hash(empty_node((level - 1) as nat), empty_node((level - 1) as nat))
    }
}

/// The number of parents of `n` children: `⌈n / 2⌉`.
pub open spec fn half_up(n: nat) -> nat {
    n / 2 + n % 2
}

/// The level above `children` (which sit at `level`): each parent hashes a
/// pair of children, a missing right child being the default node.
pub open spec fn parent_level(children: Seq<Seq<u8>>, level: nat) -> Seq<Seq<u8>> {
    Seq::new(
        half_up(children.len()),
        |i: int|
            node_hash(
                children[2 * i],
                if 2 * i + 1 < children.len() {
                    children[2 * i + 1]
                } else {
                    empty_node(level)
                },
            ),
    )
}

/// Level `k` of the tree built over `leaves`.
pub open spec fn tree_level(leaves: Seq<Seq<u8>>, k: nat) -> Seq<Seq<u8>>
    decreases k,
{
    if k == 0 {
        leaves
    } else {
        parent_level(tree_level(leaves, (k - 1) as nat), (k - 1) as nat)
    }
}

/// The depth of a tree over `n` leaves: `⌈log₂ n⌉`, the number of halvings
/// that bring `n` down to one.
pub open spec fn tree_depth(n: nat) -> nat
    decreases n,
{
    if n <= 1 {
        0
    } else {
        1 + tree_depth(half_up(n))
    }
}

/// The root of the tree built over `leaves`.
pub open spec fn tree_root(leaves: Seq<Seq<u8>>) -> Seq<u8> {
    tree_level(leaves, tree_depth(leaves.len()))[0]
}

/// The values of a list of 32-byte nodes.
pub open spec fn level_view(level: Seq<[u8; 32]>) -> Seq<Seq<u8>> {
    level.map_values(|a: [u8; 32]| a@)
}

/// The index `i` shifted right by `k` bits: the position at level `k` of the
/// ancestor of leaf `i`.
pub open spec fn ancestor_index(i: nat, k: nat) -> nat
    decreases k,
{
    if k == 0 {
        i
    } else {
        ancestor_index(i, (k - 1) as nat) / 2
    }
}

/// The index of the sibling of node `j`: `j ^ 1`.
pub open spec fn sibling_index(j: nat) -> nat {
    if j % 2 == 0 {
        j + 1
    } else {
        (j - 1) as nat
    }
}

/// The sibling of node `j` in `level` (at height `k`), the default node when
/// it lies past the end of the level.
pub open spec fn sibling_value(level: Seq<Seq<u8>>, j: nat, k: nat) -> Seq<u8> {
    if sibling_index(j) < level.len() {
        level[sibling_index(j) as int]
    } else {
        empty_node(k)
    }
}

/// The path that `prove_for` builds for the leaf at index `i`: at each level,
/// the sibling of the ancestor, flagged as a left sibling when the ancestor's
/// index is odd.
pub open spec fn membership_path(leaves: Seq<Seq<u8>>, i: nat) -> Seq<(bool, Seq<u8>)> {
    Seq::new(
        tree_depth(leaves.len()),
        |k: int|
            (
                ancestor_index(i, k as nat) % 2 == 1,
                sibling_value(tree_level(leaves, k as nat), ancestor_index(i, k as nat), k as nat),
            ),
    )
}

/// One step of root recomputation: a sibling flagged `is_left` is hashed on
/// the left of the accumulated node, otherwise on its right.
pub open spec fn path_step(step: (bool, Seq<u8>), acc: Seq<u8>) -> Seq<u8> {
    if step.0 {
        node_hash(step.1, acc)
    } else {
        node_hash(acc, step.1)
    }
}

/// The root recomputed from `leaf` along `steps`, first step first.
pub open spec fn path_root(steps: Seq<(bool, Seq<u8>)>, leaf: Seq<u8>) -> Seq<u8>
    decreases steps.len(),
{
    if steps.len() == 0 {
        leaf
    } else {
        path_step(steps.last(), path_root(steps.drop_last(), leaf))
    }
}

/// `i` is the first position of `x` in `s`.
pub open spec fn is_first_index(s: Seq<Seq<u8>>, x: Seq<u8>, i: int) -> bool {
    &&& 0 <= i < s.len()
    &&& s[i] == x
    &&& forall|j: int| 0 <= j < i ==> s[j] != x
}

impl SparseTree {
    /// The values of level `k`.
    pub closed spec fn level(self, k: int) -> Seq<Seq<u8>> {
        level_view(self.nodes@[k]@)
    }

    /// The leaves of the tree.
    pub closed spec fn leaves(self) -> Seq<Seq<u8>> {
        self.level(0)
    }

    /// The tree is the one built over its leaves: one level per height, each
    /// the parents of the level below, and at least one leaf.
    pub closed spec fn wf(self) -> bool {
        &&& self.nodes@.len() >= 1
        &&& self.leaves().len() >= 1
        &&& self.nodes@.len() == tree_depth(self.leaves().len()) + 1
        &&& forall|k: int|
            0 <= k < self.nodes@.len() ==> #[trigger] self.level(k) == tree_level(
                self.leaves(),
                k as nat,
            )
    }
}

impl Sibling {
    pub open spec fn step(self) -> (bool, Seq<u8>) {
        (self.is_left, self.node@)
    }
}

impl Proof {
    /// The steps of the path as plain values.
    pub open spec fn steps(self) -> Seq<(bool, Seq<u8>)> {
        self.path@.map_values(|s: Sibling| s.step())
    }
}

/// Level `k` of a tree over `n` leaves has `⌈n / 2^k⌉` nodes; at its depth, one.
proof fn lemma_level_len(leaves: Seq<Seq<u8>>, k: nat, m: nat)
    requires
        leaves.len() >= 1,
        tree_level(leaves, k).len() == m,
    ensures
        m >= 1,
        tree_level(leaves, k + 1).len() == half_up(m),
    decreases k,
{
    if k > 0 {
        lemma_level_len(leaves, (k - 1) as nat, tree_level(leaves, (k - 1) as nat).len());
    }
}

/// The number of levels above `n` nodes until one node is left.
proof fn lemma_depth_reaches_one(leaves: Seq<Seq<u8>>, k: nat)
    requires
        leaves.len() >= 1,
    ensures
        tree_depth(tree_level(leaves, k).len()) + k == tree_depth(leaves.len()) ==> tree_level(
            leaves,
            tree_depth(leaves.len()),
        ).len() == 1,
        tree_level(leaves, k).len() >= 1,
        k <= tree_depth(leaves.len()) ==> tree_depth(tree_level(leaves, k).len()) + k
            == tree_depth(leaves.len()),
    decreases k,
{
    if k == 0 {
        lemma_depth_at_one(leaves);
    } else {
        lemma_depth_reaches_one(leaves, (k - 1) as nat);
        let m = tree_level(leaves, (k - 1) as nat).len();
        lemma_level_len(leaves, (k - 1) as nat, m);
    }
}

proof fn lemma_depth_at_one(leaves: Seq<Seq<u8>>)
    requires
        leaves.len() >= 1,
    ensures
        tree_level(leaves, tree_depth(leaves.len())).len() == 1,
{
    lemma_levels_down(leaves, 0);
}

/// Walking up from level `k` for `tree_depth(|level k|)` levels ends at a
/// single node.
proof fn lemma_levels_down(leaves: Seq<Seq<u8>>, k: nat)
    requires
        leaves.len() >= 1,
        k <= tree_depth(leaves.len()),
        tree_depth(tree_level(leaves, k).len()) + k == tree_depth(leaves.len()),
    ensures
        tree_level(leaves, tree_depth(leaves.len())).len() == 1,
    decreases tree_depth(leaves.len()) - k,
{
    let m = tree_level(leaves, k).len();
    lemma_level_len_pos(leaves, k);
    if m <= 1 {
    } else {
        lemma_level_len(leaves, k, m);
        lemma_levels_down(leaves, k + 1);
    }
}

proof fn lemma_level_len_pos(leaves: Seq<Seq<u8>>, k: nat)
    requires
        leaves.len() >= 1,
    ensures
        tree_level(leaves, k).len() >= 1,
    decreases k,
{
    if k > 0 {
        lemma_level_len_pos(leaves, (k - 1) as nat);
    }
}

/// The default nodes of the levels `0..=depth`.
pub fn empty_nodes(depth: usize) -> (nodes: Vec<[u8; 32]>)
    requires
        depth < usize::MAX,
    ensures
        nodes@.len() == depth + 1,
        forall|k: int| 0 <= k <= depth ==> #[trigger] nodes@[k]@ == empty_node(k as nat),
        nodes@[0]@ == keccak(empty_preimage()),
        forall|k: int|
            0 <= k < depth ==> #[trigger] nodes@[k + 1]@ == node_hash(nodes@[k]@, nodes@[k]@),
{
    let mut nodes: Vec<[u8; 32]> = Vec::new();
    let preimage: [u8; 5] = [0x45u8, 0x4du8, 0x50u8, 0x54u8, 0x59u8];
    assert(preimage@ =~= empty_preimage());
    nodes.push(keccak256(&preimage));
    let mut i: usize = 0;
    while i < depth
        invariant
            i <= depth,
            nodes@.len() == i + 1,
            forall|k: int| 0 <= k <= i ==> #[trigger] nodes@[k]@ == empty_node(k as nat),
        decreases depth - i,
    {
        let below = nodes[i];
        let next = hash_two_stack(&below, &below);
        nodes.push(next);
        assert(nodes@[i + 1]@ == empty_node((i + 1) as nat));
        i = i + 1;
    }
    nodes
}

impl SparseTree {
    /// Builds the sparse Merkle tree over `leaves`; an empty list of leaves
    /// is refused.
    pub fn compute_tree(leaves: &[[u8; 32]]) -> (r: Result<SparseTree, TreeError>)
        ensures
            leaves@.len() == 0 <==> r == Err::<SparseTree, TreeError>(TreeError::EmptyTree),
            leaves@.len() > 0 <==> r is Ok,
            r matches Ok(t) ==> t.wf() && t.leaves() == level_view(leaves@),
    {
        if leaves.len() == 0 {
            return Err(TreeError::EmptyTree);
        }
        let ghost lv = level_view(leaves@);
        // the depth: number of halvings down to one node
        let mut depth: usize = 0;
        let mut m: usize = leaves.len();
        while m > 1
            invariant
                m >= 1,
                tree_depth(leaves@.len() as nat) == depth + tree_depth(m as nat),
                depth + m <= leaves@.len(),
                leaves@.len() <= usize::MAX,
            decreases m,
        {
            m = m / 2 + m % 2;
            depth = depth + 1;
        }
        assert(tree_depth(m as nat) == 0);
        let empty = empty_nodes(depth);
        let mut first: Vec<[u8; 32]> = Vec::new();
        let mut j: usize = 0;
        while j < leaves.len()
            invariant
                j <= leaves@.len(),
                lv == level_view(leaves@),
                first@.len() == j,
                forall|q: int| 0 <= q < j ==> #[trigger] first@[q]@ == lv[q],
            decreases leaves@.len() - j,
        {
            assert(lv[j as int] == leaves@[j as int]@);
            first.push(leaves[j]);
            j = j + 1;
        }
        assert(level_view(first@) =~= lv);
        let mut nodes: Vec<Vec<[u8; 32]>> = Vec::new();
        nodes.push(first);
        let mut k: usize = 0;
        while k < depth
            invariant
                k <= depth,
                depth == tree_depth(lv.len()),
                lv.len() >= 1,
                empty@.len() == depth + 1,
                forall|e: int| 0 <= e <= depth ==> #[trigger] empty@[e]@ == empty_node(e as nat),
                nodes@.len() == k + 1,
                forall|l: int|
                    0 <= l <= k ==> #[trigger] level_view(nodes@[l]@) == tree_level(lv, l as nat),
            decreases depth - k,
        {
            let len = nodes[k].len();
            let ghost cur = tree_level(lv, k as nat);
            assert(level_view(nodes@[k as int]@) == cur);
            let parents = len / 2 + len % 2;
            let mut next: Vec<[u8; 32]> = Vec::new();
            let mut p: usize = 0;
            while p < parents
                invariant
                    p <= parents,
                    parents == half_up(len as nat),
                    nodes@.len() == k + 1,
                    len == nodes@[k as int]@.len(),
                    k < depth,
                    empty@.len() == depth + 1,
                    empty@[k as int]@ == empty_node(k as nat),
                    level_view(nodes@[k as int]@) == cur,
                    next@.len() == p,
                    forall|q: int|
                        0 <= q < p ==> #[trigger] next@[q]@ == parent_level(cur, k as nat)[q],
                decreases parents - p,
            {
                let left = nodes[k][2 * p];
                let right = if 2 * p + 1 < len {
                    nodes[k][2 * p + 1]
                } else {
                    empty[k]
                };
                assert(left@ == cur[2 * p as int]);
                assert(2 * p + 1 < len ==> right@ == cur[2 * p + 1]);
                let h = hash_two_stack(&left, &right);
                next.push(h);
                p = p + 1;
            }
            assert(level_view(next@) =~= parent_level(cur, k as nat));
            nodes.push(next);
            assert(level_view(nodes@[k + 1]@) == tree_level(lv, (k + 1) as nat));
            k = k + 1;
        }
        let t = SparseTree { nodes };
        assert(t.leaves() == lv);
        assert forall|l: int| 0 <= l < t.nodes@.len() implies #[trigger] t.level(l) == tree_level(
            t.leaves(),
            l as nat,
        ) by {
            assert(level_view(t.nodes@[l]@) == tree_level(lv, l as nat));
        }
        Ok(t)
    }

    /// The root: the single node of the top level.
    pub fn root(&self) -> (r: Option<&[u8; 32]>)
        requires
            self.wf(),
        ensures
            r matches Some(x) && x@ == tree_root(self.leaves()),
    {
        proof {
            lemma_depth_at_one(self.leaves());
        }
        let n = self.nodes.len();
        let top = &self.nodes[n - 1];
        assert(self.level(n - 1) == tree_level(self.leaves(), tree_depth(self.leaves().len())));
        assert(level_view(top@).len() == 1);
        if top.len() == 0 {
            return None;
        }
        assert(top@[0]@ == level_view(top@)[0]);
        Some(&top[0])
    }
}


impl SparseTree {
    /// A Merkle path for the first leaf equal to `leaf`, or `None` when no
    /// leaf equals it.
    pub fn prove_for(&self, leaf: &[u8; 32]) -> (r: Option<Proof>)
        requires
            self.wf(),
        ensures
            r is None <==> !self.leaves().contains(leaf@),
            r matches Some(p) ==> exists|i: int|
                is_first_index(self.leaves(), leaf@, i) && p.steps() == membership_path(
                    self.leaves(),
                    i as nat,
                ),
            r matches Some(p) ==> path_root(p.steps(), leaf@) == tree_root(self.leaves()),
    {
        let ghost leaves = self.leaves();
        let n = self.nodes[0].len();
        let mut i: usize = 0;
        let mut found = false;
        while i < n && !found
            invariant
                self.wf(),
                n == leaves.len(),
                n == self.nodes@[0]@.len(),
                leaves == self.level(0),
                i <= n,
                found ==> i < n && leaves[i as int] == leaf@,
                forall|j: int| 0 <= j < i ==> leaves[j] != leaf@,
            decreases n - i + (if found { 0int } else { 1int }),
        {
            assert(self.nodes@[0]@[i as int]@ == leaves[i as int]);
            if eq32(&self.nodes[0][i], leaf) {
                found = true;
            } else {
                i = i + 1;
            }
        }
        if !found {
            assert(!leaves.contains(leaf@)) by {
                if leaves.contains(leaf@) {
                    let j = choose|j: int| 0 <= j < leaves.len() && leaves[j] == leaf@;
                    assert(leaves[j] != leaf@);
                }
            }
            return None;
        }
        let ghost first = i;
        let depth = self.nodes.len() - 1;
        let empty = empty_nodes(depth);
        let mut index: usize = i;
        let mut path: Vec<Sibling> = Vec::new();
        let mut level: usize = 0;
        while level < depth
            invariant
                self.wf(),
                leaves == self.leaves(),
                depth == self.nodes@.len() - 1,
                depth == tree_depth(leaves.len()),
                first < leaves.len(),
                empty@.len() == depth + 1,
                forall|e: int| 0 <= e <= depth ==> #[trigger] empty@[e]@ == empty_node(e as nat),
                level <= depth,
                index == ancestor_index(first as nat, level as nat),
                index < tree_level(leaves, level as nat).len(),
                path@.len() == level,
                forall|q: int|
                    0 <= q < level ==> #[trigger] path@[q].step() == membership_path(
                        leaves,
                        first as nat,
                    )[q],
            decreases depth - level,
        {
            let ghost cur = tree_level(leaves, level as nat);
            assert(self.level(level as int) == cur);
            let sibling = index ^ 1;
            assert(sibling == (if index % 2 == 0 {
                (index + 1) as usize
            } else {
                (index - 1) as usize
            })) by (bit_vector)
                requires
                    sibling == index ^ 1,
            ;
            let len = self.nodes[level].len();
            let sibling_node = if sibling < len {
                self.nodes[level][sibling]
            } else {
                empty[level]
            };
            assert(sibling < len ==> sibling_node@ == cur[sibling as int]);
            let is_left = index % 2 == 1;
            path.push(Sibling { is_left, node: sibling_node });
            proof {
                lemma_level_len(leaves, level as nat, cur.len());
            }
            index = index / 2;
            level = level + 1;
        }
        let p = Proof { path };
        assert(p.steps() =~= membership_path(leaves, first as nat));
        assert(is_first_index(leaves, leaf@, first as int));
        proof {
            lemma_membership_path_reaches_root(leaves, first as nat);
        }
        Some(p)
    }
}

impl Proof {
    /// Checks the path against `root`: whether the root recomputed from
    /// `leaf` equals it.
    pub fn verify(&self, leaf: [u8; 32], root: [u8; 32]) -> (r: bool)
        ensures
            r == (path_root(self.steps(), leaf@) == root@),
    {
        let asserted_root = self.compute_root(leaf);
        eq32(&asserted_root, &root)
    }

    /// The root recomputed from `leaf` along the path, first step first.
    pub fn compute_root(&self, leaf: [u8; 32]) -> (r: [u8; 32])
        ensures
            r@ == path_root(self.steps(), leaf@),
    {
        let ghost steps = self.steps();
        let mut acc = leaf;
        let mut i: usize = 0;
        while i < self.path.len()
            invariant
                steps == self.steps(),
                i <= self.path@.len(),
                acc@ == path_root(steps.take(i as int), leaf@),
            decreases self.path@.len() - i,
        {
            let ghost prev = steps.take(i as int);
            assert(steps.take(i + 1).drop_last() =~= prev);
            assert(steps.take(i + 1).last() == self.path@[i as int].step());
            acc = if self.path[i].is_left {
                hash_two_stack(&self.path[i].node, &acc)
            } else {
                hash_two_stack(&acc, &self.path[i].node)
            };
            i = i + 1;
        }
        assert(steps.take(self.path@.len() as int) =~= steps);
        acc
    }
}

/// The value of the ancestor at level `k` of the leaf at index `i`.
pub open spec fn ancestor_value(leaves: Seq<Seq<u8>>, i: nat, k: nat) -> Seq<u8> {
    tree_level(leaves, k)[ancestor_index(i, k) as int]
}

proof fn lemma_ancestor_in_level(leaves: Seq<Seq<u8>>, i: nat, k: nat)
    requires
        leaves.len() >= 1,
        i < leaves.len(),
    ensures
        ancestor_index(i, k) < tree_level(leaves, k).len(),
    decreases k,
{
    if k > 0 {
        lemma_ancestor_in_level(leaves, i, (k - 1) as nat);
        let m = tree_level(leaves, (k - 1) as nat).len();
        lemma_level_len(leaves, (k - 1) as nat, m);
    }
}

proof fn lemma_path_prefix_root(leaves: Seq<Seq<u8>>, i: nat, k: nat)
    requires
        leaves.len() >= 1,
        i < leaves.len(),
        k <= tree_depth(leaves.len()),
    ensures
        path_root(membership_path(leaves, i).take(k as int), leaves[i as int]) == ancestor_value(
            leaves,
            i,
            k,
        ),
    decreases k,
{
    let mp = membership_path(leaves, i);
    if k > 0 {
        let k1 = (k - 1) as nat;
        lemma_path_prefix_root(leaves, i, k1);
        assert(mp.take(k as int).drop_last() =~= mp.take(k1 as int));
        let cur = tree_level(leaves, k1);
        let j = ancestor_index(i, k1);
        lemma_ancestor_in_level(leaves, i, k1);
        lemma_level_len(leaves, k1, cur.len());
        assert(tree_level(leaves, k) == parent_level(cur, k1));
        if j % 2 == 0 {
            assert(2 * (j / 2) == j);
        } else {
            assert(2 * (j / 2) == j - 1);
            assert(2 * (j / 2) + 1 == j);
        }
    }
}

/// The path that `prove_for` builds for the leaf at index `i` leads back to
/// the root of the tree.
pub proof fn lemma_membership_path_reaches_root(leaves: Seq<Seq<u8>>, i: nat)
    requires
        leaves.len() >= 1,
        i < leaves.len(),
    ensures
        path_root(membership_path(leaves, i), leaves[i as int]) == tree_root(leaves),
{
    let d = tree_depth(leaves.len());
    lemma_path_prefix_root(leaves, i, d);
    assert(membership_path(leaves, i).take(d as int) =~= membership_path(leaves, i));
    lemma_ancestor_in_level(leaves, i, d);
    lemma_depth_at_one(leaves);
}

/// In a tree of a single leaf, the path of that leaf is empty and leads to
/// the root.
pub proof fn lemma_single_leaf_path(leaves: Seq<Seq<u8>>)
    requires
        leaves.len() == 1,
    ensures
        membership_path(leaves, 0).len() == 0,
        path_root(membership_path(leaves, 0), leaves[0]) == tree_root(leaves),
{
    lemma_membership_path_reaches_root(leaves, 0);
}

/// The default nodes of a smaller depth are the first ones of a larger
/// depth: two results of `empty_nodes`, for `k <= d`, agree on levels
/// `0..=k`.
pub proof fn lemma_empty_nodes_prefix(a: Seq<[u8; 32]>, b: Seq<[u8; 32]>, k: nat, d: nat)
    requires
        k <= d,
        a.len() == k + 1,
        b.len() == d + 1,
        forall|j: int| 0 <= j <= k ==> #[trigger] a[j]@ == empty_node(j as nat),
        forall|j: int| 0 <= j <= d ==> #[trigger] b[j]@ == empty_node(j as nat),
    ensures
        a == b.take(k as int + 1),
{
    assert forall|j: int| 0 <= j <= k implies #[trigger] a[j] == b.take(k as int + 1)[j] by {
        assert(a[j]@ == b[j]@);
        assert(a[j] =~= b[j]);
    }
    assert(a =~= b.take(k as int + 1));
}

/// Recomputing a root along the empty path gives the leaf back, and along
/// two paths one after the other is recomputing it along their
/// concatenation.
pub proof fn lemma_path_root_concat(
    p1: Seq<(bool, Seq<u8>)>,
    p2: Seq<(bool, Seq<u8>)>,
    leaf: Seq<u8>,
)
    ensures
        path_root(Seq::empty(), leaf) == leaf,
        path_root(p1 + p2, leaf) == path_root(p2, path_root(p1, leaf)),
    decreases p2.len(),
{
    if p2.len() == 0 {
        assert(p1 + p2 =~= p1);
    } else {
        lemma_path_root_concat(p1, p2.drop_last(), leaf);
        assert((p1 + p2).drop_last() =~= p1 + p2.drop_last());
        assert((p1 + p2).last() == p2.last());
    }
}

/// `2^k`.
pub open spec fn two_pow(k: nat) -> nat
    decreases k,
{
    if k == 0 {
        1
    } else {
        2 * two_pow((k - 1) as nat)
    }
}

/// `n` copies of the default node of `level`.
pub open spec fn empty_run(level: nat, n: nat) -> Seq<Seq<u8>> {
    Seq::new(n, |i: int| empty_node(level))
}

/// A tree of depth `tree_depth(n)` has room for `n` leaves.
proof fn lemma_depth_bound(n: nat)
    requires
        n >= 1,
    ensures
        n <= two_pow(tree_depth(n)),
    decreases n,
{
    if n > 1 {
        lemma_depth_bound(half_up(n));
    }
}

/// The depth of a tree over `2^d` leaves is `d`.
proof fn lemma_depth_of_power(d: nat)
    ensures
        tree_depth(two_pow(d)) == d,
    decreases d,
{
    if d > 0 {
        lemma_depth_of_power((d - 1) as nat);
        assert(half_up(two_pow(d)) == two_pow((d - 1) as nat));
    }
}

/// Each level of the tree over the leaves padded with default leaves to
/// `2^depth` is the level of the tree over the leaves, padded with default
/// nodes of that level.
proof fn lemma_padded_levels(leaves: Seq<Seq<u8>>, k: nat)
    requires
        leaves.len() >= 1,
        k <= tree_depth(leaves.len()),
    ensures
        tree_level(leaves, k).len() <= two_pow((tree_depth(leaves.len()) - k) as nat),
        tree_level(
            leaves + empty_run(0, (two_pow(tree_depth(leaves.len())) - leaves.len()) as nat),
            k,
        ) == tree_level(leaves, k) + empty_run(
            k,
            (two_pow((tree_depth(leaves.len()) - k) as nat) - tree_level(leaves, k).len()) as nat,
        ),
    decreases k,
{
    let d = tree_depth(leaves.len());
    let padded = leaves + empty_run(0, (two_pow(d) - leaves.len()) as nat);
    if k == 0 {
        lemma_depth_bound(leaves.len());
    } else {
        let k1 = (k - 1) as nat;
        lemma_padded_levels(leaves, k1);
        let a = tree_level(leaves, k1);
        let p = two_pow((d - k) as nat);
        assert(two_pow((d - k1) as nat) == 2 * p);
        let x = a + empty_run(k1, (2 * p - a.len()) as nat);
        assert(tree_level(padded, k1) == x);
        lemma_level_len(leaves, k1, a.len());
        let pa = parent_level(a, k1);
        assert(tree_level(leaves, k) == pa);
        assert(pa.len() == half_up(a.len()));
        assert(half_up(a.len()) <= p);
        let expect = pa + empty_run(k, (p - pa.len()) as nat);
        assert(x.len() == 2 * p);
        assert forall|i: int| 0 <= i < p implies #[trigger] parent_level(x, k1)[i] == expect[i] by {
            if i < pa.len() {
                assert(x[2 * i] == a[2 * i]);
                if 2 * i + 1 < a.len() {
                    assert(x[2 * i + 1] == a[2 * i + 1]);
                } else {
                    assert(x[2 * i + 1] == empty_node(k1));
                }
            } else {
                assert(x[2 * i] == empty_node(k1));
                assert(x[2 * i + 1] == empty_node(k1));
            }
        }
        assert(parent_level(x, k1) =~= expect);
    }
}

/// Padding the leaves with default leaves up to the next power of two
/// keeps the root: absent leaves count as the default leaf.
pub proof fn lemma_padding_keeps_root(leaves: Seq<Seq<u8>>)
    requires
        leaves.len() >= 1,
    ensures
        tree_root(
            leaves + empty_run(0, (two_pow(tree_depth(leaves.len())) - leaves.len()) as nat),
        ) == tree_root(leaves),
{
    let d = tree_depth(leaves.len());
    let padded = leaves + empty_run(0, (two_pow(d) - leaves.len()) as nat);
    lemma_padded_levels(leaves, d);
    lemma_depth_bound(leaves.len());
    assert(padded.len() == two_pow(d));
    lemma_depth_of_power(d);
    lemma_depth_at_one(leaves);
    assert(two_pow(0) == 1);
    assert(tree_level(padded, d) =~= tree_level(leaves, d));
}

} // verus!
