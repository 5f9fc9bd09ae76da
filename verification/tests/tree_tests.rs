use arm_core::hash::{hash_two_heap, hash_two_stack, keccak256};
use arm_core::tree::{empty_nodes, Proof, Sibling, SparseTree, TreeError};

fn hex(s: &str) -> Vec<u8> {
    (0..s.len()).step_by(2).map(|i| u8::from_str_radix(&s[i..i + 2], 16).unwrap()).collect()
}

fn leaf(b: u8) -> [u8; 32] {
    [b; 32]
}

#[test]
fn keccak_known_vectors() {
    assert_eq!(
        keccak256(&[]).to_vec(),
        hex("c5d2460186f7233c927e7db2dcc703c0e500b653ca82273b7bfad8045d85a470")
    );
    assert_eq!(
        keccak256(b"abc").to_vec(),
        hex("4e03657aea45a94fc7d47ba826c8d667c0d1e6e33a64a036ec44f58fa12d6c45")
    );
}

#[test]
fn hash_two_is_keccak_of_concatenation() {
    let a = leaf(1);
    let b = leaf(2);
    let mut cat = a.to_vec();
    cat.extend_from_slice(&b);
    assert_eq!(hash_two_stack(&a, &b), keccak256(&cat));
    assert_eq!(hash_two_heap(&a, &b), keccak256(&cat));
    assert_eq!(hash_two_heap(b"ab", b"c"), keccak256(b"abc"));
    assert_ne!(hash_two_stack(&a, &b), hash_two_stack(&b, &a));
}

#[test]
fn empty_nodes_chain() {
    let nodes = empty_nodes(3);
    assert_eq!(nodes.len(), 4);
    assert_eq!(nodes[0], keccak256(b"EMPTY"));
    for i in 0..3 {
        assert_eq!(nodes[i + 1], hash_two_stack(&nodes[i], &nodes[i]));
    }
    assert_eq!(empty_nodes(0), vec![keccak256(b"EMPTY")]);
}

#[test]
fn empty_tree_is_refused() {
    assert_eq!(SparseTree::compute_tree(&[]), Err(TreeError::EmptyTree));
}

#[test]
fn single_leaf_tree() {
    let t = SparseTree::compute_tree(&[leaf(7)]).unwrap();
    assert_eq!(t.root(), Some(&leaf(7)));
    let p = t.prove_for(&leaf(7)).unwrap();
    assert!(p.path.is_empty());
    assert_eq!(p.compute_root(leaf(7)), leaf(7));
    assert!(p.verify(leaf(7), leaf(7)));
    assert!(t.prove_for(&leaf(8)).is_none());
}

#[test]
fn two_and_three_leaf_roots() {
    let t2 = SparseTree::compute_tree(&[leaf(1), leaf(2)]).unwrap();
    assert_eq!(*t2.root().unwrap(), hash_two_stack(&leaf(1), &leaf(2)));
    let t3 = SparseTree::compute_tree(&[leaf(1), leaf(2), leaf(3)]).unwrap();
    let e = empty_nodes(2);
    let left = hash_two_stack(&leaf(1), &leaf(2));
    let right = hash_two_stack(&leaf(3), &e[0]);
    assert_eq!(*t3.root().unwrap(), hash_two_stack(&left, &right));
    // five leaves: depth 3, padding with default nodes of levels 0 and 1
    let leaves: Vec<[u8; 32]> = (1..=5).map(leaf).collect();
    let t5 = SparseTree::compute_tree(&leaves).unwrap();
    let e = empty_nodes(3);
    let l1 = [
        hash_two_stack(&leaf(1), &leaf(2)),
        hash_two_stack(&leaf(3), &leaf(4)),
        hash_two_stack(&leaf(5), &e[0]),
    ];
    let l2 = [hash_two_stack(&l1[0], &l1[1]), hash_two_stack(&l1[2], &e[1])];
    assert_eq!(*t5.root().unwrap(), hash_two_stack(&l2[0], &l2[1]));
}

#[test]
fn prove_for_builds_sibling_path() {
    let leaves: Vec<[u8; 32]> = (1..=3).map(leaf).collect();
    let t = SparseTree::compute_tree(&leaves).unwrap();
    let e = empty_nodes(2);
    let p = t.prove_for(&leaf(3)).unwrap();
    let left_parent = hash_two_stack(&leaf(1), &leaf(2));
    assert_eq!(
        p.path,
        vec![
            Sibling { is_left: false, node: e[0] },
            Sibling { is_left: true, node: left_parent },
        ]
    );
    assert!(p.verify(leaf(3), *t.root().unwrap()));
    let p1 = t.prove_for(&leaf(2)).unwrap();
    assert_eq!(p1.path[0], Sibling { is_left: true, node: leaf(1) });
}

#[test]
fn prove_for_takes_first_equal_leaf() {
    let t = SparseTree::compute_tree(&[leaf(1), leaf(9), leaf(9), leaf(4)]).unwrap();
    let p = t.prove_for(&leaf(9)).unwrap();
    // index 1 is odd: the sibling is leaf 0, on the left
    assert_eq!(p.path[0], Sibling { is_left: true, node: leaf(1) });
}

#[test]
fn compute_root_follows_flags() {
    let p = Proof {
        path: vec![
            Sibling { is_left: true, node: leaf(2) },
            Sibling { is_left: false, node: leaf(3) },
        ],
    };
    let step1 = hash_two_stack(&leaf(2), &leaf(1));
    let step2 = hash_two_stack(&step1, &leaf(3));
    assert_eq!(p.compute_root(leaf(1)), step2);
    assert!(p.verify(leaf(1), step2));
    assert!(!p.verify(leaf(1), step1));
}

#[test]
fn path_of_distinct_pair_reaches_root() {
    let t = SparseTree::compute_tree(&[leaf(1), leaf(2)]).unwrap();
    let root = *t.root().unwrap();
    assert_eq!(root, hash_two_stack(&leaf(1), &leaf(2)));
    let p = t.prove_for(&leaf(1)).unwrap();
    assert_eq!(p.path.len(), 1);
    assert_eq!(p.path[0].node, leaf(2));
    assert!(!p.path[0].is_left);
    assert_eq!(p.compute_root(leaf(1)), root);
    assert!(p.verify(leaf(1), root));
    let q = t.prove_for(&leaf(2)).unwrap();
    assert!(q.path[0].is_left);
    assert!(q.verify(leaf(2), root));
}

#[test]
fn every_leaf_path_reaches_root() {
    let leaves: Vec<[u8; 32]> = (1..=5u8).map(leaf).collect();
    let t = SparseTree::compute_tree(&leaves).unwrap();
    let root = *t.root().unwrap();
    for l in &leaves {
        let p = t.prove_for(l).unwrap();
        assert_eq!(p.path.len(), 3);
        assert!(p.verify(*l, root));
        assert!(!p.verify(leaf(9), root));
    }
    let same = SparseTree::compute_tree(&[leaf(5), leaf(5), leaf(5), leaf(5)]).unwrap();
    let p = same.prove_for(&leaf(5)).unwrap();
    assert!(p.verify(leaf(5), *same.root().unwrap()));
}

#[test]
fn padding_with_empty_leaves_keeps_root() {
    let empty = keccak256(b"EMPTY");
    for n in 1..=6u8 {
        let leaves: Vec<[u8; 32]> = (1..=n).map(leaf).collect();
        let mut padded = leaves.clone();
        while !padded.len().is_power_of_two() {
            padded.push(empty);
        }
        let a = *SparseTree::compute_tree(&leaves).unwrap().root().unwrap();
        let b = *SparseTree::compute_tree(&padded).unwrap().root().unwrap();
        assert_eq!(a, b);
    }
}

#[test]
fn empty_nodes_prefix_and_recurrence() {
    let big = empty_nodes(5);
    assert_eq!(big[0], keccak256(b"EMPTY"));
    for k in 0..5 {
        assert_eq!(big[k + 1], hash_two_stack(&big[k], &big[k]));
        assert_eq!(empty_nodes(k)[..], big[..k + 1]);
    }
}

#[test]
fn compute_root_over_concatenated_paths() {
    let s1 = Sibling { is_left: true, node: leaf(2) };
    let s2 = Sibling { is_left: false, node: leaf(3) };
    let s3 = Sibling { is_left: true, node: leaf(4) };
    let p1 = Proof { path: vec![s1.clone(), s2.clone()] };
    let p2 = Proof { path: vec![s3.clone()] };
    let both = Proof { path: vec![s1, s2, s3] };
    assert_eq!(both.compute_root(leaf(1)), p2.compute_root(p1.compute_root(leaf(1))));
    assert_eq!(Proof { path: vec![] }.compute_root(leaf(1)), leaf(1));
}
