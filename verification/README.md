# arm_core

The core of a shielded resource machine, written in Verus: resources and
their commitments and nullifiers, sparse Merkle action trees, the
compliance logic, resource-logic instances and transactions, and two
resource logics (ERC-20 transfer authorisation and voting).

## Layout

- `src/` — the verified library. Its executable functions carry a
  `requires`/`ensures` contract over spec functions on byte sequences, and
  the laws that relate several functions are public proof functions.
  Hashing (Keccak-256), elliptic-curve arithmetic on secp256k1, ECDSA
  signing and verification, Solidity ABI encoding and the ordered set of
  roots come from the `sha3`, `k256`, `alloy-sol-types` and std crates
  through small trusted wrappers, whose results are either stated exactly
  or named by uninterpreted spec functions.
  - `bytes`, `hash`, `tree` — byte helpers, Keccak-256, the sparse tree.
  - `curve`, `hash_to_curve`, `resource`, `nullifier_key`, `traits` — points,
    resources and their kinds, commitments and nullifiers.
  - `instance`, `witness`, `compliance`, `proving`, `journal` — compliance
    and logic instances, transactions, the compliance logic and the logic
    proofs it asks for, proof output checks, and the digest of the ABI
    encoding of an action instance that a compliance proof reveals.
  - `evm`, `transfer_auth`, `voting` — the forwarder calldata and the two
    resource logics.
  - `flows` — the wrap, unwrap and send flows of the transfer logic: their
    witnesses, the nonces and action root they get once built, the
    authority's signatures, and the compliance witness assembled from them,
    with the laws that such flows are accepted by both logics and that a
    verifier recomputes their action root.
  - `vm_commit` — byte encoding of virtual-machine commitments.
- `tests/` — tests of the library on concrete values.
- `app/` — plain Rust around the library: serde and ABI representations of
  its types, error display, and the transaction queries of the Elixir node.
