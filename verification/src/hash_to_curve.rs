//! Hashing of messages to points of secp256k1.

use vstd::prelude::*;

verus! {

/// Domain separation tag for the Keccak-256 XMD expansion:
/// `QUUX-V01-CS02-with-secp256k1_XMD:KECCAK-256_SSWU_RO_`.
pub const DST: [u8; 52] = [
    0x51, 0x55, 0x55, 0x58, 0x2d, 0x56, 0x30, 0x31, 0x2d, 0x43, 0x53, 0x30, 0x32, 0x2d, 0x77, 0x69,
    0x74, 0x68, 0x2d, 0x73, 0x65, 0x63, 0x70, 0x32, 0x35, 0x36, 0x6b, 0x31, 0x5f, 0x58, 0x4d, 0x44,
    0x3a, 0x4b, 0x45, 0x43, 0x43, 0x41, 0x4b, 0x2d, 0x32, 0x35, 0x36, 0x5f, 0x53, 0x53, 0x57, 0x55,
    0x5f, 0x52, 0x4f, 0x5f,
];

} // verus!
