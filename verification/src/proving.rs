//! Constants of the proving system and the check of what a verified proof
//! reveals.

use vstd::prelude::*;

use crate::error::ArmError;

verus! {

/// The deferral index; zero while every logic uses the same extensions.
pub const DEF_IDX: u16 = 0;

/// Commit bytes of the standardized extension set used by resource logics.
pub const LOGIC_VM_COMMIT: [u8; 32] = [
    0x53, 0xa3, 0x57, 0x54, 0xb2, 0xf5, 0x51, 0x36, 0xfd, 0xa5, 0x07, 0x16, 0xce, 0xcd, 0x57, 0x6e,
    0xd6, 0x74, 0xb5, 0x18, 0xf9, 0xe2, 0x4a, 0x68, 0x8e, 0x4a, 0x43, 0x61, 0x61, 0x6d, 0x42, 0x37,
];

/// Commit bytes of the extension set used by the compliance program.
pub const COMPLIANCE_VM_COMMIT: [u8; 32] = [
    0x01, 0xc2, 0x1e, 0x44, 0xc0, 0x08, 0x81, 0x41, 0x5b, 0x56, 0x26, 0x15, 0x9a, 0x31, 0xc0, 0x2d,
    0x05, 0xea, 0xef, 0x61, 0x0e, 0xd3, 0xe2, 0x1b, 0x8d, 0x24, 0x45, 0x11, 0x86, 0x7d, 0x8c, 0x64,
];

/// The bytes a proof reveals: the low byte of each public value, given by
/// its canonical value.
pub open spec fn revealed(public_values: Seq<u32>) -> Seq<u8> {
    public_values.map_values(|v: u32| (v % 256) as u8)
}

/// After a proof has been verified, checks that its public values reveal
/// exactly `instance`; refused with `InstanceMismatch` otherwise.
pub fn check_revealed(public_values: &[u32], instance: &[u8]) -> (r: Result<(), ArmError>)
    ensures
        r is Ok <==> revealed(public_values@) == instance@,
        r matches Err(e) ==> e == ArmError::InstanceMismatch,
{
    if public_values.len() != instance.len() {
        proof {
            assert(revealed(public_values@).len() != instance@.len());
        }
        return Err(ArmError::InstanceMismatch);
    }
    let mut i: usize = 0;
    while i < public_values.len()
        invariant
            i <= public_values@.len(),
            public_values@.len() == instance@.len(),
            forall|j: int| 0 <= j < i ==> revealed(public_values@)[j] == #[trigger] instance@[j],
        decreases public_values@.len() - i,
    {
        let b = (public_values[i] % 256) as u8;
        if b != instance[i] {
            proof {
                assert(revealed(public_values@)[i as int] != instance@[i as int]);
            }
            return Err(ArmError::InstanceMismatch);
        }
        i = i + 1;
    }
    assert(revealed(public_values@) =~= instance@);
    Ok(())
}

} // verus!
