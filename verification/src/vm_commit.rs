//! Bytes of the commitments of the proving system's virtual machines.

use vstd::prelude::*;

use crate::bytes::{append_bytes, le_bytes, lemma_le_bytes_len, u32_le_bytes};

verus! {

/// Field elements given by their canonical values, each as four
/// little-endian bytes, one after the other.
pub open spec fn field_bytes(values: Seq<u32>) -> Seq<u8>
    decreases values.len(),
{
    if values.len() == 0 {
        Seq::empty()
    } else {
        field_bytes(values.drop_last()) + le_bytes(values.last() as nat, 4)
    }
}

/// The bytes of a commitment given as field elements by their canonical
/// values: four little-endian bytes per element, in order.
pub fn f_slice_to_bytes(slice: &[u32]) -> (r: Vec<u8>)
    ensures
        r@ == field_bytes(slice@),
        r@.len() == 4 * slice@.len(),
{
    let mut out: Vec<u8> = Vec::new();
    let mut i: usize = 0;
    while i < slice.len()
        invariant
            i <= slice@.len(),
            out@ == field_bytes(slice@.subrange(0, i as int)),
            out@.len() == 4 * i,
        decreases slice@.len() - i,
    {
        let bytes = u32_le_bytes(slice[i]);
        proof {
            lemma_le_bytes_len(slice[i as int] as nat, 4);
        }
        append_bytes(&mut out, bytes.as_slice());
        assert(slice@.subrange(0, i + 1).drop_last() =~= slice@.subrange(0, i as int));
        i = i + 1;
    }
    assert(slice@.subrange(0, slice@.len() as int) =~= slice@);
    out
}

} // verus!
