//! Byte-sequence prefix matching: the model predicate and a verified
//! byte-by-byte comparison over slices.

use vstd::prelude::*;
use vstd::slice::slice_index_get;

verus! {

/// `b` starts with `p`: `p` is no longer than `b` and the leading bytes of
/// `b` are exactly `p`.
pub open spec fn spec_starts_with(b: Seq<u8>, p: Seq<u8>) -> bool {
    p.is_prefix_of(b)
}

/// Byte-wise test of whether the slice `b` starts with the slice `p`.
pub fn slice_starts_with(b: &[u8], p: &[u8]) -> (r: bool)
    ensures
        r == spec_starts_with(b@, p@),
{
    if p.len() > b.len() {
        return false;
    }
    let n: usize = p.len();
    let mut i: usize = 0;
    while i < n
        invariant
            n == p@.len() <= b@.len(),
            0 <= i <= n,
            forall|j: int| 0 <= j < i ==> b@[j] == p@[j],
        decreases n - i,
    {
        if *slice_index_get(b, i) != *slice_index_get(p, i) {
            return false;
        }
        i += 1;
    }
    true
}

} // verus!
