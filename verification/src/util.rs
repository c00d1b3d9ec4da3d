//! Utilities.

use vstd::prelude::*;

verus! {

broadcast use vstd::array::group_array_axioms;

/// The elements of a vector whose length is known to match, as a
/// fixed-size array.
pub fn into_array_unchecked<T: Copy + Default, const N: usize>(value: Vec<T>) -> (r: [T; N])
    requires
        value@.len() == N,
    ensures
        r@ == value@,
{
    let mut out: [T; N] = [T::default(); N];
    let mut i: usize = 0;
    while i < N
        invariant
            value@.len() == N,
            i <= N,
            out@.len() == N,
            forall|k: int| 0 <= k < i ==> out@[k] == value@[k],
        decreases N - i,
    {
        out[i] = value[i];
        i = i + 1;
    }
    proof {
        assert(out@ =~= value@);
    }
    out
}

} // verus!
