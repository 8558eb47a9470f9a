use vstd::prelude::*;

verus! {

/// The index of tile `(x, y)` in a row major grid of width `width`.
pub fn xy_to_idx(x: usize, y: usize, width: usize) -> (i: usize)
    requires
        y * width + x <= usize::MAX,
    ensures
        i == y * width + x,
{
    proof {
        assert(y * width >= 0) by (nonlinear_arith) requires y >= 0, width >= 0;
    }
    y * width + x
}

} // verus!
