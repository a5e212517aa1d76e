use vstd::prelude::*;
use crate::COORD_MAX;

verus! {

/// How many candidate marks one axis of the sample grid holds: enough steps
/// of size `step` to cover `[-margin, len + margin)` starting at `-margin`.
pub open spec fn axis_count(len: int, margin: int, step: int) -> int {
    (len + 2 * margin + step - 1) / step
}

/// Position of the `i`-th candidate along an axis, in milli-pixels.
pub open spec fn cell_coord(margin: int, step: int, i: int) -> int {
    -margin + i * step
}

/// Number of candidate marks along an axis of length `len`.
pub fn cell_count(len: i64, margin: i64, step: i64) -> (n: u64)
    requires
        0 <= len <= COORD_MAX,
        0 <= margin <= COORD_MAX,
        1 <= step <= 1_000_000,
    ensures
        n == axis_count(len as int, margin as int, step as int),
        n <= 3 * COORD_MAX + 1_000_000,
{
    proof {
        let span = len + 2 * margin + step - 1;
        assert(span / (step as int) <= span) by (nonlinear_arith)
            requires span >= 0, step >= 1;
        assert(span / (step as int) >= 0) by (nonlinear_arith)
            requires span >= 0, step >= 1;
    }
    ((len as u64) + 2 * (margin as u64) + (step as u64) - 1) / (step as u64)
}

/// Every candidate of an axis lies inside the overscan band
/// `[-margin, len + margin)`.
pub proof fn lemma_cells_lie_in_band(len: int, margin: int, step: int, i: int)
    requires
        0 <= len,
        0 <= margin,
        1 <= step,
        0 <= i < axis_count(len, margin, step),
    ensures
        -margin <= cell_coord(margin, step, i) < len + margin,
{
    let span = len + 2 * margin;
    assert(i * step >= 0) by (nonlinear_arith)
        requires i >= 0, step >= 1;
    assert(i * step <= span - 1) by (nonlinear_arith)
        requires
            step >= 1,
            span >= 0,
            0 <= i,
            i < (span + step - 1) / step;
}

/// No candidate is missing: any grid-aligned position short of the band's
/// upper edge belongs to some enumerated index. Together with
/// `lemma_cells_lie_in_band` this is the edge-continuity guarantee: the grid
/// reaches exactly one overscan margin past the surface on every side.
pub proof fn lemma_band_is_covered(len: int, margin: int, step: int, i: int)
    requires
        0 <= len,
        0 <= margin,
        1 <= step,
        0 <= i,
        cell_coord(margin, step, i) < len + margin,
    ensures
        i < axis_count(len, margin, step),
{
    let span = len + 2 * margin;
    assert(i < (span + step - 1) / step) by (nonlinear_arith)
        requires
            step >= 1,
            0 <= i,
            i * step < span;
}

} // verus!
