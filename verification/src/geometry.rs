//! The pixel-to-plane mapping shared by the renderer and the zoom
//! transition: linear interpolation of a pixel index across a plane
//! window.

use vstd::prelude::*;
use vstd::arithmetic::div_mod::{
    lemma_div_is_ordered, lemma_div_multiples_vanish, lemma_div_pos_is_pos,
};
use crate::fixed::COORD_MAX;

verus! {

/// Plane coordinate of pixel `p` of `dim` across the window
/// `[min, max)`: `min + (p / dim) * (max - min)`, rounded down.
pub open spec fn interp(min: int, max: int, p: int, dim: int) -> int {
    min + (p * (max - min)) / dim
}

/// An interpolated offset of a pixel within its dimension never leaves
/// `[0, span]`, and the product it divides stays in a narrow wide range.
pub proof fn lemma_offset_in_span(p: int, span: int, dim: int)
    requires
        0 <= p < dim,
        dim <= 4294967296,
        0 <= span <= 549755813888,
    ensures
        0 <= (p * span) / dim <= span,
        0 <= p * span <= 2361183241434822606848,
{
    assert(0 <= p * span <= dim * span && dim * span <= 2361183241434822606848)
        by (nonlinear_arith)
        requires 0 <= p < dim, dim <= 4294967296, 0 <= span <= 549755813888;
    lemma_div_pos_is_pos(p * span, dim);
    lemma_div_is_ordered(p * span, dim * span, dim);
    lemma_div_multiples_vanish(span, dim);
}

/// Unproject a pixel index into the plane window; the result stays
/// within the window.
pub fn unproject(min: i64, max: i64, p: u32, dim: u32) -> (r: i64)
    requires
        -COORD_MAX <= min < max <= COORD_MAX,
        p < dim,
    ensures
        r == interp(min as int, max as int, p as int, dim as int),
        min <= r <= max,
{
    let span: i64 = max - min;
    proof {
        lemma_offset_in_span(p as int, span as int, dim as int);
    }
    (min as i128 + ((p as i128) * (span as i128)) / (dim as i128)) as i64
}

} // verus!
