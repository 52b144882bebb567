//! Signed fixed-point arithmetic with 32 fractional bits.
//!
//! A plane coordinate `v` is represented by the integer `v * SCALE`,
//! rounded toward zero.  All products are taken in `i128` and rescaled
//! with [`scale_down`], which divides by `SCALE` rounding toward zero;
//! [`div_scale`] is the specification-level meaning of that rescaling.

use vstd::prelude::*;

verus! {

/// One plane unit, in raw fixed-point ticks (32 fractional bits).
pub const SCALE: i64 = 4294967296;

/// `SCALE` as an `i128`, for intermediate products.
pub const SCALE_WIDE: i128 = 4294967296;

/// Largest plane coordinate magnitude the viewer represents
/// (64 plane units).
pub const COORD_MAX: i64 = 274877906944;

/// Largest orbit coordinate magnitude kept in the escape iteration
/// (256 plane units); a step beyond it counts as immediate divergence.
pub const Z_LIM: i64 = 1099511627776;

/// Largest squared orbit magnitude, in ticks: both squares of an
/// in-range orbit point summed stay below this.
pub const MAG_MAX: i128 = 1125899906842624;

/// Whether an orbit coordinate is representable in the iteration.
pub open spec fn in_iter_range(v: int) -> bool {
    -Z_LIM <= v <= Z_LIM
}

/// Squared magnitude of an orbit point, in ticks: each square rescaled,
/// then summed.
pub open spec fn mag2(zx: int, zy: int) -> int {
    div_scale(zx * zx) + div_scale(zy * zy)
}

/// Division by `SCALE` rounding toward zero, the meaning of [`scale_down`].
pub open spec fn div_scale(p: int) -> int {
    if p >= 0 {
        p / (SCALE as int)
    } else {
        -((-p) / (SCALE as int))
    }
}

/// Rescale a double-width product back to fixed-point ticks.
pub fn scale_down(p: i128) -> (r: i128)
    requires
        p > i128::MIN,
    ensures
        r == div_scale(p as int),
{
    if p >= 0 {
        p / SCALE_WIDE
    } else {
        -((-p) / SCALE_WIDE)
    }
}

} // verus!
