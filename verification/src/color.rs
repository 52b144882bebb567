//! Palettes: escape data to one RGB color.
//!
//! The discrete palette takes each channel modulo 255 from the escape
//! count.  The smooth palette follows the classic smoothed escape count
//! `i + 1 - log2(log2 |z|^2)` driven through a sinusoidal gradient; both
//! the base-2 logarithm (linear interpolant between powers of two) and the
//! sine (parabolic arc per half wave) are fixed-point approximations, so
//! the whole palette is an exact integer function of its inputs.

use vstd::prelude::*;
use vstd::arithmetic::div_mod::{
    lemma_fundamental_div_mod, lemma_fundamental_div_mod_converse, lemma_div_is_ordered,
    lemma_div_multiples_vanish, lemma_div_pos_is_pos,
};
use crate::fixed::{SCALE, SCALE_WIDE, MAG_MAX, div_scale, scale_down};
use crate::state::SPEED_MAX;

verus! {

/// Half a sine period, in fixed-point ticks.
pub const PI_FX: i128 = 13493037704;

/// One sine period, in fixed-point ticks.
pub const TWO_PI_FX: i128 = 26986075408;

/// `PI_FX * PI_FX / SCALE`: the divisor that normalizes the parabolic arc
/// to a peak of one plane unit.
pub const SIN_DENOM: i128 = 42389628123;

/// `PI_FX * PI_FX` split against `SIN_DENOM`: the remainder of the
/// normalizing division, used to pin the peak value down.
pub const SIN_DENOM_REM: i128 = 3678726208;

/// `(1 - log2(ln 2)) * SCALE`: the constant part of the smoothing term.
pub const NU_OFFSET: i64 = 6566001575;

/// Largest argument `lg_fx` accepts.
pub const LG_IN_MAX: u128 = 1152921504606846976;

/// One channel of the discrete palette: `(k * i) mod 255`.
pub open spec fn discrete_channel(i: int, k: int) -> u8 {
    ((k * i) % 255) as u8
}

/// The discrete palette: channels `4 i, 7 i, 13 i`, each modulo 255.
pub fn discrete_color(i: u32) -> (rgb: (u8, u8, u8))
    ensures
        rgb.0 == discrete_channel(i as int, 4),
        rgb.1 == discrete_channel(i as int, 7),
        rgb.2 == discrete_channel(i as int, 13),
{
    (
        ((4 * i as u64) % 255) as u8,
        ((7 * i as u64) % 255) as u8,
        ((13 * i as u64) % 255) as u8,
    )
}

/// Fixed-point base-2 logarithm of `v / SCALE`, linearly interpolated
/// between powers of two: on `[SCALE, 2 SCALE)` it is `v - SCALE`, and one
/// octave up adds one plane unit.
pub open spec fn lg_spec(v: int) -> int
    decreases v,
{
    if v < 2 * SCALE {
        v - SCALE
    } else {
        SCALE + lg_spec(v / 2)
    }
}

/// On arguments of at least one plane unit the logarithm is non-negative
/// and no larger than its argument.
pub proof fn lemma_lg_bounds(v: int)
    requires
        v >= SCALE,
    ensures
        0 <= lg_spec(v) <= v,
    decreases v,
{
    if v < 2 * SCALE {
    } else {
        lemma_div_is_ordered(2 * (SCALE as int), v, 2);
        lemma_div_multiples_vanish(SCALE as int, 2);
        lemma_fundamental_div_mod(v, 2);
        lemma_lg_bounds(v / 2);
    }
}

/// Compute [`lg_spec`] by repeated halving.
pub fn lg_fx(v0: u128) -> (r: i64)
    requires
        SCALE as u128 <= v0 <= LG_IN_MAX,
    ensures
        r == lg_spec(v0 as int),
        0 <= r <= v0,
{
    let mut m: u128 = v0;
    let mut res: i64 = 0;
    proof {
        lemma_lg_bounds(v0 as int);
    }
    while m >= 2 * SCALE as u128
        invariant
            SCALE as u128 <= m <= v0,
            v0 <= LG_IN_MAX,
            0 <= res <= v0,
            res + lg_spec(m as int) == lg_spec(v0 as int),
        decreases m,
    {
        proof {
            lemma_div_is_ordered(2 * (SCALE as int), m as int, 2);
            lemma_div_multiples_vanish(SCALE as int, 2);
            lemma_lg_bounds(m as int / 2);
            lemma_lg_bounds(v0 as int);
        }
        m = m / 2;
        res = res + SCALE;
    }
    proof {
        lemma_lg_bounds(m as int);
        lemma_lg_bounds(v0 as int);
    }
    res + (m as i64 - SCALE)
}

/// One parabolic half-wave: `4 t (PI_FX - t) / SIN_DENOM` for the phase
/// `t` within the half period, peaking at one plane unit.
pub open spec fn sin_arc(t: int) -> int {
    (4 * t * (PI_FX - t)) / (SIN_DENOM as int)
}

/// Fixed-point sine of a phase already reduced to `[0, TWO_PI_FX)`:
/// a positive arc on the first half period, its mirror image on the second.
pub open spec fn sin_pos_spec(t: int) -> int {
    if t < PI_FX {
        sin_arc(t)
    } else {
        -sin_arc(t - PI_FX)
    }
}

/// Fixed-point sine: the phase is reduced modulo one period, then mapped
/// through the parabolic arcs.
pub open spec fn sin_spec(x: int) -> int {
    sin_pos_spec(x % (TWO_PI_FX as int))
}

/// The arc stays within `[0, SCALE]` on its half period, and the product
/// it divides stays within `[0, PI_FX * PI_FX]`.
proof fn lemma_sin_arc_bounds(t: int)
    requires
        0 <= t < PI_FX,
    ensures
        0 <= sin_arc(t) <= SCALE,
        0 <= 4 * t * (PI_FX - t) <= PI_FX * PI_FX,
{
    assert(0 <= 4 * t * (PI_FX - t)) by (nonlinear_arith)
        requires 0 <= t < PI_FX;
    assert(4 * t * (PI_FX - t) <= PI_FX * PI_FX) by (nonlinear_arith)
        requires 0 <= t < PI_FX;
    lemma_div_is_ordered(4 * t * (PI_FX - t), (PI_FX * PI_FX) as int, SIN_DENOM as int);
    assert((PI_FX * PI_FX) as int == SIN_DENOM * SCALE + SIN_DENOM_REM);
    lemma_fundamental_div_mod_converse(
        SIN_DENOM * SCALE + SIN_DENOM_REM,
        SIN_DENOM as int,
        SCALE as int,
        SIN_DENOM_REM as int,
    );
    lemma_div_is_ordered(0, 4 * t * (PI_FX - t), SIN_DENOM as int);
}

/// Euclidean remainder of a negative value, from the remainder of its
/// magnitude.
proof fn lemma_mod_negative(x: int, d: int)
    requires
        x < 0,
        d > 0,
    ensures
        (-x) % d == 0 ==> x % d == 0,
        (-x) % d != 0 ==> x % d == d - (-x) % d,
{
    let a: int = -x;
    lemma_fundamental_div_mod(a, d);
    let q: int = a / d;
    let m: int = a % d;
    assert((-q) * d == -(d * q)) by (nonlinear_arith);
    assert((-q - 1) * d == -(d * q) - d) by (nonlinear_arith);
    if m == 0 {
        lemma_fundamental_div_mod_converse(x, d, -q, 0);
    } else {
        lemma_fundamental_div_mod_converse(x, d, -q - 1, d - m);
    }
}

/// Compute [`sin_spec`]: reduce the phase to one period, then evaluate
/// the parabolic arc of the matching half period.
pub fn sin_fx(x: i128) -> (r: i64)
    requires
        x > i128::MIN,
    ensures
        r == sin_spec(x as int),
        -SCALE <= r <= SCALE,
{
    let t: i128 = if x >= 0 {
        x % TWO_PI_FX
    } else {
        let m: i128 = (-x) % TWO_PI_FX;
        proof {
            lemma_mod_negative(x as int, TWO_PI_FX as int);
        }
        if m == 0 {
            0
        } else {
            TWO_PI_FX - m
        }
    };
    if t < PI_FX {
        proof {
            lemma_sin_arc_bounds(t as int);
        }
        ((4 * t * (PI_FX - t)) / SIN_DENOM) as i64
    } else {
        proof {
            lemma_sin_arc_bounds(t as int - PI_FX);
        }
        -(((4 * (t - PI_FX) * (TWO_PI_FX - t)) / SIN_DENOM) as i64)
    }
}

/// One channel from a sine value in `[-SCALE, SCALE]`: the midpoint 128
/// displaced by up to 127 in either direction.
pub open spec fn channel_spec(s: int) -> u8 {
    if s >= 0 {
        ((s * 127) / (SCALE as int) + 128) as u8
    } else {
        (128 - ((-s) * 127) / (SCALE as int)) as u8
    }
}

/// Compute [`channel_spec`]; the result always lands in `[1, 255]`.
pub fn channel(s: i64) -> (r: u8)
    requires
        -SCALE <= s <= SCALE,
    ensures
        r == channel_spec(s as int),
        1 <= r <= 255,
{
    proof {
        let a: int = if s >= 0 { s as int } else { -(s as int) };
        lemma_div_pos_is_pos(a * 127, SCALE as int);
        lemma_div_is_ordered(a * 127, 127 * (SCALE as int), SCALE as int);
        lemma_div_multiples_vanish(127, SCALE as int);
    }
    if s >= 0 {
        ((s * 127) / SCALE + 128) as u8
    } else {
        (128 - ((-s) * 127) / SCALE) as u8
    }
}

/// One octave up, the logarithm is at least one plane unit.
pub proof fn lemma_lg_ge_unit(v: int)
    requires
        v >= 2 * SCALE,
    ensures
        lg_spec(v) >= SCALE,
{
    lemma_div_is_ordered(2 * (SCALE as int), v, 2);
    lemma_div_multiples_vanish(SCALE as int, 2);
    lemma_lg_bounds(v / 2);
}

/// The smooth palette: the smoothed escape count `i + 1 - nu`, where
/// `nu` is `log2(log2 mag)` less a fixed offset, drives three sine
/// channels at phase offsets `0`, `2` and `4`.  `mag` is the squared
/// magnitude at escape, floored at `2` so both logarithms stay defined.
pub open spec fn smooth_rgb_spec(i: int, mag: int, speed: int) -> (u8, u8, u8) {
    let magc = if mag < 2 * SCALE { 2 * (SCALE as int) } else { mag };
    let l1 = lg_spec(magc);
    let l2 = lg_spec(l1);
    let nu = l2 - NU_OFFSET;
    let sm0 = i * SCALE + SCALE - nu;
    let sm = if sm0 < 0 { 0 } else { sm0 };
    let ph = div_scale(sm * speed);
    (
        channel_spec(sin_spec(ph)),
        channel_spec(sin_spec(ph + 2 * SCALE)),
        channel_spec(sin_spec(ph + 4 * SCALE)),
    )
}

/// Compute [`smooth_rgb_spec`] for one escaped pixel.
pub fn smooth_color(i: u32, mag: i128, speed: i64) -> (rgb: (u8, u8, u8))
    requires
        0 <= mag <= MAG_MAX,
        -SPEED_MAX <= speed <= SPEED_MAX,
    ensures
        rgb == smooth_rgb_spec(i as int, mag as int, speed as int),
{
    let magc: i128 = if mag < 2 * SCALE_WIDE {
        2 * SCALE_WIDE
    } else {
        mag
    };
    let l1: i64 = lg_fx(magc as u128);
    proof {
        lemma_lg_ge_unit(magc as int);
    }
    let l2: i64 = lg_fx(l1 as u128);
    let nu: i64 = l2 - NU_OFFSET;
    let sm0: i128 = (i as i128) * SCALE_WIDE + SCALE_WIDE - (nu as i128);
    let sm: i128 = if sm0 < 0 {
        0
    } else {
        sm0
    };
    proof {
        assert(sm * (speed as i128) <= 2535301200456458802993406410752
            && sm * (speed as i128) >= -2535301200456458802993406410752) by (nonlinear_arith)
            requires
                0 <= sm <= 36893488147419103232i128,
                -(SPEED_MAX as i128) <= speed as i128 <= SPEED_MAX as i128;
    }
    let ph: i128 = scale_down(sm * (speed as i128));
    let s0: i64 = sin_fx(ph);
    let s1: i64 = sin_fx(ph + 2 * SCALE_WIDE);
    let s2: i64 = sin_fx(ph + 4 * SCALE_WIDE);
    (channel(s0), channel(s1), channel(s2))
}

} // verus!
