//! The library-wide laws: properties that relate several operations, each
//! stated over the same specification functions the operations' own
//! contracts use.

use vstd::prelude::*;
use vstd::arithmetic::div_mod::{
    lemma_fundamental_div_mod, lemma_fundamental_div_mod_converse,
};
use crate::fixed::{COORD_MAX, mag2};
use crate::geometry::{interp, lemma_offset_in_span};
use crate::state::{ViewportState, X_MIN_DEFAULT, X_MAX_DEFAULT, Y_MIN_DEFAULT, Y_MAX_DEFAULT};
use crate::render::{orbit, step_x, step_y, plane_x, plane_y, frame_seq};

verus! {

/// Determinism: a frame is a pure function of the state and the grid, so
/// two renders of the same state and grid are byte-identical.
pub proof fn lemma_render_deterministic(
    st: ViewportState,
    width: int,
    height: int,
    a: Seq<u8>,
    b: Seq<u8>,
)
    requires
        a == frame_seq(st, width, height),
        b == frame_seq(st, width, height),
    ensures
        a == b,
{
}

/// Coordinate mapping, origin: pixel `(0, 0)` maps exactly to
/// `(x_min, y_min)`.
pub proof fn lemma_plane_origin(st: ViewportState, width: int, height: int)
    requires
        st.wf(),
        1 <= width,
        1 <= height,
    ensures
        plane_x(st, 0, width) == st.x_min,
        plane_y(st, 0, height) == st.y_min,
{
    lemma_fundamental_div_mod_converse(0, width, 0, 0);
    lemma_fundamental_div_mod_converse(0, height, 0, 0);
}

/// Interpolation of the last pixel index lands within one pixel span
/// (plus one rounding tick) of the upper window edge.
pub proof fn lemma_interp_corner(min: int, max: int, dim: int)
    requires
        -COORD_MAX <= min < max <= COORD_MAX,
        1 <= dim <= 4294967296,
    ensures
        max - (max - min) / dim - 1 <= interp(min, max, dim - 1, dim) <= max,
{
    let span = max - min;
    let q = span / dim;
    let r = span % dim;
    lemma_fundamental_div_mod(span, dim);
    lemma_offset_in_span(dim - 1, span, dim);
    if r == 0 {
        assert((dim - 1) * span == (span - q) * dim) by (nonlinear_arith)
            requires span == dim * q;
        lemma_fundamental_div_mod_converse((dim - 1) * span, dim, span - q, 0);
    } else {
        assert((dim - 1) * span == (span - q - 1) * dim + (dim - r)) by (nonlinear_arith)
            requires span == dim * q + r;
        lemma_fundamental_div_mod_converse((dim - 1) * span, dim, span - q - 1, dim - r);
    }
}

/// Coordinate mapping, far corner: pixel `(width - 1, height - 1)` maps
/// to a point within one pixel span (plus one rounding tick) of
/// `(x_max, y_max)`.
pub proof fn lemma_plane_corner(st: ViewportState, width: int, height: int)
    requires
        st.wf(),
        1 <= width <= 4294967296,
        1 <= height <= 4294967296,
    ensures
        st.x_max - (st.x_max - st.x_min) / width - 1 <= plane_x(st, width - 1, width) <= st.x_max,
        st.y_max - (st.y_max - st.y_min) / height - 1 <= plane_y(st, height - 1, height)
            <= st.y_max,
{
    lemma_interp_corner(st.x_min as int, st.x_max as int, width);
    lemma_interp_corner(st.y_min as int, st.y_max as int, height);
}

/// Zoom fixed point: after an accepted `zoom_at(px, py, factor)`, the
/// pixel `(px, py)` unprojects under the new window to exactly the plane
/// point it unprojected to under the old one.
pub proof fn lemma_zoom_fixed_point(
    st: ViewportState,
    px: int,
    py: int,
    width: int,
    height: int,
    factor: int,
)
    requires
        st.wf(),
        0 <= px < width,
        0 <= py < height,
        st.zoom_accepted(px, py, width, height, factor),
    ensures
        ({
            let ns = st.zoom_spec(px, py, width, height, factor);
            plane_x(ns, px, width) == plane_x(st, px, width) && plane_y(ns, py, height)
                == plane_y(st, py, height)
        }),
{
}

/// Reset idempotence: resetting twice yields exactly the state of a
/// single reset, whose window is the documented default.
pub proof fn lemma_reset_idempotent(st: ViewportState)
    ensures
        st.reset_spec().reset_spec() == st.reset_spec(),
        st.reset_spec().x_min == X_MIN_DEFAULT,
        st.reset_spec().x_max == X_MAX_DEFAULT,
        st.reset_spec().y_min == Y_MIN_DEFAULT,
        st.reset_spec().y_max == Y_MAX_DEFAULT,
{
}

/// Iteration-cap monotonicity: once an orbit escapes strictly below the
/// cap, any larger cap reports the very same escape data.
pub proof fn lemma_orbit_cap_monotonic(
    zx: int,
    zy: int,
    cx: int,
    cy: int,
    r2: int,
    fuel1: nat,
    fuel2: nat,
)
    requires
        fuel1 <= fuel2,
        orbit(zx, zy, cx, cy, r2, fuel1).0 < fuel1,
    ensures
        orbit(zx, zy, cx, cy, r2, fuel2) == orbit(zx, zy, cx, cy, r2, fuel1),
    decreases fuel1,
{
    if fuel1 == 0 {
    } else if mag2(zx, zy) > r2 {
    } else {
        let nx = step_x(zx, zy, cx);
        let ny = step_y(zx, zy, cy);
        if crate::fixed::in_iter_range(nx) && crate::fixed::in_iter_range(ny) {
            lemma_orbit_cap_monotonic(nx, ny, cx, cy, r2, (fuel1 - 1) as nat, (fuel2 - 1) as nat);
        }
    }
}

/// Iteration-cap monotonicity at the pixel level: raising only the cap
/// of a state leaves the escape data of every pixel that escaped
/// strictly below the old cap untouched.
pub proof fn lemma_pixel_cap_monotonic(
    st: ViewportState,
    raised: ViewportState,
    width: int,
    height: int,
    px: int,
    py: int,
)
    requires
        raised == (ViewportState { max_iter: raised.max_iter, ..st }),
        st.max_iter <= raised.max_iter,
        orbit(
            plane_x(st, px, width),
            plane_y(st, py, height),
            st.seed_x as int,
            st.seed_y as int,
            st.escape_r2 as int,
            st.max_iter as nat,
        ).0 < st.max_iter,
    ensures
        orbit(
            plane_x(raised, px, width),
            plane_y(raised, py, height),
            raised.seed_x as int,
            raised.seed_y as int,
            raised.escape_r2 as int,
            raised.max_iter as nat,
        ) == orbit(
            plane_x(st, px, width),
            plane_y(st, py, height),
            st.seed_x as int,
            st.seed_y as int,
            st.escape_r2 as int,
            st.max_iter as nat,
        ),
{
    lemma_orbit_cap_monotonic(
        plane_x(st, px, width),
        plane_y(st, py, height),
        st.seed_x as int,
        st.seed_y as int,
        st.escape_r2 as int,
        st.max_iter as nat,
        raised.max_iter as nat,
    );
}

/// Cap floor: whatever the starting cap and however large a downward
/// step, an adjusted cap never drops below one.
pub proof fn lemma_cap_floor(cap: int, delta: int)
    ensures
        ViewportState::cap_adjust_spec(cap, delta) >= 1,
{
}

} // verus!
