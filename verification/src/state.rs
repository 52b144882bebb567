//! The viewport and parameter state of the viewer, and the transitions
//! that mutate it between frames.
//!
//! All plane quantities are fixed-point ticks (see [`crate::fixed`]).
//! The state keeps a non-degenerate window over the complex plane, the
//! seed of the quadratic map, the iteration cap, the escape threshold,
//! the palette animation speed and the palette policy.  Every transition
//! either commits a well-formed new state or refuses and leaves the state
//! unchanged.

use vstd::prelude::*;
use crate::fixed::{SCALE, COORD_MAX, div_scale, scale_down};
use crate::geometry::{interp, unproject};

verus! {

/// Largest escape threshold the state admits (1024 plane units, squared scale).
pub const R2_MAX: i64 = 4398046511104;

/// Largest palette speed magnitude the state admits (16 plane units).
pub const SPEED_MAX: i64 = 68719476736;

/// Largest zoom factor a single `zoom_at` may apply (16x outward).
pub const FACTOR_MAX: i64 = 68719476736;

/// Default window: `x` in `[-1.5, 1.5]`.
pub const X_MIN_DEFAULT: i64 = -6442450944;
/// Default window: `x` in `[-1.5, 1.5]`.
pub const X_MAX_DEFAULT: i64 = 6442450944;
/// Default window: `y` in `[-1, 1]`.
pub const Y_MIN_DEFAULT: i64 = -4294967296;
/// Default window: `y` in `[-1, 1]`.
pub const Y_MAX_DEFAULT: i64 = 4294967296;
/// Default seed `-0.7`.
pub const SEED_X_DEFAULT: i64 = -3006477107;
/// Default seed `0.27`.
pub const SEED_Y_DEFAULT: i64 = 1159641169;
/// Default iteration cap.
pub const MAX_ITER_DEFAULT: u32 = 150;
/// Default palette speed `0.1`.
pub const COLOR_SPEED_DEFAULT: i64 = 429496729;
/// Default escape threshold `100` (squared magnitude).
pub const ESCAPE_R2_DEFAULT: i64 = 429496729600;
/// Alternative tight escape threshold `4` (squared magnitude).
pub const ESCAPE_R2_TIGHT: i64 = 17179869184;

/// Seed glide per frame while a direction is held (`0.003` plane units).
pub const PAN_STEP: i64 = 12884901;

/// The held-direction set, sampled once per frame: which of the four
/// glide directions are currently held down.
#[derive(Clone, Copy, Debug, PartialEq, Eq, Structural)]
pub struct HeldDirections {
    /// Glide the seed's real part down.
    pub left: bool,
    /// Glide the seed's real part up.
    pub right: bool,
    /// Glide the seed's imaginary part up.
    pub up: bool,
    /// Glide the seed's imaginary part down.
    pub down: bool,
}

impl HeldDirections {
    /// The per-frame seed delta along the real axis.
    pub open spec fn dx(self) -> int {
        (if self.right { PAN_STEP as int } else { 0 }) - (if self.left { PAN_STEP as int } else { 0 })
    }

    /// The per-frame seed delta along the imaginary axis.
    pub open spec fn dy(self) -> int {
        (if self.up { PAN_STEP as int } else { 0 }) - (if self.down { PAN_STEP as int } else { 0 })
    }

    /// No direction held.
    pub fn released() -> (r: HeldDirections)
        ensures
            r == (HeldDirections { left: false, right: false, up: false, down: false }),
    {
        HeldDirections { left: false, right: false, up: false, down: false }
    }
}

/// Which palette the renderer applies to escaped pixels.
#[derive(Clone, Copy, Debug, PartialEq, Eq, Structural)]
pub enum ColorPolicy {
    /// Channels taken modulo 255 from the escape count.
    Discrete,
    /// Sinusoidal palette over the smoothed escape count.
    Smooth,
}

/// The viewport over the complex plane and the parameters of one render.
#[derive(Clone, Copy, Debug, PartialEq, Eq, Structural)]
pub struct ViewportState {
    /// Left edge of the window.
    pub x_min: i64,
    /// Right edge of the window.
    pub x_max: i64,
    /// Bottom edge of the window.
    pub y_min: i64,
    /// Top edge of the window.
    pub y_max: i64,
    /// Real part of the seed of `z * z + c`.
    pub seed_x: i64,
    /// Imaginary part of the seed of `z * z + c`.
    pub seed_y: i64,
    /// Escape-test iteration cap; at least one.
    pub max_iter: u32,
    /// Palette animation speed.
    pub color_speed: i64,
    /// Squared magnitude beyond which an orbit counts as escaped.
    pub escape_r2: i64,
    /// Palette policy for escaped pixels.
    pub policy: ColorPolicy,
}

impl ViewportState {
    /// The state invariant: a non-degenerate window, every plane quantity
    /// within the representable range, a positive iteration cap, and an
    /// escape threshold of at least one plane unit.
    pub open spec fn wf(self) -> bool {
        &&& -COORD_MAX <= self.x_min
        &&& self.x_min < self.x_max
        &&& self.x_max <= COORD_MAX
        &&& -COORD_MAX <= self.y_min
        &&& self.y_min < self.y_max
        &&& self.y_max <= COORD_MAX
        &&& -COORD_MAX <= self.seed_x <= COORD_MAX
        &&& -COORD_MAX <= self.seed_y <= COORD_MAX
        &&& self.max_iter >= 1
        &&& SCALE <= self.escape_r2 <= R2_MAX
        &&& -SPEED_MAX <= self.color_speed <= SPEED_MAX
    }

    /// The documented startup state.
    pub open spec fn default_spec() -> ViewportState {
        ViewportState {
            x_min: X_MIN_DEFAULT,
            x_max: X_MAX_DEFAULT,
            y_min: Y_MIN_DEFAULT,
            y_max: Y_MAX_DEFAULT,
            seed_x: SEED_X_DEFAULT,
            seed_y: SEED_Y_DEFAULT,
            max_iter: MAX_ITER_DEFAULT,
            color_speed: COLOR_SPEED_DEFAULT,
            escape_r2: ESCAPE_R2_DEFAULT,
            policy: ColorPolicy::Smooth,
        }
    }

    /// Create the documented startup state.
    pub fn new_default() -> (r: ViewportState)
        ensures
            r == Self::default_spec(),
            r.wf(),
    {
        ViewportState {
            x_min: X_MIN_DEFAULT,
            x_max: X_MAX_DEFAULT,
            y_min: Y_MIN_DEFAULT,
            y_max: Y_MAX_DEFAULT,
            seed_x: SEED_X_DEFAULT,
            seed_y: SEED_Y_DEFAULT,
            max_iter: MAX_ITER_DEFAULT,
            color_speed: COLOR_SPEED_DEFAULT,
            escape_r2: ESCAPE_R2_DEFAULT,
            policy: ColorPolicy::Smooth,
        }
    }

    /// The state after a reset: default window, everything else kept.
    pub open spec fn reset_spec(self) -> ViewportState {
        ViewportState {
            x_min: X_MIN_DEFAULT,
            x_max: X_MAX_DEFAULT,
            y_min: Y_MIN_DEFAULT,
            y_max: Y_MAX_DEFAULT,
            ..self
        }
    }

    /// Restore the default window; seed, cap, palette untouched.
    pub fn reset(&mut self)
        ensures
            *final(self) == old(self).reset_spec(),
            final(self).wf() <==> old(self).wf_except_window(),
    {
        self.x_min = X_MIN_DEFAULT;
        self.x_max = X_MAX_DEFAULT;
        self.y_min = Y_MIN_DEFAULT;
        self.y_max = Y_MAX_DEFAULT;
    }

    /// The invariant with the window clauses dropped: what `reset` needs
    /// of the incoming state to deliver a well-formed one.
    pub open spec fn wf_except_window(self) -> bool {
        &&& -COORD_MAX <= self.seed_x <= COORD_MAX
        &&& -COORD_MAX <= self.seed_y <= COORD_MAX
        &&& self.max_iter >= 1
        &&& SCALE <= self.escape_r2 <= R2_MAX
        &&& -SPEED_MAX <= self.color_speed <= SPEED_MAX
    }

    /// A coordinate clamped into the representable plane range.
    pub open spec fn clamp_coord(v: int) -> int {
        if v < -COORD_MAX {
            -COORD_MAX as int
        } else if v > COORD_MAX {
            COORD_MAX as int
        } else {
            v
        }
    }

    /// Glide the seed by `(dx, dy)` ticks, saturating at the representable
    /// plane range.
    pub fn pan(&mut self, dx: i64, dy: i64)
        requires
            old(self).wf(),
        ensures
            final(self).seed_x == Self::clamp_coord(old(self).seed_x + dx),
            final(self).seed_y == Self::clamp_coord(old(self).seed_y + dy),
            *final(self) == (ViewportState {
                seed_x: final(self).seed_x,
                seed_y: final(self).seed_y,
                ..*old(self)
            }),
            final(self).wf(),
    {
        self.seed_x = Self::clamp_coord_exec(self.seed_x as i128 + dx as i128);
        self.seed_y = Self::clamp_coord_exec(self.seed_y as i128 + dy as i128);
    }

    /// Clamp a wide coordinate into the representable plane range.
    fn clamp_coord_exec(v: i128) -> (r: i64)
        ensures
            r == Self::clamp_coord(v as int),
    {
        if v < -COORD_MAX as i128 {
            -COORD_MAX
        } else if v > COORD_MAX as i128 {
            COORD_MAX
        } else {
            v as i64
        }
    }

    /// Apply one frame of seed glide for the held directions: a pan by
    /// one step along each held axis, opposite directions cancelling.
    pub fn apply_glide(&mut self, held: HeldDirections)
        requires
            old(self).wf(),
        ensures
            final(self).seed_x == Self::clamp_coord(old(self).seed_x + held.dx()),
            final(self).seed_y == Self::clamp_coord(old(self).seed_y + held.dy()),
            *final(self) == (ViewportState {
                seed_x: final(self).seed_x,
                seed_y: final(self).seed_y,
                ..*old(self)
            }),
            final(self).wf(),
    {
        let dx: i64 = (if held.right { PAN_STEP } else { 0 }) - (if held.left { PAN_STEP } else { 0 });
        let dy: i64 = (if held.up { PAN_STEP } else { 0 }) - (if held.down { PAN_STEP } else { 0 });
        self.pan(dx, dy);
    }

    /// The cap after an adjustment: clamped to `[1, u32::MAX]`.
    pub open spec fn cap_adjust_spec(cap: int, delta: int) -> int {
        let s = cap + delta;
        if s < 1 {
            1
        } else if s > u32::MAX {
            u32::MAX as int
        } else {
            s
        }
    }

    /// Raise or lower the iteration cap by `delta`; the cap never leaves
    /// `[1, u32::MAX]`.
    pub fn adjust_iteration_cap(&mut self, delta: i32)
        ensures
            final(self).max_iter == Self::cap_adjust_spec(old(self).max_iter as int, delta as int),
            final(self).max_iter >= 1,
            *final(self) == (ViewportState { max_iter: final(self).max_iter, ..*old(self) }),
    {
        let s: i64 = self.max_iter as i64 + delta as i64;
        if s < 1 {
            self.max_iter = 1;
        } else if s > u32::MAX as i64 {
            self.max_iter = u32::MAX;
        } else {
            self.max_iter = s as u32;
        }
    }

    /// A raw 64-bit draw folded into a seed coordinate in `[-1, 1]`.
    pub open spec fn seed_from_raw_spec(u: u64) -> int {
        (u as int) % (2 * SCALE + 1) - SCALE
    }

    /// Fold a raw 64-bit draw into a seed coordinate in `[-1, 1]`.
    pub fn seed_from_raw(u: u64) -> (r: i64)
        ensures
            r == Self::seed_from_raw_spec(u),
            -SCALE <= r <= SCALE,
    {
        (u % (2 * SCALE + 1) as u64) as i64 - SCALE
    }

    /// Replace the seed by the coordinates folded from two raw draws;
    /// everything else kept.
    pub fn set_seed_from_raw(&mut self, u1: u64, u2: u64)
        requires
            old(self).wf(),
        ensures
            final(self).seed_x == Self::seed_from_raw_spec(u1),
            final(self).seed_y == Self::seed_from_raw_spec(u2),
            *final(self) == (ViewportState {
                seed_x: final(self).seed_x,
                seed_y: final(self).seed_y,
                ..*old(self)
            }),
            final(self).wf(),
    {
        self.seed_x = Self::seed_from_raw(u1);
        self.seed_y = Self::seed_from_raw(u2);
    }

    /// Whether a zoom at pixel `(px, py)` of a `width` by `height` grid
    /// with the given factor commits: the factor is positive and within
    /// range, and the new window is non-degenerate and representable.
    pub open spec fn zoom_accepted(
        self,
        px: int,
        py: int,
        width: int,
        height: int,
        factor: int,
    ) -> bool {
        let nw = div_scale((self.x_max - self.x_min) * factor);
        let nh = div_scale((self.y_max - self.y_min) * factor);
        let cx = interp(self.x_min as int, self.x_max as int, px, width);
        let cy = interp(self.y_min as int, self.y_max as int, py, height);
        let nx_min = cx - (px * nw) / width;
        let ny_min = cy - (py * nh) / height;
        &&& 0 < factor <= FACTOR_MAX
        &&& nw >= 1
        &&& nh >= 1
        &&& -COORD_MAX <= nx_min
        &&& nx_min + nw <= COORD_MAX
        &&& -COORD_MAX <= ny_min
        &&& ny_min + nh <= COORD_MAX
    }

    /// The state after a zoom: the window spans scaled by the factor and
    /// placed so that the plane point under the pixel keeps its place in
    /// the view; a refused zoom leaves the state as it was.
    pub open spec fn zoom_spec(
        self,
        px: int,
        py: int,
        width: int,
        height: int,
        factor: int,
    ) -> ViewportState {
        if self.zoom_accepted(px, py, width, height, factor) {
            let nw = div_scale((self.x_max - self.x_min) * factor);
            let nh = div_scale((self.y_max - self.y_min) * factor);
            let cx = interp(self.x_min as int, self.x_max as int, px, width);
            let cy = interp(self.y_min as int, self.y_max as int, py, height);
            let nx_min = cx - (px * nw) / width;
            let ny_min = cy - (py * nh) / height;
            ViewportState {
                x_min: nx_min as i64,
                x_max: (nx_min + nw) as i64,
                y_min: ny_min as i64,
                y_max: (ny_min + nh) as i64,
                ..self
            }
        } else {
            self
        }
    }

    /// Zoom at pixel `(px, py)`: scale both window spans by `factor`
    /// (below one zooms in, above one zooms out) and keep the plane point
    /// under the pixel fixed in the view.  A factor out of range or a
    /// resulting window that would be degenerate or out of the
    /// representable range refuses the transition; the return value says
    /// whether it committed.
    pub fn zoom_at(&mut self, px: u32, py: u32, width: u32, height: u32, factor: i64) -> (committed:
        bool)
        requires
            old(self).wf(),
            px < width,
            py < height,
        ensures
            *final(self) == old(self).zoom_spec(
                px as int,
                py as int,
                width as int,
                height as int,
                factor as int,
            ),
            committed == old(self).zoom_accepted(
                px as int,
                py as int,
                width as int,
                height as int,
                factor as int,
            ),
            final(self).wf(),
    {
        if factor <= 0 || factor > FACTOR_MAX {
            return false;
        }
        let w: i64 = self.x_max - self.x_min;
        let h: i64 = self.y_max - self.y_min;
        proof {
            assert(0 <= (w as i128) * (factor as i128) <= 37778931862957161709568i128)
                by (nonlinear_arith)
                requires 0 < w <= 2 * COORD_MAX as i128, 0 < factor <= FACTOR_MAX as i128;
            assert(0 <= (h as i128) * (factor as i128) <= 37778931862957161709568i128)
                by (nonlinear_arith)
                requires 0 < h <= 2 * COORD_MAX as i128, 0 < factor <= FACTOR_MAX as i128;
        }
        let nw: i128 = scale_down((w as i128) * (factor as i128));
        let nh: i128 = scale_down((h as i128) * (factor as i128));
        if nw < 1 || nh < 1 {
            return false;
        }
        proof {
            vstd::arithmetic::div_mod::lemma_div_is_ordered(
                (w as int) * (factor as int),
                37778931862957161709568,
                SCALE as int,
            );
            vstd::arithmetic::div_mod::lemma_div_is_ordered(
                (h as int) * (factor as int),
                37778931862957161709568,
                SCALE as int,
            );
            assert(37778931862957161709568int / (SCALE as int) == 8796093022208) by {
                vstd::arithmetic::div_mod::lemma_fundamental_div_mod_converse(
                    37778931862957161709568,
                    SCALE as int,
                    8796093022208,
                    0,
                );
            }
            assert(0 <= (px as i128) * nw <= 37778931862957161709568i128) by (nonlinear_arith)
                requires 0 <= (px as i128) < 4294967296i128, 0 <= nw <= 8796093022208i128;
            assert(0 <= (py as i128) * nh <= 37778931862957161709568i128) by (nonlinear_arith)
                requires 0 <= (py as i128) < 4294967296i128, 0 <= nh <= 8796093022208i128;
            vstd::arithmetic::div_mod::lemma_div_pos_is_pos(
                (px as int) * (nw as int),
                width as int,
            );
            vstd::arithmetic::div_mod::lemma_div_pos_is_pos(
                (py as int) * (nh as int),
                height as int,
            );
        }
        let cx: i64 = unproject(self.x_min, self.x_max, px, width);
        let cy: i64 = unproject(self.y_min, self.y_max, py, height);
        let off_x: i128 = ((px as i128) * nw) / (width as i128);
        let off_y: i128 = ((py as i128) * nh) / (height as i128);
        let nx_min: i128 = cx as i128 - off_x;
        let ny_min: i128 = cy as i128 - off_y;
        if nx_min < -COORD_MAX as i128 || nx_min + nw > COORD_MAX as i128 || ny_min
            < -COORD_MAX as i128 || ny_min + nh > COORD_MAX as i128 {
            return false;
        }
        self.x_min = nx_min as i64;
        self.x_max = (nx_min + nw) as i64;
        self.y_min = ny_min as i64;
        self.y_max = (ny_min + nh) as i64;
        true
    }

    /// Draw a fresh seed; both coordinates land in `[-1, 1]`, nothing else
    /// changes.  Which seed comes out depends on the random stream.
    pub fn randomize_seed(&mut self)
        requires
            old(self).wf(),
        ensures
            -SCALE <= final(self).seed_x <= SCALE,
            -SCALE <= final(self).seed_y <= SCALE,
            *final(self) == (ViewportState {
                seed_x: final(self).seed_x,
                seed_y: final(self).seed_y,
                ..*old(self)
            }),
            final(self).wf(),
    {
        let u1: u64 = draw_raw();
        let u2: u64 = draw_raw();
        self.set_seed_from_raw(u1, u2);
    }
}

/// Relies on `rand::random::<u64>`: one draw from the thread-local
/// generator.  Nothing is assumed of the value.
#[verifier::external_body]
fn draw_raw() -> (r: u64) {
    rand::random::<u64>()
}

} // verus!
