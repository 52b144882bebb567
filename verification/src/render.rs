//! The render engine: a viewport state and a pixel grid to an RGBA frame.
//!
//! Every pixel is mapped by linear interpolation into the plane window,
//! its orbit under `z * z + c` is iterated until the squared magnitude
//! leaves the escape threshold or the cap is reached, and the escape data
//! is driven through the configured palette.  The frame is a pure
//! function of the state and the grid, so the parallel renderer (rows
//! fanned out through rayon) delivers the very sequence the sequential
//! one does.

use vstd::prelude::*;
use vstd::arithmetic::div_mod::{
    lemma_fundamental_div_mod, lemma_fundamental_div_mod_converse, lemma_div_is_ordered,
    lemma_div_multiples_vanish, lemma_div_pos_is_pos,
};
use crate::fixed::{SCALE, COORD_MAX, Z_LIM, MAG_MAX, in_iter_range, mag2, div_scale, scale_down};
use crate::state::{ViewportState, ColorPolicy, R2_MAX};
use crate::color::{discrete_channel, discrete_color, smooth_rgb_spec, smooth_color};
use crate::geometry::{interp, unproject};
use rayon::iter::{IntoParallelIterator, ParallelIterator};

verus! {

/// Largest pixel-grid dimension the renderer accepts.
pub const MAX_DIM: u32 = 8192;

/// Plane coordinate of pixel column `px` of `width`: linear interpolation
/// from the left window edge.
pub open spec fn plane_x(st: ViewportState, px: int, width: int) -> int {
    interp(st.x_min as int, st.x_max as int, px, width)
}

/// Plane coordinate of pixel row `py` of `height`: linear interpolation
/// from the bottom window edge.
pub open spec fn plane_y(st: ViewportState, py: int, height: int) -> int {
    interp(st.y_min as int, st.y_max as int, py, height)
}

/// One escape-test step, real part: `zx^2 - zy^2 + cx`.
pub open spec fn step_x(zx: int, zy: int, cx: int) -> int {
    div_scale(zx * zx) - div_scale(zy * zy) + cx
}

/// One escape-test step, imaginary part: `2 zx zy + cy`.
pub open spec fn step_y(zx: int, zy: int, cy: int) -> int {
    div_scale(2 * zx * zy) + cy
}

/// The escape test from `(zx, zy)` with seed `(cx, cy)`, threshold `r2`
/// and at most `fuel` steps: the step count taken, the last representable
/// orbit point, and whether the orbit left the representable range (which
/// counts as immediate divergence, the way a non-finite magnitude would).
pub open spec fn orbit(zx: int, zy: int, cx: int, cy: int, r2: int, fuel: nat) -> (
    int,
    int,
    int,
    bool,
)
    decreases fuel,
{
    if fuel == 0 {
        (0, zx, zy, false)
    } else if mag2(zx, zy) > r2 {
        (0, zx, zy, false)
    } else {
        let nx = step_x(zx, zy, cx);
        let ny = step_y(zx, zy, cy);
        if !in_iter_range(nx) || !in_iter_range(ny) {
            (1, zx, zy, true)
        } else {
            let rest = orbit(nx, ny, cx, cy, r2, (fuel - 1) as nat);
            (rest.0 + 1, rest.1, rest.2, rest.3)
        }
    }
}

/// The step count never exceeds the fuel, and the reported orbit point
/// stays representable.
pub proof fn lemma_orbit_range(zx: int, zy: int, cx: int, cy: int, r2: int, fuel: nat)
    requires
        in_iter_range(zx),
        in_iter_range(zy),
    ensures
        0 <= orbit(zx, zy, cx, cy, r2, fuel).0 <= fuel,
        in_iter_range(orbit(zx, zy, cx, cy, r2, fuel).1),
        in_iter_range(orbit(zx, zy, cx, cy, r2, fuel).2),
    decreases fuel,
{
    if fuel > 0 && mag2(zx, zy) <= r2 {
        let nx = step_x(zx, zy, cx);
        let ny = step_y(zx, zy, cy);
        if in_iter_range(nx) && in_iter_range(ny) {
            lemma_orbit_range(nx, ny, cx, cy, r2, (fuel - 1) as nat);
        }
    }
}

/// Squares of a representable orbit point stay within the wide range.
proof fn lemma_orbit_products(zx: int, zy: int)
    requires
        in_iter_range(zx),
        in_iter_range(zy),
    ensures
        0 <= zx * zx <= Z_LIM * Z_LIM,
        0 <= zy * zy <= Z_LIM * Z_LIM,
        -2 * (Z_LIM * Z_LIM) <= 2 * zx * zy <= 2 * (Z_LIM * Z_LIM),
{
    assert(0 <= zx * zx <= Z_LIM * Z_LIM && 0 <= zy * zy <= Z_LIM * Z_LIM
        && -2 * (Z_LIM * Z_LIM) <= 2 * zx * zy <= 2 * (Z_LIM * Z_LIM)) by (nonlinear_arith)
        requires -Z_LIM <= zx <= Z_LIM, -Z_LIM <= zy <= Z_LIM;
}

/// A rescaled square of a representable orbit point stays below half the
/// magnitude bound.
proof fn lemma_scaled_square_bound(zx: int)
    requires
        in_iter_range(zx),
    ensures
        0 <= div_scale(zx * zx) <= MAG_MAX / 2,
{
    assert(0 <= zx * zx <= Z_LIM * Z_LIM) by (nonlinear_arith)
        requires -Z_LIM <= zx <= Z_LIM;
    lemma_div_pos_is_pos(zx * zx, SCALE as int);
    lemma_div_is_ordered(zx * zx, (Z_LIM as int) * (Z_LIM as int), SCALE as int);
    assert((Z_LIM as int) * (Z_LIM as int) == (SCALE as int) * 281474976710656);
    lemma_div_multiples_vanish(281474976710656, SCALE as int);
}

/// Run the escape test: exactly the [`orbit`] outcome, step count capped
/// by `cap`.
pub fn escape_orbit(zx0: i64, zy0: i64, cx: i64, cy: i64, r2: i64, cap: u32) -> (r: (
    u32,
    i64,
    i64,
    bool,
))
    requires
        in_iter_range(zx0 as int),
        in_iter_range(zy0 as int),
        -COORD_MAX <= cx <= COORD_MAX,
        -COORD_MAX <= cy <= COORD_MAX,
        SCALE <= r2 <= R2_MAX,
    ensures
        ({
            let o = orbit(zx0 as int, zy0 as int, cx as int, cy as int, r2 as int, cap as nat);
            r.0 as int == o.0 && r.1 as int == o.1 && r.2 as int == o.2 && r.3 == o.3
        }),
        r.0 <= cap,
{
    let mut zx: i64 = zx0;
    let mut zy: i64 = zy0;
    let mut i: u32 = 0;
    while i < cap
        invariant
            i <= cap,
            in_iter_range(zx as int),
            in_iter_range(zy as int),
            -COORD_MAX <= cx <= COORD_MAX,
            -COORD_MAX <= cy <= COORD_MAX,
            SCALE <= r2 <= R2_MAX,
            orbit(zx0 as int, zy0 as int, cx as int, cy as int, r2 as int, cap as nat) == ({
                let o = orbit(zx as int, zy as int, cx as int, cy as int, r2 as int, (cap - i) as nat);
                (o.0 + i as int, o.1, o.2, o.3)
            }),
        decreases cap - i,
    {
        proof {
            lemma_orbit_products(zx as int, zy as int);
            lemma_scaled_square_bound(zx as int);
            lemma_scaled_square_bound(zy as int);
        }
        let a: i128 = scale_down((zx as i128) * (zx as i128));
        let b: i128 = scale_down((zy as i128) * (zy as i128));
        if a + b > r2 as i128 {
            return (i, zx, zy, false);
        }
        let nx_w: i128 = a - b + cx as i128;
        let ny_w: i128 = scale_down(2 * (zx as i128) * (zy as i128)) + cy as i128;
        if nx_w > Z_LIM as i128 || nx_w < -Z_LIM as i128 || ny_w > Z_LIM as i128 || ny_w
            < -Z_LIM as i128 {
            return (i + 1, zx, zy, true);
        }
        zx = nx_w as i64;
        zy = ny_w as i64;
        i = i + 1;
    }
    (i, zx, zy, false)
}

/// The color of one pixel: interior (cap reached) is black; a diverged
/// orbit is black under the smooth palette (its magnitude is not
/// meaningful) and palette-colored under the discrete one; an escaped
/// orbit goes through the configured palette.
pub open spec fn pixel_rgb(st: ViewportState, width: int, height: int, px: int, py: int) -> (
    u8,
    u8,
    u8,
) {
    let zx0 = plane_x(st, px, width);
    let zy0 = plane_y(st, py, height);
    let o = orbit(zx0, zy0, st.seed_x as int, st.seed_y as int, st.escape_r2 as int, st.max_iter as nat);
    if o.0 == st.max_iter as int {
        (0u8, 0u8, 0u8)
    } else {
        match st.policy {
            ColorPolicy::Discrete => (
                discrete_channel(o.0, 4),
                discrete_channel(o.0, 7),
                discrete_channel(o.0, 13),
            ),
            ColorPolicy::Smooth => if o.3 {
                (0u8, 0u8, 0u8)
            } else {
                smooth_rgb_spec(o.0, mag2(o.1, o.2), st.color_speed as int)
            },
        }
    }
}

/// Render one pixel.
pub fn render_pixel(st: &ViewportState, width: u32, height: u32, px: u32, py: u32) -> (rgb: (
    u8,
    u8,
    u8,
))
    requires
        st.wf(),
        px < width,
        py < height,
    ensures
        rgb == pixel_rgb(*st, width as int, height as int, px as int, py as int),
{
    let zx0 = unproject(st.x_min, st.x_max, px, width);
    let zy0 = unproject(st.y_min, st.y_max, py, height);
    let o = escape_orbit(zx0, zy0, st.seed_x, st.seed_y, st.escape_r2, st.max_iter);
    if o.0 == st.max_iter {
        (0, 0, 0)
    } else {
        match st.policy {
            ColorPolicy::Discrete => discrete_color(o.0),
            ColorPolicy::Smooth => {
                if o.3 {
                    (0, 0, 0)
                } else {
                    proof {
                        lemma_orbit_range(
                            zx0 as int,
                            zy0 as int,
                            st.seed_x as int,
                            st.seed_y as int,
                            st.escape_r2 as int,
                            st.max_iter as nat,
                        );
                        lemma_orbit_products(o.1 as int, o.2 as int);
                        lemma_scaled_square_bound(o.1 as int);
                        lemma_scaled_square_bound(o.2 as int);
                    }
                    let a: i128 = scale_down((o.1 as i128) * (o.1 as i128));
                    let b: i128 = scale_down((o.2 as i128) * (o.2 as i128));
                    smooth_color(o.0, a + b, st.color_speed)
                }
            },
        }
    }
}

/// Channel `c` (alpha is the constant 255) of one pixel.
pub open spec fn pixel_channel(st: ViewportState, width: int, height: int, px: int, py: int, c: int) -> u8 {
    let rgb = pixel_rgb(st, width, height, px, py);
    if c == 0 {
        rgb.0
    } else if c == 1 {
        rgb.1
    } else if c == 2 {
        rgb.2
    } else {
        255u8
    }
}

/// Byte `j` of the row of pixels at `py`.
pub open spec fn row_byte(st: ViewportState, width: int, height: int, py: int, j: int) -> u8 {
    pixel_channel(st, width, height, j / 4, py, j % 4)
}

/// The RGBA bytes of the row of pixels at `py`.
pub open spec fn row_seq(st: ViewportState, width: int, height: int, py: int) -> Seq<u8> {
    Seq::new((4 * width) as nat, |j: int| row_byte(st, width, height, py, j))
}

/// Byte `k` of the whole frame, rows stacked top to bottom.
pub open spec fn frame_byte(st: ViewportState, width: int, height: int, k: int) -> u8 {
    pixel_channel(st, width, height, (k / 4) % width, (k / 4) / width, k % 4)
}

/// The RGBA bytes of the whole frame.
pub open spec fn frame_seq(st: ViewportState, width: int, height: int) -> Seq<u8> {
    Seq::new((4 * width * height) as nat, |k: int| frame_byte(st, width, height, k))
}

/// A frame byte, located through its row: byte `j` of row `py`.
pub proof fn lemma_frame_row_byte(st: ViewportState, width: int, height: int, py: int, j: int)
    requires
        1 <= width,
        0 <= py,
        0 <= j < 4 * width,
    ensures
        frame_byte(st, width, height, 4 * width * py + j) == row_byte(st, width, height, py, j),
{
    let k = 4 * width * py + j;
    lemma_fundamental_div_mod(j, 4);
    assert(k == (width * py + j / 4) * 4 + j % 4) by (nonlinear_arith)
        requires k == 4 * width * py + j, j == 4 * (j / 4) + j % 4;
    lemma_fundamental_div_mod_converse(k, 4, width * py + j / 4, j % 4);
    lemma_div_is_ordered(j, 4 * width - 1, 4);
    lemma_fundamental_div_mod_converse(4 * width - 1, 4, width - 1, 3);
    lemma_div_pos_is_pos(j, 4);
    let p = width * py + j / 4;
    assert(p == py * width + j / 4) by (nonlinear_arith)
        requires p == width * py + j / 4;
    lemma_fundamental_div_mod_converse(p, width, py, j / 4);
}

/// Render the row of pixels at `py`.
pub fn render_row(st: &ViewportState, width: u32, height: u32, py: u32) -> (row: Vec<u8>)
    requires
        st.wf(),
        1 <= width <= MAX_DIM,
        1 <= height <= MAX_DIM,
        py < height,
    ensures
        row@ == row_seq(*st, width as int, height as int, py as int),
{
    let mut row: Vec<u8> = Vec::new();
    let mut px: u32 = 0;
    while px < width
        invariant
            st.wf(),
            1 <= width <= MAX_DIM,
            1 <= height <= MAX_DIM,
            py < height,
            px <= width,
            row@.len() == 4 * px,
            forall|j: int|
                0 <= j < row@.len() ==> row@[j] == row_byte(
                    *st,
                    width as int,
                    height as int,
                    py as int,
                    j,
                ),
        decreases width - px,
    {
        let rgb = render_pixel(st, width, height, px, py);
        row.push(rgb.0);
        row.push(rgb.1);
        row.push(rgb.2);
        row.push(255);
        proof {
            lemma_fundamental_div_mod_converse(4 * px as int, 4, px as int, 0);
            lemma_fundamental_div_mod_converse(4 * px as int + 1, 4, px as int, 1);
            lemma_fundamental_div_mod_converse(4 * px as int + 2, 4, px as int, 2);
            lemma_fundamental_div_mod_converse(4 * px as int + 3, 4, px as int, 3);
        }
        px = px + 1;
    }
    proof {
        assert(row@ =~= row_seq(*st, width as int, height as int, py as int));
    }
    row
}

/// Render a whole frame sequentially, row by row.
pub fn render(st: &ViewportState, width: u32, height: u32) -> (frame: Vec<u8>)
    requires
        st.wf(),
        1 <= width <= MAX_DIM,
        1 <= height <= MAX_DIM,
    ensures
        frame@ == frame_seq(*st, width as int, height as int),
        frame@.len() == 4 * width * height,
{
    let mut frame: Vec<u8> = Vec::new();
    let mut py: u32 = 0;
    while py < height
        invariant
            st.wf(),
            1 <= width <= MAX_DIM,
            1 <= height <= MAX_DIM,
            py <= height,
            frame@.len() == 4 * width * py,
            forall|k: int|
                0 <= k < frame@.len() ==> frame@[k] == frame_byte(
                    *st,
                    width as int,
                    height as int,
                    k,
                ),
        decreases height - py,
    {
        let mut row = render_row(st, width, height, py);
        let ghost prev = frame@;
        frame.append(&mut row);
        proof {
            assert forall|k: int| 0 <= k < frame@.len() implies frame@[k] == frame_byte(
                *st,
                width as int,
                height as int,
                k,
            ) by {
                if k >= prev.len() {
                    lemma_frame_row_byte(
                        *st,
                        width as int,
                        height as int,
                        py as int,
                        k - 4 * width * py,
                    );
                }
            }
            assert(4 * width as int * (py as int + 1) == 4 * width as int * py as int + 4
                * width as int) by (nonlinear_arith);
        }
        py = py + 1;
    }
    proof {
        assert(frame@ =~= frame_seq(*st, width as int, height as int));
    }
    frame
}

/// Relies on rayon's indexed parallel iterator over `0..height`: `map`
/// keeps every index with its item and `collect` keeps the index order,
/// so row `py` of the result is exactly what `render_row` returns for
/// `py`, and `render_row`'s contract pins that to `row_seq`.
#[verifier::external_body]
fn render_rows_parallel(st: &ViewportState, width: u32, height: u32) -> (rows: Vec<Vec<u8>>)
    requires
        st.wf(),
        1 <= width <= MAX_DIM,
        1 <= height <= MAX_DIM,
    ensures
        rows@.len() == height as int,
        forall|py: int|
            0 <= py < height ==> rows@[py]@ == row_seq(*st, width as int, height as int, py),
{
    (0..height).into_par_iter().map(|py| render_row(st, width, height, py)).collect()
}

/// Render a whole frame with the rows fanned out across worker threads;
/// the result is the same frame the sequential renderer produces.
pub fn render_parallel(st: &ViewportState, width: u32, height: u32) -> (frame: Vec<u8>)
    requires
        st.wf(),
        1 <= width <= MAX_DIM,
        1 <= height <= MAX_DIM,
    ensures
        frame@ == frame_seq(*st, width as int, height as int),
        frame@.len() == 4 * width * height,
{
    let rows = render_rows_parallel(st, width, height);
    let mut frame: Vec<u8> = Vec::new();
    let mut py: usize = 0;
    while py < rows.len()
        invariant
            st.wf(),
            1 <= width <= MAX_DIM,
            1 <= height <= MAX_DIM,
            rows@.len() == height as int,
            forall|q: int|
                0 <= q < height ==> rows@[q]@ == row_seq(*st, width as int, height as int, q),
            py <= height,
            frame@.len() == 4 * width * py,
            forall|k: int|
                0 <= k < frame@.len() ==> frame@[k] == frame_byte(
                    *st,
                    width as int,
                    height as int,
                    k,
                ),
        decreases height - py,
    {
        let row: &Vec<u8> = &rows[py];
        let mut j: usize = 0;
        while j < row.len()
            invariant
                st.wf(),
                1 <= width <= MAX_DIM,
                1 <= height <= MAX_DIM,
                py < height,
                row@ == row_seq(*st, width as int, height as int, py as int),
                j <= row@.len(),
                frame@.len() == 4 * width * py + j,
                forall|k: int|
                    0 <= k < frame@.len() ==> frame@[k] == frame_byte(
                        *st,
                        width as int,
                        height as int,
                        k,
                    ),
            decreases row@.len() - j,
        {
            frame.push(row[j]);
            proof {
                lemma_frame_row_byte(*st, width as int, height as int, py as int, j as int);
            }
            j = j + 1;
        }
        proof {
            assert(4 * width as int * (py as int + 1) == 4 * width as int * py as int + 4
                * width as int) by (nonlinear_arith);
        }
        py = py + 1;
    }
    proof {
        assert(frame@ =~= frame_seq(*st, width as int, height as int));
    }
    frame
}

} // verus!
