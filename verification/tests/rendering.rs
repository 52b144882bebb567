use julia_view::state::{
    ViewportState, ColorPolicy, SEED_X_DEFAULT, SEED_Y_DEFAULT, ESCAPE_R2_DEFAULT,
    ESCAPE_R2_TIGHT,
};
use julia_view::fixed::SCALE;
use julia_view::color::{discrete_color, lg_fx, sin_fx};
use julia_view::render::{escape_orbit, render_pixel, render, render_parallel};

#[test]
fn discrete_palette_exact_values() {
    assert_eq!(discrete_color(0), (0, 0, 0));
    assert_eq!(discrete_color(10), (40, 70, 130));
    assert_eq!(discrete_color(100), (145, 190, 25));
}

#[test]
fn log_approximation_exact_on_powers_of_two() {
    assert_eq!(lg_fx(SCALE as u128), 0);
    assert_eq!(lg_fx(2 * SCALE as u128), SCALE);
    assert_eq!(lg_fx(4 * SCALE as u128), 2 * SCALE);
    assert_eq!(lg_fx(6442450944), 2147483648);
}

#[test]
fn sine_approximation_hits_the_cardinal_points() {
    let pi: i128 = 13493037704;
    assert_eq!(sin_fx(0), 0);
    assert_eq!(sin_fx(pi / 2), SCALE);
    assert_eq!(sin_fx(pi), 0);
    assert_eq!(sin_fx(pi + pi / 2), -SCALE);
    assert_eq!(sin_fx(2 * pi), 0);
    assert_eq!(sin_fx(-(pi / 2)), -SCALE);
}

#[test]
fn escape_orbit_one_step_past_tight_threshold() {
    let o = escape_orbit(2 * SCALE, 0, 0, 0, ESCAPE_R2_TIGHT, 150);
    assert_eq!(o, (1, 4 * SCALE, 0, false));
}

#[test]
fn zero_seed_orbit_is_interior() {
    let o = escape_orbit(0, 0, 0, 0, ESCAPE_R2_DEFAULT, 150);
    assert_eq!(o, (150, 0, 0, false));
}

#[test]
fn default_center_orbit_escapes_at_104() {
    let o = escape_orbit(0, 0, SEED_X_DEFAULT, SEED_Y_DEFAULT, ESCAPE_R2_DEFAULT, 150);
    assert_eq!(o.0, 104);
    assert!(!o.3);
}

#[test]
fn escape_iteration_is_stable_under_a_larger_cap() {
    let o1 = escape_orbit(0, 0, SEED_X_DEFAULT, SEED_Y_DEFAULT, ESCAPE_R2_DEFAULT, 150);
    let o2 = escape_orbit(0, 0, SEED_X_DEFAULT, SEED_Y_DEFAULT, ESCAPE_R2_DEFAULT, 300);
    assert_eq!(o1, o2);
    let z = (SCALE + SCALE / 5, SCALE + SCALE / 5);
    let p1 = escape_orbit(z.0, z.1, SEED_X_DEFAULT, SEED_Y_DEFAULT, ESCAPE_R2_DEFAULT, 150);
    let p2 = escape_orbit(z.0, z.1, SEED_X_DEFAULT, SEED_Y_DEFAULT, ESCAPE_R2_DEFAULT, 1000);
    assert_eq!(p1, p2);
}

#[test]
fn tight_threshold_escapes_earlier() {
    let o = escape_orbit(0, 0, SEED_X_DEFAULT, SEED_Y_DEFAULT, ESCAPE_R2_TIGHT, 150);
    assert_eq!(o.0, 102);
}

#[test]
fn interior_seed_renders_center_black() {
    let mut st = ViewportState::new_default();
    st.seed_x = -429496729;
    st.seed_y = 429496729;
    let o = escape_orbit(0, 0, st.seed_x, st.seed_y, st.escape_r2, st.max_iter);
    assert_eq!(o.0, st.max_iter);
    assert_eq!(render_pixel(&st, 800, 600, 400, 300), (0, 0, 0));
}

#[test]
fn center_pixel_colors_under_both_palettes() {
    let mut st = ViewportState::new_default();
    assert_eq!(render_pixel(&st, 800, 600, 400, 300), (24, 93, 253));
    st.policy = ColorPolicy::Discrete;
    assert_eq!(render_pixel(&st, 800, 600, 400, 300), (161, 218, 77));
}

#[test]
fn render_is_deterministic_and_parallel_matches_serial() {
    let st = ViewportState::new_default();
    let a = render(&st, 64, 48);
    let b = render(&st, 64, 48);
    assert_eq!(a, b);
    let c = render_parallel(&st, 64, 48);
    assert_eq!(a, c);
}

#[test]
fn frame_layout_is_rgba_rows() {
    let st = ViewportState::new_default();
    let frame = render(&st, 32, 16);
    assert_eq!(frame.len(), 4 * 32 * 16);
    for px in 0..32 {
        for py in 0..16 {
            let rgb = render_pixel(&st, 32, 16, px, py);
            let k = 4 * (py as usize * 32 + px as usize);
            assert_eq!(frame[k], rgb.0);
            assert_eq!(frame[k + 1], rgb.1);
            assert_eq!(frame[k + 2], rgb.2);
            assert_eq!(frame[k + 3], 255);
        }
    }
}

#[test]
fn end_to_end_default_scene() {
    let st = ViewportState::new_default();
    let frame = render_parallel(&st, 800, 600);
    assert_eq!(frame.len(), 4 * 800 * 600);
    let k = 4 * (300 * 800 + 400);
    assert_eq!(&frame[k..k + 4], &[24, 93, 253, 255]);
    for p in 0..800 * 600 {
        assert_eq!(frame[4 * p + 3], 255);
    }
}

#[test]
fn fixed_draws_reproduce_a_directly_seeded_render() {
    let (u1, u2) = (123456789123456789u64, 42u64);
    let mut drawn = ViewportState::new_default();
    drawn.set_seed_from_raw(u1, u2);
    let mut direct = ViewportState::new_default();
    direct.seed_x = ViewportState::seed_from_raw(u1);
    direct.seed_y = ViewportState::seed_from_raw(u2);
    assert_eq!(drawn, direct);
    let a = render_parallel(&drawn, 160, 120);
    let b = render_parallel(&direct, 160, 120);
    assert_eq!(a, b);
}
