use julia_view::state::{
    ViewportState, ColorPolicy, HeldDirections, PAN_STEP, FACTOR_MAX, X_MIN_DEFAULT,
    X_MAX_DEFAULT, Y_MIN_DEFAULT, Y_MAX_DEFAULT, SEED_X_DEFAULT, SEED_Y_DEFAULT,
    MAX_ITER_DEFAULT, COLOR_SPEED_DEFAULT, ESCAPE_R2_DEFAULT,
};
use julia_view::fixed::{SCALE, COORD_MAX};
use julia_view::geometry::unproject;

#[test]
fn default_state_matches_documented_values() {
    let st = ViewportState::new_default();
    assert_eq!(st.x_min, -6442450944);
    assert_eq!(st.x_max, 6442450944);
    assert_eq!(st.y_min, -4294967296);
    assert_eq!(st.y_max, 4294967296);
    assert_eq!(st.seed_x, SEED_X_DEFAULT);
    assert_eq!(st.seed_y, SEED_Y_DEFAULT);
    assert_eq!(st.max_iter, 150);
    assert_eq!(st.color_speed, COLOR_SPEED_DEFAULT);
    assert_eq!(st.escape_r2, ESCAPE_R2_DEFAULT);
    assert_eq!(st.policy, ColorPolicy::Smooth);
    assert_eq!(st.max_iter, MAX_ITER_DEFAULT);
}

#[test]
fn reset_restores_default_window_and_is_idempotent() {
    let mut st = ViewportState::new_default();
    let committed = st.zoom_at(123, 456, 800, 600, SCALE / 2);
    assert!(committed);
    assert_ne!(st.x_min, X_MIN_DEFAULT);
    st.reset();
    let once = st;
    assert_eq!(st.x_min, X_MIN_DEFAULT);
    assert_eq!(st.x_max, X_MAX_DEFAULT);
    assert_eq!(st.y_min, Y_MIN_DEFAULT);
    assert_eq!(st.y_max, Y_MAX_DEFAULT);
    st.reset();
    assert_eq!(st, once);
}

#[test]
fn reset_keeps_seed_and_cap() {
    let mut st = ViewportState::new_default();
    st.set_seed_from_raw(7, 9);
    st.adjust_iteration_cap(40);
    let seed = (st.seed_x, st.seed_y);
    let cap = st.max_iter;
    st.reset();
    assert_eq!((st.seed_x, st.seed_y), seed);
    assert_eq!(st.max_iter, cap);
}

#[test]
fn cap_never_drops_below_one() {
    let mut st = ViewportState::new_default();
    for _ in 0..5 {
        st.adjust_iteration_cap(-1000);
        assert!(st.max_iter >= 1);
    }
    assert_eq!(st.max_iter, 1);
    st.adjust_iteration_cap(20);
    assert_eq!(st.max_iter, 21);
    st.adjust_iteration_cap(-20);
    assert_eq!(st.max_iter, 1);
}

#[test]
fn cap_saturates_at_top() {
    let mut st = ViewportState::new_default();
    st.max_iter = u32::MAX - 5;
    st.adjust_iteration_cap(100);
    assert_eq!(st.max_iter, u32::MAX);
}

#[test]
fn pan_moves_seed_exactly_and_saturates() {
    let mut st = ViewportState::new_default();
    st.pan(100, -50);
    assert_eq!(st.seed_x, SEED_X_DEFAULT + 100);
    assert_eq!(st.seed_y, SEED_Y_DEFAULT - 50);
    st.pan(i64::MAX, i64::MIN);
    assert_eq!(st.seed_x, COORD_MAX);
    assert_eq!(st.seed_y, -COORD_MAX);
}

#[test]
fn glide_applies_one_step_per_held_axis() {
    let mut st = ViewportState::new_default();
    let mut held = HeldDirections::released();
    held.right = true;
    held.up = true;
    st.apply_glide(held);
    assert_eq!(st.seed_x, SEED_X_DEFAULT + PAN_STEP);
    assert_eq!(st.seed_y, SEED_Y_DEFAULT + PAN_STEP);
    held.left = true;
    held.up = false;
    st.apply_glide(held);
    assert_eq!(st.seed_x, SEED_X_DEFAULT + PAN_STEP);
    assert_eq!(st.seed_y, SEED_Y_DEFAULT + PAN_STEP);
}

#[test]
fn seed_from_raw_folds_into_unit_range() {
    assert_eq!(ViewportState::seed_from_raw(0), -4294967296);
    assert_eq!(ViewportState::seed_from_raw(1), -4294967295);
    assert_eq!(ViewportState::seed_from_raw(4294967296), 0);
    assert_eq!(ViewportState::seed_from_raw(8589934592), 4294967296);
    assert_eq!(ViewportState::seed_from_raw(8589934593), -4294967296);
    assert_eq!(ViewportState::seed_from_raw(u64::MAX), 2147483648);
    assert_eq!(ViewportState::seed_from_raw(123456789123456789), 2884964720);
}

#[test]
fn set_seed_from_raw_touches_only_the_seed() {
    let mut st = ViewportState::new_default();
    st.set_seed_from_raw(0, u64::MAX);
    assert_eq!(st.seed_x, -4294967296);
    assert_eq!(st.seed_y, 2147483648);
    assert_eq!(st.x_min, X_MIN_DEFAULT);
    assert_eq!(st.max_iter, 150);
}

#[test]
fn randomize_seed_lands_in_unit_square() {
    let mut st = ViewportState::new_default();
    for _ in 0..20 {
        st.randomize_seed();
        assert!(-SCALE <= st.seed_x && st.seed_x <= SCALE);
        assert!(-SCALE <= st.seed_y && st.seed_y <= SCALE);
        assert_eq!(st.x_min, X_MIN_DEFAULT);
        assert_eq!(st.max_iter, 150);
    }
}

#[test]
fn zoom_halves_window_around_center() {
    let mut st = ViewportState::new_default();
    let committed = st.zoom_at(400, 300, 800, 600, SCALE / 2);
    assert!(committed);
    assert_eq!(st.x_min, -3221225472);
    assert_eq!(st.x_max, 3221225472);
    assert_eq!(st.y_min, -2147483648);
    assert_eq!(st.y_max, 2147483648);
    assert_eq!(st.seed_x, SEED_X_DEFAULT);
    assert_eq!(st.max_iter, 150);
}

#[test]
fn zoom_refuses_bad_factor() {
    let mut st = ViewportState::new_default();
    let before = st;
    assert!(!st.zoom_at(400, 300, 800, 600, 0));
    assert_eq!(st, before);
    assert!(!st.zoom_at(400, 300, 800, 600, -SCALE));
    assert_eq!(st, before);
    assert!(!st.zoom_at(400, 300, 800, 600, FACTOR_MAX + 1));
    assert_eq!(st, before);
}

#[test]
fn zoom_refuses_degenerate_window() {
    let mut st = ViewportState::new_default();
    st.x_min = 0;
    st.x_max = 1;
    let before = st;
    assert!(!st.zoom_at(400, 300, 800, 600, SCALE / 2));
    assert_eq!(st, before);
}

#[test]
fn zoom_keeps_plane_point_under_pixel() {
    let mut st = ViewportState::new_default();
    let (px, py) = (123u32, 457u32);
    let before_x = unproject(st.x_min, st.x_max, px, 800);
    let before_y = unproject(st.y_min, st.y_max, py, 600);
    for _ in 0..3 {
        assert!(st.zoom_at(px, py, 800, 600, SCALE / 2));
        assert_eq!(unproject(st.x_min, st.x_max, px, 800), before_x);
        assert_eq!(unproject(st.y_min, st.y_max, py, 600), before_y);
    }
    assert!(st.zoom_at(px, py, 800, 600, 2 * SCALE));
    assert_eq!(unproject(st.x_min, st.x_max, px, 800), before_x);
    assert_eq!(unproject(st.y_min, st.y_max, py, 600), before_y);
}

#[test]
fn continuous_zoom_factor_also_keeps_the_cursor_point() {
    let mut st = ViewportState::new_default();
    let (px, py) = (640u32, 111u32);
    let before_x = unproject(st.x_min, st.x_max, px, 800);
    let before_y = unproject(st.y_min, st.y_max, py, 600);
    for _ in 0..30 {
        assert!(st.zoom_at(px, py, 800, 600, 4166118277));
        assert_eq!(unproject(st.x_min, st.x_max, px, 800), before_x);
        assert_eq!(unproject(st.y_min, st.y_max, py, 600), before_y);
        assert!(st.x_min < st.x_max && st.y_min < st.y_max);
    }
}

#[test]
fn unproject_hits_origin_and_approaches_far_corner() {
    let st = ViewportState::new_default();
    assert_eq!(unproject(st.x_min, st.x_max, 0, 800), st.x_min);
    assert_eq!(unproject(st.y_min, st.y_max, 0, 600), st.y_min);
    let corner = unproject(st.x_min, st.x_max, 799, 800);
    assert_eq!(corner, 6426344816);
    let pixel_span = (st.x_max - st.x_min) / 800;
    assert!(st.x_max - corner <= pixel_span + 1);
}
