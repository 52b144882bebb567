//! A verified core for an interactive Julia-set viewer.
//!
//! The library models the complex plane in signed fixed-point arithmetic
//! (32 fractional bits), so every coordinate, seed and palette value is a
//! plain integer.  On top of that model it provides:
//!
//! * [`state::ViewportState`]: the viewport over the complex plane, the
//!   generating seed of the quadratic map, and the iteration cap, together
//!   with the transitions that mutate it between frames (reset, seed glide,
//!   zoom at a pixel, iteration-cap adjustment, seed randomization);
//! * the per-pixel escape-time test and the frame renderer;
//! * two palettes (a discrete modulo palette and a smooth sinusoidal one,
//!   approximated in fixed point).
//!
//! Window creation, input delivery and presentation of a finished frame are
//! left to the surrounding application.

pub mod color;
pub mod fixed;
pub mod geometry;
pub mod laws;
pub mod render;
pub mod state;
