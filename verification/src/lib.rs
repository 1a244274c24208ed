//! A verified flocking ("boids") simulation core.
//!
//! Agents move in the horizontal plane of a bounded world. Every tick, a
//! steering engine combines cohesion, separation, alignment and wall
//! repulsion into a new velocity per agent, a motion integrator advances
//! positions and derives facing and banking, and a camera framer picks a
//! viewpoint that keeps the whole flock in view.
//!
//! All geometry is fixed-point: a world coordinate `c` is stored as the
//! integer `c * SCALE`. This keeps the whole engine in integer arithmetic,
//! where every step has an exact mathematical contract.
//!
//! - [`vec`], [`agent`], [`config`]: the data model and its integer views.
//! - [`math`]: truncating division and integer square roots.
//! - [`steering`]: the per-tick steering rules.
//! - [`motion`]: integration, facing and banking.
//! - [`camera`]: the auto-framing viewpoint.
//! - [`sim`]: the tick driver and the fatal error type.
//! - [`laws`]: engine-level theorems proved from the stages' contracts.

pub mod agent;
pub mod camera;
pub mod config;
pub mod laws;
pub mod math;
pub mod motion;
pub mod sim;
pub mod steering;
pub mod vec;

use vstd::prelude::*;

verus! {

/// Fixed-point scale: one world unit is `SCALE` integer steps.
pub const SCALE: i64 = 1000;

/// Bound on every stored coordinate and velocity component. State beyond it
/// is outside the domain the engine's arithmetic is proven sound on, and is
/// treated like a NaN in a floating-point engine: fatal.
pub const LIMIT: i64 = 1_000_000;

/// Bound on a heading component: a heading is a displacement of one tick,
/// at most `LIMIT * DT_MAX / SCALE`.
pub const HEAD_LIMIT: i64 = 10_000_000;

/// Bound on a position component right after integration: the coordinate
/// bound plus one tick's largest displacement.
pub const POS_LIMIT: i64 = 11_000_000;

/// Largest flock the engine accepts.
pub const FLOCK_MAX: usize = 1_000_000;

/// Largest elapsed time per tick (fixed-point seconds): ten seconds.
pub const DT_MAX: i64 = 10_000;

} // verus!
