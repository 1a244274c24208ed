//! Simulation configuration and camera projection parameters. Both are
//! supplied once by the embedding host and read-only afterwards; the engine
//! assumes their well-formedness as a precondition and does not re-validate
//! it every tick.

use vstd::prelude::*;
use crate::{FLOCK_MAX, LIMIT, SCALE};

verus! {

/// Read-only simulation parameters, in fixed-point world units.
#[derive(Clone, Copy, PartialEq, Eq, Structural, Debug)]
pub struct SimulationConfig {
    /// How many agents the host should spawn.
    pub agent_count: usize,
    /// Perception radius: agents beyond it are never neighbors.
    pub view_range: i64,
    /// Neighbors closer than this repel (must be below `view_range`).
    pub separation_distance: i64,
    /// Cosine of the half-angle of the forward perception cone, scaled by
    /// `SCALE` (the default 120-degree half-angle gives `-SCALE / 2`).
    pub cone_cos: i64,
    /// Speed limit applied after the steering rules.
    pub max_speed: i64,
    /// World bounds on the two horizontal axes.
    pub x_min: i64,
    pub x_max: i64,
    pub z_min: i64,
    pub z_max: i64,
    /// Magnitude of the fixed wall-repulsion nudge per crossed plane.
    pub repel_value: i64,
    /// The cohesion nudge is the offset to the neighborhood centroid divided
    /// by this weight.
    pub cohesion_divisor: i64,
    /// The alignment nudge is the neighborhood's average velocity divided by
    /// this weight.
    pub alignment_divisor: i64,
}

impl SimulationConfig {
    /// Well-formedness, assumed of the external configuration provider.
    pub open spec fn wf(self) -> bool {
        &&& 0 < self.agent_count <= FLOCK_MAX
        &&& 0 < self.separation_distance < self.view_range <= LIMIT
        &&& -SCALE <= self.cone_cos <= SCALE
        &&& 0 < self.max_speed <= LIMIT
        &&& -LIMIT <= self.x_min < self.x_max <= LIMIT
        &&& -LIMIT <= self.z_min < self.z_max <= LIMIT
        &&& 0 < self.repel_value <= LIMIT
        &&& 0 < self.cohesion_divisor <= LIMIT
        &&& 0 < self.alignment_divisor <= LIMIT
    }
}

/// The externally-owned camera's projection parameters, read each tick.
/// The vertical field of view enters as the sine and cosine of its half
/// angle, scaled by `SCALE`; the aspect ratio is width over height, scaled
/// by `SCALE`.
#[derive(Clone, Copy, PartialEq, Eq, Structural, Debug)]
pub struct CameraParams {
    pub sin_half_vfov: i64,
    pub cos_half_vfov: i64,
    pub aspect_ratio: i64,
}

impl CameraParams {
    /// Well-formedness: the half angle lies strictly between 0 and 90
    /// degrees, so both of its trigonometric values are positive.
    pub open spec fn wf(self) -> bool {
        &&& 0 < self.sin_half_vfov <= SCALE
        &&& 0 < self.cos_half_vfov <= SCALE
        &&& 0 < self.aspect_ratio <= LIMIT
    }
}

} // verus!
