//! The agent record held by the store: position, velocity, the previous
//! tick's velocity (for the banking computation), and the facing direction
//! used by the perception cone.

use vstd::prelude::*;
use crate::vec::{Vec2Fx, Vec2i, Vec3Fx, Vec3i};
use crate::{HEAD_LIMIT, LIMIT, SCALE};

verus! {

/// Specification view of an agent: the same record over unbounded integers.
pub ghost struct AgentView {
    pub position: Vec3i,
    pub velocity: Vec2i,
    pub previous_velocity: Vec2i,
    pub heading: Vec2i,
}

/// One boid. Agents move only in the horizontal plane: the vertical
/// coordinate of `position` is fixed for the agent's lifetime.
#[derive(Clone, Copy, PartialEq, Eq, Structural, Debug)]
pub struct Agent {
    pub position: Vec3Fx,
    /// Velocity in the horizontal plane, committed by the steering pass.
    pub velocity: Vec2Fx,
    /// The velocity of the previous tick, kept for the banking computation.
    pub previous_velocity: Vec2Fx,
    /// Forward direction in the horizontal plane (unnormalized: only its
    /// direction matters). Never the zero vector.
    pub heading: Vec2Fx,
}

impl View for Agent {
    type V = AgentView;

    open spec fn view(&self) -> AgentView {
        AgentView {
            position: self.position@,
            velocity: self.velocity@,
            previous_velocity: self.previous_velocity@,
            heading: self.heading@,
        }
    }
}

impl AgentView {
    /// The numeric domain the engine is sound on. State that leaves it is
    /// treated as corrupt (the fixed-point counterpart of a NaN component)
    /// and is fatal to the simulation.
    pub open spec fn in_range(self) -> bool {
        &&& -LIMIT <= self.position.x <= LIMIT
        &&& -LIMIT <= self.position.y <= LIMIT
        &&& -LIMIT <= self.position.z <= LIMIT
        &&& -LIMIT <= self.velocity.x <= LIMIT
        &&& -LIMIT <= self.velocity.z <= LIMIT
        &&& -LIMIT <= self.previous_velocity.x <= LIMIT
        &&& -LIMIT <= self.previous_velocity.z <= LIMIT
        &&& -HEAD_LIMIT <= self.heading.x <= HEAD_LIMIT
        &&& -HEAD_LIMIT <= self.heading.z <= HEAD_LIMIT
        &&& !self.heading.is_zero()
    }
}

impl Agent {
    /// A freshly spawned agent: it has no velocity history and faces the
    /// world's negative `z` axis until its first movement.
    pub fn new(position: Vec3Fx, velocity: Vec2Fx) -> (agent: Agent)
        ensures
            agent.position == position,
            agent.velocity == velocity,
            agent.previous_velocity@ == (Vec2i { x: 0, z: 0 }),
            agent.heading@ == (Vec2i { x: 0, z: -SCALE as int }),
    {
        Agent {
            position,
            velocity,
            previous_velocity: Vec2Fx { x: 0, z: 0 },
            heading: Vec2Fx { x: 0, z: -SCALE },
        }
    }

    /// Runtime check that the agent lies in the engine's numeric domain.
    pub fn check_in_range(&self) -> (ok: bool)
        ensures
            ok == self@.in_range(),
    {
        -LIMIT <= self.position.x && self.position.x <= LIMIT && -LIMIT <= self.position.y
            && self.position.y <= LIMIT && -LIMIT <= self.position.z && self.position.z <= LIMIT
            && -LIMIT <= self.velocity.x && self.velocity.x <= LIMIT && -LIMIT <= self.velocity.z
            && self.velocity.z <= LIMIT && -LIMIT <= self.previous_velocity.x
            && self.previous_velocity.x <= LIMIT && -LIMIT <= self.previous_velocity.z
            && self.previous_velocity.z <= LIMIT && -HEAD_LIMIT <= self.heading.x && self.heading.x
            <= HEAD_LIMIT && -HEAD_LIMIT <= self.heading.z && self.heading.z <= HEAD_LIMIT && !(
        self.heading.x == 0 && self.heading.z == 0)
    }
}

/// The views of a whole flock, in store order.
pub open spec fn flock_view(s: Seq<Agent>) -> Seq<AgentView> {
    s.map_values(|a: Agent| a@)
}

/// Every agent of the flock lies in the engine's numeric domain.
pub open spec fn flock_in_range(s: Seq<AgentView>) -> bool {
    forall|i: int| 0 <= i < s.len() ==> #[trigger] s[i].in_range()
}

} // verus!
