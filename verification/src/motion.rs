//! The motion integrator. After the steering pass it advances every agent's
//! position by its velocity scaled by the elapsed time, turns the agent to
//! face its movement, derives a banking ("lean") rotation from the change in
//! velocity, and records the velocity for the next tick's banking.

use vstd::prelude::*;
use crate::agent::{flock_in_range, flock_view, Agent, AgentView};
use crate::math::{
    div_to_zero, div_trunc, isqrt, lemma_abs_mul_le, lemma_div_trunc_bound, lemma_sqrt_floor,
    lemma_square_bounds, sqrt_floor,
};
use crate::sim::SimError;
use crate::vec::{Vec2Fx, Vec2i};
use crate::{DT_MAX, HEAD_LIMIT, LIMIT, POS_LIMIT, SCALE};

verus! {

/// Gain from acceleration magnitude to lean angle (milliradians of lean per
/// fixed-point unit of acceleration).
pub const LEAN_GAIN: i64 = 20;

/// The lean clamp: 45 degrees, in milliradians.
pub const MAX_LEAN: i64 = 785;

/// A banking rotation for the render layer: turn by `angle` milliradians
/// about the horizontal axis `(axis.x, 0, axis.z)` (unnormalized; only its
/// direction matters), pivoted at the agent's own position.
#[derive(Clone, Copy, PartialEq, Eq, Structural, Debug)]
pub struct LeanRotation {
    pub axis: Vec2Fx,
    pub angle: i64,
}

/// The displacement of one tick: velocity times elapsed time, in fixed
/// point.
pub open spec fn displacement(velocity: Vec2i, dt: int) -> Vec2i {
    Vec2i { x: div_trunc(velocity.x * dt, SCALE as int), z: div_trunc(velocity.z * dt, SCALE as int) }
}

/// The acceleration the banking rule sees: the change of velocity since the
/// previous tick, scaled by the elapsed time.
pub open spec fn lean_acceleration(a: AgentView, dt: int) -> Vec2i {
    Vec2i {
        x: div_trunc((a.velocity.x - a.previous_velocity.x) * dt, SCALE as int),
        z: div_trunc((a.velocity.z - a.previous_velocity.z) * dt, SCALE as int),
    }
}

/// The signed lean angle for an acceleration magnitude: proportional with
/// `LEAN_GAIN`, clamped to 45 degrees, and negated (the agent tilts into
/// the turn).
pub open spec fn lean_angle(acc_len: int) -> int {
    if acc_len * LEAN_GAIN > MAX_LEAN {
        -MAX_LEAN as int
    } else {
        -(acc_len * LEAN_GAIN)
    }
}

/// The agent after integrating velocity `v` over `dt`: the position moves
/// by the displacement (the vertical coordinate is untouched), the heading
/// turns to the displacement unless that is zero, and `v` is recorded as
/// the previous velocity for the next tick.
pub open spec fn integrated(a: AgentView, dt: int) -> AgentView {
    let d = displacement(a.velocity, dt);
    AgentView {
        position: crate::vec::Vec3i {
            x: a.position.x + d.x,
            y: a.position.y,
            z: a.position.z + d.z,
        },
        velocity: a.velocity,
        previous_velocity: a.velocity,
        heading: if d.is_zero() {
            a.heading
        } else {
            d
        },
    }
}

/// The banking rotation derived for one agent, if any: none when the
/// acceleration rounds to zero, otherwise the axis orthogonal to the
/// acceleration in the horizontal plane and the clamped lean angle for its
/// magnitude.
pub open spec fn lean_of(a: AgentView, dt: int) -> Option<LeanRotation> {
    let acc = lean_acceleration(a, dt);
    if acc.is_zero() {
        None
    } else {
        Some(
            LeanRotation {
                axis: Vec2Fx { x: (-acc.z) as i64, z: acc.x as i64 },
                angle: lean_angle(sqrt_floor(acc.len_sq() as nat) as int) as i64,
            },
        )
    }
}

/// Integration moves a position by at most one tick's displacement: from
/// the engine's numeric domain it stays within the wider camera domain.
pub proof fn lemma_integrated_position_bounds(a: AgentView, dt: int)
    requires
        a.in_range(),
        0 <= dt <= DT_MAX,
    ensures
        -POS_LIMIT <= integrated(a, dt).position.x <= POS_LIMIT,
        -LIMIT <= integrated(a, dt).position.y <= LIMIT,
        -POS_LIMIT <= integrated(a, dt).position.z <= POS_LIMIT,
{
    lemma_abs_mul_le(a.velocity.x, dt, LIMIT as int, DT_MAX as int);
    lemma_abs_mul_le(a.velocity.z, dt, LIMIT as int, DT_MAX as int);
    lemma_div_trunc_bound(a.velocity.x * dt, SCALE as int, HEAD_LIMIT as int);
    lemma_div_trunc_bound(a.velocity.z * dt, SCALE as int, HEAD_LIMIT as int);
}

/// Integrate one agent (executable). Returns the banking rotation for the
/// render layer, if the tick produced one.
fn integrate_agent(agent: &mut Agent, dt: i64) -> (lean: Option<LeanRotation>)
    requires
        old(agent)@.in_range(),
        0 <= dt <= DT_MAX,
    ensures
        final(agent)@ == integrated(old(agent)@, dt as int),
        lean == lean_of(old(agent)@, dt as int),
        -POS_LIMIT <= final(agent).position.x <= POS_LIMIT,
        -POS_LIMIT <= final(agent).position.z <= POS_LIMIT,
        -HEAD_LIMIT <= final(agent).heading.x <= HEAD_LIMIT,
        -HEAD_LIMIT <= final(agent).heading.z <= HEAD_LIMIT,
        !final(agent)@.heading.is_zero(),
{
    proof {
        lemma_abs_mul_le(agent.velocity.x as int, dt as int, LIMIT as int, DT_MAX as int);
        lemma_abs_mul_le(agent.velocity.z as int, dt as int, LIMIT as int, DT_MAX as int);
        lemma_div_trunc_bound(agent.velocity.x as int * dt as int, SCALE as int, HEAD_LIMIT as int);
        lemma_div_trunc_bound(agent.velocity.z as int * dt as int, SCALE as int, HEAD_LIMIT as int);
    }
    let displacement_x = div_to_zero(agent.velocity.x * dt, SCALE);
    let displacement_z = div_to_zero(agent.velocity.z * dt, SCALE);
    agent.position.x = agent.position.x + displacement_x;
    agent.position.z = agent.position.z + displacement_z;
    if !(displacement_x == 0 && displacement_z == 0) {
        agent.heading.x = displacement_x;
        agent.heading.z = displacement_z;
    }

    proof {
        lemma_abs_mul_le(
            agent.velocity.x as int - agent.previous_velocity.x as int,
            dt as int,
            2 * LIMIT as int,
            DT_MAX as int,
        );
        lemma_abs_mul_le(
            agent.velocity.z as int - agent.previous_velocity.z as int,
            dt as int,
            2 * LIMIT as int,
            DT_MAX as int,
        );
        lemma_div_trunc_bound(
            (agent.velocity.x as int - agent.previous_velocity.x as int) * dt as int,
            SCALE as int,
            20_000_000int,
        );
        lemma_div_trunc_bound(
            (agent.velocity.z as int - agent.previous_velocity.z as int) * dt as int,
            SCALE as int,
            20_000_000int,
        );
    }
    let acceleration_x = div_to_zero((agent.velocity.x - agent.previous_velocity.x) * dt, SCALE);
    let acceleration_z = div_to_zero((agent.velocity.z - agent.previous_velocity.z) * dt, SCALE);
    agent.previous_velocity = agent.velocity;

    if acceleration_x == 0 && acceleration_z == 0 {
        None
    } else {
        proof {
            lemma_square_bounds(acceleration_x as int, 20_000_000int);
            lemma_square_bounds(acceleration_z as int, 20_000_000int);
        }
        let acc_sq = (acceleration_x as i128) * (acceleration_x as i128) + (acceleration_z as i128)
            * (acceleration_z as i128);
        let acc_len128 = isqrt(acc_sq as u128);
        proof {
            lemma_sqrt_floor(acc_sq as nat);
            let s = sqrt_floor(acc_sq as nat);
            assert(s <= 29_000_000) by (nonlinear_arith)
                requires
                    s * s <= acc_sq,
                    acc_sq <= 2 * (20_000_000int * 20_000_000int),
            ;
        }
        let acc_len = acc_len128 as i64;
        let scaled = acc_len * LEAN_GAIN;
        let angle = if scaled > MAX_LEAN {
            -MAX_LEAN
        } else {
            -scaled
        };
        Some(LeanRotation { axis: Vec2Fx { x: -acceleration_z, z: acceleration_x }, angle })
    }
}

/// Integrate the whole flock (executable). Rejects — fatally, before
/// touching anything — a flock whose state has left the engine's numeric
/// domain: the fixed-point counterpart of halting on a not-a-number
/// velocity, which signals an upstream defect and must not propagate.
/// On success returns one banking rotation slot per agent, in store order.
#[verifier::loop_isolation(false)]
pub fn integrate_flock(agents: &mut Vec<Agent>, dt: i64) -> (result: Result<
    Vec<Option<LeanRotation>>,
    SimError,
>)
    requires
        0 <= dt <= DT_MAX,
    ensures
        match result {
            Ok(leans) => {
                &&& flock_in_range(flock_view(old(agents)@))
                &&& final(agents)@.len() == old(agents)@.len()
                &&& leans@.len() == old(agents)@.len()
                &&& forall|i: int|
                    0 <= i < old(agents)@.len() ==> #[trigger] final(agents)@[i]@ == integrated(
                        old(agents)@[i]@,
                        dt as int,
                    )
                &&& forall|i: int|
                    0 <= i < old(agents)@.len() ==> #[trigger] leans@[i] == lean_of(
                        old(agents)@[i]@,
                        dt as int,
                    )
            },
            Err(e) => {
                &&& e == SimError::CorruptAgent
                &&& !flock_in_range(flock_view(old(agents)@))
                &&& final(agents)@ == old(agents)@
            },
        },
{
    let ghost orig = agents@;
    let mut i: usize = 0;
    while i < agents.len()
        invariant
            agents@ == orig,
            0 <= i <= orig.len(),
            forall|j: int| 0 <= j < i as int ==> #[trigger] flock_view(orig)[j].in_range(),
        decreases orig.len() - i,
    {
        let ok = agents[i].check_in_range();
        proof {
            assert(flock_view(orig)[i as int] == orig[i as int]@);
        }
        if !ok {
            return Err(SimError::CorruptAgent);
        }
        i = i + 1;
    }

    let mut leans: Vec<Option<LeanRotation>> = Vec::new();
    let mut i: usize = 0;
    while i < agents.len()
        invariant
            agents@.len() == orig.len(),
            flock_in_range(flock_view(orig)),
            0 <= i <= orig.len(),
            leans@.len() == i as int,
            forall|j: int| i as int <= j < orig.len() ==> #[trigger] agents@[j] == orig[j],
            forall|j: int|
                0 <= j < i as int ==> #[trigger] agents@[j]@ == integrated(orig[j]@, dt as int),
            forall|j: int|
                0 <= j < i as int ==> #[trigger] leans@[j] == lean_of(orig[j]@, dt as int),
        decreases orig.len() - i,
    {
        let mut agent = agents[i];
        proof {
            assert(flock_view(orig)[i as int] == orig[i as int]@);
            assert(flock_view(orig)[i as int].in_range());
        }
        let lean = integrate_agent(&mut agent, dt);
        agents.set(i, agent);
        leans.push(lean);
        i = i + 1;
    }
    Ok(leans)
}

} // verus!
