//! Engine-level laws, each proved from the contracts of the stages: what an
//! agent with no visible neighbor does, which way walls push, how banking
//! responds to acceleration, and that a flock of one drifts under the wall
//! rule alone, tick after tick.

use vstd::prelude::*;
use crate::agent::AgentView;
use crate::config::SimulationConfig;
use crate::motion::{integrated, lean_angle, MAX_LEAN};
use crate::sim::stepped;
use crate::steering::{
    clamped_velocity, perceive, sees, steered_velocity, wall_term_cfg, Perception,
};
use crate::vec::Vec2i;

verus! {

/// The velocity the steering rule commits for an agent with no visible
/// neighbor: its own velocity plus the wall nudge, clamped.
pub open spec fn wall_drift_velocity(a: AgentView, cfg: SimulationConfig) -> Vec2i {
    let w = wall_term_cfg(a.position, cfg);
    clamped_velocity(
        Vec2i { x: a.velocity.x + w.x, z: a.velocity.z + w.z },
        cfg.max_speed as int,
    )
}

/// A scan that sees nothing gathers nothing.
pub proof fn lemma_unperceived_flock(a: AgentView, flock: Seq<AgentView>, cfg: SimulationConfig)
    requires
        forall|j: int| 0 <= j < flock.len() ==> !sees(a, #[trigger] flock[j].position, cfg),
    ensures
        perceive(a, flock, cfg) == Perception::empty(),
    decreases flock.len(),
{
    if flock.len() > 0 {
        assert(forall|j: int|
            0 <= j < flock.drop_last().len() ==> !sees(
                a,
                #[trigger] flock.drop_last()[j].position,
                cfg,
            ));
        lemma_unperceived_flock(a, flock.drop_last(), cfg);
    }
}

/// An agent with zero visible neighbors receives only the wall-avoidance
/// nudge: its post-steering velocity is its old velocity plus the wall
/// term, clamped — and exactly that sum whenever the sum is within the
/// speed limit. No cohesion, separation or alignment contribution arises.
pub proof fn lemma_isolated_agent_steering(
    a: AgentView,
    flock: Seq<AgentView>,
    cfg: SimulationConfig,
)
    requires
        forall|j: int| 0 <= j < flock.len() ==> !sees(a, #[trigger] flock[j].position, cfg),
    ensures
        steered_velocity(a, flock, cfg) == wall_drift_velocity(a, cfg),
        ({
            let w = wall_term_cfg(a.position, cfg);
            let v1 = Vec2i { x: a.velocity.x + w.x, z: a.velocity.z + w.z };
            v1.len_sq() <= cfg.max_speed * cfg.max_speed ==> steered_velocity(a, flock, cfg) == v1
        }),
{
    lemma_unperceived_flock(a, flock, cfg);
}

/// Which way walls push: an agent beyond the low bound of an axis gets a
/// strictly positive nudge on that axis, one beyond the high bound a
/// strictly negative one, and one within the bounds none at all.
pub proof fn lemma_wall_repulsion_direction(p: crate::vec::Vec3i, cfg: SimulationConfig)
    requires
        cfg.wf(),
    ensures
        p.x < cfg.x_min ==> wall_term_cfg(p, cfg).x == cfg.repel_value && wall_term_cfg(p, cfg).x
            > 0,
        p.x > cfg.x_max ==> wall_term_cfg(p, cfg).x == -cfg.repel_value && wall_term_cfg(p, cfg).x
            < 0,
        cfg.x_min <= p.x <= cfg.x_max ==> wall_term_cfg(p, cfg).x == 0,
        p.z < cfg.z_min ==> wall_term_cfg(p, cfg).z == cfg.repel_value && wall_term_cfg(p, cfg).z
            > 0,
        p.z > cfg.z_max ==> wall_term_cfg(p, cfg).z == -cfg.repel_value && wall_term_cfg(p, cfg).z
            < 0,
        cfg.z_min <= p.z <= cfg.z_max ==> wall_term_cfg(p, cfg).z == 0,
{
}

/// Two agents apart by no more than the separation distance, each seeing
/// the other, repel each other: each one's separation vector is exactly its
/// own offset away from the other, and not zero when they differ
/// horizontally.
pub proof fn lemma_two_agent_separation(a: AgentView, b: AgentView, cfg: SimulationConfig)
    requires
        sees(a, b.position, cfg),
        a.position.dist_sq(b.position) <= cfg.separation_distance * cfg.separation_distance,
    ensures
        perceive(a, seq![a, b], cfg) == (Perception {
            position_sum: b.position.xz(),
            velocity_sum: b.velocity,
            separation: Vec2i {
                x: a.position.x - b.position.x,
                z: a.position.z - b.position.z,
            },
            count: 1,
        }),
        a.position.xz() != b.position.xz() ==> !perceive(a, seq![a, b], cfg).separation.is_zero(),
{
    let s = seq![a, b];
    assert(s.drop_last() =~= seq![a]);
    assert(seq![a].drop_last() =~= Seq::<AgentView>::empty());
    assert(!sees(a, a.position, cfg));
    assert(perceive(a, Seq::<AgentView>::empty(), cfg) == Perception::empty());
    assert(perceive(a, seq![a], cfg) == Perception::empty());
}

/// The banking angle never leaves the 45-degree clamp on either side, and
/// tilts into the turn (it is never positive for a nonnegative acceleration
/// magnitude).
pub proof fn lemma_lean_angle_bounded(acc_len: int)
    requires
        acc_len >= 0,
    ensures
        -MAX_LEAN <= lean_angle(acc_len) <= 0,
{
}

/// The banking angle's magnitude is monotonically non-decreasing in the
/// acceleration magnitude, up to the clamp.
pub proof fn lemma_lean_angle_monotonic(acc_len_small: int, acc_len_large: int)
    requires
        0 <= acc_len_small <= acc_len_large,
    ensures
        -lean_angle(acc_len_small) <= -lean_angle(acc_len_large),
{
}

/// Every banking rotation the integrator emits keeps its angle within the
/// 45-degree clamp.
pub proof fn lemma_emitted_lean_bounded(a: AgentView, dt: int)
    ensures
        crate::motion::lean_of(a, dt) matches Some(lean) ==> -MAX_LEAN <= lean.angle <= 0,
{
    let acc = crate::motion::lean_acceleration(a, dt);
    if !acc.is_zero() {
        let len = crate::math::sqrt_floor(acc.len_sq() as nat) as int;
        lemma_lean_angle_bounded(len);
    }
}

/// The clamp is a true speed limit: whatever the rules summed up, the
/// committed velocity's squared length never exceeds the squared limit.
pub proof fn lemma_clamp_respects_speed_limit(v: Vec2i, max_speed: int)
    requires
        max_speed > 0,
    ensures
        clamped_velocity(v, max_speed).len_sq() <= max_speed * max_speed,
{
    let n = v.len_sq();
    assert(v.x * v.x >= 0 && v.z * v.z >= 0) by (nonlinear_arith);
    if n > max_speed * max_speed {
        crate::math::lemma_sqrt_ceil(n as nat);
        let c = crate::math::sqrt_ceil(n as nat) as int;
        crate::math::lemma_rescaled_len_sq(v.x, v.z, max_speed, c);
    }
}

/// The data-model invariant on velocities: after any steering pass, every
/// agent's velocity magnitude is within the configured maximum speed.
pub proof fn lemma_steering_respects_speed_limit(
    a: AgentView,
    flock: Seq<AgentView>,
    cfg: SimulationConfig,
)
    requires
        cfg.max_speed > 0,
    ensures
        steered_velocity(a, flock, cfg).len_sq() <= cfg.max_speed * cfg.max_speed,
{
    let w = wall_term_cfg(a.position, cfg);
    let p = perceive(a, flock, cfg);
    let v1 = Vec2i { x: a.velocity.x + w.x, z: a.velocity.z + w.z };
    if p.count > 0 {
        lemma_clamp_respects_speed_limit(
            Vec2i {
                x: v1.x + crate::math::div_trunc(
                    crate::math::div_trunc(p.position_sum.x, p.count) - a.position.x,
                    cfg.cohesion_divisor as int,
                ) + p.separation.x + crate::math::div_trunc(
                    crate::math::div_trunc(p.velocity_sum.x, p.count),
                    cfg.alignment_divisor as int,
                ),
                z: v1.z + crate::math::div_trunc(
                    crate::math::div_trunc(p.position_sum.z, p.count) - a.position.z,
                    cfg.cohesion_divisor as int,
                ) + p.separation.z + crate::math::div_trunc(
                    crate::math::div_trunc(p.velocity_sum.z, p.count),
                    cfg.alignment_divisor as int,
                ),
            },
            cfg.max_speed as int,
        );
    } else {
        lemma_clamp_respects_speed_limit(v1, cfg.max_speed as int);
    }
}

/// No position is farther from `c` than the farthest one.
pub proof fn lemma_max_dist_sq_dominates(c: crate::vec::Vec3i, s: Seq<crate::vec::Vec3i>)
    ensures
        0 <= crate::camera::max_dist_sq(c, s),
        forall|i: int|
            0 <= i < s.len() ==> c.dist_sq(#[trigger] s[i]) <= crate::camera::max_dist_sq(c, s),
    decreases s.len(),
{
    if s.len() > 0 {
        lemma_max_dist_sq_dominates(c, s.drop_last());
        assert forall|i: int| 0 <= i < s.len() implies c.dist_sq(#[trigger] s[i])
            <= crate::camera::max_dist_sq(c, s) by {
            if i < s.len() - 1 {
                assert(s.drop_last()[i] == s[i]);
            }
        }
    }
}

/// The bounding sphere earns its name: every position lies within the
/// radius of the box center, thanks to the radius rounding up.
pub proof fn lemma_bounding_sphere_encloses_flock(s: Seq<crate::vec::Vec3i>)
    ensures
        forall|i: int|
            0 <= i < s.len() ==> crate::camera::flock_center(s).dist_sq(#[trigger] s[i])
                <= crate::camera::bounding_radius(s) * crate::camera::bounding_radius(s),
{
    let c = crate::camera::flock_center(s);
    lemma_max_dist_sq_dominates(c, s);
    crate::math::lemma_sqrt_ceil(crate::camera::max_dist_sq(c, s) as nat);
}

/// The data-model invariant on positions: an agent's vertical coordinate
/// never changes — a whole engine tick moves it only in the horizontal
/// plane.
pub proof fn lemma_vertical_coordinate_fixed(
    a: AgentView,
    flock: Seq<AgentView>,
    cfg: SimulationConfig,
    dt: int,
)
    ensures
        stepped(a, flock, cfg, dt).position.y == a.position.y,
{
}

/// One neighbor-free tick: wall-rule steering, then integration.
pub open spec fn drift_step(a: AgentView, cfg: SimulationConfig, dt: int) -> AgentView {
    integrated(AgentView { velocity: wall_drift_velocity(a, cfg), ..a }, dt)
}

/// `n` neighbor-free ticks.
pub open spec fn drift_run(a: AgentView, cfg: SimulationConfig, dt: int, n: nat) -> AgentView
    decreases n,
{
    if n == 0 {
        a
    } else {
        drift_run(drift_step(a, cfg, dt), cfg, dt, (n - 1) as nat)
    }
}

/// `n` ticks of the full engine over a flock holding only this one agent.
pub open spec fn solo_run(a: AgentView, cfg: SimulationConfig, dt: int, n: nat) -> AgentView
    decreases n,
{
    if n == 0 {
        a
    } else {
        solo_run(stepped(a, seq![a], cfg, dt), cfg, dt, (n - 1) as nat)
    }
}

/// An agent alone in the flock perceives nothing, so one engine tick on it
/// is exactly one neighbor-free drift tick.
pub proof fn lemma_solo_step_is_drift_step(a: AgentView, cfg: SimulationConfig, dt: int)
    ensures
        stepped(a, seq![a], cfg, dt) == drift_step(a, cfg, dt),
{
    assert(seq![a].drop_last() =~= Seq::<AgentView>::empty());
    assert(!sees(a, a.position, cfg));
    assert(perceive(a, Seq::<AgentView>::empty(), cfg) == Perception::empty());
    assert(perceive(a, seq![a], cfg) == Perception::empty());
}

/// Round trip of the zero-neighbor guard: running the full engine on a
/// flock of one for any number of ticks produces pure wall-bounded drift —
/// the state after `n` ticks is exactly `n` applications of the
/// wall-rule-plus-integration step, with no flocking contribution ever.
pub proof fn lemma_solo_flock_drifts(a: AgentView, cfg: SimulationConfig, dt: int, n: nat)
    ensures
        solo_run(a, cfg, dt, n) == drift_run(a, cfg, dt, n),
    decreases n,
{
    if n > 0 {
        lemma_solo_step_is_drift_step(a, cfg, dt);
        lemma_solo_flock_drifts(drift_step(a, cfg, dt), cfg, dt, (n - 1) as nat);
    }
}

} // verus!

