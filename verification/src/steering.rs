//! The steering engine. Once per tick it reads a snapshot of the whole
//! flock and gives every agent a new velocity: the old velocity plus wall
//! repulsion, cohesion, separation and alignment nudges, clamped to the
//! configured maximum speed. An agent's update is a pure function of the
//! snapshot taken at the start of the tick; it never sees a velocity already
//! updated in the same tick.

use vstd::prelude::*;
use crate::agent::{flock_in_range, flock_view, Agent, AgentView};
use crate::config::SimulationConfig;
use crate::math::{
    div_to_zero, div_trunc, isqrt_up, lemma_abs_le_of_sq_le, lemma_abs_mul_le,
    lemma_div_trunc_bound, lemma_div_trunc_shrinks, lemma_rescaled_len_sq, lemma_sqrt_ceil,
    lemma_sqrt_floor, lemma_square_bounds, sqrt_ceil,
};
use crate::vec::{Vec2Fx, Vec2i, Vec3Fx, Vec3i};
use crate::{FLOCK_MAX, HEAD_LIMIT, LIMIT, SCALE};

verus! {

/// Bound on a velocity component after the steering sums but before the
/// speed clamp (wall, cohesion and alignment nudges are small; the
/// separation sum can reach two coordinate bounds per flock member).
pub const STEER_BOUND: i64 = 4_000_000_000_000;

/// The wall-avoidance nudge: a fixed-magnitude push back into the world on
/// each horizontal axis whose bound the position has crossed, zero on an
/// axis the position is within.
pub open spec fn wall_term(
    p: Vec3i,
    repel_value: int,
    x_min: int,
    x_max: int,
    z_min: int,
    z_max: int,
) -> Vec2i {
    Vec2i {
        x: if p.x < x_min {
            repel_value
        } else if p.x > x_max {
            -repel_value
        } else {
            0
        },
        z: if p.z < z_min {
            repel_value
        } else if p.z > z_max {
            -repel_value
        } else {
            0
        },
    }
}

/// The wall-avoidance nudge under a configuration's bounds.
pub open spec fn wall_term_cfg(p: Vec3i, cfg: SimulationConfig) -> Vec2i {
    wall_term(
        p,
        cfg.repel_value as int,
        cfg.x_min as int,
        cfg.x_max as int,
        cfg.z_min as int,
        cfg.z_max as int,
    )
}

/// Whether `offset` (the vector from the agent to a neighbor) lies within
/// the forward cone around `heading` whose half-angle has cosine
/// `cone_cos / SCALE`. Stated without square roots: the sign of the dot
/// product decides, then squares compare `SCALE^2 dot^2` against
/// `cone_cos^2 |heading|^2 |offset|^2`.
pub open spec fn within_cone(heading: Vec2i, offset: Vec3i, cone_cos: int) -> bool {
    let dot = heading.x * offset.x + heading.z * offset.z;
    let dot2 = dot * dot;
    let f2 = heading.len_sq();
    let d2 = offset.x * offset.x + offset.y * offset.y + offset.z * offset.z;
    let q2 = cone_cos * cone_cos;
    let fd = f2 * d2;
    if cone_cos <= 0 {
        dot >= 0 || SCALE * SCALE * dot2 <= q2 * fd
    } else {
        dot >= 0 && SCALE * SCALE * dot2 >= q2 * fd
    }
}

/// Whether agent `a` perceives a neighbor at `b_position`: a different
/// position (an equal one is treated as `a` itself), within the view range,
/// and within the forward cone.
pub open spec fn sees(a: AgentView, b_position: Vec3i, cfg: SimulationConfig) -> bool {
    let offset = Vec3i {
        x: b_position.x - a.position.x,
        y: b_position.y - a.position.y,
        z: b_position.z - a.position.z,
    };
    &&& b_position != a.position
    &&& a.position.dist_sq(b_position) <= cfg.view_range * cfg.view_range
    &&& within_cone(a.heading, offset, cfg.cone_cos as int)
}

/// What one agent gathers from a scan of the flock snapshot: the sums of
/// the visible neighbors' horizontal positions and velocities, how many
/// there are, and the separation vector accumulated from those closer than
/// the separation distance.
pub ghost struct Perception {
    pub position_sum: Vec2i,
    pub velocity_sum: Vec2i,
    pub separation: Vec2i,
    pub count: int,
}

impl Perception {
    pub open spec fn empty() -> Perception {
        Perception {
            position_sum: Vec2i { x: 0, z: 0 },
            velocity_sum: Vec2i { x: 0, z: 0 },
            separation: Vec2i { x: 0, z: 0 },
            count: 0,
        }
    }
}

/// The scan of a snapshot, in store order.
pub open spec fn perceive(a: AgentView, flock: Seq<AgentView>, cfg: SimulationConfig) -> Perception
    decreases flock.len(),
{
    if flock.len() == 0 {
        Perception::empty()
    } else {
        let p = perceive(a, flock.drop_last(), cfg);
        let b = flock.last();
        if sees(a, b.position, cfg) {
            Perception {
                position_sum: Vec2i {
                    x: p.position_sum.x + b.position.x,
                    z: p.position_sum.z + b.position.z,
                },
                velocity_sum: Vec2i {
                    x: p.velocity_sum.x + b.velocity.x,
                    z: p.velocity_sum.z + b.velocity.z,
                },
                separation: if a.position.dist_sq(b.position) <= cfg.separation_distance
                    * cfg.separation_distance {
                    Vec2i {
                        x: p.separation.x - (b.position.x - a.position.x),
                        z: p.separation.z - (b.position.z - a.position.z),
                    }
                } else {
                    p.separation
                },
                count: p.count + 1,
            }
        } else {
            p
        }
    }
}

/// The speed clamp: a velocity whose squared length exceeds the squared
/// speed limit is rescaled by `max_speed` over the (rounded-up) length.
pub open spec fn clamped_velocity(v: Vec2i, max_speed: int) -> Vec2i {
    let n = v.len_sq();
    if n <= max_speed * max_speed {
        v
    } else {
        let c = sqrt_ceil(n as nat) as int;
        Vec2i { x: div_trunc(v.x * max_speed, c), z: div_trunc(v.z * max_speed, c) }
    }
}

/// The steering rule: what the engine commits as agent `a`'s velocity,
/// given the snapshot. The wall nudge always applies; with at least one
/// visible neighbor, cohesion steers toward the neighborhood centroid,
/// separation adds the accumulated repulsion unweighted, and alignment
/// steers toward the neighborhood's average velocity; the sum is clamped
/// to the speed limit.
pub open spec fn steered_velocity(a: AgentView, flock: Seq<AgentView>, cfg: SimulationConfig) -> Vec2i {
    let w = wall_term_cfg(a.position, cfg);
    let p = perceive(a, flock, cfg);
    let v1 = Vec2i { x: a.velocity.x + w.x, z: a.velocity.z + w.z };
    let v2 = if p.count > 0 {
        Vec2i {
            x: v1.x + div_trunc(
                div_trunc(p.position_sum.x, p.count) - a.position.x,
                cfg.cohesion_divisor as int,
            ) + p.separation.x + div_trunc(
                div_trunc(p.velocity_sum.x, p.count),
                cfg.alignment_divisor as int,
            ),
            z: v1.z + div_trunc(
                div_trunc(p.position_sum.z, p.count) - a.position.z,
                cfg.cohesion_divisor as int,
            ) + p.separation.z + div_trunc(
                div_trunc(p.velocity_sum.z, p.count),
                cfg.alignment_divisor as int,
            ),
        }
    } else {
        v1
    };
    clamped_velocity(v2, cfg.max_speed as int)
}

/// Wall avoidance (executable): pushes the velocity back toward the world
/// on each horizontal axis whose bound `position` has crossed.
pub fn get_velocity_away_from_walls(
    position: Vec3Fx,
    repel_value: i64,
    x_min: i64,
    x_max: i64,
    z_min: i64,
    z_max: i64,
) -> (r: Vec2Fx)
    requires
        repel_value >= 0,
    ensures
        r@ == wall_term(
            position@,
            repel_value as int,
            x_min as int,
            x_max as int,
            z_min as int,
            z_max as int,
        ),
{
    let mut result = Vec2Fx { x: 0, z: 0 };
    if position.x < x_min {
        result.x = repel_value;
    } else if position.x > x_max {
        result.x = -repel_value;
    }
    if position.z < z_min {
        result.z = repel_value;
    } else if position.z > z_max {
        result.z = -repel_value;
    }
    result
}

/// The speed clamp (executable). Leaves a velocity within the limit alone;
/// rescales a faster one to the limit, preserving its direction up to the
/// fixed-point rounding.
pub fn clamp_speed(v: Vec2Fx, max_speed: i64) -> (r: Vec2Fx)
    requires
        -STEER_BOUND <= v.x <= STEER_BOUND,
        -STEER_BOUND <= v.z <= STEER_BOUND,
        0 < max_speed <= LIMIT,
    ensures
        r@ == clamped_velocity(v@, max_speed as int),
        r@.len_sq() <= max_speed * max_speed,
        -max_speed <= r.x <= max_speed,
        -max_speed <= r.z <= max_speed,
{
    proof {
        lemma_square_bounds(v.x as int, STEER_BOUND as int);
        lemma_square_bounds(v.z as int, STEER_BOUND as int);
        lemma_square_bounds(max_speed as int, LIMIT as int);
    }
    let nx = (v.x as i128) * (v.x as i128);
    let nz = (v.z as i128) * (v.z as i128);
    let n = nx + nz;
    let m2 = (max_speed as i128) * (max_speed as i128);
    if n <= m2 {
        proof {
            lemma_abs_le_of_sq_le(v.x as int, max_speed as int);
            lemma_abs_le_of_sq_le(v.z as int, max_speed as int);
        }
        v
    } else {
        let c128 = isqrt_up(n as u128);
        proof {
            lemma_sqrt_floor(n as nat);
            lemma_sqrt_ceil(n as nat);
            let s = crate::math::sqrt_floor(n as nat);
            assert(s <= 6_000_000_000_000) by (nonlinear_arith)
                requires
                    s * s <= n,
                    n <= 2 * ((STEER_BOUND as int) * (STEER_BOUND as int)),
                    STEER_BOUND == 4_000_000_000_000i64,
            ;
        }
        let c = c128 as i64;
        proof {
            let ci = c as int;
            assert((v.x as int) * (v.x as int) <= ci * ci);
            lemma_abs_le_of_sq_le(v.x as int, ci);
            lemma_abs_le_of_sq_le(v.z as int, ci);
            lemma_abs_mul_le(v.x as int, max_speed as int, ci, max_speed as int);
            lemma_abs_mul_le(v.z as int, max_speed as int, ci, max_speed as int);
            lemma_abs_mul_le(
                v.x as int,
                max_speed as int,
                STEER_BOUND as int,
                max_speed as int,
            );
            lemma_abs_mul_le(
                v.z as int,
                max_speed as int,
                STEER_BOUND as int,
                max_speed as int,
            );
        }
        let rx = div_to_zero(v.x * max_speed, c);
        let rz = div_to_zero(v.z * max_speed, c);
        proof {
            lemma_div_trunc_bound((v.x as int) * (max_speed as int), c as int, max_speed as int);
            lemma_div_trunc_bound((v.z as int) * (max_speed as int), c as int, max_speed as int);
            lemma_rescaled_len_sq(v.x as int, v.z as int, max_speed as int, c as int);
        }
        Vec2Fx { x: rx, z: rz }
    }
}

/// One agent's steering pass (executable): scan the snapshot, apply the
/// wall nudge and, with visible neighbors, the cohesion, separation and
/// alignment nudges, then clamp to the speed limit.
#[verifier::loop_isolation(false)]
pub fn steer_agent(a: &Agent, flock: &Vec<Agent>, cfg: &SimulationConfig) -> (v: Vec2Fx)
    requires
        a@.in_range(),
        flock_in_range(flock_view(flock@)),
        flock@.len() <= FLOCK_MAX,
        cfg.wf(),
    ensures
        v@ == steered_velocity(a@, flock_view(flock@), *cfg),
        v@.len_sq() <= cfg.max_speed * cfg.max_speed,
        -cfg.max_speed <= v.x <= cfg.max_speed,
        -cfg.max_speed <= v.z <= cfg.max_speed,
{
    let ghost fv = flock_view(flock@);
    proof {
        lemma_square_bounds(cfg.view_range as int, LIMIT as int);
        lemma_square_bounds(cfg.separation_distance as int, LIMIT as int);
    }
    let view_range_sq = cfg.view_range * cfg.view_range;
    let separation_distance_sq = cfg.separation_distance * cfg.separation_distance;

    let mut position_sum = Vec2Fx { x: 0, z: 0 };
    let mut velocity_sum = Vec2Fx { x: 0, z: 0 };
    let mut separation = Vec2Fx { x: 0, z: 0 };
    let mut count: i64 = 0;

    let mut i: usize = 0;
    while i < flock.len()
        invariant
            0 <= i <= flock@.len(),
            0 <= count <= i,
            perceive(a@, fv.take(i as int), *cfg) == (Perception {
                position_sum: position_sum@,
                velocity_sum: velocity_sum@,
                separation: separation@,
                count: count as int,
            }),
            -count * LIMIT <= position_sum.x <= count * LIMIT,
            -count * LIMIT <= position_sum.z <= count * LIMIT,
            -count * LIMIT <= velocity_sum.x <= count * LIMIT,
            -count * LIMIT <= velocity_sum.z <= count * LIMIT,
            -count * 2 * LIMIT <= separation.x <= count * 2 * LIMIT,
            -count * 2 * LIMIT <= separation.z <= count * 2 * LIMIT,
        decreases flock@.len() - i,
    {
        let b = flock[i];
        proof {
            assert(fv[i as int] == flock@[i as int]@);
            assert(fv[i as int].in_range());
            assert(fv.take(i as int + 1).drop_last() =~= fv.take(i as int));
            assert(fv.take(i as int + 1).last() == fv[i as int]);
        }
        if !(b.position == a.position) {
            let dx = b.position.x - a.position.x;
            let dy = b.position.y - a.position.y;
            let dz = b.position.z - a.position.z;
            proof {
                lemma_square_bounds(dx as int, 2 * LIMIT as int);
                lemma_square_bounds(dy as int, 2 * LIMIT as int);
                lemma_square_bounds(dz as int, 2 * LIMIT as int);
            }
            let distance_sq = dx * dx + dy * dy + dz * dz;
            if distance_sq <= view_range_sq {
                proof {
                    lemma_abs_mul_le(a.heading.x as int, dx as int, HEAD_LIMIT as int, 2 * LIMIT as int);
                    lemma_abs_mul_le(a.heading.z as int, dz as int, HEAD_LIMIT as int, 2 * LIMIT as int);
                    lemma_square_bounds(a.heading.x as int, HEAD_LIMIT as int);
                    lemma_square_bounds(a.heading.z as int, HEAD_LIMIT as int);
                }
                let dot = a.heading.x * dx + a.heading.z * dz;
                let f2 = a.heading.x * a.heading.x + a.heading.z * a.heading.z;
                proof {
                    lemma_abs_mul_le(
                        dot as int,
                        dot as int,
                        40_000_000_000_000int,
                        40_000_000_000_000int,
                    );
                    lemma_abs_mul_le(
                        f2 as int,
                        distance_sq as int,
                        200_000_000_000_000int,
                        12_000_000_000_000_000int,
                    );
                    lemma_square_bounds(cfg.cone_cos as int, SCALE as int);
                }
                let dot2 = (dot as i128) * (dot as i128);
                let q2 = (cfg.cone_cos as i128) * (cfg.cone_cos as i128);
                let fd = (f2 as i128) * (distance_sq as i128);
                proof {
                    lemma_abs_mul_le(
                        q2 as int,
                        fd as int,
                        1_000_000int,
                        2_400_000_000_000_000_000_000_000_000_000int,
                    );
                }
                let lhs = (SCALE as i128) * (SCALE as i128) * dot2;
                let rhs = q2 * fd;
                let visible = if cfg.cone_cos <= 0 {
                    dot >= 0 || lhs <= rhs
                } else {
                    dot >= 0 && lhs >= rhs
                };
                if visible {
                    position_sum.x = position_sum.x + b.position.x;
                    position_sum.z = position_sum.z + b.position.z;
                    velocity_sum.x = velocity_sum.x + b.velocity.x;
                    velocity_sum.z = velocity_sum.z + b.velocity.z;
                    if distance_sq <= separation_distance_sq {
                        separation.x = separation.x - dx;
                        separation.z = separation.z - dz;
                    }
                    count = count + 1;
                }
            }
        }
        i = i + 1;
    }
    proof {
        assert(fv.take(flock@.len() as int) =~= fv);
    }

    let wall = get_velocity_away_from_walls(
        a.position,
        cfg.repel_value,
        cfg.x_min,
        cfg.x_max,
        cfg.z_min,
        cfg.z_max,
    );
    let mut vx = a.velocity.x + wall.x;
    let mut vz = a.velocity.z + wall.z;
    if count > 0 {
        let centroid_x = div_to_zero(position_sum.x, count);
        let centroid_z = div_to_zero(position_sum.z, count);
        proof {
            lemma_div_trunc_bound(position_sum.x as int, count as int, LIMIT as int);
            lemma_div_trunc_bound(position_sum.z as int, count as int, LIMIT as int);
            lemma_div_trunc_shrinks(centroid_x - a.position.x, cfg.cohesion_divisor as int);
            lemma_div_trunc_shrinks(centroid_z - a.position.z, cfg.cohesion_divisor as int);
            lemma_div_trunc_bound(velocity_sum.x as int, count as int, LIMIT as int);
            lemma_div_trunc_bound(velocity_sum.z as int, count as int, LIMIT as int);
        }
        let cohesion_x = div_to_zero(centroid_x - a.position.x, cfg.cohesion_divisor);
        let cohesion_z = div_to_zero(centroid_z - a.position.z, cfg.cohesion_divisor);
        let average_vx = div_to_zero(velocity_sum.x, count);
        let average_vz = div_to_zero(velocity_sum.z, count);
        proof {
            lemma_div_trunc_shrinks(average_vx as int, cfg.alignment_divisor as int);
            lemma_div_trunc_shrinks(average_vz as int, cfg.alignment_divisor as int);
        }
        let alignment_x = div_to_zero(average_vx, cfg.alignment_divisor);
        let alignment_z = div_to_zero(average_vz, cfg.alignment_divisor);
        vx = vx + cohesion_x + separation.x + alignment_x;
        vz = vz + cohesion_z + separation.z + alignment_z;
    }
    clamp_speed(Vec2Fx { x: vx, z: vz }, cfg.max_speed)
}

/// The whole steering pass (executable): commit a new velocity to every
/// agent, each computed from the snapshot of the flock as it stood when the
/// pass began. Positions, headings and previous velocities are untouched.
#[verifier::loop_isolation(false)]
pub fn steer_flock(agents: &mut Vec<Agent>, cfg: &SimulationConfig)
    requires
        flock_in_range(flock_view(old(agents)@)),
        old(agents)@.len() <= FLOCK_MAX,
        cfg.wf(),
    ensures
        final(agents)@.len() == old(agents)@.len(),
        forall|i: int|
            0 <= i < old(agents)@.len() ==> #[trigger] final(agents)@[i] == (Agent {
                velocity: Vec2Fx {
                    x: final(agents)@[i].velocity.x,
                    z: final(agents)@[i].velocity.z,
                },
                ..old(agents)@[i]
            }),
        forall|i: int|
            0 <= i < old(agents)@.len() ==> #[trigger] final(agents)@[i].velocity@
                == steered_velocity(old(agents)@[i]@, flock_view(old(agents)@), *cfg),
        flock_in_range(flock_view(final(agents)@)),
{
    let ghost orig = agents@;
    let mut updated: Vec<Agent> = Vec::new();
    let mut i: usize = 0;
    while i < agents.len()
        invariant
            agents@ == orig,
            0 <= i <= orig.len(),
            updated@.len() == i as int,
            forall|j: int|
                0 <= j < i as int ==> #[trigger] updated@[j] == (Agent {
                    velocity: Vec2Fx { x: updated@[j].velocity.x, z: updated@[j].velocity.z },
                    ..orig[j]
                }),
            forall|j: int|
                0 <= j < i as int ==> #[trigger] updated@[j].velocity@ == steered_velocity(
                    orig[j]@,
                    flock_view(orig),
                    *cfg,
                ),
            forall|j: int| 0 <= j < i as int ==> #[trigger] updated@[j]@.in_range(),
        decreases orig.len() - i,
    {
        let current = agents[i];
        proof {
            assert(flock_view(orig)[i as int] == orig[i as int]@);
            assert(flock_view(orig)[i as int].in_range());
        }
        let velocity = steer_agent(&current, agents, cfg);
        let steered = Agent { velocity, ..current };
        updated.push(steered);
        i = i + 1;
    }
    *agents = updated;
    proof {
        assert forall|i: int| 0 <= i < flock_view(agents@).len() implies #[trigger] flock_view(
            agents@,
        )[i].in_range() by {
            assert(flock_view(agents@)[i] == agents@[i]@);
        }
    }
}

} // verus!
