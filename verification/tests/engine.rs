//! End-to-end checks of the steering engine, motion integrator and camera
//! framer on concrete flocks, including each property the crate states as a
//! law and both fatal error paths.

use boids::agent::Agent;
use boids::camera::{frame_flock, CameraPose};
use boids::config::{CameraParams, SimulationConfig};
use boids::motion::integrate_flock;
use boids::sim::{tick, SimError};
use boids::steering::{clamp_speed, get_velocity_away_from_walls, steer_flock};
use boids::vec::{Vec2Fx, Vec3Fx};

fn test_config() -> SimulationConfig {
    SimulationConfig {
        agent_count: 2,
        view_range: 1000,
        separation_distance: 400,
        cone_cos: -500,
        max_speed: 3000,
        x_min: -10_000,
        x_max: 10_000,
        z_min: -10_000,
        z_max: 10_000,
        repel_value: 100,
        cohesion_divisor: 100,
        alignment_divisor: 8,
    }
}

fn test_camera() -> CameraParams {
    // A vertical field of view of 60 degrees: sin 30 = 0.5, cos 30 = 0.866.
    CameraParams { sin_half_vfov: 500, cos_half_vfov: 866, aspect_ratio: 1000 }
}

fn agent(px: i64, pz: i64, vx: i64, vz: i64, hx: i64, hz: i64) -> Agent {
    Agent {
        position: Vec3Fx { x: px, y: 400, z: pz },
        velocity: Vec2Fx { x: vx, z: vz },
        previous_velocity: Vec2Fx { x: vx, z: vz },
        heading: Vec2Fx { x: hx, z: hz },
    }
}

#[test]
fn clamp_leaves_slow_velocity_alone() {
    let v = clamp_speed(Vec2Fx { x: 2000, z: -1000 }, 3000);
    assert_eq!(v, Vec2Fx { x: 2000, z: -1000 });
}

#[test]
fn clamp_rescales_to_max_speed_exactly() {
    // Speed 10 in direction (1, 0) with a limit of 3 becomes exactly (3, 0).
    let v = clamp_speed(Vec2Fx { x: 10_000, z: 0 }, 3000);
    assert_eq!(v, Vec2Fx { x: 3000, z: 0 });
}

#[test]
fn clamp_never_exceeds_max_speed() {
    let v = clamp_speed(Vec2Fx { x: 5000, z: 5000 }, 3000);
    assert!(v.x * v.x + v.z * v.z <= 3000 * 3000);
}

#[test]
fn wall_repulsion_pushes_back_from_x_min() {
    // Outside on the X-min side: strictly positive X nudge.
    let r = get_velocity_away_from_walls(
        Vec3Fx { x: -15_000, y: 400, z: 0 },
        100,
        -10_000,
        10_000,
        -10_000,
        10_000,
    );
    assert_eq!(r, Vec2Fx { x: 100, z: 0 });
}

#[test]
fn wall_repulsion_is_zero_inside_bounds() {
    let r = get_velocity_away_from_walls(
        Vec3Fx { x: 0, y: 400, z: 0 },
        100,
        -10_000,
        10_000,
        -10_000,
        10_000,
    );
    assert_eq!(r, Vec2Fx { x: 0, z: 0 });
}

#[test]
fn wall_repulsion_pushes_back_from_both_high_bounds() {
    let r = get_velocity_away_from_walls(
        Vec3Fx { x: 15_000, y: 400, z: 12_000 },
        100,
        -10_000,
        10_000,
        -10_000,
        10_000,
    );
    assert_eq!(r, Vec2Fx { x: -100, z: -100 });
}

#[test]
fn lone_agent_keeps_its_velocity() {
    // Zero neighbors inside view range: the post-tick velocity is the
    // pre-tick velocity plus only the wall term (zero here).
    let cfg = test_config();
    let mut flock = vec![agent(0, 0, 500, 300, 1000, 0)];
    steer_flock(&mut flock, &cfg);
    assert_eq!(flock[0].velocity, Vec2Fx { x: 500, z: 300 });
    assert_eq!(flock[0].position, Vec3Fx { x: 0, y: 400, z: 0 });
}

#[test]
fn lone_agent_outside_bounds_gets_only_the_wall_term() {
    let cfg = test_config();
    let mut flock = vec![agent(-15_000, 0, 500, 300, 1000, 0)];
    steer_flock(&mut flock, &cfg);
    assert_eq!(flock[0].velocity, Vec2Fx { x: 600, z: 300 });
}

#[test]
fn close_pair_repels_each_other() {
    // Two agents half a separation distance apart, facing each other and
    // otherwise isolated: each gets a nonzero separation push away from the
    // other (cohesion contributes 2 toward the neighbor; separation 200
    // away dominates).
    let cfg = test_config();
    let mut flock = vec![agent(0, 0, 0, 0, 1000, 0), agent(200, 0, 0, 0, -1000, 0)];
    steer_flock(&mut flock, &cfg);
    assert_eq!(flock[0].velocity, Vec2Fx { x: -198, z: 0 });
    assert_eq!(flock[1].velocity, Vec2Fx { x: 198, z: 0 });
}

#[test]
fn neighbor_behind_the_cone_is_invisible() {
    // The neighbor sits directly behind the agent's heading: outside the
    // 120-degree half-angle cone, so no rule contribution at all.
    let cfg = test_config();
    let mut flock = vec![agent(0, 0, 0, 0, 1000, 0), agent(-200, 0, 0, 0, 1000, 0)];
    steer_flock(&mut flock, &cfg);
    assert_eq!(flock[0].velocity, Vec2Fx { x: 0, z: 0 });
}

#[test]
fn narrow_cone_sees_only_straight_ahead() {
    // A 60-degree half-angle cone (cosine 0.5): a neighbor at 90 degrees to
    // the side is invisible, one dead ahead is visible.
    let mut cfg = test_config();
    cfg.cone_cos = 500;

    let mut side = vec![agent(0, 0, 0, 0, 1000, 0), agent(0, 200, 0, 0, -1000, 0)];
    steer_flock(&mut side, &cfg);
    assert_eq!(side[0].velocity, Vec2Fx { x: 0, z: 0 });

    let mut ahead = vec![agent(0, 0, 0, 0, 1000, 0), agent(200, 0, 0, 0, -1000, 0)];
    steer_flock(&mut ahead, &cfg);
    assert_eq!(ahead[0].velocity, Vec2Fx { x: -198, z: 0 });
}

#[test]
fn neighbor_at_exactly_view_range_is_visible() {
    // The range test is inclusive: only a strictly larger distance skips.
    let cfg = test_config();
    let mut flock = vec![agent(0, 0, 0, 0, 1000, 0), agent(1000, 0, 0, 0, -1000, 0)];
    steer_flock(&mut flock, &cfg);
    // Cohesion toward the neighbor (10), too far for separation.
    assert_eq!(flock[0].velocity, Vec2Fx { x: 10, z: 0 });
}

#[test]
fn identical_positions_are_treated_as_self() {
    // The neighbor exclusion compares positions: an agent at exactly the
    // same spot is skipped like the agent itself, so neither perceives the
    // other.
    let cfg = test_config();
    let mut flock = vec![agent(0, 0, 100, 0, 1000, 0), agent(0, 0, 0, 200, 1000, 0)];
    steer_flock(&mut flock, &cfg);
    assert_eq!(flock[0].velocity, Vec2Fx { x: 100, z: 0 });
    assert_eq!(flock[1].velocity, Vec2Fx { x: 0, z: 200 });
}

#[test]
fn spawned_agent_faces_negative_z_with_no_history() {
    let a = Agent::new(Vec3Fx { x: 10, y: 400, z: 20 }, Vec2Fx { x: 1, z: 2 });
    assert_eq!(a.position, Vec3Fx { x: 10, y: 400, z: 20 });
    assert_eq!(a.velocity, Vec2Fx { x: 1, z: 2 });
    assert_eq!(a.previous_velocity, Vec2Fx { x: 0, z: 0 });
    assert_eq!(a.heading, Vec2Fx { x: 0, z: -1000 });
}

#[test]
fn steering_reads_the_pre_tick_snapshot() {
    // Alignment sees the neighbor's pre-tick velocity even after that
    // neighbor's own velocity was already updated within the same pass:
    // both agents see the same picture and get symmetric velocities.
    let cfg = test_config();
    let mut flock = vec![agent(0, 0, 0, 800, 1000, 0), agent(200, 0, 0, 800, -1000, 0)];
    steer_flock(&mut flock, &cfg);
    // Each: alignment (800 / 1) / 8 = 100, cohesion toward the other, raw
    // separation away; the z components match exactly.
    assert_eq!(flock[0].velocity.z, flock[1].velocity.z);
    assert_eq!(flock[0].velocity.z, 800 + 100);
    assert_eq!(flock[0].velocity.x, -198);
    assert_eq!(flock[1].velocity.x, 198);
}

#[test]
fn integration_moves_by_velocity_times_time() {
    // Velocity (2, 0) over half a second from the origin: displacement
    // (1, 0); the vertical coordinate is untouched.
    let mut flock = vec![agent(0, 0, 2000, 0, 0, -1000)];
    let leans = integrate_flock(&mut flock, 500).unwrap();
    assert_eq!(flock[0].position, Vec3Fx { x: 1000, y: 400, z: 0 });
    assert_eq!(flock[0].heading, Vec2Fx { x: 1000, z: 0 });
    assert_eq!(flock[0].previous_velocity, Vec2Fx { x: 2000, z: 0 });
    // No change of velocity: no banking.
    assert_eq!(leans[0], None);
}

#[test]
fn zero_displacement_keeps_the_heading() {
    let mut flock = vec![agent(0, 0, 0, 0, 707, -707)];
    integrate_flock(&mut flock, 500).unwrap();
    assert_eq!(flock[0].heading, Vec2Fx { x: 707, z: -707 });
}

#[test]
fn banking_angle_clamps_at_forty_five_degrees() {
    // Acceleration (1, 0): magnitude 1000, times the gain 20 far exceeds
    // 785 milliradians, so the lean clamps there; the axis is the
    // horizontal normal of the acceleration.
    let mut flock = vec![agent(0, 0, 2000, 0, 0, -1000)];
    flock[0].previous_velocity = Vec2Fx { x: 1000, z: 0 };
    let leans = integrate_flock(&mut flock, 1000).unwrap();
    let lean = leans[0].unwrap();
    assert_eq!(lean.angle, -785);
    assert_eq!(lean.axis, Vec2Fx { x: 0, z: 1000 });
}

#[test]
fn banking_angle_grows_with_acceleration_below_the_clamp() {
    let mut slow = vec![agent(0, 0, 1010, 0, 0, -1000)];
    slow[0].previous_velocity = Vec2Fx { x: 1000, z: 0 };
    let small = integrate_flock(&mut slow, 1000).unwrap()[0].unwrap();
    // Acceleration 10; lean 10 * 20 = 200 milliradians into the turn.
    assert_eq!(small.angle, -200);

    let mut fast = vec![agent(0, 0, 1030, 0, 0, -1000)];
    fast[0].previous_velocity = Vec2Fx { x: 1000, z: 0 };
    let larger = integrate_flock(&mut fast, 1000).unwrap()[0].unwrap();
    assert_eq!(larger.angle, -600);
    // Monotone in the acceleration magnitude, and within the clamp.
    assert!(small.angle.abs() <= larger.angle.abs());
    assert!(larger.angle.abs() <= 785);
}

#[test]
fn integration_rejects_out_of_range_state() {
    let mut flock = vec![agent(0, 0, 2_000_000, 0, 1000, 0)];
    let before = flock[0];
    let result = integrate_flock(&mut flock, 500);
    assert_eq!(result.unwrap_err(), SimError::CorruptAgent);
    assert_eq!(flock[0], before);
}

#[test]
fn camera_distance_is_radius_over_sine_of_half_fov() {
    // Bounding sphere radius 5, vertical field of view 60 degrees, aspect
    // ratio 1: the limiting field of view is the vertical one and the
    // distance is 5 / sin 30 = 10. The camera backs off by 10 along the
    // unit direction (0, 1, 1) / sqrt(2): 7.071 on each nonzero axis.
    let positions = vec![
        Vec3Fx { x: 0, y: 400, z: -5000 },
        Vec3Fx { x: 0, y: 400, z: 5000 },
    ];
    let pose = frame_flock(&positions, &test_camera()).unwrap().unwrap();
    assert_eq!(
        pose,
        CameraPose {
            position: Vec3Fx { x: 0, y: 7071, z: 7071 },
            look_at: Vec3Fx { x: 0, y: 0, z: 0 },
        }
    );
    // The offset's squared length is the squared distance, up to rounding.
    assert_eq!(2 * 7071i64 * 7071, 99_998_082);
}

#[test]
fn camera_offset_magnitude_equals_the_required_distance() {
    // Distance 10 along the unit diagonal: offset components are
    // 10_000 * 707_107 / 1_000_000 on the vertical and one horizontal axis.
    let positions = vec![
        Vec3Fx { x: 0, y: 400, z: -5000 },
        Vec3Fx { x: 0, y: 400, z: 5000 },
    ];
    let pose = frame_flock(&positions, &test_camera()).unwrap().unwrap();
    assert_eq!(pose.position.y, 10_000 * 707_107 / 1_000_000);
    assert_eq!(pose.position.z - pose.look_at.z, pose.position.y);
}

#[test]
fn bounding_sphere_radius_rounds_up_to_enclose() {
    // Positions (0, 0.4, 0) and (1, 0.4, 1): the box center is
    // (0.5, 0.4, 0.5) and each squared distance 500_000, between the
    // squares of 707 and 708 — the radius rounds up to 708, so both agents
    // lie inside the sphere. Distance 708 / sin 30 = 1416; offset 1001.
    let positions = vec![
        Vec3Fx { x: 0, y: 400, z: 0 },
        Vec3Fx { x: 1000, y: 400, z: 1000 },
    ];
    let pose = frame_flock(&positions, &test_camera()).unwrap().unwrap();
    assert!(500_000 <= 708i64 * 708);
    assert_eq!(
        pose,
        CameraPose {
            position: Vec3Fx { x: 500, y: 1001, z: 1501 },
            look_at: Vec3Fx { x: 500, y: 0, z: 500 },
        }
    );
}

#[test]
fn camera_with_narrow_aspect_is_limited_horizontally() {
    // Aspect ratio 0.5: the horizontal field of view is the smaller. Its
    // half-angle sine is sin * aspect / sqrt(cos^2 + (sin * aspect)^2),
    // here 250_000 / sqrt(866_000^2 + 250_000^2) = 0.277...; the camera
    // backs off accordingly.
    let cam = CameraParams { sin_half_vfov: 500, cos_half_vfov: 866, aspect_ratio: 500 };
    let positions = vec![
        Vec3Fx { x: 0, y: 400, z: -5000 },
        Vec3Fx { x: 0, y: 400, z: 5000 },
    ];
    let pose = frame_flock(&positions, &cam).unwrap().unwrap();
    // sqrt(866_000^2 + 250_000^2) = 901_363 (rounded down), so the sine is
    // 1000 * 250_000 / 901_363 = 277, the distance 5000 * 1000 / 277 =
    // 18050, and the offset per axis 18050 * 707_107 / 1_000_000.
    assert_eq!(pose.position.y, 12_763);
}

#[test]
fn camera_leaves_an_empty_flock_alone() {
    let positions: Vec<Vec3Fx> = Vec::new();
    assert_eq!(frame_flock(&positions, &test_camera()).unwrap(), None);
}

#[test]
fn degenerate_field_of_view_is_fatal() {
    // A nearly-zero vertical field of view with a narrow aspect rounds the
    // limiting sine down to zero: the required distance is undefined.
    let cam = CameraParams { sin_half_vfov: 1, cos_half_vfov: 1000, aspect_ratio: 500 };
    let positions = vec![Vec3Fx { x: 0, y: 400, z: 0 }];
    let result = frame_flock(&positions, &cam);
    assert_eq!(result.unwrap_err(), SimError::CorruptCameraDistance);
}

#[test]
fn tick_runs_all_three_stages_in_order() {
    let cfg = test_config();
    let cam = test_camera();
    let mut flock = vec![agent(0, 0, 2000, 0, 1000, 0)];
    let out = tick(&mut flock, &cfg, &cam, 500).unwrap();
    // Steering leaves the lone agent's velocity, integration moves it, and
    // the camera frames the single position (radius zero: distance zero).
    assert_eq!(flock[0].velocity, Vec2Fx { x: 2000, z: 0 });
    assert_eq!(flock[0].position, Vec3Fx { x: 1000, y: 400, z: 0 });
    assert_eq!(out.leans.len(), 1);
    assert_eq!(out.leans[0], None);
    let pose = out.camera.unwrap();
    assert_eq!(pose.position, Vec3Fx { x: 1000, y: 0, z: 0 });
    assert_eq!(pose.look_at, Vec3Fx { x: 1000, y: 0, z: 0 });
}

#[test]
fn tick_rejects_corrupt_state_before_moving_anything() {
    let cfg = test_config();
    let cam = test_camera();
    let mut flock = vec![agent(0, 0, 0, 0, 0, 0)];
    let before = flock[0];
    let result = tick(&mut flock, &cfg, &cam, 500);
    assert!(matches!(result, Err(SimError::CorruptAgent)));
    assert_eq!(flock[0], before);
}

#[test]
fn lone_agent_drifts_wall_bounded_over_many_ticks() {
    // The zero-neighbor round trip: a flock of one, ticked repeatedly,
    // shows pure drift — constant velocity while inside the bounds, then
    // the wall nudge alone bends it at the boundary.
    let cfg = test_config();
    let cam = test_camera();
    let mut flock = vec![agent(0, 0, 2000, 0, 1000, 0)];
    for expected_x in [1000i64, 2000, 3000] {
        tick(&mut flock, &cfg, &cam, 500).unwrap();
        assert_eq!(flock[0].velocity, Vec2Fx { x: 2000, z: 0 });
        assert_eq!(flock[0].position.x, expected_x);
        assert_eq!(flock[0].position.z, 0);
    }
    // Jump past the X-max wall: the next ticks push back.
    flock[0].position.x = 11_000;
    tick(&mut flock, &cfg, &cam, 500).unwrap();
    assert_eq!(flock[0].velocity, Vec2Fx { x: 1900, z: 0 });
    tick(&mut flock, &cfg, &cam, 500).unwrap();
    assert_eq!(flock[0].velocity, Vec2Fx { x: 1800, z: 0 });
}

#[test]
fn flock_of_many_stays_under_the_speed_limit() {
    let cfg = test_config();
    let cam = test_camera();
    let mut flock = Vec::new();
    for i in 0..20i64 {
        flock.push(agent(i * 150, (i % 5) * 120, (i % 7) * 400 - 1200, (i % 3) * 500 - 500, 1000, 1));
    }
    for _ in 0..10 {
        tick(&mut flock, &cfg, &cam, 160).unwrap();
        for a in flock.iter() {
            assert!(a.velocity.x * a.velocity.x + a.velocity.z * a.velocity.z <= 3000 * 3000);
            assert_eq!(a.position.y, 400);
        }
    }
}
