//! The camera framer. After integration it computes the axis-aligned
//! bounding box of all agent positions, a bounding sphere around the box's
//! center through the farthest agent, and the distance the camera must back
//! off along its fixed offset direction so the sphere fits the limiting
//! (smaller) field of view; it then looks at the flock's horizontal center.

use vstd::prelude::*;
use crate::config::CameraParams;
use crate::math::{
    div_to_zero, div_trunc, isqrt, isqrt_up, lemma_abs_mul_le, lemma_div_trunc_bound,
    lemma_sqrt_ceil, lemma_sqrt_floor, lemma_square_bounds, sqrt_ceil, sqrt_floor,
};
use crate::sim::SimError;
use crate::vec::{Vec3Fx, Vec3i};
use crate::{POS_LIMIT, SCALE};

verus! {

/// Where the framer puts the camera: its position, and the point it turns
/// toward (the flock's horizontal center).
#[derive(Clone, Copy, PartialEq, Eq, Structural, Debug)]
pub struct CameraPose {
    pub position: Vec3Fx,
    pub look_at: Vec3Fx,
}

/// The views of a list of positions, in order.
pub open spec fn positions_view(s: Seq<Vec3Fx>) -> Seq<Vec3i> {
    s.map_values(|p: Vec3Fx| p@)
}

/// Every position lies in the post-integration domain.
pub open spec fn positions_in_range(s: Seq<Vec3i>) -> bool {
    forall|i: int|
        0 <= i < s.len() ==> {
            &&& -POS_LIMIT <= #[trigger] s[i].x <= POS_LIMIT
            &&& -POS_LIMIT <= s[i].y <= POS_LIMIT
            &&& -POS_LIMIT <= s[i].z <= POS_LIMIT
        }
}

/// Component-wise minimum of a nonempty list of positions.
pub open spec fn aabb_min(s: Seq<Vec3i>) -> Vec3i
    decreases s.len(),
{
    if s.len() <= 1 {
        s[0]
    } else {
        let m = aabb_min(s.drop_last());
        let p = s.last();
        Vec3i {
            x: if p.x < m.x {
                p.x
            } else {
                m.x
            },
            y: if p.y < m.y {
                p.y
            } else {
                m.y
            },
            z: if p.z < m.z {
                p.z
            } else {
                m.z
            },
        }
    }
}

/// Component-wise maximum of a nonempty list of positions.
pub open spec fn aabb_max(s: Seq<Vec3i>) -> Vec3i
    decreases s.len(),
{
    if s.len() <= 1 {
        s[0]
    } else {
        let m = aabb_max(s.drop_last());
        let p = s.last();
        Vec3i {
            x: if p.x > m.x {
                p.x
            } else {
                m.x
            },
            y: if p.y > m.y {
                p.y
            } else {
                m.y
            },
            z: if p.z > m.z {
                p.z
            } else {
                m.z
            },
        }
    }
}

/// The center of the bounding box: the midpoint of the extremes.
pub open spec fn flock_center(s: Seq<Vec3i>) -> Vec3i {
    let mn = aabb_min(s);
    let mx = aabb_max(s);
    Vec3i {
        x: div_trunc(mn.x + mx.x, 2),
        y: div_trunc(mn.y + mx.y, 2),
        z: div_trunc(mn.z + mx.z, 2),
    }
}

/// The largest squared distance from `c` to any of the positions (zero for
/// an empty list).
pub open spec fn max_dist_sq(c: Vec3i, s: Seq<Vec3i>) -> int
    decreases s.len(),
{
    if s.len() == 0 {
        0
    } else {
        let m = max_dist_sq(c, s.drop_last());
        let d = c.dist_sq(s.last());
        if d > m {
            d
        } else {
            m
        }
    }
}

/// Radius of the bounding sphere: the distance from the box center to the
/// farthest position, rounded up so the sphere encloses every position.
/// (Centered on the box midpoint, not a minimal enclosing sphere — a
/// deliberately conservative estimate.)
pub open spec fn bounding_radius(s: Seq<Vec3i>) -> int {
    sqrt_ceil(max_dist_sq(flock_center(s), s) as nat) as int
}

/// The sine of half the limiting (smaller) field of view. With the aspect
/// ratio at least one the vertical field of view is the smaller; otherwise
/// the horizontal one is, whose half-angle tangent is the vertical one's
/// times the aspect ratio, and whose sine is recovered from that tangent.
pub open spec fn limiting_sin(cam: CameraParams) -> int {
    if cam.aspect_ratio >= SCALE {
        cam.sin_half_vfov as int
    } else {
        let sa = cam.sin_half_vfov * cam.aspect_ratio;
        let cs = cam.cos_half_vfov * SCALE;
        div_trunc(SCALE * sa, sqrt_floor((cs * cs + sa * sa) as nat) as int)
    }
}

/// How far the camera must stand from the bounding-sphere center so the
/// sphere fits the limiting field of view: the radius over the sine of the
/// half-angle.
pub open spec fn required_distance(s: Seq<Vec3i>, cam: CameraParams) -> int {
    div_trunc(bounding_radius(s) * SCALE, limiting_sin(cam))
}

/// One component of the constant unit offset direction the camera backs off
/// along — `(0, 1, 1)` normalized, so `1 / sqrt(2)` on the vertical and one
/// horizontal axis — in millionths, rounded up.
pub const UNIT_OFFSET_COMPONENT: i64 = 707_107;

/// Where the framer puts the camera for a nonempty flock: backed off from
/// the flock's horizontal center by the required distance along the
/// constant unit direction that rises and retreats equally, and looking at
/// that center. The offset is `d` times the unit direction, so each of its
/// two nonzero components is `d / sqrt(2)`, up to fixed-point rounding.
pub open spec fn framed_pose(s: Seq<Vec3i>, cam: CameraParams) -> CameraPose {
    let c = flock_center(s);
    let d = required_distance(s, cam);
    let e = div_trunc(d * UNIT_OFFSET_COMPONENT, 1_000_000);
    CameraPose {
        position: Vec3Fx { x: c.x as i64, y: e as i64, z: (c.z + e) as i64 },
        look_at: Vec3Fx { x: c.x as i64, y: 0, z: c.z as i64 },
    }
}

/// Reposition the camera so every agent is likely to stay in view
/// (executable). An empty flock leaves the camera untouched; a flock and
/// projection for which the required distance is undefined is fatal.
#[verifier::loop_isolation(false)]
pub fn frame_flock(positions: &Vec<Vec3Fx>, cam: &CameraParams) -> (result: Result<
    Option<CameraPose>,
    SimError,
>)
    requires
        cam.wf(),
        positions_in_range(positions_view(positions@)),
    ensures
        positions@.len() == 0 ==> result == Ok::<Option<CameraPose>, SimError>(None),
        positions@.len() > 0 && limiting_sin(*cam) <= 0 ==> result == Err::<
            Option<CameraPose>,
            SimError,
        >(SimError::CorruptCameraDistance),
        positions@.len() > 0 && limiting_sin(*cam) > 0 ==> result == Ok::<
            Option<CameraPose>,
            SimError,
        >(Some(framed_pose(positions_view(positions@), *cam))),
{
    let ghost vs = positions_view(positions@);
    if positions.len() == 0 {
        return Ok(None);
    }

    let mut mn = positions[0];
    let mut mx = positions[0];
    let mut i: usize = 1;
    proof {
        assert(vs.take(1) =~= seq![vs[0]]);
        assert(vs[0] == positions@[0]@);
        assert(-POS_LIMIT <= vs[0].x <= POS_LIMIT && -POS_LIMIT <= vs[0].y <= POS_LIMIT
            && -POS_LIMIT <= vs[0].z <= POS_LIMIT);
    }
    while i < positions.len()
        invariant
            1 <= i <= vs.len(),
            mn@ == aabb_min(vs.take(i as int)),
            mx@ == aabb_max(vs.take(i as int)),
            -POS_LIMIT <= mn.x <= POS_LIMIT,
            -POS_LIMIT <= mn.y <= POS_LIMIT,
            -POS_LIMIT <= mn.z <= POS_LIMIT,
            -POS_LIMIT <= mx.x <= POS_LIMIT,
            -POS_LIMIT <= mx.y <= POS_LIMIT,
            -POS_LIMIT <= mx.z <= POS_LIMIT,
        decreases vs.len() - i,
    {
        let p = positions[i];
        proof {
            assert(vs[i as int] == positions@[i as int]@);
            assert(vs.take(i as int + 1).drop_last() =~= vs.take(i as int));
            assert(vs.take(i as int + 1).last() == vs[i as int]);
            assert(-POS_LIMIT <= vs[i as int].x <= POS_LIMIT && -POS_LIMIT <= vs[i as int].y
                <= POS_LIMIT && -POS_LIMIT <= vs[i as int].z <= POS_LIMIT);
        }
        if p.x < mn.x {
            mn.x = p.x;
        }
        if p.y < mn.y {
            mn.y = p.y;
        }
        if p.z < mn.z {
            mn.z = p.z;
        }
        if p.x > mx.x {
            mx.x = p.x;
        }
        if p.y > mx.y {
            mx.y = p.y;
        }
        if p.z > mx.z {
            mx.z = p.z;
        }
        i = i + 1;
    }
    proof {
        assert(vs.take(vs.len() as int) =~= vs);
    }

    let center = Vec3Fx {
        x: div_to_zero(mn.x + mx.x, 2),
        y: div_to_zero(mn.y + mx.y, 2),
        z: div_to_zero(mn.z + mx.z, 2),
    };
    proof {
        lemma_div_trunc_bound(mn.x + mx.x as int, 2, POS_LIMIT as int);
        lemma_div_trunc_bound(mn.y + mx.y as int, 2, POS_LIMIT as int);
        lemma_div_trunc_bound(mn.z + mx.z as int, 2, POS_LIMIT as int);
    }

    let mut farthest_dist_sq: i64 = 0;
    let mut i: usize = 0;
    while i < positions.len()
        invariant
            0 <= i <= vs.len(),
            -POS_LIMIT <= center.x <= POS_LIMIT,
            -POS_LIMIT <= center.y <= POS_LIMIT,
            -POS_LIMIT <= center.z <= POS_LIMIT,
            farthest_dist_sq == max_dist_sq(center@, vs.take(i as int)),
            0 <= farthest_dist_sq <= 1_500_000_000_000_000,
        decreases vs.len() - i,
    {
        let p = positions[i];
        proof {
            assert(vs[i as int] == positions@[i as int]@);
            assert(vs.take(i as int + 1).drop_last() =~= vs.take(i as int));
            assert(vs.take(i as int + 1).last() == vs[i as int]);
            assert(-POS_LIMIT <= vs[i as int].x <= POS_LIMIT && -POS_LIMIT <= vs[i as int].y
                <= POS_LIMIT && -POS_LIMIT <= vs[i as int].z <= POS_LIMIT);
            lemma_square_bounds(p.x - center.x as int, 22_000_000int);
            lemma_square_bounds(p.y - center.y as int, 22_000_000int);
            lemma_square_bounds(p.z - center.z as int, 22_000_000int);
        }
        let dx = p.x - center.x;
        let dy = p.y - center.y;
        let dz = p.z - center.z;
        let distance_sq = dx * dx + dy * dy + dz * dz;
        if distance_sq > farthest_dist_sq {
            farthest_dist_sq = distance_sq;
        }
        i = i + 1;
    }
    proof {
        assert(vs.take(vs.len() as int) =~= vs);
    }

    let radius128 = isqrt_up(farthest_dist_sq as u128);
    proof {
        lemma_sqrt_floor(farthest_dist_sq as nat);
        lemma_sqrt_ceil(farthest_dist_sq as nat);
        let s = sqrt_floor(farthest_dist_sq as nat);
        assert(s <= 40_000_000) by (nonlinear_arith)
            requires
                s * s <= farthest_dist_sq,
                farthest_dist_sq <= 1_500_000_000_000_000int,
        ;
    }
    let bounding_sphere_radius = radius128 as i64;

    let sin_limiting_fov = if cam.aspect_ratio >= SCALE {
        cam.sin_half_vfov
    } else {
        proof {
            lemma_abs_mul_le(cam.sin_half_vfov as int, cam.aspect_ratio as int, SCALE as int, SCALE as int);
        }
        let sa = cam.sin_half_vfov * cam.aspect_ratio;
        let cs = cam.cos_half_vfov * SCALE;
        proof {
            lemma_square_bounds(sa as int, 1_000_000int);
            lemma_square_bounds(cs as int, 1_000_000int);
        }
        let norm_sq = cs * cs + sa * sa;
        let den128 = isqrt(norm_sq as u128);
        proof {
            lemma_sqrt_floor(norm_sq as nat);
            let s = sqrt_floor(norm_sq as nat);
            assert(cs * cs >= 1_000_000) by (nonlinear_arith)
                requires
                    cs >= SCALE,
                    SCALE == 1000i64,
            ;
            assert(1000 <= s <= 1_500_000) by (nonlinear_arith)
                requires
                    s * s <= norm_sq,
                    norm_sq < (s + 1) * (s + 1),
                    1_000_000 <= norm_sq <= 2_000_000_000_000int,
            ;
        }
        let den = den128 as i64;
        div_to_zero(SCALE * sa, den)
    };

    if sin_limiting_fov <= 0 {
        return Err(SimError::CorruptCameraDistance);
    }
    let required_camera_distance = div_to_zero(bounding_sphere_radius * SCALE, sin_limiting_fov);
    proof {
        crate::math::lemma_div_trunc_shrinks(
            bounding_sphere_radius as int * SCALE as int,
            sin_limiting_fov as int,
        );
        crate::math::lemma_div_trunc_shrinks(
            required_camera_distance as int * UNIT_OFFSET_COMPONENT as int,
            1_000_000,
        );
    }
    let camera_offset = div_to_zero(required_camera_distance * UNIT_OFFSET_COMPONENT, 1_000_000);
    Ok(
        Some(
            CameraPose {
                position: Vec3Fx {
                    x: center.x,
                    y: camera_offset,
                    z: center.z + camera_offset,
                },
                look_at: Vec3Fx { x: center.x, y: 0, z: center.z },
            },
        ),
    )
}

} // verus!
