//! Fixed-point vectors. A `Vec2Fx` lives in the horizontal plane (components
//! `x` and `z`); a `Vec3Fx` adds the vertical `y`. Their views are the same
//! vectors over unbounded integers, which the contracts are stated over.

use vstd::prelude::*;

verus! {

/// Horizontal-plane vector over unbounded integers (specification view).
pub ghost struct Vec2i {
    pub x: int,
    pub z: int,
}

/// Spatial vector over unbounded integers (specification view).
pub ghost struct Vec3i {
    pub x: int,
    pub y: int,
    pub z: int,
}

/// Horizontal-plane fixed-point vector.
#[derive(Clone, Copy, PartialEq, Eq, Structural, Debug)]
pub struct Vec2Fx {
    pub x: i64,
    pub z: i64,
}

/// Spatial fixed-point vector.
#[derive(Clone, Copy, PartialEq, Eq, Structural, Debug)]
pub struct Vec3Fx {
    pub x: i64,
    pub y: i64,
    pub z: i64,
}

impl View for Vec2Fx {
    type V = Vec2i;

    open spec fn view(&self) -> Vec2i {
        Vec2i { x: self.x as int, z: self.z as int }
    }
}

impl View for Vec3Fx {
    type V = Vec3i;

    open spec fn view(&self) -> Vec3i {
        Vec3i { x: self.x as int, y: self.y as int, z: self.z as int }
    }
}

impl Vec2i {
    /// Squared length.
    pub open spec fn len_sq(self) -> int {
        self.x * self.x + self.z * self.z
    }

    pub open spec fn is_zero(self) -> bool {
        self.x == 0 && self.z == 0
    }
}

impl Vec3i {
    /// Squared distance to another point (all three components).
    pub open spec fn dist_sq(self, other: Vec3i) -> int {
        (other.x - self.x) * (other.x - self.x) + (other.y - self.y) * (other.y - self.y) + (
        other.z - self.z) * (other.z - self.z)
    }

    /// The horizontal components, as a plane vector.
    pub open spec fn xz(self) -> Vec2i {
        Vec2i { x: self.x, z: self.z }
    }
}

} // verus!
