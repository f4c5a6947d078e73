//! Integer vector types and the cross product used by the normal estimator.

use vstd::prelude::*;

verus! {

/// A 3D vector with integer components.
#[derive(Clone, Copy, Debug, PartialEq, Eq, Structural)]
pub struct Vec3i {
    pub x: i64,
    pub y: i64,
    pub z: i64,
}

/// A 2D vector with integer components.
#[derive(Clone, Copy, Debug, PartialEq, Eq, Structural)]
pub struct Vec2i {
    pub x: i64,
    pub y: i64,
}

impl Vec3i {
    pub open spec fn zero_spec() -> Vec3i {
        Vec3i { x: 0, y: 0, z: 0 }
    }

    pub fn zero() -> (r: Vec3i)
        ensures
            r == Vec3i::zero_spec(),
    {
        Vec3i { x: 0, y: 0, z: 0 }
    }
}

/// A 3D vector with unbounded integer components, for specifications.
pub struct Vec3Spec {
    pub x: int,
    pub y: int,
    pub z: int,
}

/// The components of a [`Vec3i`] as unbounded integers.
pub open spec fn vec3i_view(v: Vec3i) -> Vec3Spec {
    Vec3Spec { x: v.x as int, y: v.y as int, z: v.z as int }
}

/// Cross product of the vectors `(ax, ay, az)` and `(bx, by, bz)`.
pub open spec fn cross_spec(ax: int, ay: int, az: int, bx: int, by: int, bz: int) -> Vec3Spec {
    Vec3Spec { x: ay * bz - az * by, y: az * bx - ax * bz, z: ax * by - ay * bx }
}

} // verus!
