//! Plain fixed-point vector types and the spec-level products over them.
//! The horizontal plane is world X / Z; `Vec2.z` is the second planar axis.

use vstd::prelude::*;

use crate::fixed::mag;

verus! {

/// A point or direction in the horizontal plane, fixed-point.
#[derive(Clone, Copy, PartialEq, Eq, Structural, Debug)]
pub struct Vec2 {
    pub x: i64,
    pub z: i64,
}

/// A point or direction in space, fixed-point. `y` is the vertical axis.
#[derive(Clone, Copy, PartialEq, Eq, Structural, Debug)]
pub struct Vec3 {
    pub x: i64,
    pub y: i64,
    pub z: i64,
}

/// Squared planar distance between two points.
pub open spec fn sq_dist2(a: Vec2, b: Vec2) -> int {
    (b.x - a.x) * (b.x - a.x) + (b.z - a.z) * (b.z - a.z)
}

/// Scalar product of `p - a` with `b - a`: the (unnormalised) projection of a
/// query point onto the segment direction.
pub open spec fn dot_from(a: Vec2, b: Vec2, p: Vec2) -> int {
    (p.x - a.x) * (b.x - a.x) + (p.z - a.z) * (b.z - a.z)
}

/// Every coordinate of a planar point is within `limit`.
pub open spec fn in_box2(p: Vec2, limit: int) -> bool {
    mag(p.x as int) <= limit && mag(p.z as int) <= limit
}

/// Every coordinate of a spatial point is within `limit`.
pub open spec fn in_box3(p: Vec3, limit: int) -> bool {
    mag(p.x as int) <= limit && mag(p.y as int) <= limit && mag(p.z as int) <= limit
}

/// The planar (horizontal) projection of a spatial point.
pub open spec fn planar(p: Vec3) -> Vec2 {
    Vec2 { x: p.x, z: p.z }
}

} // verus!
