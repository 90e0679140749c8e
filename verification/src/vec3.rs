//! Three-component vectors of fixed-point scalars.

use crate::fixed::FP;
use vstd::prelude::*;

verus! {

/// A point, direction or per-axis factor in fixed-point scalars: positions
/// and translations count millionths of a world unit, rotation vectors
/// millionths of a radian, scale vectors millionths of the identity factor.
#[derive(Clone, Copy, Debug, PartialEq, Eq, Structural)]
pub struct Vec3 {
    pub x: i64,
    pub y: i64,
    pub z: i64,
}

impl Vec3 {
    /// The vector with the given components.
    pub fn new(x: i64, y: i64, z: i64) -> (v: Vec3)
        ensures
            v == (Vec3 { x, y, z }),
    {
        Vec3 { x, y, z }
    }

    /// The zero vector: origin position, no rotation, no translation.
    pub fn zero() -> (v: Vec3)
        ensures
            v == (Vec3 { x: 0, y: 0, z: 0 }),
    {
        Vec3 { x: 0, y: 0, z: 0 }
    }

    /// The identity scale factor on every axis.
    pub fn unit_scale() -> (v: Vec3)
        ensures
            v == (Vec3 { x: FP as i64, y: FP as i64, z: FP as i64 }),
    {
        Vec3 { x: FP, y: FP, z: FP }
    }

}

/// Whether every component lies within `[-bound, bound]`.
pub open spec fn v3_in_range(v: Vec3, bound: int) -> bool {
    &&& -bound <= v.x <= bound
    &&& -bound <= v.y <= bound
    &&& -bound <= v.z <= bound
}

} // verus!
