//! 4x4 homogeneous transform matrices over fixed-point scalars.
//!
//! A matrix entry is an `i64` holding the mathematical entry times `FP`, so
//! the identity has `FP` on its diagonal and a translation by `v` carries the
//! components of `v` in its last column. The product of two matrices divides
//! every entry sum by `FP` (rounding toward negative infinity) to stay at
//! scale; a point `(x, y, z)` is applied as the homogeneous column
//! `(x, y, z, FP)` with the same single rounding per component. The ghost
//! model [`SMat4`] carries the entries as unbounded integers, and every
//! executable operation is specified exactly against it.

use crate::fixed::{div_floor_i128, sdiv, FP};
use crate::vec3::Vec3;
use vstd::prelude::*;

verus! {

/// Largest entry magnitude accepted by matrix products: keeps every
/// intermediate four-term dot product inside `i128`.
pub const MAX_ENTRY: i64 = 1_000_000_000_000_000_000;

/// The mathematical model of a matrix: the sixteen entries as unbounded
/// integers, row major (`mRC` is row `R`, column `C`).
pub ghost struct SMat4 {
    pub m00: int, pub m01: int, pub m02: int, pub m03: int,
    pub m10: int, pub m11: int, pub m12: int, pub m13: int,
    pub m20: int, pub m21: int, pub m22: int, pub m23: int,
    pub m30: int, pub m31: int, pub m32: int, pub m33: int,
}

/// A fixed-point transform matrix, row major.
#[derive(Clone, Copy, Debug, PartialEq, Eq, Structural)]
pub struct Mat4 {
    pub m00: i64, pub m01: i64, pub m02: i64, pub m03: i64,
    pub m10: i64, pub m11: i64, pub m12: i64, pub m13: i64,
    pub m20: i64, pub m21: i64, pub m22: i64, pub m23: i64,
    pub m30: i64, pub m31: i64, pub m32: i64, pub m33: i64,
}

impl View for Mat4 {
    type V = SMat4;

    open spec fn view(&self) -> SMat4 {
        SMat4 {
            m00: self.m00 as int, m01: self.m01 as int, m02: self.m02 as int, m03: self.m03 as int,
            m10: self.m10 as int, m11: self.m11 as int, m12: self.m12 as int, m13: self.m13 as int,
            m20: self.m20 as int, m21: self.m21 as int, m22: self.m22 as int, m23: self.m23 as int,
            m30: self.m30 as int, m31: self.m31 as int, m32: self.m32 as int, m33: self.m33 as int,
        }
    }
}

/// One entry of a matrix product: the four-term dot product brought back to
/// scale with a single floor division.
pub open spec fn s_dot(a0: int, a1: int, a2: int, a3: int, b0: int, b1: int, b2: int, b3: int) -> int {
    sdiv(a0 * b0 + a1 * b1 + a2 * b2 + a3 * b3)
}

/// The identity transform.
pub open spec fn s_identity() -> SMat4 {
    SMat4 {
        m00: FP as int, m01: 0, m02: 0, m03: 0,
        m10: 0, m11: FP as int, m12: 0, m13: 0,
        m20: 0, m21: 0, m22: FP as int, m23: 0,
        m30: 0, m31: 0, m32: 0, m33: FP as int,
    }
}

/// Translation by `(x, y, z)`.
pub open spec fn s_translation(x: int, y: int, z: int) -> SMat4 {
    SMat4 {
        m00: FP as int, m01: 0, m02: 0, m03: x,
        m10: 0, m11: FP as int, m12: 0, m13: y,
        m20: 0, m21: 0, m22: FP as int, m23: z,
        m30: 0, m31: 0, m32: 0, m33: FP as int,
    }
}

/// Rotation about the x axis with cosine `c` and sine `s` (both scaled by
/// `FP`).
pub open spec fn s_rotation_x(c: int, s: int) -> SMat4 {
    SMat4 {
        m00: FP as int, m01: 0, m02: 0, m03: 0,
        m10: 0, m11: c, m12: -s, m13: 0,
        m20: 0, m21: s, m22: c, m23: 0,
        m30: 0, m31: 0, m32: 0, m33: FP as int,
    }
}

/// Rotation about the y axis with cosine `c` and sine `s`.
pub open spec fn s_rotation_y(c: int, s: int) -> SMat4 {
    SMat4 {
        m00: c, m01: 0, m02: s, m03: 0,
        m10: 0, m11: FP as int, m12: 0, m13: 0,
        m20: -s, m21: 0, m22: c, m23: 0,
        m30: 0, m31: 0, m32: 0, m33: FP as int,
    }
}

/// Rotation about the z axis with cosine `c` and sine `s`.
pub open spec fn s_rotation_z(c: int, s: int) -> SMat4 {
    SMat4 {
        m00: c, m01: -s, m02: 0, m03: 0,
        m10: s, m11: c, m12: 0, m13: 0,
        m20: 0, m21: 0, m22: FP as int, m23: 0,
        m30: 0, m31: 0, m32: 0, m33: FP as int,
    }
}

/// Per-axis scaling by `(x, y, z)` (each scaled by `FP`).
pub open spec fn s_scaling(x: int, y: int, z: int) -> SMat4 {
    SMat4 {
        m00: x, m01: 0, m02: 0, m03: 0,
        m10: 0, m11: y, m12: 0, m13: 0,
        m20: 0, m21: 0, m22: z, m23: 0,
        m30: 0, m31: 0, m32: 0, m33: FP as int,
    }
}

/// The matrix product `a * b`, every entry brought back to scale.
pub open spec fn s_mul(a: SMat4, b: SMat4) -> SMat4 {
    SMat4 {
        m00: s_dot(a.m00, a.m01, a.m02, a.m03, b.m00, b.m10, b.m20, b.m30),
        m01: s_dot(a.m00, a.m01, a.m02, a.m03, b.m01, b.m11, b.m21, b.m31),
        m02: s_dot(a.m00, a.m01, a.m02, a.m03, b.m02, b.m12, b.m22, b.m32),
        m03: s_dot(a.m00, a.m01, a.m02, a.m03, b.m03, b.m13, b.m23, b.m33),
        m10: s_dot(a.m10, a.m11, a.m12, a.m13, b.m00, b.m10, b.m20, b.m30),
        m11: s_dot(a.m10, a.m11, a.m12, a.m13, b.m01, b.m11, b.m21, b.m31),
        m12: s_dot(a.m10, a.m11, a.m12, a.m13, b.m02, b.m12, b.m22, b.m32),
        m13: s_dot(a.m10, a.m11, a.m12, a.m13, b.m03, b.m13, b.m23, b.m33),
        m20: s_dot(a.m20, a.m21, a.m22, a.m23, b.m00, b.m10, b.m20, b.m30),
        m21: s_dot(a.m20, a.m21, a.m22, a.m23, b.m01, b.m11, b.m21, b.m31),
        m22: s_dot(a.m20, a.m21, a.m22, a.m23, b.m02, b.m12, b.m22, b.m32),
        m23: s_dot(a.m20, a.m21, a.m22, a.m23, b.m03, b.m13, b.m23, b.m33),
        m30: s_dot(a.m30, a.m31, a.m32, a.m33, b.m00, b.m10, b.m20, b.m30),
        m31: s_dot(a.m30, a.m31, a.m32, a.m33, b.m01, b.m11, b.m21, b.m31),
        m32: s_dot(a.m30, a.m31, a.m32, a.m33, b.m02, b.m12, b.m22, b.m32),
        m33: s_dot(a.m30, a.m31, a.m32, a.m33, b.m03, b.m13, b.m23, b.m33),
    }
}

/// The matrix applied to the point `(x, y, z)`, i.e. to the homogeneous
/// column `(x, y, z, FP)`, each component brought back to scale.
pub open spec fn s_apply_point(m: SMat4, x: int, y: int, z: int) -> (int, int, int) {
    (
        s_dot(m.m00, m.m01, m.m02, m.m03, x, y, z, FP as int),
        s_dot(m.m10, m.m11, m.m12, m.m13, x, y, z, FP as int),
        s_dot(m.m20, m.m21, m.m22, m.m23, x, y, z, FP as int),
    )
}

/// Whether every entry lies within `[-bound, bound]`.
pub open spec fn s_in_range(m: SMat4, bound: int) -> bool {
    &&& -bound <= m.m00 <= bound && -bound <= m.m01 <= bound
    &&& -bound <= m.m02 <= bound && -bound <= m.m03 <= bound
    &&& -bound <= m.m10 <= bound && -bound <= m.m11 <= bound
    &&& -bound <= m.m12 <= bound && -bound <= m.m13 <= bound
    &&& -bound <= m.m20 <= bound && -bound <= m.m21 <= bound
    &&& -bound <= m.m22 <= bound && -bound <= m.m23 <= bound
    &&& -bound <= m.m30 <= bound && -bound <= m.m31 <= bound
    &&& -bound <= m.m32 <= bound && -bound <= m.m33 <= bound
}

/// One entry of a matrix product in executable form.
fn dot4(a0: i64, a1: i64, a2: i64, a3: i64, b0: i64, b1: i64, b2: i64, b3: i64) -> (r: i64)
    requires
        -MAX_ENTRY <= a0 <= MAX_ENTRY, -MAX_ENTRY <= a1 <= MAX_ENTRY,
        -MAX_ENTRY <= a2 <= MAX_ENTRY, -MAX_ENTRY <= a3 <= MAX_ENTRY,
        -MAX_ENTRY <= b0 <= MAX_ENTRY, -MAX_ENTRY <= b1 <= MAX_ENTRY,
        -MAX_ENTRY <= b2 <= MAX_ENTRY, -MAX_ENTRY <= b3 <= MAX_ENTRY,
        i64::MIN <= s_dot(a0 as int, a1 as int, a2 as int, a3 as int, b0 as int, b1 as int, b2 as int, b3 as int) <= i64::MAX,
    ensures
        r == s_dot(a0 as int, a1 as int, a2 as int, a3 as int, b0 as int, b1 as int, b2 as int, b3 as int),
{
    proof {
        assert(
            -1_000_000_000_000_000_000_000_000_000_000_000_000 <= a0 as int * b0 as int <= 1_000_000_000_000_000_000_000_000_000_000_000_000
            && -1_000_000_000_000_000_000_000_000_000_000_000_000 <= a1 as int * b1 as int <= 1_000_000_000_000_000_000_000_000_000_000_000_000
            && -1_000_000_000_000_000_000_000_000_000_000_000_000 <= a2 as int * b2 as int <= 1_000_000_000_000_000_000_000_000_000_000_000_000
            && -1_000_000_000_000_000_000_000_000_000_000_000_000 <= a3 as int * b3 as int <= 1_000_000_000_000_000_000_000_000_000_000_000_000
        ) by (nonlinear_arith)
            requires
                -MAX_ENTRY <= a0 <= MAX_ENTRY, -MAX_ENTRY <= a1 <= MAX_ENTRY,
                -MAX_ENTRY <= a2 <= MAX_ENTRY, -MAX_ENTRY <= a3 <= MAX_ENTRY,
                -MAX_ENTRY <= b0 <= MAX_ENTRY, -MAX_ENTRY <= b1 <= MAX_ENTRY,
                -MAX_ENTRY <= b2 <= MAX_ENTRY, -MAX_ENTRY <= b3 <= MAX_ENTRY,
        ;
    }
    let s = (a0 as i128) * (b0 as i128) + (a1 as i128) * (b1 as i128) + (a2 as i128) * (b2 as i128)
        + (a3 as i128) * (b3 as i128);
    let q = div_floor_i128(s, FP as i128);
    q as i64
}

impl Mat4 {
    /// The identity transform.
    pub fn identity() -> (m: Mat4)
        ensures
            m@ == s_identity(),
    {
        Mat4 {
            m00: FP, m01: 0, m02: 0, m03: 0,
            m10: 0, m11: FP, m12: 0, m13: 0,
            m20: 0, m21: 0, m22: FP, m23: 0,
            m30: 0, m31: 0, m32: 0, m33: FP,
        }
    }

    /// Translation by `v`.
    pub fn translation(v: &Vec3) -> (m: Mat4)
        ensures
            m@ == s_translation(v.x as int, v.y as int, v.z as int),
    {
        Mat4 {
            m00: FP, m01: 0, m02: 0, m03: v.x,
            m10: 0, m11: FP, m12: 0, m13: v.y,
            m20: 0, m21: 0, m22: FP, m23: v.z,
            m30: 0, m31: 0, m32: 0, m33: FP,
        }
    }

    /// Rotation about the x axis from a fixed-point cosine/sine pair.
    pub fn rotation_x(c: i64, s: i64) -> (m: Mat4)
        requires
            s > i64::MIN,
        ensures
            m@ == s_rotation_x(c as int, s as int),
    {
        Mat4 {
            m00: FP, m01: 0, m02: 0, m03: 0,
            m10: 0, m11: c, m12: -s, m13: 0,
            m20: 0, m21: s, m22: c, m23: 0,
            m30: 0, m31: 0, m32: 0, m33: FP,
        }
    }

    /// Rotation about the y axis from a fixed-point cosine/sine pair.
    pub fn rotation_y(c: i64, s: i64) -> (m: Mat4)
        requires
            s > i64::MIN,
        ensures
            m@ == s_rotation_y(c as int, s as int),
    {
        Mat4 {
            m00: c, m01: 0, m02: s, m03: 0,
            m10: 0, m11: FP, m12: 0, m13: 0,
            m20: -s, m21: 0, m22: c, m23: 0,
            m30: 0, m31: 0, m32: 0, m33: FP,
        }
    }

    /// Rotation about the z axis from a fixed-point cosine/sine pair.
    pub fn rotation_z(c: i64, s: i64) -> (m: Mat4)
        requires
            s > i64::MIN,
        ensures
            m@ == s_rotation_z(c as int, s as int),
    {
        Mat4 {
            m00: c, m01: -s, m02: 0, m03: 0,
            m10: s, m11: c, m12: 0, m13: 0,
            m20: 0, m21: 0, m22: FP, m23: 0,
            m30: 0, m31: 0, m32: 0, m33: FP,
        }
    }

    /// Per-axis scaling by `v`.
    pub fn scaling(v: &Vec3) -> (m: Mat4)
        ensures
            m@ == s_scaling(v.x as int, v.y as int, v.z as int),
    {
        Mat4 {
            m00: v.x, m01: 0, m02: 0, m03: 0,
            m10: 0, m11: v.y, m12: 0, m13: 0,
            m20: 0, m21: 0, m22: v.z, m23: 0,
            m30: 0, m31: 0, m32: 0, m33: FP,
        }
    }

    /// The matrix product `self * rhs`.
    pub fn mul(&self, rhs: &Mat4) -> (r: Mat4)
        requires
            s_in_range(self@, MAX_ENTRY as int),
            s_in_range(rhs@, MAX_ENTRY as int),
            s_in_range(s_mul(self@, rhs@), i64::MAX as int),
        ensures
            r@ == s_mul(self@, rhs@),
    {
        let a = self;
        let b = rhs;
        Mat4 {
            m00: dot4(a.m00, a.m01, a.m02, a.m03, b.m00, b.m10, b.m20, b.m30),
            m01: dot4(a.m00, a.m01, a.m02, a.m03, b.m01, b.m11, b.m21, b.m31),
            m02: dot4(a.m00, a.m01, a.m02, a.m03, b.m02, b.m12, b.m22, b.m32),
            m03: dot4(a.m00, a.m01, a.m02, a.m03, b.m03, b.m13, b.m23, b.m33),
            m10: dot4(a.m10, a.m11, a.m12, a.m13, b.m00, b.m10, b.m20, b.m30),
            m11: dot4(a.m10, a.m11, a.m12, a.m13, b.m01, b.m11, b.m21, b.m31),
            m12: dot4(a.m10, a.m11, a.m12, a.m13, b.m02, b.m12, b.m22, b.m32),
            m13: dot4(a.m10, a.m11, a.m12, a.m13, b.m03, b.m13, b.m23, b.m33),
            m20: dot4(a.m20, a.m21, a.m22, a.m23, b.m00, b.m10, b.m20, b.m30),
            m21: dot4(a.m20, a.m21, a.m22, a.m23, b.m01, b.m11, b.m21, b.m31),
            m22: dot4(a.m20, a.m21, a.m22, a.m23, b.m02, b.m12, b.m22, b.m32),
            m23: dot4(a.m20, a.m21, a.m22, a.m23, b.m03, b.m13, b.m23, b.m33),
            m30: dot4(a.m30, a.m31, a.m32, a.m33, b.m00, b.m10, b.m20, b.m30),
            m31: dot4(a.m30, a.m31, a.m32, a.m33, b.m01, b.m11, b.m21, b.m31),
            m32: dot4(a.m30, a.m31, a.m32, a.m33, b.m02, b.m12, b.m22, b.m32),
            m33: dot4(a.m30, a.m31, a.m32, a.m33, b.m03, b.m13, b.m23, b.m33),
        }
    }

    /// The matrix applied to the point `v`, i.e. to the homogeneous column
    /// `(v.x, v.y, v.z, FP)`.
    pub fn apply_point(&self, v: &Vec3) -> (r: Vec3)
        requires
            s_in_range(self@, MAX_ENTRY as int),
            crate::vec3::v3_in_range(*v, MAX_ENTRY as int),
            ({
                let (x, y, z) = s_apply_point(self@, v.x as int, v.y as int, v.z as int);
                i64::MIN <= x <= i64::MAX && i64::MIN <= y <= i64::MAX && i64::MIN <= z <= i64::MAX
            }),
        ensures
            (r.x as int, r.y as int, r.z as int) == s_apply_point(
                self@,
                v.x as int,
                v.y as int,
                v.z as int,
            ),
    {
        Vec3 {
            x: dot4(self.m00, self.m01, self.m02, self.m03, v.x, v.y, v.z, FP),
            y: dot4(self.m10, self.m11, self.m12, self.m13, v.x, v.y, v.z, FP),
            z: dot4(self.m20, self.m21, self.m22, self.m23, v.x, v.y, v.z, FP),
        }
    }
}

} // verus!
