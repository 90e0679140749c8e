//! The transform compositor: a node's local matrix from its transform
//! fields.
//!
//! Mathematically the local transform is the product
//! `T(position) * T(reference_point) * Rx * Ry * Rz * T(-reference_point) *
//! S(scale)`, i.e. rotation (extrinsic, x of y of z) and then scale applied
//! about the reference point, the whole translated by `position`. In fixed
//! point it is built in closed form — rotation product, scaled columns, and
//! the translation column `position + reference_point - R * reference_point`
//! — so that every entry is rounded once. That single rounding makes the
//! pivot property exact: applied to the reference point itself (at unit
//! scale) the local transform yields exactly `position + reference_point`,
//! whatever the rotation angles ([`lemma_pivot_invariant`]).

use crate::fixed::{sdiv, FP};
use crate::mat::{
    s_apply_point, s_dot, s_in_range, s_mul, s_rotation_x, s_rotation_y, s_rotation_z, s_scaling,
    s_translation, Mat4, SMat4,
};
use crate::trig::{cos_fp, sin_fp, spec_cos, spec_sin};
use crate::vec3::{v3_in_range, Vec3};
use vstd::arithmetic::div_mod::{
    lemma_div_is_ordered, lemma_div_multiples_vanish, lemma_div_of0, lemma_fundamental_div_mod,
    lemma_fundamental_div_mod_converse, lemma_hoist_over_denominator,
};
use vstd::prelude::*;

verus! {

/// Largest position/reference-point component the compositor accepts
/// (a million world units): keeps translation columns inside `i64`.
pub const MAX_COORD: i64 = 1_000_000_000_000;

/// Largest per-axis scale factor accepted (a million times the identity).
pub const MAX_SCALE: i64 = 1_000_000_000_000;

/// Every entry of a local matrix built from fields within `MAX_COORD` /
/// `MAX_SCALE` stays within this bound.
pub const MAX_LOCAL: i64 = 100_000_000_000_000;

/// The combined rotation: x rotation of y rotation of z rotation, each from
/// the fixed-point trig of the corresponding Euler angle.
pub open spec fn s_rot(rotation: Vec3) -> SMat4 {
    s_mul(
        s_rotation_x(spec_cos(rotation.x as int), spec_sin(rotation.x as int)),
        s_mul(
            s_rotation_y(spec_cos(rotation.y as int), spec_sin(rotation.y as int)),
            s_rotation_z(spec_cos(rotation.z as int), spec_sin(rotation.z as int)),
        ),
    )
}

/// The local transform of a node: the rotation block with scaled columns,
/// and the translation column `position + reference_point - R * reference_point`,
/// each entry rounded once.
pub open spec fn s_local(position: Vec3, rotation: Vec3, scale: Vec3, reference_point: Vec3) -> SMat4 {
    let r = s_rot(rotation);
    let rs = s_mul(r, s_scaling(scale.x as int, scale.y as int, scale.z as int));
    let (qx, qy, qz) = s_apply_point(
        r,
        reference_point.x as int,
        reference_point.y as int,
        reference_point.z as int,
    );
    SMat4 {
        m00: rs.m00, m01: rs.m01, m02: rs.m02, m03: position.x + reference_point.x - qx,
        m10: rs.m10, m11: rs.m11, m12: rs.m12, m13: position.y + reference_point.y - qy,
        m20: rs.m20, m21: rs.m21, m22: rs.m22, m23: position.z + reference_point.z - qz,
        m30: rs.m30, m31: rs.m31, m32: rs.m32, m33: rs.m33,
    }
}

/// Dividing the negation of a nonnegative value rounds down by at most one.
proof fn lemma_div_neg(k: int, d: int)
    requires
        k >= 0,
        d > 0,
    ensures
        (-k) / d >= -(k / d) - 1,
{
    lemma_fundamental_div_mod(k, d);
    let q = k / d;
    let r = k % d;
    if r == 0 {
        assert(-k == (-q) * d + 0) by (nonlinear_arith)
            requires k == d * q + r && r == 0;
        lemma_fundamental_div_mod_converse(-k, d, -q, 0);
    } else {
        assert(-k == (-q - 1) * d + (d - r)) by (nonlinear_arith)
            requires k == d * q + r;
        lemma_fundamental_div_mod_converse(-k, d, -q - 1, d - r);
    }
}

/// A four-term scaled dot product of bounded factors is bounded.
pub proof fn lemma_s_dot_range(
    a0: int, a1: int, a2: int, a3: int,
    b0: int, b1: int, b2: int, b3: int,
    ba: int, bb: int,
)
    requires
        ba >= 0,
        bb >= 0,
        -ba <= a0 <= ba, -ba <= a1 <= ba, -ba <= a2 <= ba, -ba <= a3 <= ba,
        -bb <= b0 <= bb, -bb <= b1 <= bb, -bb <= b2 <= bb, -bb <= b3 <= bb,
    ensures
        -(4 * ba * bb / (FP as int)) - 1 <= s_dot(a0, a1, a2, a3, b0, b1, b2, b3) <= 4 * ba * bb / (FP as int),
{
    let sum = a0 * b0 + a1 * b1 + a2 * b2 + a3 * b3;
    assert(-(4 * ba * bb) <= sum <= 4 * ba * bb) by (nonlinear_arith)
        requires
            sum == a0 * b0 + a1 * b1 + a2 * b2 + a3 * b3,
            ba >= 0,
            bb >= 0,
            -ba <= a0 <= ba, -ba <= a1 <= ba, -ba <= a2 <= ba, -ba <= a3 <= ba,
            -bb <= b0 <= bb, -bb <= b1 <= bb, -bb <= b2 <= bb, -bb <= b3 <= bb,
    ;
    lemma_div_is_ordered(sum, 4 * ba * bb, FP as int);
    lemma_div_is_ordered(-(4 * ba * bb), sum, FP as int);
    lemma_div_neg(4 * ba * bb, FP as int);
}

/// A product of matrices with bounded entries has bounded entries.
pub proof fn lemma_s_mul_range(a: SMat4, b: SMat4, ba: int, bb: int)
    requires
        ba >= 0,
        bb >= 0,
        s_in_range(a, ba),
        s_in_range(b, bb),
    ensures
        s_in_range(s_mul(a, b), 4 * ba * bb / (FP as int) + 1),
{
    let bound = 4 * ba * bb / (FP as int) + 1;
    lemma_s_dot_range(a.m00, a.m01, a.m02, a.m03, b.m00, b.m10, b.m20, b.m30, ba, bb);
    lemma_s_dot_range(a.m00, a.m01, a.m02, a.m03, b.m01, b.m11, b.m21, b.m31, ba, bb);
    lemma_s_dot_range(a.m00, a.m01, a.m02, a.m03, b.m02, b.m12, b.m22, b.m32, ba, bb);
    lemma_s_dot_range(a.m00, a.m01, a.m02, a.m03, b.m03, b.m13, b.m23, b.m33, ba, bb);
    lemma_s_dot_range(a.m10, a.m11, a.m12, a.m13, b.m00, b.m10, b.m20, b.m30, ba, bb);
    lemma_s_dot_range(a.m10, a.m11, a.m12, a.m13, b.m01, b.m11, b.m21, b.m31, ba, bb);
    lemma_s_dot_range(a.m10, a.m11, a.m12, a.m13, b.m02, b.m12, b.m22, b.m32, ba, bb);
    lemma_s_dot_range(a.m10, a.m11, a.m12, a.m13, b.m03, b.m13, b.m23, b.m33, ba, bb);
    lemma_s_dot_range(a.m20, a.m21, a.m22, a.m23, b.m00, b.m10, b.m20, b.m30, ba, bb);
    lemma_s_dot_range(a.m20, a.m21, a.m22, a.m23, b.m01, b.m11, b.m21, b.m31, ba, bb);
    lemma_s_dot_range(a.m20, a.m21, a.m22, a.m23, b.m02, b.m12, b.m22, b.m32, ba, bb);
    lemma_s_dot_range(a.m20, a.m21, a.m22, a.m23, b.m03, b.m13, b.m23, b.m33, ba, bb);
    lemma_s_dot_range(a.m30, a.m31, a.m32, a.m33, b.m00, b.m10, b.m20, b.m30, ba, bb);
    lemma_s_dot_range(a.m30, a.m31, a.m32, a.m33, b.m01, b.m11, b.m21, b.m31, ba, bb);
    lemma_s_dot_range(a.m30, a.m31, a.m32, a.m33, b.m02, b.m12, b.m22, b.m32, ba, bb);
    lemma_s_dot_range(a.m30, a.m31, a.m32, a.m33, b.m03, b.m13, b.m23, b.m33, ba, bb);
}

/// The identity transform is a left unit of the scaled matrix product.
pub proof fn lemma_identity_mul_left(m: SMat4)
    ensures
        s_mul(crate::mat::s_identity(), m) == m,
{
    lemma_div_of0(FP as int);
    lemma_div_multiples_vanish(m.m00, FP as int);
    lemma_div_multiples_vanish(m.m01, FP as int);
    lemma_div_multiples_vanish(m.m02, FP as int);
    lemma_div_multiples_vanish(m.m03, FP as int);
    lemma_div_multiples_vanish(m.m10, FP as int);
    lemma_div_multiples_vanish(m.m11, FP as int);
    lemma_div_multiples_vanish(m.m12, FP as int);
    lemma_div_multiples_vanish(m.m13, FP as int);
    lemma_div_multiples_vanish(m.m20, FP as int);
    lemma_div_multiples_vanish(m.m21, FP as int);
    lemma_div_multiples_vanish(m.m22, FP as int);
    lemma_div_multiples_vanish(m.m23, FP as int);
    lemma_div_multiples_vanish(m.m30, FP as int);
    lemma_div_multiples_vanish(m.m31, FP as int);
    lemma_div_multiples_vanish(m.m32, FP as int);
    lemma_div_multiples_vanish(m.m33, FP as int);
}

/// The last column of the combined rotation is exactly `(0, 0, 0, FP)` and
/// its bottom row exactly `(0, 0, 0, FP)`: rotations neither translate nor
/// distort the homogeneous coordinate.
pub proof fn lemma_rot_affine(rotation: Vec3)
    ensures
        s_rot(rotation).m03 == 0,
        s_rot(rotation).m13 == 0,
        s_rot(rotation).m23 == 0,
        s_rot(rotation).m30 == 0,
        s_rot(rotation).m31 == 0,
        s_rot(rotation).m32 == 0,
        s_rot(rotation).m33 == FP,
{
    lemma_div_of0(FP as int);
    lemma_div_multiples_vanish(FP as int, FP as int);
    let yz = s_mul(
        s_rotation_y(spec_cos(rotation.y as int), spec_sin(rotation.y as int)),
        s_rotation_z(spec_cos(rotation.z as int), spec_sin(rotation.z as int)),
    );
    assert(yz.m03 == 0 && yz.m13 == 0 && yz.m23 == 0 && yz.m33 == FP);
    assert(yz.m30 == 0 && yz.m31 == 0 && yz.m32 == 0);
    let cx = spec_cos(rotation.x as int);
    let sx = spec_sin(rotation.x as int);
    lemma_mul_of_zero(cx, yz.m13);
    lemma_mul_of_zero(-sx, yz.m23);
    lemma_mul_of_zero(sx, yz.m13);
    lemma_mul_of_zero(cx, yz.m23);
}

/// Any multiple of zero is zero (stated for symbolic factors, where linear
/// reasoning alone does not apply).
proof fn lemma_mul_of_zero(x: int, y: int)
    requires
        y == 0,
    ensures
        x * y == 0,
{
    assert(x * y == 0) by (nonlinear_arith)
        requires y == 0;
}

/// PIVOT INVARIANCE: at unit scale, the local transform maps the reference
/// point to exactly `position + reference_point`, for every rotation.
pub proof fn lemma_pivot_invariant(position: Vec3, rotation: Vec3, reference_point: Vec3)
    ensures
        ({
            let unit = Vec3 { x: FP as i64, y: FP as i64, z: FP as i64 };
            s_apply_point(
                s_local(position, rotation, unit, reference_point),
                reference_point.x as int,
                reference_point.y as int,
                reference_point.z as int,
            ) == ((position.x + reference_point.x) as int,
                  (position.y + reference_point.y) as int,
                  (position.z + reference_point.z) as int)
        }),
{
    let unit = Vec3 { x: FP as i64, y: FP as i64, z: FP as i64 };
    let r = s_rot(rotation);
    let rs = s_mul(r, s_scaling(FP as int, FP as int, FP as int));
    // Unit scale leaves the rotation block unchanged.
    lemma_div_of0(FP as int);
    lemma_div_multiples_vanish(r.m00, FP as int);
    lemma_div_multiples_vanish(r.m01, FP as int);
    lemma_div_multiples_vanish(r.m02, FP as int);
    lemma_div_multiples_vanish(r.m03, FP as int);
    lemma_div_multiples_vanish(r.m10, FP as int);
    lemma_div_multiples_vanish(r.m11, FP as int);
    lemma_div_multiples_vanish(r.m12, FP as int);
    lemma_div_multiples_vanish(r.m13, FP as int);
    lemma_div_multiples_vanish(r.m20, FP as int);
    lemma_div_multiples_vanish(r.m21, FP as int);
    lemma_div_multiples_vanish(r.m22, FP as int);
    lemma_div_multiples_vanish(r.m23, FP as int);
    lemma_rot_affine(rotation);
    let rx = reference_point.x as int;
    let ry = reference_point.y as int;
    let rz = reference_point.z as int;
    let local = s_local(position, rotation, unit, reference_point);
    // Each output component hoists the stored translation out of the
    // rounded dot product, cancelling the rounded pivot term exactly.
    let u0 = r.m00 * rx + r.m01 * ry + r.m02 * rz + r.m03 * FP;
    let u1 = r.m10 * rx + r.m11 * ry + r.m12 * rz + r.m13 * FP;
    let u2 = r.m20 * rx + r.m21 * ry + r.m22 * rz + r.m23 * FP;
    lemma_hoist_over_denominator(u0, local.m03, FP as nat);
    lemma_hoist_over_denominator(u1, local.m13, FP as nat);
    lemma_hoist_over_denominator(u2, local.m23, FP as nat);
    assert(s_dot(local.m00, local.m01, local.m02, local.m03, rx, ry, rz, FP as int) == sdiv(
        u0 + local.m03 * FP,
    ));
    assert(s_dot(local.m10, local.m11, local.m12, local.m13, rx, ry, rz, FP as int) == sdiv(
        u1 + local.m13 * FP,
    ));
    assert(s_dot(local.m20, local.m21, local.m22, local.m23, rx, ry, rz, FP as int) == sdiv(
        u2 + local.m23 * FP,
    ));
}

/// With zero rotation and unit scale, the local transform is exactly the
/// translation by `position`, whatever the reference point.
pub proof fn lemma_zero_rotation_local(position: Vec3, reference_point: Vec3)
    ensures
        ({
            let zero = Vec3 { x: 0, y: 0, z: 0 };
            let unit = Vec3 { x: FP as i64, y: FP as i64, z: FP as i64 };
            s_local(position, zero, unit, reference_point) == s_translation(
                position.x as int,
                position.y as int,
                position.z as int,
            )
        }),
{
    crate::trig::lemma_trig_zero();
    let zero = Vec3 { x: 0, y: 0, z: 0 };
    let r = s_rot(zero);
    lemma_div_of0(FP as int);
    lemma_div_multiples_vanish(FP as int, FP as int);
    assert(r == crate::mat::s_identity());
    lemma_div_multiples_vanish(reference_point.x as int, FP as int);
    lemma_div_multiples_vanish(reference_point.y as int, FP as int);
    lemma_div_multiples_vanish(reference_point.z as int, FP as int);
}

/// Builds a node's local matrix from its transform fields.
pub fn local_transform(position: &Vec3, rotation: &Vec3, scale: &Vec3, reference_point: &Vec3) -> (m: Mat4)
    requires
        v3_in_range(*position, MAX_COORD as int),
        v3_in_range(*reference_point, MAX_COORD as int),
        v3_in_range(*scale, MAX_SCALE as int),
    ensures
        m@ == s_local(*position, *rotation, *scale, *reference_point),
        s_in_range(m@, MAX_LOCAL as int),
{
    let cx = cos_fp(rotation.x);
    let sx = sin_fp(rotation.x);
    let cy = cos_fp(rotation.y);
    let sy = sin_fp(rotation.y);
    let cz = cos_fp(rotation.z);
    let sz = sin_fp(rotation.z);
    let mx = Mat4::rotation_x(cx, sx);
    let my = Mat4::rotation_y(cy, sy);
    let mz = Mat4::rotation_z(cz, sz);
    proof {
        lemma_s_mul_range(my@, mz@, FP as int, FP as int);
    }
    let myz = my.mul(&mz);
    proof {
        lemma_s_mul_range(mx@, myz@, FP as int, 4 * FP as int + 1);
    }
    let rot = mx.mul(&myz);
    let ghost rot_bound: int = 4 * FP * (4 * FP + 1) / (FP as int) + 1;
    let sc = Mat4::scaling(scale);
    proof {
        lemma_s_mul_range(rot@, sc@, rot_bound, MAX_SCALE as int);
    }
    let rs = rot.mul(&sc);
    proof {
        lemma_s_dot_range(
            rot@.m00, rot@.m01, rot@.m02, rot@.m03,
            reference_point.x as int, reference_point.y as int, reference_point.z as int, FP as int,
            rot_bound, MAX_COORD as int,
        );
        lemma_s_dot_range(
            rot@.m10, rot@.m11, rot@.m12, rot@.m13,
            reference_point.x as int, reference_point.y as int, reference_point.z as int, FP as int,
            rot_bound, MAX_COORD as int,
        );
        lemma_s_dot_range(
            rot@.m20, rot@.m21, rot@.m22, rot@.m23,
            reference_point.x as int, reference_point.y as int, reference_point.z as int, FP as int,
            rot_bound, MAX_COORD as int,
        );
    }
    let pivot = rot.apply_point(reference_point);
    Mat4 {
        m00: rs.m00, m01: rs.m01, m02: rs.m02, m03: position.x + reference_point.x - pivot.x,
        m10: rs.m10, m11: rs.m11, m12: rs.m12, m13: position.y + reference_point.y - pivot.y,
        m20: rs.m20, m21: rs.m21, m22: rs.m22, m23: position.z + reference_point.z - pivot.z,
        m30: rs.m30, m31: rs.m31, m32: rs.m32, m33: rs.m33,
    }
}

} // verus!
