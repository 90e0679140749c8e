//! The camera controller: a free-flying pose driven by held keys, and the
//! view and projection matrices derived from it.
//!
//! The pose is a position and two orientation angles (yaw and pitch). Each
//! frame, held translation keys accumulate a movement direction in the
//! camera's own basis, which is normalized and applied at a fixed speed;
//! rotation keys turn the yaw freely and the pitch clamped to
//! [`PITCH_LIMIT`]; a reset key restores the startup pose, overriding
//! same-frame rotation (same-frame movement then applies to the restored
//! position). The basis is closed-form trigonometry — the right vector of a
//! yaw/pitch pose is `(cos yaw, 0, sin yaw)` exactly, so no square root
//! enters the basis; only the movement direction is normalized, with an
//! exact integer square root.

use crate::anim::Triggers;
use crate::fixed::{div_floor, lemma_sdiv_range, scale_div, sdiv, spec_clamp, FP};
use crate::mat::{Mat4, SMat4};
use crate::input::{Key, KeySet};
use crate::trig::{cos_fp, sin_fp, spec_cos, spec_sin};
use crate::vec3::{v3_in_range, Vec3};
use vstd::prelude::*;

verus! {

/// Movement speed: 20 world units per second, fixed point.
pub const CAMERA_SPEED: i64 = 20_000_000;

/// Pitch clamp: a third of a half turn (60 degrees) up or down.
pub const PITCH_LIMIT: i64 = 1_047_197;

/// The startup position: one unit back along z.
pub const START_Z: i64 = 1_000_000;

/// Largest position component `update_camera` accepts, leaving room for one
/// frame's movement inside the compositor's coordinate range.
pub const MAX_CAM_POS: i64 = 900_000_000_000;

/// Largest yaw magnitude `update_camera` accepts, leaving room for one
/// frame's turn.
pub const MAX_YAW: i64 = 4_000_000_000_000_000_000;

/// Largest frame time step `update_camera` accepts (a thousand seconds, in
/// microseconds).
pub const MAX_FRAME_DT: i64 = 1_000_000_000;

/// The free-flying camera pose.
#[derive(Clone, Copy, Debug, PartialEq, Eq, Structural)]
pub struct Camera {
    /// Position in fixed-point world units.
    pub position: Vec3,
    /// Yaw (horizontal turn) in fixed-point radians, unbounded.
    pub yaw: i64,
    /// Pitch (vertical look) in fixed-point radians, within
    /// `[-PITCH_LIMIT, PITCH_LIMIT]`.
    pub pitch: i64,
}

impl Camera {
    /// The startup pose: at `(0, 0, START_Z)`, looking level along `-z`.
    pub fn new() -> (c: Camera)
        ensures
            c == start_camera(),
    {
        Camera { position: Vec3 { x: 0, y: 0, z: START_Z }, yaw: 0, pitch: 0 }
    }
}

/// The startup pose.
pub open spec fn start_camera() -> Camera {
    Camera { position: Vec3 { x: 0, y: 0, z: START_Z }, yaw: 0, pitch: 0 }
}

/// The forward unit vector of a pose, scaled by `FP`:
/// `(sin yaw * cos pitch, sin pitch, -(cos yaw * cos pitch))`.
pub open spec fn spec_forward(yaw: int, pitch: int) -> (int, int, int) {
    (
        sdiv(spec_sin(yaw) * spec_cos(pitch)),
        spec_sin(pitch),
        sdiv(-(spec_cos(yaw) * spec_cos(pitch))),
    )
}

/// The right unit vector of a pose, scaled by `FP`: the normalized cross
/// product of forward with world up is exactly `(cos yaw, 0, sin yaw)`.
pub open spec fn spec_right(yaw: int) -> (int, int, int) {
    (spec_cos(yaw), 0, spec_sin(yaw))
}

/// The camera-up vector: the cross product of right and forward, each
/// component rounded once.
pub open spec fn spec_up(yaw: int, pitch: int) -> (int, int, int) {
    s_cross3(spec_right(yaw), spec_forward(yaw, pitch))
}

/// The cross product of two fixed-point vectors, each component brought back
/// to scale.
pub open spec fn s_cross3(a: (int, int, int), b: (int, int, int)) -> (int, int, int) {
    (
        sdiv(a.1 * b.2 - a.2 * b.1),
        sdiv(a.2 * b.0 - a.0 * b.2),
        sdiv(a.0 * b.1 - a.1 * b.0),
    )
}

/// Whether `r` is the integer square root of `n`.
pub open spec fn is_isqrt(n: int, r: int) -> bool {
    r >= 0 && r * r <= n < (r + 1) * (r + 1)
}

/// The exact integer square root: the unique `r` with `is_isqrt(n, r)`.
pub open spec fn spec_isqrt(n: int) -> int {
    choose|r: int| is_isqrt(n, r)
}

/// There is at most one integer square root.
pub proof fn lemma_isqrt_unique(n: int, r: int)
    requires
        r >= 0,
        r * r <= n < (r + 1) * (r + 1),
    ensures
        spec_isqrt(n) == r,
{
    assert(is_isqrt(n, r));
    let w = spec_isqrt(n);
    assert(is_isqrt(n, w));
    assert(w == r) by (nonlinear_arith)
        requires
            r >= 0 && r * r <= n < (r + 1) * (r + 1),
            w >= 0 && w * w <= n < (w + 1) * (w + 1),
    ;
}

/// Computes the integer square root by bisection.
pub fn isqrt64(n: u64) -> (r: u64)
    ensures
        r * r <= n < (r + 1) * (r + 1),
        r == spec_isqrt(n as int),
{
    let mut lo: u64 = 0;
    let mut hi: u64 = 4_294_967_296;
    proof {
        assert((4_294_967_296int) * (4_294_967_296int) > n) by (nonlinear_arith)
            requires n <= 0xffff_ffff_ffff_ffffu64;
    }
    while lo + 1 < hi
        invariant
            lo < hi <= 4_294_967_296,
            lo * lo <= n,
            hi * hi > n,
        decreases hi - lo,
    {
        let mid = lo + (hi - lo) / 2;
        proof {
            assert(mid * mid < 0x1_0000_0000_0000_0000) by (nonlinear_arith)
                requires 0 <= mid <= 4_294_967_295u64;
        }
        if mid * mid <= n {
            lo = mid;
        } else {
            hi = mid;
        }
    }
    proof {
        lemma_isqrt_unique(n as int, lo as int);
    }
    lo
}

/// The camera basis of a pose: forward, right and up. Forward and right
/// stay within one scaled unit per component, up within two.
pub fn camera_basis(yaw: i64, pitch: i64) -> (b: (Vec3, Vec3, Vec3))
    ensures
        (b.0.x as int, b.0.y as int, b.0.z as int) == spec_forward(yaw as int, pitch as int),
        (b.1.x as int, b.1.y as int, b.1.z as int) == spec_right(yaw as int),
        (b.2.x as int, b.2.y as int, b.2.z as int) == spec_up(yaw as int, pitch as int),
        v3_in_range(b.0, FP as int),
        v3_in_range(b.1, FP as int),
        v3_in_range(b.2, 2 * FP as int),
{
    let sy = sin_fp(yaw);
    let cy = cos_fp(yaw);
    let sp = sin_fp(pitch);
    let cp = cos_fp(pitch);
    proof {
        lemma_unit_product(sy as int, cp as int);
        lemma_unit_product(cy as int, cp as int);
        lemma_sdiv_range(sy as int * cp as int, FP as int);
        lemma_sdiv_range(-(cy as int * cp as int), FP as int);
    }
    let forward = Vec3 { x: scale_div(sy * cp), y: sp, z: scale_div(-(cy * cp)) };
    let right = Vec3 { x: cy, y: 0, z: sy };
    let up = cross3(&right, &forward);
    (forward, right, up)
}

/// A product of two values within `[-FP, FP]` lies within `FP * FP` of zero,
/// as does its negation.
proof fn lemma_unit_product(a: int, b: int)
    requires
        -FP <= a <= FP,
        -FP <= b <= FP,
    ensures
        (FP as int) * (-(FP as int)) <= a * b <= (FP as int) * FP,
        (FP as int) * (-(FP as int)) <= -(a * b) <= (FP as int) * FP,
{
    assert((FP as int) * (-(FP as int)) <= a * b <= (FP as int) * FP) by (nonlinear_arith)
        requires -FP <= a <= FP && -FP <= b <= FP;
}

/// The cross product of two fixed-point vectors of unit magnitude.
pub fn cross3(a: &Vec3, b: &Vec3) -> (r: Vec3)
    requires
        v3_in_range(*a, FP as int),
        v3_in_range(*b, FP as int),
    ensures
        (r.x as int, r.y as int, r.z as int) == s_cross3(
            (a.x as int, a.y as int, a.z as int),
            (b.x as int, b.y as int, b.z as int),
        ),
        v3_in_range(r, 2 * FP as int),
{
    proof {
        lemma_cross_term(a.y as int, b.z as int, a.z as int, b.y as int);
        lemma_cross_term(a.z as int, b.x as int, a.x as int, b.z as int);
        lemma_cross_term(a.x as int, b.y as int, a.y as int, b.x as int);
    }
    Vec3 {
        x: scale_div(a.y * b.z - a.z * b.y),
        y: scale_div(a.z * b.x - a.x * b.z),
        z: scale_div(a.x * b.y - a.y * b.x),
    }
}

/// One cross-product component of unit factors stays within two scaled
/// units.
proof fn lemma_cross_term(p: int, q: int, s: int, t: int)
    requires
        -FP <= p <= FP,
        -FP <= q <= FP,
        -FP <= s <= FP,
        -FP <= t <= FP,
    ensures
        (FP as int) * (-(2 * FP as int)) <= p * q - s * t <= (FP as int) * (2 * FP as int),
        -(2 * FP as int) <= sdiv(p * q - s * t) <= 2 * FP as int,
        -1_000_000_000_000 <= p * q <= 1_000_000_000_000,
        -1_000_000_000_000 <= s * t <= 1_000_000_000_000,
{
    assert((FP as int) * (-(2 * FP as int)) <= p * q - s * t <= (FP as int) * (2 * FP as int)
        && -1_000_000_000_000 <= p * q <= 1_000_000_000_000
        && -1_000_000_000_000 <= s * t <= 1_000_000_000_000)
        by (nonlinear_arith)
        requires
            -FP <= p <= FP,
            -FP <= q <= FP,
            -FP <= s <= FP,
            -FP <= t <= FP,
    ;
    lemma_sdiv_range(p * q - s * t, 2 * FP as int);
}

/// The movement direction accumulated from held translation keys, in the
/// basis `(f, r, u)`.
pub open spec fn spec_move_dir(
    ks: Seq<Key>,
    f: (int, int, int),
    r: (int, int, int),
    u: (int, int, int),
) -> (int, int, int) {
    (
        dir_component(ks, f.0, r.0, u.0),
        dir_component(ks, f.1, r.1, u.1),
        dir_component(ks, f.2, r.2, u.2),
    )
}

/// One component of the movement direction.
pub open spec fn dir_component(ks: Seq<Key>, f: int, r: int, u: int) -> int {
    (if ks.contains(Key::W) { f } else { 0 }) - (if ks.contains(Key::S) { f } else { 0 }) + (
    if ks.contains(Key::D) { r } else { 0 }) - (if ks.contains(Key::A) { r } else { 0 }) + (
    if ks.contains(Key::Space) { u } else { 0 }) - (if ks.contains(Key::LShift) { u } else { 0 })
}

/// The yaw after one frame: turned by the held rotation keys, or restored to
/// the startup yaw by a reset.
pub open spec fn spec_new_yaw(yaw: int, ks: Seq<Key>, dt: int) -> int {
    if ks.contains(Key::R) {
        0
    } else {
        yaw + (if ks.contains(Key::Right) { dt } else { 0 }) - (if ks.contains(Key::Left) {
            dt
        } else {
            0
        })
    }
}

/// The pitch after one frame: stepped up then down, each step clamped to
/// `[-PITCH_LIMIT, PITCH_LIMIT]`, or restored by a reset.
pub open spec fn spec_new_pitch(pitch: int, ks: Seq<Key>, dt: int) -> int {
    if ks.contains(Key::R) {
        0
    } else {
        let p1 = if ks.contains(Key::Up) {
            spec_clamp(pitch + dt, -PITCH_LIMIT as int, PITCH_LIMIT as int)
        } else {
            pitch
        };
        if ks.contains(Key::Down) {
            spec_clamp(p1 - dt, -PITCH_LIMIT as int, PITCH_LIMIT as int)
        } else {
            p1
        }
    }
}

/// The position delta of one frame's movement: the accumulated direction,
/// normalized if nonzero, at `CAMERA_SPEED` for `dt` microseconds.
pub open spec fn spec_move_delta(dir: (int, int, int), dt: int) -> (int, int, int) {
    if dir == (0int, 0int, 0int) {
        (0int, 0int, 0int)
    } else {
        let len = spec_isqrt(dir.0 * dir.0 + dir.1 * dir.1 + dir.2 * dir.2);
        (
            sdiv(sdiv(dir.0 * FP / len * CAMERA_SPEED) * dt),
            sdiv(sdiv(dir.1 * FP / len * CAMERA_SPEED) * dt),
            sdiv(sdiv(dir.2 * FP / len * CAMERA_SPEED) * dt),
        )
    }
}

/// Accumulates the movement direction of the held translation keys in the
/// basis `(f, r, u)`.
fn accumulate_direction(keys: &KeySet, f: &Vec3, r: &Vec3, u: &Vec3) -> (d: (i64, i64, i64))
    requires
        v3_in_range(*f, FP as int),
        v3_in_range(*r, FP as int),
        v3_in_range(*u, 2 * FP as int),
    ensures
        (d.0 as int, d.1 as int, d.2 as int) == spec_move_dir(
            keys.keys@,
            (f.x as int, f.y as int, f.z as int),
            (r.x as int, r.y as int, r.z as int),
            (u.x as int, u.y as int, u.z as int),
        ),
        -(4 * FP) <= d.0 <= 4 * FP,
        -(4 * FP) <= d.1 <= 4 * FP,
        -(4 * FP) <= d.2 <= 4 * FP,
{
    let has_w = keys.contains(Key::W);
    let has_s = keys.contains(Key::S);
    let has_d = keys.contains(Key::D);
    let has_a = keys.contains(Key::A);
    let has_space = keys.contains(Key::Space);
    let has_shift = keys.contains(Key::LShift);
    let dx = (if has_w { f.x } else { 0 }) - (if has_s { f.x } else { 0 }) + (if has_d {
        r.x
    } else {
        0
    }) - (if has_a { r.x } else { 0 }) + (if has_space { u.x } else { 0 }) - (if has_shift {
        u.x
    } else {
        0
    });
    let dy = (if has_w { f.y } else { 0 }) - (if has_s { f.y } else { 0 }) + (if has_d {
        r.y
    } else {
        0
    }) - (if has_a { r.y } else { 0 }) + (if has_space { u.y } else { 0 }) - (if has_shift {
        u.y
    } else {
        0
    });
    let dz = (if has_w { f.z } else { 0 }) - (if has_s { f.z } else { 0 }) + (if has_d {
        r.z
    } else {
        0
    }) - (if has_a { r.z } else { 0 }) + (if has_space { u.z } else { 0 }) - (if has_shift {
        u.z
    } else {
        0
    });
    (dx, dy, dz)
}

/// Applies the held rotation keys and the reset key to the pose's angles and
/// position base, and latches the two scene triggers.
fn apply_pose_keys(cam: &mut Camera, triggers: &mut Triggers, keys: &KeySet, dt: i64)
    requires
        0 <= dt <= MAX_FRAME_DT,
        v3_in_range(old(cam).position, MAX_CAM_POS as int),
        -MAX_YAW <= old(cam).yaw <= MAX_YAW,
        -PITCH_LIMIT <= old(cam).pitch <= PITCH_LIMIT,
    ensures
        ({
            let ks = keys.keys@;
            final(cam).position == if ks.contains(Key::R) {
                start_camera().position
            } else {
                old(cam).position
            }
        }),
        final(cam).yaw == spec_new_yaw(old(cam).yaw as int, keys.keys@, dt as int),
        final(cam).pitch == spec_new_pitch(old(cam).pitch as int, keys.keys@, dt as int),
        -PITCH_LIMIT <= final(cam).pitch <= PITCH_LIMIT,
        v3_in_range(final(cam).position, MAX_CAM_POS as int),
        *final(triggers) == (Triggers {
            door_open: old(triggers).door_open || keys.keys@.contains(Key::K),
            bomb_dropped: old(triggers).bomb_dropped || keys.keys@.contains(Key::B),
        }),
{
    if keys.contains(Key::Right) {
        cam.yaw = cam.yaw + dt;
    }
    if keys.contains(Key::Left) {
        cam.yaw = cam.yaw - dt;
    }
    if keys.contains(Key::Up) {
        cam.pitch = crate::fixed::clamp(cam.pitch + dt, -PITCH_LIMIT, PITCH_LIMIT);
    }
    if keys.contains(Key::Down) {
        cam.pitch = crate::fixed::clamp(cam.pitch - dt, -PITCH_LIMIT, PITCH_LIMIT);
    }
    if keys.contains(Key::R) {
        cam.position = Vec3 { x: 0, y: 0, z: START_Z };
        cam.yaw = 0;
        cam.pitch = 0;
    }
    if keys.contains(Key::K) {
        triggers.latch_door();
    }
    if keys.contains(Key::B) {
        triggers.latch_bomb();
    }
}

/// Applies one frame's normalized movement to a position.
fn apply_movement(pos: Vec3, dx: i64, dy: i64, dz: i64, dt: i64) -> (p: Vec3)
    requires
        v3_in_range(pos, MAX_CAM_POS as int),
        -(4 * FP) <= dx <= 4 * FP,
        -(4 * FP) <= dy <= 4 * FP,
        -(4 * FP) <= dz <= 4 * FP,
        0 <= dt <= MAX_FRAME_DT,
    ensures
        ({
            let delta = spec_move_delta((dx as int, dy as int, dz as int), dt as int);
            p == (Vec3 {
                x: (pos.x + delta.0) as i64,
                y: (pos.y + delta.1) as i64,
                z: (pos.z + delta.2) as i64,
            })
        }),
        v3_in_range(p, crate::compose::MAX_COORD as int),
{
    if dx != 0 || dy != 0 || dz != 0 {
        let dxw = dx as i128;
        let dyw = dy as i128;
        let dzw = dz as i128;
        proof {
            assert(0 <= dxw * dxw <= 16_000_000_000_000 && 0 <= dyw * dyw <= 16_000_000_000_000
                && 0 <= dzw * dzw <= 16_000_000_000_000) by (nonlinear_arith)
                requires
                    -(4 * FP) <= dxw as int <= 4 * FP,
                    -(4 * FP) <= dyw as int <= 4 * FP,
                    -(4 * FP) <= dzw as int <= 4 * FP,
            ;
        }
        let sq = (dxw * dxw + dyw * dyw + dzw * dzw) as u64;
        let len64 = isqrt64(sq);
        proof {
            lemma_len_bounds(dx as int, dy as int, dz as int, len64 as int);
        }
        let len = len64 as i64;
        let nx = div_floor(dx * FP, len);
        let ny = div_floor(dy * FP, len);
        let nz = div_floor(dz * FP, len);
        proof {
            lemma_norm_small(dx as int, len as int);
            lemma_norm_small(dy as int, len as int);
            lemma_norm_small(dz as int, len as int);
            lemma_sdiv_range(nx as int * CAMERA_SPEED, CAMERA_SPEED as int);
            lemma_sdiv_range(ny as int * CAMERA_SPEED, CAMERA_SPEED as int);
            lemma_sdiv_range(nz as int * CAMERA_SPEED, CAMERA_SPEED as int);
        }
        let vx = scale_div(nx * CAMERA_SPEED);
        let vy = scale_div(ny * CAMERA_SPEED);
        let vz = scale_div(nz * CAMERA_SPEED);
        proof {
            lemma_move_product(vx as int, dt as int);
            lemma_move_product(vy as int, dt as int);
            lemma_move_product(vz as int, dt as int);
        }
        let mx = scale_div(vx * dt);
        let my = scale_div(vy * dt);
        let mz = scale_div(vz * dt);
        Vec3 { x: pos.x + mx, y: pos.y + my, z: pos.z + mz }
    } else {
        pos
    }
}

/// Runs one frame of camera input handling: movement in the current basis,
/// rotation, reset, and the two latching scene triggers.
pub fn update_camera(cam: &mut Camera, triggers: &mut Triggers, keys: &KeySet, dt: i64)
    requires
        0 <= dt <= MAX_FRAME_DT,
        v3_in_range(old(cam).position, MAX_CAM_POS as int),
        -MAX_YAW <= old(cam).yaw <= MAX_YAW,
        -PITCH_LIMIT <= old(cam).pitch <= PITCH_LIMIT,
    ensures
        ({
            let ks = keys.keys@;
            let f = spec_forward(old(cam).yaw as int, old(cam).pitch as int);
            let r = spec_right(old(cam).yaw as int);
            let u = spec_up(old(cam).yaw as int, old(cam).pitch as int);
            let base = if ks.contains(Key::R) {
                start_camera().position
            } else {
                old(cam).position
            };
            let delta = spec_move_delta(spec_move_dir(ks, f, r, u), dt as int);
            *final(cam) == (Camera {
                position: Vec3 {
                    x: (base.x + delta.0) as i64,
                    y: (base.y + delta.1) as i64,
                    z: (base.z + delta.2) as i64,
                },
                yaw: spec_new_yaw(old(cam).yaw as int, ks, dt as int) as i64,
                pitch: spec_new_pitch(old(cam).pitch as int, ks, dt as int) as i64,
            })
        }),
        *final(triggers) == (Triggers {
            door_open: old(triggers).door_open || keys.keys@.contains(Key::K),
            bomb_dropped: old(triggers).bomb_dropped || keys.keys@.contains(Key::B),
        }),
        -PITCH_LIMIT <= final(cam).pitch <= PITCH_LIMIT,
        v3_in_range(final(cam).position, crate::compose::MAX_COORD as int),
{
    let (f, r, u) = camera_basis(cam.yaw, cam.pitch);
    let (dx, dy, dz) = accumulate_direction(keys, &f, &r, &u);
    apply_pose_keys(cam, triggers, keys, dt);
    cam.position = apply_movement(cam.position, dx, dy, dz, dt);
}

/// Near clip plane: one world unit.
pub const NEAR_FP: i64 = 1_000_000;

/// Far clip plane: a thousand world units.
pub const FAR_FP: i64 = 1_000_000_000;

/// The tangent of half the fixed vertical field of view (80 degrees, so the
/// tangent of 40 degrees), fixed point.
pub const TAN_HALF_FOV: i64 = 839_100;

/// A dot product of a basis row with a position, brought back to scale.
pub open spec fn s_row_dot(a: (int, int, int), p: Vec3) -> int {
    sdiv(a.0 * p.x + a.1 * p.y + a.2 * p.z)
}

/// The view matrix of a pose: rows are the right, up and backward basis
/// vectors, and the translation column carries the negated rotated eye
/// position (the look-at construction, with the basis in closed form).
pub open spec fn s_view(
    f: (int, int, int),
    r: (int, int, int),
    u: (int, int, int),
    p: Vec3,
) -> SMat4 {
    SMat4 {
        m00: r.0, m01: r.1, m02: r.2, m03: -s_row_dot(r, p),
        m10: u.0, m11: u.1, m12: u.2, m13: -s_row_dot(u, p),
        m20: -f.0, m21: -f.1, m22: -f.2, m23: s_row_dot(f, p),
        m30: 0, m31: 0, m32: 0, m33: FP as int,
    }
}

/// Builds the view matrix of the current pose.
pub fn view_matrix(cam: &Camera) -> (m: Mat4)
    requires
        v3_in_range(cam.position, crate::compose::MAX_COORD as int),
    ensures
        m@ == s_view(
            spec_forward(cam.yaw as int, cam.pitch as int),
            spec_right(cam.yaw as int),
            spec_up(cam.yaw as int, cam.pitch as int),
            cam.position,
        ),
        crate::mat::s_in_range(m@, crate::mat::MAX_ENTRY as int),
{
    let (f, r, u) = camera_basis(cam.yaw, cam.pitch);
    let tr = row_dot(&r, &cam.position);
    let tu = row_dot(&u, &cam.position);
    let tf = row_dot(&f, &cam.position);
    Mat4 {
        m00: r.x, m01: r.y, m02: r.z, m03: -tr,
        m10: u.x, m11: u.y, m12: u.z, m13: -tu,
        m20: -f.x, m21: -f.y, m22: -f.z, m23: tf,
        m30: 0, m31: 0, m32: 0, m33: FP,
    }
}

/// One translation entry of the view matrix.
fn row_dot(a: &Vec3, p: &Vec3) -> (t: i64)
    requires
        v3_in_range(*a, 2 * FP as int),
        v3_in_range(*p, crate::compose::MAX_COORD as int),
    ensures
        t == s_row_dot((a.x as int, a.y as int, a.z as int), *p),
        -6_000_000_000_001 <= t <= 6_000_000_000_000,
{
    proof {
        assert((FP as int) * (-6_000_000_000_000) <= a.x as int * p.x as int + a.y as int
            * p.y as int + a.z as int * p.z as int <= (FP as int) * 6_000_000_000_000)
            by (nonlinear_arith)
            requires
                -(2 * FP) <= a.x <= 2 * FP,
                -(2 * FP) <= a.y <= 2 * FP,
                -(2 * FP) <= a.z <= 2 * FP,
                v3_in_range(*p, crate::compose::MAX_COORD as int),
        ;
        lemma_sdiv_range(
            a.x as int * p.x as int + a.y as int * p.y as int + a.z as int * p.z as int,
            6_000_000_000_000,
        );
    }
    let ax = a.x as i128;
    let ay = a.y as i128;
    let az = a.z as i128;
    let px = p.x as i128;
    let py = p.y as i128;
    let pz = p.z as i128;
    proof {
        assert(-2_000_000_000_000_000_000 <= ax * px <= 2_000_000_000_000_000_000
            && -2_000_000_000_000_000_000 <= ay * py <= 2_000_000_000_000_000_000
            && -2_000_000_000_000_000_000 <= az * pz <= 2_000_000_000_000_000_000)
            by (nonlinear_arith)
            requires
                -(2 * FP) <= ax as int <= 2 * FP,
                -(2 * FP) <= ay as int <= 2 * FP,
                -(2 * FP) <= az as int <= 2 * FP,
                -(crate::compose::MAX_COORD as int) <= px as int <= crate::compose::MAX_COORD as int,
                -(crate::compose::MAX_COORD as int) <= py as int <= crate::compose::MAX_COORD as int,
                -(crate::compose::MAX_COORD as int) <= pz as int <= crate::compose::MAX_COORD as int,
        ;
    }
    let s = ax * px + ay * py + az * pz;
    crate::fixed::div_floor_i128(s, FP as i128) as i64
}

/// The perspective projection for a live aspect ratio (width over height,
/// fixed point), at the fixed field of view and clip planes.
pub fn perspective(aspect: i64) -> (m: Mat4)
    requires
        FP / 10 <= aspect <= 100 * FP,
    ensures
        ({
            let focal = (FP as int) * FP / (TAN_HALF_FOV as int);
            m@ == (SMat4 {
                m00: focal * FP / (aspect as int), m01: 0, m02: 0, m03: 0,
                m10: 0, m11: focal, m12: 0, m13: 0,
                m20: 0, m21: 0,
                m22: -((FAR_FP + NEAR_FP) as int * FP / (FAR_FP - NEAR_FP) as int),
                m23: -(2 * (FAR_FP as int) * NEAR_FP / (FAR_FP - NEAR_FP) as int),
                m30: 0, m31: 0, m32: -(FP as int), m33: 0,
            })
        }),
        crate::mat::s_in_range(m@, crate::mat::MAX_ENTRY as int),
{
    let focal = div_floor(FP * FP, TAN_HALF_FOV);
    proof {
        vstd::arithmetic::div_mod::lemma_div_pos_is_pos((FP as int) * FP, TAN_HALF_FOV as int);
        crate::fixed::lemma_div_is_ordered_small((FP as int) * FP, TAN_HALF_FOV as int);
        vstd::arithmetic::div_mod::lemma_div_pos_is_pos(
            focal as int * FP,
            aspect as int,
        );
        crate::fixed::lemma_div_is_ordered_small(focal as int * FP, aspect as int);
        vstd::arithmetic::div_mod::lemma_div_pos_is_pos(
            (FAR_FP + NEAR_FP) as int * FP,
            (FAR_FP - NEAR_FP) as int,
        );
        crate::fixed::lemma_div_is_ordered_small(
            (FAR_FP + NEAR_FP) as int * FP,
            (FAR_FP - NEAR_FP) as int,
        );
        vstd::arithmetic::div_mod::lemma_div_pos_is_pos(
            2 * (FAR_FP as int) * NEAR_FP,
            (FAR_FP - NEAR_FP) as int,
        );
        crate::fixed::lemma_div_is_ordered_small(
            2 * (FAR_FP as int) * NEAR_FP,
            (FAR_FP - NEAR_FP) as int,
        );
    }
    let m00 = div_floor(focal * FP, aspect);
    let m22 = -div_floor((FAR_FP + NEAR_FP) * FP, FAR_FP - NEAR_FP);
    let m23 = -div_floor(2 * FAR_FP * NEAR_FP, FAR_FP - NEAR_FP);
    Mat4 {
        m00, m01: 0, m02: 0, m03: 0,
        m10: 0, m11: focal, m12: 0, m13: 0,
        m20: 0, m21: 0, m22, m23,
        m30: 0, m31: 0, m32: -FP, m33: 0,
    }
}

/// The normalization length is positive, at least each component's
/// magnitude, and small.
proof fn lemma_len_bounds(dx: int, dy: int, dz: int, len: int)
    requires
        -(4 * FP) <= dx <= 4 * FP,
        -(4 * FP) <= dy <= 4 * FP,
        -(4 * FP) <= dz <= 4 * FP,
        !(dx == 0 && dy == 0 && dz == 0),
        len >= 0,
        len * len <= dx * dx + dy * dy + dz * dz < (len + 1) * (len + 1),
    ensures
        1 <= len <= 20_000_000,
        -len <= dx <= len,
        -len <= dy <= len,
        -len <= dz <= len,
{
    assert(1 <= len <= 20_000_000 && -len <= dx <= len && -len <= dy <= len && -len <= dz <= len)
        by (nonlinear_arith)
        requires
            -(4 * FP) <= dx <= 4 * FP,
            -(4 * FP) <= dy <= 4 * FP,
            -(4 * FP) <= dz <= 4 * FP,
            !(dx == 0 && dy == 0 && dz == 0),
            len >= 0,
            len * len <= dx * dx + dy * dy + dz * dz < (len + 1) * (len + 1),
    ;
}

/// A normalized component stays within one scaled unit.
proof fn lemma_norm_small(d: int, len: int)
    requires
        1 <= len,
        -len <= d <= len,
    ensures
        -FP <= d * FP / len <= FP,
{
    assert(len * (-(FP as int)) <= d * FP <= len * FP) by (nonlinear_arith)
        requires 1 <= len && -len <= d <= len;
    vstd::arithmetic::div_mod::lemma_div_is_ordered(d * FP, len * FP, len);
    vstd::arithmetic::div_mod::lemma_div_is_ordered(len * (-(FP as int)), d * FP, len);
    vstd::arithmetic::div_mod::lemma_div_multiples_vanish(FP as int, len);
    vstd::arithmetic::div_mod::lemma_div_multiples_vanish(-(FP as int), len);
}

/// One frame's movement along one axis stays within a tenth of the
/// compositor's coordinate range.
proof fn lemma_move_product(v: int, dt: int)
    requires
        -CAMERA_SPEED <= v <= CAMERA_SPEED,
        0 <= dt <= MAX_FRAME_DT,
    ensures
        (FP as int) * (-20_000_000_000) <= v * dt <= (FP as int) * 20_000_000_000,
        -20_000_000_000 <= sdiv(v * dt) <= 20_000_000_000,
{
    assert((FP as int) * (-20_000_000_000) <= v * dt <= (FP as int) * 20_000_000_000)
        by (nonlinear_arith)
        requires
            -CAMERA_SPEED <= v <= CAMERA_SPEED,
            0 <= dt <= MAX_FRAME_DT,
    ;
    lemma_sdiv_range(v * dt, 20_000_000_000);
}

} // verus!
