//! The per-frame animation pass: rotor spin, scripted flight, door slide and
//! bomb drop.
//!
//! Animation state is integrated in *raw* scale — a raw value is a
//! fixed-point scalar times `FP` — so that a speed in fixed-point units per
//! second times a time step in microseconds accumulates exactly, with no
//! per-frame rounding. A node field is written as `raw / FP`, rounded once
//! from the exact accumulated value. Triggers latch: once a door is opened
//! or a bomb dropped, the behavior runs for the rest of the session; nothing
//! here resets them.

use crate::compose::MAX_COORD;
use crate::fixed::{scale_div, sdiv, spec_clamp, spec_max, spec_min, FP};
use crate::scene::{scene_wf, Scene, SceneNode, NOT_RENDERABLE};
use crate::trig::{cos_fp, sin_fp, spec_cos, spec_sin, PI_FP};
use crate::vec3::Vec3;
use vstd::prelude::*;

verus! {

/// Main and tail rotor angular speed: 5 radians per second, fixed point.
pub const ROTOR_SPEED: i64 = 5_000_000;

/// Door slide speed: 0.5 world units per second, fixed point.
pub const DOOR_SPEED: i64 = 500_000;

/// Bomb drop speed: 4 world units per second, fixed point.
pub const DROP_SPEED: i64 = 4_000_000;

/// Door travel bounds in raw scale: the door slides from 0 to 1.6 units.
pub const DOOR_MAX_RAW: i64 = 1_600_000_000_000;

/// Lowest bomb offset in raw scale: 15 units below its start.
pub const BOMB_MIN_RAW: i64 = -15_000_000_000_000;

/// No-op ceiling of the bomb offset in raw scale (1000 units up; never
/// reached from a drop that only descends).
pub const BOMB_MAX_RAW: i64 = 1_000_000_000_000_000;

/// Radius of the scripted flight circle: 35 world units, fixed point.
pub const PATH_RADIUS: i64 = 35_000_000;

/// Amplitude of the scripted pitch/roll sway: 0.3 radians, fixed point.
pub const SWAY: i64 = 300_000;

/// Phase stagger between helicopter instances: 0.8 seconds, in microseconds.
pub const HELI_PHASE_OFFSET: i64 = 800_000;

/// Largest time step the integrators accept (about eleven days in
/// microseconds): keeps one step's speed-times-time product inside `i64`.
pub const MAX_DT: i64 = 1_000_000_000_000;

/// Largest accumulator magnitude the rotor integrator accepts as input, so
/// one more step cannot overflow.
pub const MAX_ROTOR_RAW: i64 = 4_000_000_000_000_000_000;

/// Session-wide latched triggers, shared by every helicopter.
#[derive(Clone, Copy, Debug, PartialEq, Eq, Structural)]
pub struct Triggers {
    /// Latched by the open-doors key; never reset.
    pub door_open: bool,
    /// Latched by the drop-bomb key; never reset.
    pub bomb_dropped: bool,
}

impl Triggers {
    /// Both triggers clear, as at session start.
    pub fn new() -> (t: Triggers)
        ensures
            t == (Triggers { door_open: false, bomb_dropped: false }),
    {
        Triggers { door_open: false, bomb_dropped: false }
    }

    /// Latches the door trigger on.
    pub fn latch_door(&mut self)
        ensures
            *final(self) == (Triggers { door_open: true, bomb_dropped: old(self).bomb_dropped }),
    {
        self.door_open = true;
    }

    /// Latches the bomb trigger on.
    pub fn latch_bomb(&mut self)
        ensures
            *final(self) == (Triggers { door_open: old(self).door_open, bomb_dropped: true }),
    {
        self.bomb_dropped = true;
    }
}

/// One step of the door integrator: once triggered, the raw offset grows at
/// `DOOR_SPEED` and is clamped into `[0, DOOR_MAX_RAW]`.
pub open spec fn door_step(d: int, open: bool, dt: int) -> int {
    if open {
        spec_clamp(d + DOOR_SPEED * dt, 0, DOOR_MAX_RAW as int)
    } else {
        d
    }
}

/// One step of the bomb integrator: once triggered, the raw offset falls at
/// `DROP_SPEED` and is clamped into `[BOMB_MIN_RAW, BOMB_MAX_RAW]`.
pub open spec fn bomb_step(b: int, dropped: bool, dt: int) -> int {
    if dropped {
        spec_clamp(b - DROP_SPEED * dt, BOMB_MIN_RAW as int, BOMB_MAX_RAW as int)
    } else {
        b
    }
}

/// The scripted heading of a helicopter body at absolute time `t`
/// (microseconds): a circular path of `PATH_RADIUS`, one turn per fixed-point
/// full angle (the angle advances one millionth of a radian per
/// microsecond), facing along the path, with a trigonometric pitch/roll
/// sway. A function of `t` alone.
pub ghost struct SHeading {
    pub x: int,
    pub z: int,
    pub pitch: int,
    pub yaw: int,
    pub roll: int,
}

/// The heading at time `t`.
pub open spec fn spec_heading(t: int) -> SHeading {
    SHeading {
        x: sdiv(PATH_RADIUS * spec_sin(t)),
        z: sdiv(PATH_RADIUS * spec_cos(t)),
        pitch: sdiv(SWAY * spec_cos(t)),
        yaw: t + PI_FP,
        roll: sdiv(SWAY * spec_sin(t)),
    }
}

/// A helicopter body's scripted placement: position over the ground plane
/// and full rotation.
#[derive(Clone, Copy, Debug, PartialEq, Eq, Structural)]
pub struct Heading {
    pub x: i64,
    pub z: i64,
    pub pitch: i64,
    pub yaw: i64,
    pub roll: i64,
}

impl View for Heading {
    type V = SHeading;

    open spec fn view(&self) -> SHeading {
        SHeading {
            x: self.x as int,
            z: self.z as int,
            pitch: self.pitch as int,
            yaw: self.yaw as int,
            roll: self.roll as int,
        }
    }
}

/// Evaluates the scripted heading at time `t` (microseconds).
pub fn heading(t: i64) -> (h: Heading)
    requires
        t <= i64::MAX - PI_FP,
    ensures
        h@ == spec_heading(t as int),
        -PATH_RADIUS <= h.x <= PATH_RADIUS,
        -PATH_RADIUS <= h.z <= PATH_RADIUS,
{
    let s = sin_fp(t);
    let c = cos_fp(t);
    proof {
        lemma_sdiv_bound(PATH_RADIUS * s as int, PATH_RADIUS as int);
        lemma_sdiv_bound(PATH_RADIUS * c as int, PATH_RADIUS as int);
    }
    Heading {
        x: scale_div(PATH_RADIUS * s),
        z: scale_div(PATH_RADIUS * c),
        pitch: scale_div(SWAY * c),
        yaw: t + PI_FP,
        roll: scale_div(SWAY * s),
    }
}

/// The once-rounded image of a value within `[-b * FP, b * FP]` lies within
/// `[-b, b]`.
proof fn lemma_sdiv_bound(x: int, b: int)
    requires
        b >= 0,
        -(b * FP) <= x <= b * FP,
    ensures
        -b <= sdiv(x) <= b,
{
    vstd::arithmetic::div_mod::lemma_div_is_ordered(x, b * FP, FP as int);
    vstd::arithmetic::div_mod::lemma_div_is_ordered(-(b * FP), x, FP as int);
    vstd::arithmetic::div_mod::lemma_div_multiples_vanish(b, FP as int);
    vstd::arithmetic::div_mod::lemma_div_multiples_vanish(-b, FP as int);
    assert(b * FP == (FP as int) * b) by (nonlinear_arith);
    assert(-(b * FP) == (FP as int) * (-b)) by (nonlinear_arith);
}

/// The scripted flight sample of a helicopter with phase offset `phase` at
/// elapsed time `t`: the heading at `t + phase`, and nothing else — time and
/// phase enter only through their sum.
pub open spec fn spec_flight(t: int, phase: int) -> SHeading {
    spec_heading(t + phase)
}

/// PHASE SHIFT: an unphased helicopter sampled at `t + d` and a helicopter
/// with phase offset `d` sampled at `t` take identical placements — the
/// phase-staggered instances fly one trajectory shifted in time.
pub proof fn lemma_flight_phase_shift(t: int, d: int)
    ensures
        spec_flight(t + d, 0) == spec_flight(t, d),
{
}

/// The animation state of one helicopter: its phase offset and the exact
/// raw-scale accumulators behind its animated node fields.
#[derive(Clone, Copy, Debug, PartialEq, Eq, Structural)]
pub struct HeliAnimation {
    /// Per-instance phase offset, microseconds.
    pub phase: i64,
    /// Accumulated main rotor angle (spins about y), raw scale.
    pub main_rotor_raw: i64,
    /// Accumulated tail rotor angle (spins about x), raw scale.
    pub tail_rotor_raw: i64,
    /// Door z offset, raw scale, within `[0, DOOR_MAX_RAW]`.
    pub door_raw: i64,
    /// Bomb y offset, raw scale, within `[BOMB_MIN_RAW, BOMB_MAX_RAW]`.
    pub bomb_raw: i64,
}

impl HeliAnimation {
    /// The rest state of a helicopter with the given phase offset.
    pub fn new(phase: i64) -> (a: HeliAnimation)
        ensures
            a == (HeliAnimation {
                phase,
                main_rotor_raw: 0,
                tail_rotor_raw: 0,
                door_raw: 0,
                bomb_raw: 0,
            }),
    {
        HeliAnimation { phase, main_rotor_raw: 0, tail_rotor_raw: 0, door_raw: 0, bomb_raw: 0 }
    }

    /// Advances both rotor accumulators by one time step: the angle grows by
    /// exactly `ROTOR_SPEED * dt`, unbounded (rendering reduces it modulo a
    /// full turn; the stored state never does).
    pub fn step_rotors(&mut self, dt: i64)
        requires
            0 <= dt <= MAX_DT,
            -MAX_ROTOR_RAW <= old(self).main_rotor_raw <= MAX_ROTOR_RAW,
            -MAX_ROTOR_RAW <= old(self).tail_rotor_raw <= MAX_ROTOR_RAW,
        ensures
            *final(self) == (HeliAnimation {
                main_rotor_raw: (old(self).main_rotor_raw + ROTOR_SPEED * dt) as i64,
                tail_rotor_raw: (old(self).tail_rotor_raw + ROTOR_SPEED * dt) as i64,
                ..*old(self)
            }),
    {
        self.main_rotor_raw = self.main_rotor_raw + ROTOR_SPEED * dt;
        self.tail_rotor_raw = self.tail_rotor_raw + ROTOR_SPEED * dt;
    }

    /// Advances the door by one time step.
    pub fn step_door(&mut self, open: bool, dt: i64)
        requires
            0 <= dt <= MAX_DT,
            0 <= old(self).door_raw <= DOOR_MAX_RAW,
        ensures
            *final(self) == (HeliAnimation {
                door_raw: door_step(old(self).door_raw as int, open, dt as int) as i64,
                ..*old(self)
            }),
            0 <= final(self).door_raw <= DOOR_MAX_RAW,
    {
        if open {
            let moved = self.door_raw + DOOR_SPEED * dt;
            self.door_raw = crate::fixed::clamp(moved, 0, DOOR_MAX_RAW);
        }
    }

    /// Advances the bomb by one time step.
    pub fn step_bomb(&mut self, dropped: bool, dt: i64)
        requires
            0 <= dt <= MAX_DT,
            BOMB_MIN_RAW <= old(self).bomb_raw <= BOMB_MAX_RAW,
        ensures
            *final(self) == (HeliAnimation {
                bomb_raw: bomb_step(old(self).bomb_raw as int, dropped, dt as int) as i64,
                ..*old(self)
            }),
            BOMB_MIN_RAW <= final(self).bomb_raw <= BOMB_MAX_RAW,
    {
        if dropped {
            let moved = self.bomb_raw - DROP_SPEED * dt;
            self.bomb_raw = crate::fixed::clamp(moved, BOMB_MIN_RAW, BOMB_MAX_RAW);
        }
    }
}

/// The sum of a sequence of time steps.
pub open spec fn sum_of(dts: Seq<int>) -> int
    decreases dts.len(),
{
    if dts.len() == 0 {
        0
    } else {
        dts[0] + sum_of(dts.drop_first())
    }
}

/// Whether every step is nonnegative.
pub open spec fn all_nonneg(dts: Seq<int>) -> bool {
    forall|i: int| 0 <= i < dts.len() ==> dts[i] >= 0
}

/// The door offset after running the triggered integrator over a sequence
/// of steps.
pub open spec fn door_run(d: int, dts: Seq<int>) -> int
    decreases dts.len(),
{
    if dts.len() == 0 {
        d
    } else {
        door_run(door_step(d, true, dts[0]), dts.drop_first())
    }
}

/// The bomb offset after running the triggered integrator over a sequence
/// of steps.
pub open spec fn bomb_run(b: int, dts: Seq<int>) -> int
    decreases dts.len(),
{
    if dts.len() == 0 {
        b
    } else {
        bomb_run(bomb_step(b, true, dts[0]), dts.drop_first())
    }
}

/// DOOR CLAMP: once triggered, over any nonnegative time steps, the door
/// offset that started at `min(DOOR_SPEED * t0, DOOR_MAX_RAW)` ends at
/// exactly `min(DOOR_SPEED * (t0 + sum), DOOR_MAX_RAW)`: it integrates
/// linearly until the bound and is pinned there after — monotonically
/// non-decreasing, never past the bound, and exact at the bound.
pub proof fn lemma_door_closed_form(t0: int, dts: Seq<int>)
    requires
        t0 >= 0,
        all_nonneg(dts),
    ensures
        door_run(spec_min(DOOR_SPEED * t0, DOOR_MAX_RAW as int), dts) == spec_min(
            DOOR_SPEED * (t0 + sum_of(dts)),
            DOOR_MAX_RAW as int,
        ),
    decreases dts.len(),
{
    let d0 = spec_min(DOOR_SPEED * t0, DOOR_MAX_RAW as int);
    if dts.len() == 0 {
    } else {
        let dt = dts[0];
        assert(dt >= 0);
        assert(door_step(d0, true, dt) == spec_min(DOOR_SPEED * (t0 + dt), DOOR_MAX_RAW as int));
        assert(all_nonneg(dts.drop_first())) by {
            assert forall|i: int| 0 <= i < dts.drop_first().len() implies dts.drop_first()[i]
                >= 0 by {
                assert(dts.drop_first()[i] == dts[i + 1]);
            }
        }
        lemma_door_closed_form(t0 + dt, dts.drop_first());
        assert(sum_of(dts) == dt + sum_of(dts.drop_first()));
    }
}

/// DOOR MONOTONICITY: one triggered step never moves the door backward and
/// never past the bound.
pub proof fn lemma_door_monotonic(d: int, dt: int)
    requires
        0 <= d <= DOOR_MAX_RAW,
        dt >= 0,
    ensures
        door_step(d, true, dt) >= d,
        door_step(d, true, dt) <= DOOR_MAX_RAW,
{
}

/// BOMB CLAMP: once triggered, over any nonnegative time steps, the bomb
/// offset that started at `max(-DROP_SPEED * t0, BOMB_MIN_RAW)` ends at
/// exactly `max(-DROP_SPEED * (t0 + sum), BOMB_MIN_RAW)`: it falls linearly
/// until the floor and stays there for any further elapsed time.
pub proof fn lemma_bomb_closed_form(t0: int, dts: Seq<int>)
    requires
        t0 >= 0,
        all_nonneg(dts),
    ensures
        bomb_run(spec_max(-(DROP_SPEED * t0), BOMB_MIN_RAW as int), dts) == spec_max(
            -(DROP_SPEED * (t0 + sum_of(dts))),
            BOMB_MIN_RAW as int,
        ),
    decreases dts.len(),
{
    let b0 = spec_max(-(DROP_SPEED * t0), BOMB_MIN_RAW as int);
    if dts.len() == 0 {
    } else {
        let dt = dts[0];
        assert(dt >= 0);
        assert(bomb_step(b0, true, dt) == spec_max(
            -(DROP_SPEED * (t0 + dt)),
            BOMB_MIN_RAW as int,
        ));
        assert(all_nonneg(dts.drop_first())) by {
            assert forall|i: int| 0 <= i < dts.drop_first().len() implies dts.drop_first()[i]
                >= 0 by {
                assert(dts.drop_first()[i] == dts[i + 1]);
            }
        }
        lemma_bomb_closed_form(t0 + dt, dts.drop_first());
        assert(sum_of(dts) == dt + sum_of(dts.drop_first()));
    }
}

/// BOMB MONOTONICITY: one triggered step never raises the bomb and never
/// drops it below the floor.
pub proof fn lemma_bomb_monotonic(b: int, dt: int)
    requires
        BOMB_MIN_RAW <= b <= 0,
        dt >= 0,
    ensures
        bomb_step(b, true, dt) <= b,
        bomb_step(b, true, dt) >= BOMB_MIN_RAW,
{
}

/// The rotor accumulator after a sequence of steps.
pub open spec fn rotor_run(r: int, dts: Seq<int>) -> int
    decreases dts.len(),
{
    if dts.len() == 0 {
        r
    } else {
        rotor_run(r + ROTOR_SPEED * dts[0], dts.drop_first())
    }
}

/// ROTOR LINEARITY: the accumulated rotor angle after time steps summing to
/// `t` is exactly `ROTOR_SPEED * t` — linear and unbounded, with any
/// reduction modulo a full turn left to rendering.
pub proof fn lemma_rotor_linear(r0: int, dts: Seq<int>)
    ensures
        rotor_run(r0, dts) == r0 + ROTOR_SPEED * sum_of(dts),
    decreases dts.len(),
{
    if dts.len() == 0 {
    } else {
        lemma_rotor_linear(r0 + ROTOR_SPEED * dts[0], dts.drop_first());
        assert(sum_of(dts) == dts[0] + sum_of(dts.drop_first()));
    }
}

/// A helicopter body's starting height: 10 world units up.
pub const BODY_START_Y: i64 = 10_000_000;

/// A helicopter body's starting heading: roughly a half turn.
pub const BODY_START_YAW: i64 = 3_140_000;

/// The tail rotor's hinge, off the body origin: `(0.35, 2.3, 10.4)`.
pub const TAIL_PIVOT_X: i64 = 350_000;
pub const TAIL_PIVOT_Y: i64 = 2_300_000;
pub const TAIL_PIVOT_Z: i64 = 10_400_000;

/// The bomb mesh's uniform shrink factor: a hundredth of the identity.
pub const BOMB_SCALE: i64 = 10_000;

/// The arena indices of one helicopter's nodes.
#[derive(Clone, Copy, Debug, PartialEq, Eq, Structural)]
pub struct HelicopterRig {
    pub root: usize,
    pub body: usize,
    pub door: usize,
    pub main_rotor: usize,
    pub tail_rotor: usize,
    pub bomb_root: usize,
    pub bomb: usize,
}

/// The rig's indices are distinct, ordered as assembled, and in the arena.
pub open spec fn rig_wf(rig: HelicopterRig, len: int) -> bool {
    rig.root < rig.body < rig.door < rig.main_rotor < rig.tail_rotor < rig.bomb_root < rig.bomb
        < len
}

/// Assembles one helicopter under `parent`: a grouping root, the body, and
/// under the body the door, both rotors and a grouping node holding the
/// bomb. Sets the starting pose (body at `(0, BODY_START_Y, 0)` turned by
/// `BODY_START_YAW`), the tail rotor's hinge and the bomb's shrink.
pub fn add_helicopter(
    scene: &mut Scene,
    parent: usize,
    body_vao: u32, body_count: i32,
    door_vao: u32, door_count: i32,
    main_rotor_vao: u32, main_rotor_count: i32,
    tail_rotor_vao: u32, tail_rotor_count: i32,
    bomb_vao: u32, bomb_count: i32,
) -> (rig: HelicopterRig)
    requires
        scene_wf(old(scene).nodes@),
        parent < old(scene).nodes@.len(),
        old(scene).nodes@.len() + 7 < usize::MAX,
        body_count >= 0,
        door_count >= 0,
        main_rotor_count >= 0,
        tail_rotor_count >= 0,
        bomb_count >= 0,
    ensures
        scene_wf(final(scene).nodes@),
        final(scene).nodes@.len() == old(scene).nodes@.len() + 7,
        rig_wf(rig, final(scene).nodes@.len() as int),
        rig.root == old(scene).nodes@.len(),
        rig.body == rig.root + 1 && rig.door == rig.root + 2 && rig.main_rotor == rig.root + 3,
        rig.tail_rotor == rig.root + 4 && rig.bomb_root == rig.root + 5 && rig.bomb == rig.root
            + 6,
        // Everything already in the arena is untouched, except that `parent`
        // gained the helicopter root as one more child.
        forall|j: int|
            0 <= j < old(scene).nodes@.len() && j != parent ==> final(scene).nodes@[j] == old(
                scene,
            ).nodes@[j],
        crate::scene::same_but_children(
            final(scene).nodes@[parent as int],
            old(scene).nodes@[parent as int],
        ),
        final(scene).nodes@[parent as int].children@ == old(
            scene,
        ).nodes@[parent as int].children@.push(rig.root),
        // The new nodes, their wiring and their starting pose.
        final(scene).nodes@[rig.root as int].children@ == seq![rig.body],
        final(scene).nodes@[rig.body as int].children@ == seq![
            rig.door,
            rig.main_rotor,
            rig.tail_rotor,
            rig.bomb_root,
        ],
        final(scene).nodes@[rig.bomb_root as int].children@ == seq![rig.bomb],
        final(scene).nodes@[rig.door as int].children@.len() == 0,
        final(scene).nodes@[rig.main_rotor as int].children@.len() == 0,
        final(scene).nodes@[rig.tail_rotor as int].children@.len() == 0,
        final(scene).nodes@[rig.bomb as int].children@.len() == 0,
        final(scene).nodes@[rig.root as int].index_count == NOT_RENDERABLE,
        final(scene).nodes@[rig.bomb_root as int].index_count == NOT_RENDERABLE,
        final(scene).nodes@[rig.body as int].vao_id == body_vao,
        final(scene).nodes@[rig.body as int].index_count == body_count,
        final(scene).nodes@[rig.body as int].position == (Vec3 {
            x: 0,
            y: BODY_START_Y,
            z: 0,
        }),
        final(scene).nodes@[rig.body as int].rotation == (Vec3 { x: 0, y: BODY_START_YAW, z: 0 }),
        final(scene).nodes@[rig.door as int].vao_id == door_vao,
        final(scene).nodes@[rig.door as int].index_count == door_count,
        final(scene).nodes@[rig.door as int].position == (Vec3 { x: 0, y: 0, z: 0 }),
        final(scene).nodes@[rig.main_rotor as int].vao_id == main_rotor_vao,
        final(scene).nodes@[rig.main_rotor as int].index_count == main_rotor_count,
        final(scene).nodes@[rig.main_rotor as int].rotation == (Vec3 { x: 0, y: 0, z: 0 }),
        final(scene).nodes@[rig.tail_rotor as int].vao_id == tail_rotor_vao,
        final(scene).nodes@[rig.tail_rotor as int].index_count == tail_rotor_count,
        final(scene).nodes@[rig.tail_rotor as int].rotation == (Vec3 { x: 0, y: 0, z: 0 }),
        final(scene).nodes@[rig.tail_rotor as int].reference_point == (Vec3 {
            x: TAIL_PIVOT_X,
            y: TAIL_PIVOT_Y,
            z: TAIL_PIVOT_Z,
        }),
        final(scene).nodes@[rig.bomb as int].vao_id == bomb_vao,
        final(scene).nodes@[rig.bomb as int].index_count == bomb_count,
        final(scene).nodes@[rig.bomb as int].position == (Vec3 { x: 0, y: 0, z: 0 }),
        final(scene).nodes@[rig.bomb as int].scale == (Vec3 {
            x: BOMB_SCALE,
            y: BOMB_SCALE,
            z: BOMB_SCALE,
        }),
{
    let root = scene.add_node(SceneNode::new());
    scene.add_child(parent, root);
    let body = scene.add_node(SceneNode::from_vao(body_vao, body_count));
    scene.add_child(root, body);
    let door = scene.add_node(SceneNode::from_vao(door_vao, door_count));
    scene.add_child(body, door);
    let main_rotor = scene.add_node(SceneNode::from_vao(main_rotor_vao, main_rotor_count));
    scene.add_child(body, main_rotor);
    let tail_rotor = scene.add_node(SceneNode::from_vao(tail_rotor_vao, tail_rotor_count));
    scene.add_child(body, tail_rotor);
    let bomb_root = scene.add_node(SceneNode::new());
    scene.add_child(body, bomb_root);
    let bomb = scene.add_node(SceneNode::from_vao(bomb_vao, bomb_count));
    scene.add_child(bomb_root, bomb);
    scene.set_reference_point(
        tail_rotor,
        Vec3 { x: TAIL_PIVOT_X, y: TAIL_PIVOT_Y, z: TAIL_PIVOT_Z },
    );
    scene.set_scale(bomb, Vec3 { x: BOMB_SCALE, y: BOMB_SCALE, z: BOMB_SCALE });
    scene.set_position(body, Vec3 { x: 0, y: BODY_START_Y, z: 0 });
    scene.set_rotation(body, Vec3 { x: 0, y: BODY_START_YAW, z: 0 });
    HelicopterRig { root, body, door, main_rotor, tail_rotor, bomb_root, bomb }
}

/// A helicopter's animation state within the integrators' invariants.
pub open spec fn anim_state_ok(a: HeliAnimation) -> bool {
    &&& 0 <= a.phase
    &&& -MAX_ROTOR_RAW <= a.main_rotor_raw <= MAX_ROTOR_RAW
    &&& -MAX_ROTOR_RAW <= a.tail_rotor_raw <= MAX_ROTOR_RAW
    &&& 0 <= a.door_raw <= DOOR_MAX_RAW
    &&& BOMB_MIN_RAW <= a.bomb_raw <= BOMB_MAX_RAW
}

/// The animation state after one frame of `dt` under the given triggers:
/// rotors advanced exactly, door and bomb stepped through their clamped
/// integrators.
pub open spec fn stepped_anim(a: HeliAnimation, trig: Triggers, dt: int) -> HeliAnimation {
    HeliAnimation {
        phase: a.phase,
        main_rotor_raw: (a.main_rotor_raw + ROTOR_SPEED * dt) as i64,
        tail_rotor_raw: (a.tail_rotor_raw + ROTOR_SPEED * dt) as i64,
        door_raw: door_step(a.door_raw as int, trig.door_open, dt) as i64,
        bomb_raw: bomb_step(a.bomb_raw as int, trig.bomb_dropped, dt) as i64,
    }
}

/// What one frame of a helicopter's animation does to its five animated
/// nodes, given the post-frame state `a`: the body takes its scripted
/// placement at `elapsed` plus the instance's phase, and door offset, rotor
/// angles and bomb offset are the once-rounded images of the exact
/// accumulators. Every other field of those nodes is untouched.
pub open spec fn heli_nodes_updated(
    prev: Seq<SceneNode>,
    cur: Seq<SceneNode>,
    rig: HelicopterRig,
    a: HeliAnimation,
    elapsed: int,
) -> bool {
    &&& ({
        let h = spec_flight(elapsed, a.phase as int);
        let ob = prev[rig.body as int];
        cur[rig.body as int] == SceneNode {
            position: Vec3 { x: h.x as i64, y: ob.position.y, z: h.z as i64 },
            rotation: Vec3 { x: h.pitch as i64, y: h.yaw as i64, z: h.roll as i64 },
            ..ob
        }
    })
    &&& ({
        let od = prev[rig.door as int];
        cur[rig.door as int] == SceneNode {
            position: Vec3 {
                x: od.position.x,
                y: od.position.y,
                z: sdiv(a.door_raw as int) as i64,
            },
            ..od
        }
    })
    &&& ({
        let om = prev[rig.main_rotor as int];
        cur[rig.main_rotor as int] == SceneNode {
            rotation: Vec3 {
                x: om.rotation.x,
                y: sdiv(a.main_rotor_raw as int) as i64,
                z: om.rotation.z,
            },
            ..om
        }
    })
    &&& ({
        let ot = prev[rig.tail_rotor as int];
        cur[rig.tail_rotor as int] == SceneNode {
            rotation: Vec3 {
                x: sdiv(a.tail_rotor_raw as int) as i64,
                y: ot.rotation.y,
                z: ot.rotation.z,
            },
            ..ot
        }
    })
    &&& ({
        let obm = prev[rig.bomb as int];
        cur[rig.bomb as int] == SceneNode {
            position: Vec3 {
                x: obm.position.x,
                y: sdiv(a.bomb_raw as int) as i64,
                z: obm.position.z,
            },
            ..obm
        }
    })
}

/// Whether `j` is one of the nodes a rig's animation writes.
pub open spec fn node_in_rig(rig: HelicopterRig, j: int) -> bool {
    j == rig.body || j == rig.door || j == rig.main_rotor || j == rig.tail_rotor || j == rig.bomb
}

/// Runs one frame of a helicopter's animation, exactly as the update pass
/// does per instance: rotors spin on, the body takes its scripted placement
/// at `elapsed` (plus the instance's phase), and — where triggered — the
/// door slides and the bomb falls. The raw accumulators advance exactly; the
/// touched node fields are each the once-rounded image of an accumulator.
pub fn update_helicopter(
    scene: &mut Scene,
    rig: &HelicopterRig,
    anim: &mut HeliAnimation,
    triggers: &Triggers,
    elapsed: i64,
    dt: i64,
)
    requires
        scene_wf(old(scene).nodes@),
        rig_wf(*rig, old(scene).nodes@.len() as int),
        0 <= dt <= MAX_DT,
        0 <= elapsed,
        anim_state_ok(*old(anim)),
        elapsed + old(anim).phase <= i64::MAX - PI_FP,
    ensures
        scene_wf(final(scene).nodes@),
        *final(anim) == stepped_anim(*old(anim), *triggers, dt as int),
        final(scene).nodes@.len() == old(scene).nodes@.len(),
        forall|j: int|
            0 <= j < old(scene).nodes@.len() && !node_in_rig(*rig, j) ==> final(scene).nodes@[j]
                == old(scene).nodes@[j],
        heli_nodes_updated(
            old(scene).nodes@,
            final(scene).nodes@,
            *rig,
            *final(anim),
            elapsed as int,
        ),
{
    anim.step_rotors(dt);
    anim.step_door(triggers.door_open, dt);
    anim.step_bomb(triggers.bomb_dropped, dt);
    // Rotors: the stored angle is the exact accumulator, rounded once.
    let main_angle = scale_div(anim.main_rotor_raw);
    let old_main = scene.node(rig.main_rotor).rotation;
    scene.set_rotation(
        rig.main_rotor,
        Vec3 { x: old_main.x, y: main_angle, z: old_main.z },
    );
    let tail_angle = scale_div(anim.tail_rotor_raw);
    let old_tail = scene.node(rig.tail_rotor).rotation;
    scene.set_rotation(
        rig.tail_rotor,
        Vec3 { x: tail_angle, y: old_tail.y, z: old_tail.z },
    );
    // Scripted flight: ground-plane position and full rotation of the body.
    let h = heading(elapsed + anim.phase);
    let old_body_pos = scene.node(rig.body).position;
    scene.set_position(rig.body, Vec3 { x: h.x, y: old_body_pos.y, z: h.z });
    scene.set_rotation(rig.body, Vec3 { x: h.pitch, y: h.yaw, z: h.roll });
    // Door slide.
    let door_z = scale_div(anim.door_raw);
    proof {
        lemma_sdiv_bound(anim.door_raw as int, MAX_COORD as int);
    }
    let old_door_pos = scene.node(rig.door).position;
    scene.set_position(rig.door, Vec3 { x: old_door_pos.x, y: old_door_pos.y, z: door_z });
    // Bomb drop.
    let bomb_y = scale_div(anim.bomb_raw);
    proof {
        lemma_sdiv_bound(anim.bomb_raw as int, MAX_COORD as int);
    }
    let old_bomb_pos = scene.node(rig.bomb).position;
    scene.set_position(rig.bomb, Vec3 { x: old_bomb_pos.x, y: bomb_y, z: old_bomb_pos.z });
}

/// Whether `j` is a node written by one of the first `upto` rigs.
pub open spec fn node_in_fleet_prefix(rigs: Seq<HelicopterRig>, upto: int, j: int) -> bool {
    exists|k: int| 0 <= k < upto && node_in_rig(#[trigger] rigs[k], j)
}

/// A fleet of rigs: each well formed, and assembled one after another, so
/// no two rigs share a node.
pub open spec fn fleet_wf(rigs: Seq<HelicopterRig>, len: int) -> bool {
    &&& forall|k: int| 0 <= k < rigs.len() ==> rig_wf(#[trigger] rigs[k], len)
    &&& forall|k1: int, k2: int|
        0 <= k1 < k2 < rigs.len() ==> (#[trigger] rigs[k1]).bomb < (#[trigger] rigs[k2]).root
}

/// Runs one frame of the whole animation pass: every helicopter's rotors,
/// scripted flight, door and bomb, in fleet order, under the shared latched
/// triggers — the per-frame update over every node with scripted behavior.
pub fn update_fleet(
    scene: &mut Scene,
    rigs: &Vec<HelicopterRig>,
    anims: &mut Vec<HeliAnimation>,
    triggers: &Triggers,
    elapsed: i64,
    dt: i64,
)
    requires
        scene_wf(old(scene).nodes@),
        fleet_wf(rigs@, old(scene).nodes@.len() as int),
        old(anims)@.len() == rigs@.len(),
        0 <= dt <= MAX_DT,
        0 <= elapsed,
        forall|k: int|
            0 <= k < old(anims)@.len() ==> anim_state_ok(#[trigger] old(anims)@[k]) && elapsed
                + old(anims)@[k].phase <= i64::MAX - PI_FP,
    ensures
        scene_wf(final(scene).nodes@),
        final(scene).nodes@.len() == old(scene).nodes@.len(),
        final(anims)@.len() == rigs@.len(),
        forall|k: int|
            0 <= k < rigs@.len() ==> final(anims)@[k] == stepped_anim(
                #[trigger] old(anims)@[k],
                *triggers,
                dt as int,
            ),
        forall|j: int|
            0 <= j < old(scene).nodes@.len() && !node_in_fleet_prefix(rigs@, rigs@.len() as int, j)
                ==> final(scene).nodes@[j] == old(scene).nodes@[j],
        forall|k: int|
            0 <= k < rigs@.len() ==> heli_nodes_updated(
                old(scene).nodes@,
                final(scene).nodes@,
                #[trigger] rigs@[k],
                final(anims)@[k],
                elapsed as int,
            ),
{
    let ghost nodes0 = old(scene).nodes@;
    let ghost anims0 = old(anims)@;
    let n = rigs.len();
    let mut k: usize = 0;
    while k < n
        invariant
            n == rigs@.len(),
            k <= n,
            scene_wf(scene.nodes@),
            scene.nodes@.len() == nodes0.len(),
            fleet_wf(rigs@, nodes0.len() as int),
            anims@.len() == n,
            0 <= dt <= MAX_DT,
            0 <= elapsed,
            forall|k2: int|
                0 <= k2 < n ==> anim_state_ok(#[trigger] anims0[k2]) && elapsed + anims0[k2].phase
                    <= i64::MAX - PI_FP,
            forall|k2: int| k <= k2 < n ==> #[trigger] anims@[k2] == anims0[k2],
            forall|k2: int|
                0 <= k2 < k ==> #[trigger] anims@[k2] == stepped_anim(
                    anims0[k2],
                    *triggers,
                    dt as int,
                ),
            forall|j: int|
                0 <= j < nodes0.len() && !node_in_fleet_prefix(rigs@, k as int, j)
                    ==> scene.nodes@[j] == nodes0[j],
            forall|k2: int|
                0 <= k2 < k ==> heli_nodes_updated(
                    nodes0,
                    scene.nodes@,
                    #[trigger] rigs@[k2],
                    anims@[k2],
                    elapsed as int,
                ),
        decreases n - k,
    {
        let ghost nodes_before = scene.nodes@;
        let rig = rigs[k];
        let mut a = anims[k];
        proof {
            lemma_fleet_rig_fresh(rigs@, k as int, nodes0, nodes_before);
        }
        update_helicopter(scene, &rig, &mut a, triggers, elapsed, dt);
        anims.set(k, a);
        proof {
            lemma_fleet_untouched(rigs@, k as int, nodes0, nodes_before, scene.nodes@);
            lemma_fleet_earlier_preserved(
                rigs@,
                k as int,
                nodes0,
                nodes_before,
                scene.nodes@,
                anims@,
                elapsed as int,
            );
            assert(heli_nodes_updated(nodes0, scene.nodes@, rig, a, elapsed as int));
        }
        k = k + 1;
    }
}

/// In fleet order, a rig's nodes all lie strictly between the previous rig's
/// last node and the arena's end, so they are written by no earlier rig.
proof fn lemma_fleet_rig_fresh(
    rigs: Seq<HelicopterRig>,
    k: int,
    nodes0: Seq<SceneNode>,
    nb: Seq<SceneNode>,
)
    requires
        fleet_wf(rigs, nodes0.len() as int),
        0 <= k < rigs.len(),
        nb.len() == nodes0.len(),
        forall|j: int|
            0 <= j < nodes0.len() && !node_in_fleet_prefix(rigs, k, j) ==> nb[j] == nodes0[j],
    ensures
        forall|j: int| node_in_rig(rigs[k], j) ==> !node_in_fleet_prefix(rigs, k, j),
        nb[rigs[k].body as int] == nodes0[rigs[k].body as int],
        nb[rigs[k].door as int] == nodes0[rigs[k].door as int],
        nb[rigs[k].main_rotor as int] == nodes0[rigs[k].main_rotor as int],
        nb[rigs[k].tail_rotor as int] == nodes0[rigs[k].tail_rotor as int],
        nb[rigs[k].bomb as int] == nodes0[rigs[k].bomb as int],
{
    let rig = rigs[k];
    assert(rig_wf(rig, nodes0.len() as int));
    assert forall|j: int| node_in_rig(rig, j) implies !node_in_fleet_prefix(rigs, k, j) by {
        if node_in_fleet_prefix(rigs, k, j) {
            let k2 = choose|k2: int| 0 <= k2 < k && node_in_rig(#[trigger] rigs[k2], j);
            assert(rigs[k2].bomb < rigs[k].root);
            assert(rig_wf(rigs[k2], nodes0.len() as int));
        }
    }
    assert(!node_in_fleet_prefix(rigs, k, rig.body as int) && 0 <= rig.body < nodes0.len());
    assert(!node_in_fleet_prefix(rigs, k, rig.door as int) && 0 <= rig.door < nodes0.len());
    assert(!node_in_fleet_prefix(rigs, k, rig.main_rotor as int));
    assert(!node_in_fleet_prefix(rigs, k, rig.tail_rotor as int));
    assert(!node_in_fleet_prefix(rigs, k, rig.bomb as int));
}

/// A node outside the first `k + 1` rigs survives the first `k` rigs'
/// updates and the `k`-th rig's update alike.
proof fn lemma_fleet_untouched(
    rigs: Seq<HelicopterRig>,
    k: int,
    nodes0: Seq<SceneNode>,
    nb: Seq<SceneNode>,
    na: Seq<SceneNode>,
)
    requires
        0 <= k < rigs.len(),
        nb.len() == nodes0.len(),
        na.len() == nodes0.len(),
        forall|j: int|
            0 <= j < nodes0.len() && !node_in_fleet_prefix(rigs, k, j) ==> nb[j] == nodes0[j],
        forall|j: int| 0 <= j < nodes0.len() && !node_in_rig(rigs[k], j) ==> na[j] == nb[j],
    ensures
        forall|j: int|
            0 <= j < nodes0.len() && !node_in_fleet_prefix(rigs, k + 1, j) ==> na[j] == nodes0[j],
{
    assert forall|j: int|
        0 <= j < nodes0.len() && !node_in_fleet_prefix(rigs, k + 1, j) implies na[j]
        == nodes0[j] by {
        assert(!node_in_rig(rigs[k], j));
        assert(!node_in_fleet_prefix(rigs, k, j)) by {
            if node_in_fleet_prefix(rigs, k, j) {
                let k2 = choose|k2: int| 0 <= k2 < k && node_in_rig(#[trigger] rigs[k2], j);
            }
        }
    }
}

/// An earlier rig's frame effect survives a later rig's update: in fleet
/// order the two write disjoint nodes.
proof fn lemma_fleet_earlier_preserved(
    rigs: Seq<HelicopterRig>,
    k: int,
    nodes0: Seq<SceneNode>,
    nb: Seq<SceneNode>,
    na: Seq<SceneNode>,
    anims: Seq<HeliAnimation>,
    elapsed: int,
)
    requires
        fleet_wf(rigs, nodes0.len() as int),
        0 <= k < rigs.len(),
        anims.len() == rigs.len(),
        nb.len() == nodes0.len(),
        na.len() == nodes0.len(),
        forall|k2: int|
            0 <= k2 < k ==> heli_nodes_updated(nodes0, nb, #[trigger] rigs[k2], anims[k2], elapsed),
        forall|j: int| 0 <= j < nodes0.len() && !node_in_rig(rigs[k], j) ==> na[j] == nb[j],
    ensures
        forall|k2: int|
            0 <= k2 < k ==> heli_nodes_updated(nodes0, na, #[trigger] rigs[k2], anims[k2], elapsed),
{
    let rig = rigs[k];
    assert(rig_wf(rig, nodes0.len() as int));
    assert forall|k2: int|
        0 <= k2 < k implies heli_nodes_updated(
        nodes0,
        na,
        #[trigger] rigs[k2],
        anims[k2],
        elapsed,
    ) by {
        let r2 = rigs[k2];
        assert(rig_wf(r2, nodes0.len() as int));
        assert(r2.bomb < rig.root);
        assert(!node_in_rig(rig, r2.body as int) && na[r2.body as int] == nb[r2.body as int]);
        assert(!node_in_rig(rig, r2.door as int) && na[r2.door as int] == nb[r2.door as int]);
        assert(!node_in_rig(rig, r2.main_rotor as int) && na[r2.main_rotor as int]
            == nb[r2.main_rotor as int]);
        assert(!node_in_rig(rig, r2.tail_rotor as int) && na[r2.tail_rotor as int]
            == nb[r2.tail_rotor as int]);
        assert(!node_in_rig(rig, r2.bomb as int) && na[r2.bomb as int] == nb[r2.bomb as int]);
        assert(heli_nodes_updated(nodes0, nb, r2, anims[k2], elapsed));
    }
}

} // verus!
