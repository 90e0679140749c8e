use heliscene::anim::{
    add_helicopter, heading, update_helicopter, HeliAnimation, Triggers, BOMB_MIN_RAW,
    DOOR_MAX_RAW, DOOR_SPEED, DROP_SPEED, HELI_PHASE_OFFSET, ROTOR_SPEED,
};
use heliscene::scene::{Scene, SceneNode, NOT_RENDERABLE};
use heliscene::vec3::Vec3;

fn scene_with_root() -> (Scene, usize) {
    let mut scene = Scene::new();
    let root = scene.add_node(SceneNode::new());
    (scene, root)
}

fn rigged_scene() -> (Scene, heliscene::anim::HelicopterRig) {
    let (mut scene, root) = scene_with_root();
    let rig = add_helicopter(&mut scene, root, 1, 10, 2, 20, 3, 30, 4, 40, 5, 50);
    (scene, rig)
}

#[test]
fn helicopter_assembly_matches_the_layout() {
    let (scene, rig) = rigged_scene();
    assert_eq!(scene.len(), 8);
    let root = scene.node(rig.root);
    assert_eq!(root.index_count, NOT_RENDERABLE);
    assert_eq!(root.children, vec![rig.body]);
    let body = scene.node(rig.body);
    assert_eq!(body.vao_id, 1);
    assert_eq!(body.index_count, 10);
    assert_eq!(body.position, Vec3 { x: 0, y: 10_000_000, z: 0 });
    assert_eq!(body.rotation, Vec3 { x: 0, y: 3_140_000, z: 0 });
    assert_eq!(
        body.children,
        vec![rig.door, rig.main_rotor, rig.tail_rotor, rig.bomb_root]
    );
    let tail = scene.node(rig.tail_rotor);
    assert_eq!(
        tail.reference_point,
        Vec3 { x: 350_000, y: 2_300_000, z: 10_400_000 }
    );
    let bomb = scene.node(rig.bomb);
    assert_eq!(bomb.scale, Vec3 { x: 10_000, y: 10_000, z: 10_000 });
    assert_eq!(scene.node(rig.bomb_root).children, vec![rig.bomb]);
}

#[test]
fn door_clamps_exactly_at_its_bound() {
    // door_speed = 0.5 held for 4.0 s of simulated time: the offset is
    // exactly 1.6 — not 2.0 — and stays there.
    assert_eq!(DOOR_SPEED, 500_000);
    let mut anim = HeliAnimation::new(0);
    let mut previous = anim.door_raw;
    for _ in 0..8 {
        anim.step_door(true, 500_000);
        assert!(anim.door_raw >= previous);
        assert!(anim.door_raw <= DOOR_MAX_RAW);
        previous = anim.door_raw;
    }
    assert_eq!(anim.door_raw, DOOR_MAX_RAW);
    assert_eq!(anim.door_raw, 1_600_000_000_000);
    assert_ne!(anim.door_raw, 2_000_000_000_000);
    anim.step_door(true, 123_456_789);
    assert_eq!(anim.door_raw, DOOR_MAX_RAW);
}

#[test]
fn door_does_not_move_without_the_trigger() {
    let mut anim = HeliAnimation::new(0);
    anim.step_door(false, 4_000_000);
    assert_eq!(anim.door_raw, 0);
}

#[test]
fn bomb_reaches_its_floor_exactly_and_stays() {
    // drop_speed = 4.0 from y = 0: after 3.75 s simulated it reaches exactly
    // -15.0 and stays there for any further elapsed time.
    assert_eq!(DROP_SPEED, 4_000_000);
    let mut anim = HeliAnimation::new(0);
    let mut previous = anim.bomb_raw;
    for _ in 0..3 {
        anim.step_bomb(true, 1_250_000);
        assert!(anim.bomb_raw <= previous);
        assert!(anim.bomb_raw >= BOMB_MIN_RAW);
        previous = anim.bomb_raw;
    }
    assert_eq!(anim.bomb_raw, BOMB_MIN_RAW);
    assert_eq!(anim.bomb_raw, -15_000_000_000_000);
    anim.step_bomb(true, 10_000_000);
    assert_eq!(anim.bomb_raw, BOMB_MIN_RAW);
}

#[test]
fn rotor_angle_is_speed_times_time() {
    let mut anim = HeliAnimation::new(0);
    let steps = [16_666i64, 33_334, 1_000_000, 5_950_000];
    let mut total: i64 = 0;
    for &dt in steps.iter() {
        anim.step_rotors(dt);
        total += dt;
        assert_eq!(anim.main_rotor_raw, ROTOR_SPEED * total);
        assert_eq!(anim.tail_rotor_raw, ROTOR_SPEED * total);
    }
}

#[test]
fn phase_offset_shifts_the_trajectory_in_time() {
    // A helicopter with phase offset d, sampled at t, is placed exactly
    // where an unphased helicopter is at t + d.
    let d = HELI_PHASE_OFFSET;
    for &t in [0i64, 300_000, 1_234_567, 50_000_000].iter() {
        assert_eq!(heading(t + d), heading(t + d + 0));
        let (mut scene_a, rig_a) = rigged_scene();
        let (mut scene_b, rig_b) = rigged_scene();
        let mut anim_a = HeliAnimation::new(d);
        let mut anim_b = HeliAnimation::new(0);
        let triggers = Triggers::new();
        update_helicopter(&mut scene_a, &rig_a, &mut anim_a, &triggers, t, 16_666);
        update_helicopter(&mut scene_b, &rig_b, &mut anim_b, &triggers, t + d, 16_666);
        let body_a = scene_a.node(rig_a.body);
        let body_b = scene_b.node(rig_b.body);
        assert_eq!(body_a.position, body_b.position);
        assert_eq!(body_a.rotation, body_b.rotation);
    }
}

#[test]
fn update_writes_the_animated_fields() {
    let (mut scene, rig) = rigged_scene();
    let mut anim = HeliAnimation::new(0);
    let triggers = Triggers { door_open: true, bomb_dropped: true };
    // Two frames of 0.5 s each.
    update_helicopter(&mut scene, &rig, &mut anim, &triggers, 0, 500_000);
    update_helicopter(&mut scene, &rig, &mut anim, &triggers, 500_000, 500_000);
    // Rotors: 5 rad/s for 1 s, stored once-rounded in the node.
    assert_eq!(scene.node(rig.main_rotor).rotation.y, 5_000_000);
    assert_eq!(scene.node(rig.tail_rotor).rotation.x, 5_000_000);
    // Door: 0.5 units/s for 1 s.
    assert_eq!(scene.node(rig.door).position.z, 500_000);
    // Bomb: 4 units/s down for 1 s.
    assert_eq!(scene.node(rig.bomb).position.y, -4_000_000);
    // Body follows the scripted heading of the second frame.
    let h = heading(500_000);
    assert_eq!(scene.node(rig.body).position.x, h.x);
    assert_eq!(scene.node(rig.body).position.z, h.z);
    assert_eq!(scene.node(rig.body).position.y, 10_000_000);
    assert_eq!(
        scene.node(rig.body).rotation,
        Vec3 { x: h.pitch, y: h.yaw, z: h.roll }
    );
}

#[test]
fn fleet_update_runs_every_helicopter() {
    let (mut scene, root) = scene_with_root();
    let mut rigs = Vec::new();
    let mut anims = Vec::new();
    for i in 0..3 {
        rigs.push(add_helicopter(&mut scene, root, 1, 10, 2, 20, 3, 30, 4, 40, 5, 50));
        anims.push(HeliAnimation::new(heliscene::anim::HELI_PHASE_OFFSET * i));
    }
    let triggers = Triggers { door_open: true, bomb_dropped: false };
    heliscene::anim::update_fleet(&mut scene, &rigs, &mut anims, &triggers, 0, 1_000_000);
    for (i, rig) in rigs.iter().enumerate() {
        assert_eq!(anims[i].main_rotor_raw, ROTOR_SPEED * 1_000_000);
        assert_eq!(anims[i].door_raw, DOOR_SPEED * 1_000_000);
        assert_eq!(anims[i].bomb_raw, 0);
        assert_eq!(scene.node(rig.door).position.z, 500_000);
        let h = heading(heliscene::anim::HELI_PHASE_OFFSET * i as i64);
        assert_eq!(scene.node(rig.body).position.x, h.x);
        assert_eq!(scene.node(rig.body).position.z, h.z);
    }
}

#[test]
fn triggers_latch_and_never_reset() {
    let mut t = Triggers::new();
    assert!(!t.door_open && !t.bomb_dropped);
    t.latch_door();
    assert!(t.door_open && !t.bomb_dropped);
    t.latch_bomb();
    assert!(t.door_open && t.bomb_dropped);
    t.latch_door();
    assert!(t.door_open && t.bomb_dropped);
}
