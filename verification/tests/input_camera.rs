use heliscene::anim::Triggers;
use heliscene::camera::{
    isqrt64, perspective, update_camera, view_matrix, Camera, CAMERA_SPEED, PITCH_LIMIT, START_Z,
};
use heliscene::fixed::FP;
use heliscene::input::{Key, KeySet, PointerDelta, WindowSize};
use heliscene::vec3::Vec3;

#[test]
fn pointer_deltas_sum_and_reset_once_per_read() {
    let mut cell = PointerDelta::new();
    // Writes from the event context between two frame reads...
    cell.accumulate(3, -4);
    cell.accumulate(10, 20);
    cell.accumulate(-1, 1);
    // ...are all reflected in the next read, which resets the cell.
    assert_eq!(cell.take(), (12, 17));
    assert_eq!(cell.take(), (0, 0));
    cell.accumulate(5, 6);
    assert_eq!(cell.take(), (5, 6));
}

#[test]
fn key_set_tracks_membership_without_duplicates() {
    let mut keys = KeySet::new();
    keys.press(Key::W);
    keys.press(Key::K);
    keys.press(Key::W);
    assert!(keys.contains(Key::W));
    assert!(keys.contains(Key::K));
    assert!(!keys.contains(Key::B));
    assert_eq!(keys.keys.len(), 2);
    keys.release(Key::W);
    assert!(!keys.contains(Key::W));
    assert!(keys.contains(Key::K));
    keys.release(Key::B);
    assert_eq!(keys.keys.len(), 1);
}

#[test]
fn resize_cell_hands_out_the_pending_size_once() {
    let mut cell = WindowSize::new(800, 600);
    assert_eq!(cell.take(), None);
    cell.set(1024, 768);
    cell.set(1280, 720);
    assert_eq!(cell.take(), Some((1280, 720)));
    assert_eq!(cell.take(), None);
}

#[test]
fn isqrt_is_exact_on_squares_and_between_them() {
    assert_eq!(isqrt64(0), 0);
    assert_eq!(isqrt64(1), 1);
    assert_eq!(isqrt64(2), 1);
    assert_eq!(isqrt64(3), 1);
    assert_eq!(isqrt64(4), 2);
    assert_eq!(isqrt64(15), 3);
    assert_eq!(isqrt64(16), 4);
    assert_eq!(isqrt64(1_000_000_000_000), 1_000_000);
    assert_eq!(isqrt64(u64::MAX), 4_294_967_295);
}

#[test]
fn pitch_clamps_at_sixty_degrees() {
    let mut cam = Camera::new();
    let mut triggers = Triggers::new();
    let mut keys = KeySet::new();
    keys.press(Key::Up);
    for _ in 0..10 {
        update_camera(&mut cam, &mut triggers, &keys, 200_000);
    }
    assert_eq!(cam.pitch, PITCH_LIMIT);
    keys.release(Key::Up);
    keys.press(Key::Down);
    for _ in 0..30 {
        update_camera(&mut cam, &mut triggers, &keys, 200_000);
    }
    assert_eq!(cam.pitch, -PITCH_LIMIT);
}

#[test]
fn reset_restores_the_startup_pose() {
    let mut cam = Camera::new();
    let mut triggers = Triggers::new();
    let mut keys = KeySet::new();
    keys.press(Key::Right);
    keys.press(Key::W);
    update_camera(&mut cam, &mut triggers, &keys, 100_000);
    assert_ne!(cam, Camera::new());
    keys.release(Key::Right);
    keys.release(Key::W);
    keys.press(Key::R);
    update_camera(&mut cam, &mut triggers, &keys, 100_000);
    assert_eq!(cam, Camera::new());
}

#[test]
fn holding_forward_moves_at_fixed_speed() {
    // At the startup pose forward is exactly (0, 0, -1); half a second at
    // 20 units per second moves the camera 10 units along -z.
    let mut cam = Camera::new();
    let mut triggers = Triggers::new();
    let mut keys = KeySet::new();
    keys.press(Key::W);
    update_camera(&mut cam, &mut triggers, &keys, 500_000);
    assert_eq!(cam.position, Vec3 { x: 0, y: 0, z: START_Z - 10_000_000 });
    assert_eq!(cam.yaw, 0);
    assert_eq!(cam.pitch, 0);
}

#[test]
fn trigger_keys_latch_through_the_camera_pass() {
    let mut cam = Camera::new();
    let mut triggers = Triggers::new();
    let mut keys = KeySet::new();
    keys.press(Key::K);
    update_camera(&mut cam, &mut triggers, &keys, 16_666);
    assert!(triggers.door_open && !triggers.bomb_dropped);
    keys.release(Key::K);
    keys.press(Key::B);
    update_camera(&mut cam, &mut triggers, &keys, 16_666);
    assert!(triggers.door_open && triggers.bomb_dropped);
}

#[test]
fn startup_view_matrix_matches_the_closed_form() {
    let cam = Camera::new();
    let v = view_matrix(&cam);
    // right = (1, 0, 0), up = (0, 1, 0), forward = (0, 0, -1); the eye sits
    // one unit along +z, so the backward row carries -1 unit.
    assert_eq!((v.m00, v.m01, v.m02, v.m03), (FP, 0, 0, 0));
    assert_eq!((v.m10, v.m11, v.m12, v.m13), (0, FP, 0, 0));
    assert_eq!((v.m20, v.m21, v.m22, v.m23), (0, 0, FP, -1_000_000));
    assert_eq!((v.m30, v.m31, v.m32, v.m33), (0, 0, 0, FP));
}

#[test]
fn perspective_entries_match_the_fixed_parameters() {
    let p = perspective(FP);
    assert_eq!(p.m11, 1_191_753);
    assert_eq!(p.m00, p.m11);
    assert_eq!(p.m22, -1_002_002);
    assert_eq!(p.m23, -2_002_002);
    assert_eq!(p.m32, -FP);
    assert_eq!(p.m33, 0);
    // A wider window shrinks the horizontal focal entry only.
    let wide = perspective(2 * FP);
    assert_eq!(wide.m11, p.m11);
    assert!(wide.m00 < p.m00);
    assert_eq!(CAMERA_SPEED, 20_000_000);
}
