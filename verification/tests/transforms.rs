use heliscene::compose::local_transform;
use heliscene::fixed::FP;
use heliscene::mat::Mat4;
use heliscene::scene::{Scene, SceneNode};
use heliscene::traverse::{render, DrawCall};
use heliscene::trig::{cos_fp, sin_fp, PI_FP, TAU_FP};
use heliscene::vec3::Vec3;

fn unit_scale() -> Vec3 {
    Vec3 { x: FP, y: FP, z: FP }
}

#[test]
fn trig_zero_is_exact() {
    assert_eq!(sin_fp(0), 0);
    assert_eq!(cos_fp(0), FP);
}

#[test]
fn trig_is_bounded_and_periodic() {
    let samples = [
        -10 * TAU_FP - 123,
        -PI_FP,
        -1,
        0,
        1,
        333_333,
        HALF_TURN,
        PI_FP,
        PI_FP + 1,
        5 * TAU_FP + 777,
        i64::MAX - TAU_FP,
    ];
    for &x in samples.iter() {
        let s = sin_fp(x);
        let c = cos_fp(x);
        assert!(-FP <= s && s <= FP);
        assert!(-FP <= c && c <= FP);
        assert_eq!(sin_fp(x + TAU_FP), s);
        assert_eq!(cos_fp(x + TAU_FP), c);
    }
}

const HALF_TURN: i64 = 1_570_796;

#[test]
fn sine_peaks_near_one() {
    let s = sin_fp(HALF_TURN);
    assert!(s > 999_000 && s <= FP);
    let c = cos_fp(PI_FP);
    assert!(c < -999_000 && c >= -FP);
}

#[test]
fn pivot_point_is_invariant_under_rotation() {
    // Applying the local transform to the reference point itself yields
    // position + reference point, whatever the rotation angles.
    let position = Vec3 { x: 2_500_000, y: -1_000_000, z: 750_000 };
    let reference_point = Vec3 { x: 350_000, y: 2_300_000, z: 10_400_000 };
    let rotations = [
        Vec3 { x: 0, y: 0, z: 0 },
        Vec3 { x: 123_456, y: -987_654, z: 314_159 },
        Vec3 { x: 44 * TAU_FP + 1, y: 2_000_000, z: -7 },
    ];
    for rotation in rotations.iter() {
        let local = local_transform(&position, rotation, &unit_scale(), &reference_point);
        let image = local.apply_point(&reference_point);
        assert_eq!(
            image,
            Vec3 {
                x: position.x + reference_point.x,
                y: position.y + reference_point.y,
                z: position.z + reference_point.z,
            }
        );
    }
}

#[test]
fn zero_rotation_local_is_pure_translation() {
    let position = Vec3 { x: 0, y: 10_000_000, z: 0 };
    let reference_point = Vec3 { x: 1_000_000, y: 2_000_000, z: 3_000_000 };
    let local = local_transform(
        &position,
        &Vec3 { x: 0, y: 0, z: 0 },
        &unit_scale(),
        &reference_point,
    );
    assert_eq!(local, Mat4::translation(&position));
}

#[test]
fn render_emits_translation_mvp_for_identity_view() {
    // One renderable node at (0, 10, 0), identity rotation and scale,
    // rendered under an identity view-projection and accumulated transform:
    // the MVP is exactly the translation by (0, 10, 0).
    let mut scene = Scene::new();
    let mut node = SceneNode::from_vao(7, 36);
    node.position = Vec3 { x: 0, y: 10_000_000, z: 0 };
    let root = scene.add_node(node);
    let identity = Mat4::identity();
    let mut draws: Vec<DrawCall> = Vec::new();
    render(&scene, root, &identity, &identity, &mut draws);
    assert_eq!(draws.len(), 1);
    assert_eq!(draws[0].vao_id, 7);
    assert_eq!(draws[0].index_count, 36);
    let expected = Mat4::translation(&Vec3 { x: 0, y: 10_000_000, z: 0 });
    assert_eq!(draws[0].mvp, expected);
    assert_eq!(draws[0].model, expected);
}

#[test]
fn world_transforms_compose_along_a_chain() {
    // For a chain a -> b the traversal's worlds are the direct compositions
    // world_a = acc * local(a), world_b = world_a * local(b).
    let mut scene = Scene::new();
    let mut a = SceneNode::from_vao(1, 3);
    a.position = Vec3 { x: 4_000_000, y: 0, z: -2_000_000 };
    a.rotation = Vec3 { x: 0, y: 777_777, z: 0 };
    let mut b = SceneNode::from_vao(2, 6);
    b.position = Vec3 { x: 0, y: 1_500_000, z: 0 };
    b.rotation = Vec3 { x: -123_456, y: 0, z: 654_321 };
    b.reference_point = Vec3 { x: 350_000, y: 2_300_000, z: 10_400_000 };
    let ia = scene.add_node(a);
    let ib = scene.add_node(b);
    scene.add_child(ia, ib);

    let identity = Mat4::identity();
    let mut draws: Vec<DrawCall> = Vec::new();
    render(&scene, ia, &identity, &identity, &mut draws);
    assert_eq!(draws.len(), 2);

    let na = scene.node(ia);
    let nb = scene.node(ib);
    let local_a = local_transform(&na.position, &na.rotation, &na.scale, &na.reference_point);
    let local_b = local_transform(&nb.position, &nb.rotation, &nb.scale, &nb.reference_point);
    let world_a = identity.mul(&local_a);
    let world_b = world_a.mul(&local_b);
    assert_eq!(draws[0].model, world_a);
    assert_eq!(draws[1].model, world_b);
    assert_eq!(draws[0].mvp, identity.mul(&world_a));
    assert_eq!(draws[1].mvp, identity.mul(&world_b));
}

#[test]
fn non_renderable_nodes_emit_no_draws() {
    let mut scene = Scene::new();
    let group = scene.add_node(SceneNode::new());
    let leaf = scene.add_node(SceneNode::from_vao(3, 9));
    scene.add_child(group, leaf);
    let identity = Mat4::identity();
    let mut draws: Vec<DrawCall> = Vec::new();
    render(&scene, group, &identity, &identity, &mut draws);
    assert_eq!(draws.len(), 1);
    assert_eq!(draws[0].vao_id, 3);
}

#[test]
fn identity_matrix_is_a_unit_for_the_product() {
    let t = Mat4::translation(&Vec3 { x: 123, y: -456, z: 789 });
    let identity = Mat4::identity();
    assert_eq!(identity.mul(&t), t);
    assert_eq!(t.mul(&identity), t);
}

#[test]
fn apply_point_translates() {
    let t = Mat4::translation(&Vec3 { x: 10, y: 20, z: 30 });
    let p = t.apply_point(&Vec3 { x: 1, y: 2, z: 3 });
    assert_eq!(p, Vec3 { x: 11, y: 22, z: 33 });
}
