//! The scene traverser: parent-before-children walk that composes world
//! transforms and emits one draw call per renderable node.
//!
//! `render` is the pure half of a frame's draw pass: it computes, for every
//! renderable node reached from the root, the world transform
//! `World = accumulated * Local` and the clip transform
//! `MVP = view_projection * World`, in traversal order (a node before its
//! children, children in insertion order). Submitting the draw calls to the
//! GPU is the caller's business. The traversal recomputes every transform on
//! every call; nothing is cached, so there is no staleness to manage.

use crate::compose::{s_local, MAX_LOCAL};
use crate::mat::{s_in_range, s_mul, Mat4, SMat4, MAX_ENTRY};
use crate::scene::{scene_wf, Scene, SceneNode};
use vstd::prelude::*;

verus! {

/// The model of one draw call: which mesh, and at which transforms.
pub ghost struct SDraw {
    pub vao_id: u32,
    pub index_count: i32,
    pub mvp: SMat4,
    pub model: SMat4,
}

/// One pending draw: bind `vao_id`, upload `mvp` and `model`, draw
/// `index_count` indices.
#[derive(Clone, Copy, Debug, PartialEq, Eq, Structural)]
pub struct DrawCall {
    pub vao_id: u32,
    pub index_count: i32,
    pub mvp: Mat4,
    pub model: Mat4,
}

impl View for DrawCall {
    type V = SDraw;

    open spec fn view(&self) -> SDraw {
        SDraw { vao_id: self.vao_id, index_count: self.index_count, mvp: self.mvp@, model: self.model@ }
    }
}

/// A node's local matrix from its transform fields.
pub open spec fn s_local_of(n: SceneNode) -> SMat4 {
    s_local(n.position, n.rotation, n.scale, n.reference_point)
}

/// The draw calls emitted for node `i` and its subtree, given the
/// accumulated parent transform `acc`.
pub open spec fn spec_draws(nodes: Seq<SceneNode>, i: int, vp: SMat4, acc: SMat4) -> Seq<SDraw>
    decreases nodes.len() - i, nodes[i].children@.len() + 1,
{
    if 0 <= i < nodes.len() {
        let world = s_mul(acc, s_local_of(nodes[i]));
        let own = if nodes[i].index_count >= 0 {
            seq![
                SDraw {
                    vao_id: nodes[i].vao_id,
                    index_count: nodes[i].index_count,
                    mvp: s_mul(vp, world),
                    model: world,
                },
            ]
        } else {
            Seq::<SDraw>::empty()
        };
        own + spec_draws_children(nodes, i, 0, vp, world)
    } else {
        Seq::<SDraw>::empty()
    }
}

/// The draw calls of children `k..` of node `i`, each subtree at the world
/// transform `world` of node `i`.
pub open spec fn spec_draws_children(
    nodes: Seq<SceneNode>,
    i: int,
    k: int,
    vp: SMat4,
    world: SMat4,
) -> Seq<SDraw>
    decreases nodes.len() - i, nodes[i].children@.len() - k,
{
    if 0 <= i < nodes.len() && 0 <= k < nodes[i].children@.len() {
        let c = nodes[i].children@[k] as int;
        let head = if i < c < nodes.len() {
            spec_draws(nodes, c, vp, world)
        } else {
            Seq::<SDraw>::empty()
        };
        head + spec_draws_children(nodes, i, k + 1, vp, world)
    } else {
        Seq::<SDraw>::empty()
    }
}

/// Every transform product along the subtree of `i` stays within the
/// fixed-point entry range — the machine limit under which the traversal is
/// exact.
pub open spec fn chain_ok(nodes: Seq<SceneNode>, i: int, vp: SMat4, acc: SMat4) -> bool
    decreases nodes.len() - i, nodes[i].children@.len() + 1,
{
    if 0 <= i < nodes.len() {
        let world = s_mul(acc, s_local_of(nodes[i]));
        &&& s_in_range(acc, MAX_ENTRY as int)
        &&& s_in_range(world, MAX_ENTRY as int)
        &&& s_in_range(s_mul(vp, world), MAX_ENTRY as int)
        &&& chain_ok_children(nodes, i, 0, vp, world)
    } else {
        true
    }
}

/// `chain_ok` over children `k..` of node `i`.
pub open spec fn chain_ok_children(
    nodes: Seq<SceneNode>,
    i: int,
    k: int,
    vp: SMat4,
    world: SMat4,
) -> bool
    decreases nodes.len() - i, nodes[i].children@.len() - k,
{
    if 0 <= i < nodes.len() && 0 <= k < nodes[i].children@.len() {
        let c = nodes[i].children@[k] as int;
        &&& (i < c < nodes.len() ==> chain_ok(nodes, c, vp, world))
        &&& chain_ok_children(nodes, i, k + 1, vp, world)
    } else {
        true
    }
}

/// The models of a sequence of draw calls.
pub open spec fn draws_model(s: Seq<DrawCall>) -> Seq<SDraw> {
    s.map_values(|d: DrawCall| d@)
}

/// Walks the subtree of `root`, appending one draw call per renderable node
/// visited: parent before children, children in insertion order.
pub fn render(scene: &Scene, root: usize, vp: &Mat4, acc: &Mat4, draws: &mut Vec<DrawCall>)
    requires
        scene_wf(scene.nodes@),
        root < scene.nodes@.len(),
        s_in_range(vp@, MAX_ENTRY as int),
        chain_ok(scene.nodes@, root as int, vp@, acc@),
    ensures
        draws_model(final(draws)@) == draws_model(old(draws)@) + spec_draws(
            scene.nodes@,
            root as int,
            vp@,
            acc@,
        ),
    decreases scene.nodes@.len() - root,
{
    let ghost nodes = scene.nodes@;
    let node = scene.node(root);
    let local = crate::compose::local_transform(
        &node.position,
        &node.rotation,
        &node.scale,
        &node.reference_point,
    );
    proof {
        assert(MAX_LOCAL <= MAX_ENTRY);
    }
    let world = acc.mul(&local);
    let ghost own =
        if node.index_count >= 0 {
            seq![
                SDraw {
                    vao_id: node.vao_id,
                    index_count: node.index_count,
                    mvp: s_mul(vp@, world@),
                    model: world@,
                },
            ]
        } else {
            Seq::<SDraw>::empty()
        };
    if node.index_count >= 0 {
        let mvp = vp.mul(&world);
        draws.push(
            DrawCall { vao_id: node.vao_id, index_count: node.index_count, mvp, model: world },
        );
        proof {
            assert(draws_model(draws@) =~= draws_model(old(draws)@) + own);
        }
    } else {
        proof {
            assert(draws_model(draws@) =~= draws_model(old(draws)@) + own);
        }
    }
    let num_children = node.children.len();
    let ghost base = draws_model(old(draws)@) + own;
    let mut k: usize = 0;
    while k < num_children
        invariant
            scene_wf(nodes),
            root < nodes.len(),
            nodes == scene.nodes@,
            node == &nodes[root as int],
            num_children == nodes[root as int].children@.len(),
            k <= num_children,
            s_in_range(vp@, MAX_ENTRY as int),
            world@ == s_mul(acc@, s_local_of(nodes[root as int])),
            chain_ok_children(nodes, root as int, k as int, vp@, world@),
            draws_model(draws@) + spec_draws_children(nodes, root as int, k as int, vp@, world@)
                == base + spec_draws_children(nodes, root as int, 0, vp@, world@),
        decreases num_children - k,
    {
        let c = node.children[k];
        proof {
            assert(nodes[root as int].children@[k as int] == c);
            assert((root as int) < c < nodes.len());
            assert(chain_ok(nodes, c as int, vp@, world@));
        }
        render(scene, c, vp, &world, draws);
        proof {
            assert(spec_draws_children(nodes, root as int, k as int, vp@, world@) == spec_draws(
                nodes,
                c as int,
                vp@,
                world@,
            ) + spec_draws_children(nodes, root as int, k as int + 1, vp@, world@));
            broadcast use vstd::seq_lib::group_seq_properties;
        }
        k = k + 1;
    }
    proof {
        assert(spec_draws_children(nodes, root as int, num_children as int, vp@, world@)
            =~= Seq::<SDraw>::empty());
        assert(draws_model(draws@) =~= base + spec_draws_children(nodes, root as int, 0, vp@, world@));
        assert(base + spec_draws_children(nodes, root as int, 0, vp@, world@) =~= draws_model(
            old(draws)@,
        ) + spec_draws(nodes, root as int, vp@, acc@));
    }
}

/// TRANSLATION SCENE: a renderable leaf with zero rotation, unit scale and
/// position `p`, drawn under the identity view-projection and identity
/// accumulated transform, yields exactly one draw whose MVP (and model) is
/// the translation by `p` — whatever its reference point.
pub proof fn lemma_translation_node_draw(nodes: Seq<SceneNode>, i: int)
    requires
        0 <= i < nodes.len(),
        nodes[i].rotation == (crate::vec3::Vec3 { x: 0, y: 0, z: 0 }),
        nodes[i].scale == (crate::vec3::Vec3 {
            x: crate::fixed::FP as i64,
            y: crate::fixed::FP as i64,
            z: crate::fixed::FP as i64,
        }),
        nodes[i].index_count >= 0,
        nodes[i].children@.len() == 0,
    ensures
        ({
            let t = crate::mat::s_translation(
                nodes[i].position.x as int,
                nodes[i].position.y as int,
                nodes[i].position.z as int,
            );
            spec_draws(nodes, i, crate::mat::s_identity(), crate::mat::s_identity()) == seq![
                SDraw {
                    vao_id: nodes[i].vao_id,
                    index_count: nodes[i].index_count,
                    mvp: t,
                    model: t,
                },
            ]
        }),
{
    let t = crate::mat::s_translation(
        nodes[i].position.x as int,
        nodes[i].position.y as int,
        nodes[i].position.z as int,
    );
    crate::compose::lemma_zero_rotation_local(nodes[i].position, nodes[i].reference_point);
    assert(s_local_of(nodes[i]) == t);
    crate::compose::lemma_identity_mul_left(t);
    assert(spec_draws_children(nodes, i, 0, crate::mat::s_identity(), t) =~= Seq::<
        SDraw,
    >::empty());
    assert(spec_draws(nodes, i, crate::mat::s_identity(), crate::mat::s_identity()) =~= seq![
        SDraw {
            vao_id: nodes[i].vao_id,
            index_count: nodes[i].index_count,
            mvp: t,
            model: t,
        },
    ]);
}

/// WORLD COMPOSITION: for a chain `root -> a -> b` (node `a` with single
/// child `b`, both renderable, `b` a leaf), the traversal's draw list is
/// exactly the two draws whose world transforms are the direct compositions
/// `world_a = acc * local(a)` and `world_b = world_a * local(b)`.
pub proof fn lemma_world_composition(
    nodes: Seq<SceneNode>,
    a: int,
    b: usize,
    vp: SMat4,
    acc: SMat4,
)
    requires
        0 <= a < b < nodes.len(),
        nodes[a].children@ == seq![b],
        nodes[b as int].children@.len() == 0,
        nodes[a].index_count >= 0,
        nodes[b as int].index_count >= 0,
    ensures
        ({
            let world_a = s_mul(acc, s_local_of(nodes[a]));
            let world_b = s_mul(world_a, s_local_of(nodes[b as int]));
            spec_draws(nodes, a, vp, acc) == seq![
                SDraw {
                    vao_id: nodes[a].vao_id,
                    index_count: nodes[a].index_count,
                    mvp: s_mul(vp, world_a),
                    model: world_a,
                },
                SDraw {
                    vao_id: nodes[b as int].vao_id,
                    index_count: nodes[b as int].index_count,
                    mvp: s_mul(vp, world_b),
                    model: world_b,
                },
            ]
        }),
{
    let world_a = s_mul(acc, s_local_of(nodes[a]));
    let world_b = s_mul(world_a, s_local_of(nodes[b as int]));
    assert(nodes[a].children@[0] == b);
    assert(spec_draws_children(nodes, b as int, 0, vp, world_b) =~= Seq::<SDraw>::empty());
    assert(spec_draws(nodes, b as int, vp, world_a) =~= seq![
        SDraw {
            vao_id: nodes[b as int].vao_id,
            index_count: nodes[b as int].index_count,
            mvp: s_mul(vp, world_b),
            model: world_b,
        },
    ]);
    assert(spec_draws_children(nodes, a, 1, vp, world_a) =~= Seq::<SDraw>::empty());
    assert(spec_draws_children(nodes, a, 0, vp, world_a) =~= spec_draws(
        nodes,
        b as int,
        vp,
        world_a,
    ));
    assert(spec_draws(nodes, a, vp, acc) =~= seq![
        SDraw {
            vao_id: nodes[a].vao_id,
            index_count: nodes[a].index_count,
            mvp: s_mul(vp, world_a),
            model: world_a,
        },
    ] + spec_draws_children(nodes, a, 0, vp, world_a));
    assert(spec_draws(nodes, a, vp, acc) =~= seq![
        SDraw {
            vao_id: nodes[a].vao_id,
            index_count: nodes[a].index_count,
            mvp: s_mul(vp, world_a),
            model: world_a,
        },
        SDraw {
            vao_id: nodes[b as int].vao_id,
            index_count: nodes[b as int].index_count,
            mvp: s_mul(vp, world_b),
            model: world_b,
        },
    ]);
}

} // verus!
