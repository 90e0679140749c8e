//! The scene graph: a strict tree of transformable nodes, some carrying
//! renderable geometry.
//!
//! Nodes live in an arena (`Scene::nodes`) and a node's children are arena
//! indices. Children are only ever appended, and a child's index is always
//! greater than its parent's, so the graph is acyclic by construction and a
//! traversal terminates. Well-formedness ([`scene_wf`]) also demands that
//! every node is the child of at most one parent slot (a strict tree: no
//! sharing, no reparenting) and that transform fields stay within the
//! compositor's fixed-point ranges. Topology is fixed after assembly; the
//! per-frame animation pass only rewrites transform fields through the
//! setters, which preserve well-formedness.

use crate::compose::{MAX_COORD, MAX_SCALE};
use crate::fixed::FP;
use crate::vec3::{v3_in_range, Vec3};
use vstd::prelude::*;

verus! {

/// Index count marking a pure grouping node that issues no draw call.
pub const NOT_RENDERABLE: i32 = -1;

/// A scene-graph node: local transform fields, an optional renderable
/// reference (`index_count == NOT_RENDERABLE` means none), and the arena
/// indices of its children.
#[derive(Clone, Debug)]
pub struct SceneNode {
    /// Local translation, in fixed-point world units.
    pub position: Vec3,
    /// Euler angles in fixed-point radians, applied as x of y of z.
    pub rotation: Vec3,
    /// Per-axis scale factors, `FP` being the identity.
    pub scale: Vec3,
    /// Pivot about which rotation and scale are applied.
    pub reference_point: Vec3,
    /// GPU vertex-array handle; meaningful only when renderable.
    pub vao_id: u32,
    /// Number of indices to draw, or `NOT_RENDERABLE`.
    pub index_count: i32,
    /// Arena indices of the owned children, in insertion order.
    pub children: Vec<usize>,
}

impl SceneNode {
    /// A non-renderable grouping node with the identity transform.
    pub fn new() -> (n: SceneNode)
        ensures
            n.position == (Vec3 { x: 0, y: 0, z: 0 }),
            n.rotation == (Vec3 { x: 0, y: 0, z: 0 }),
            n.scale == (Vec3 { x: FP as i64, y: FP as i64, z: FP as i64 }),
            n.reference_point == (Vec3 { x: 0, y: 0, z: 0 }),
            n.vao_id == 0,
            n.index_count == NOT_RENDERABLE,
            n.children@.len() == 0,
            node_fields_ok(n),
    {
        SceneNode {
            position: Vec3 { x: 0, y: 0, z: 0 },
            rotation: Vec3 { x: 0, y: 0, z: 0 },
            scale: Vec3 { x: FP, y: FP, z: FP },
            reference_point: Vec3 { x: 0, y: 0, z: 0 },
            vao_id: 0,
            index_count: NOT_RENDERABLE,
            children: Vec::new(),
        }
    }

    /// A node bound to a GPU-resident mesh, with the identity transform.
    pub fn from_vao(vao_id: u32, index_count: i32) -> (n: SceneNode)
        requires
            index_count >= 0,
        ensures
            n.position == (Vec3 { x: 0, y: 0, z: 0 }),
            n.rotation == (Vec3 { x: 0, y: 0, z: 0 }),
            n.scale == (Vec3 { x: FP as i64, y: FP as i64, z: FP as i64 }),
            n.reference_point == (Vec3 { x: 0, y: 0, z: 0 }),
            n.vao_id == vao_id,
            n.index_count == index_count,
            n.children@.len() == 0,
            node_fields_ok(n),
    {
        SceneNode {
            position: Vec3 { x: 0, y: 0, z: 0 },
            rotation: Vec3 { x: 0, y: 0, z: 0 },
            scale: Vec3 { x: FP, y: FP, z: FP },
            reference_point: Vec3 { x: 0, y: 0, z: 0 },
            vao_id,
            index_count,
            children: Vec::new(),
        }
    }
}

/// Transform fields within the compositor's ranges, and a valid renderable
/// reference.
pub open spec fn node_fields_ok(n: SceneNode) -> bool {
    &&& v3_in_range(n.position, MAX_COORD as int)
    &&& v3_in_range(n.reference_point, MAX_COORD as int)
    &&& v3_in_range(n.scale, MAX_SCALE as int)
    &&& n.index_count >= NOT_RENDERABLE
}

/// Every child index of node `i` points into the arena, past `i` itself.
pub open spec fn node_edges_ok(nodes: Seq<SceneNode>, i: int) -> bool {
    forall|k: int|
        0 <= k < nodes[i].children@.len() ==> i < #[trigger] nodes[i].children@[k] < nodes.len()
}

/// No node is the child of two parent slots: the graph is a strict tree
/// (together with `node_edges_ok`, which already rules out cycles).
pub open spec fn single_parent(nodes: Seq<SceneNode>) -> bool {
    forall|p1: int, k1: int, p2: int, k2: int|
        0 <= p1 < nodes.len() && 0 <= k1 < nodes[p1].children@.len() && 0 <= p2 < nodes.len()
            && 0 <= k2 < nodes[p2].children@.len()
            && #[trigger] nodes[p1].children@[k1] == #[trigger] nodes[p2].children@[k2] ==> p1
            == p2 && k1 == k2
}

/// Whether some parent slot already points at `c`.
pub open spec fn has_parent(nodes: Seq<SceneNode>, c: int) -> bool {
    exists|p: int, k: int|
        0 <= p < nodes.len() && 0 <= k < nodes[p].children@.len()
            && #[trigger] nodes[p].children@[k] == c
}

/// Scene well-formedness: bounded fields, forward edges, strict tree.
pub open spec fn scene_wf(nodes: Seq<SceneNode>) -> bool {
    &&& forall|i: int|
        0 <= i < nodes.len() ==> node_fields_ok(#[trigger] nodes[i]) && node_edges_ok(nodes, i)
    &&& single_parent(nodes)
}

/// Two nodes that agree on everything but the child list.
pub open spec fn same_but_children(a: SceneNode, b: SceneNode) -> bool {
    &&& a.position == b.position
    &&& a.rotation == b.rotation
    &&& a.scale == b.scale
    &&& a.reference_point == b.reference_point
    &&& a.vao_id == b.vao_id
    &&& a.index_count == b.index_count
}

/// Rewriting the transform fields of one node (its child list untouched)
/// preserves well-formedness, provided the new fields are in range.
proof fn lemma_wf_update_fields(prev: Seq<SceneNode>, nodes: Seq<SceneNode>, i: int)
    requires
        scene_wf(prev),
        0 <= i < prev.len(),
        nodes.len() == prev.len(),
        forall|j: int| 0 <= j < prev.len() && j != i ==> nodes[j] == prev[j],
        nodes[i].children@ == prev[i].children@,
        node_fields_ok(nodes[i]),
    ensures
        scene_wf(nodes),
{
    assert forall|j: int|
        0 <= j < nodes.len() implies node_fields_ok(#[trigger] nodes[j]) && node_edges_ok(
        nodes,
        j,
    ) by {
        assert(nodes[j].children@ == prev[j].children@);
        assert(node_edges_ok(prev, j));
        assert forall|k: int|
            0 <= k < nodes[j].children@.len() implies j < #[trigger] nodes[j].children@[k]
                < nodes.len() by {
            assert(nodes[j].children@[k] == prev[j].children@[k]);
        }
    }
    assert(single_parent(nodes)) by {
        assert forall|p1: int, k1: int, p2: int, k2: int|
            0 <= p1 < nodes.len() && 0 <= k1 < nodes[p1].children@.len() && 0 <= p2 < nodes.len()
                && 0 <= k2 < nodes[p2].children@.len() && #[trigger] nodes[p1].children@[k1]
                == #[trigger] nodes[p2].children@[k2] implies p1 == p2 && k1 == k2 by {
            assert(nodes[p1].children@ == prev[p1].children@);
            assert(nodes[p2].children@ == prev[p2].children@);
        }
    }
}

/// The arena holding every node of a scene.
pub struct Scene {
    pub nodes: Vec<SceneNode>,
}

impl Scene {
    /// An empty scene.
    pub fn new() -> (s: Scene)
        ensures
            s.nodes@.len() == 0,
            scene_wf(s.nodes@),
    {
        Scene { nodes: Vec::new() }
    }

    /// The number of nodes in the arena.
    pub fn len(&self) -> (n: usize)
        ensures
            n == self.nodes@.len(),
    {
        self.nodes.len()
    }

    /// A reference to node `i`.
    pub fn node(&self, i: usize) -> (n: &SceneNode)
        requires
            i < self.nodes@.len(),
        ensures
            *n == self.nodes@[i as int],
    {
        &self.nodes[i]
    }

    /// Adds a free-standing (childless, parentless) node to the arena and
    /// returns its index.
    pub fn add_node(&mut self, node: SceneNode) -> (idx: usize)
        requires
            scene_wf(old(self).nodes@),
            node_fields_ok(node),
            node.children@.len() == 0,
            old(self).nodes@.len() < usize::MAX,
        ensures
            idx == old(self).nodes@.len(),
            final(self).nodes@ == old(self).nodes@.push(node),
            scene_wf(final(self).nodes@),
            !has_parent(final(self).nodes@, idx as int),
    {
        let idx = self.nodes.len();
        self.nodes.push(node);
        proof {
            let nodes = self.nodes@;
            let prev = old(self).nodes@;
            assert forall|i: int|
                0 <= i < nodes.len() implies node_fields_ok(#[trigger] nodes[i]) && node_edges_ok(
                nodes,
                i,
            ) by {
                if i < prev.len() {
                    assert(nodes[i] == prev[i]);
                    assert(node_edges_ok(prev, i));
                    assert forall|k: int|
                        0 <= k < nodes[i].children@.len() implies i
                            < #[trigger] nodes[i].children@[k] < nodes.len() by {
                        assert(prev[i].children@[k] < prev.len());
                    }
                }
            }
            assert(single_parent(nodes)) by {
                assert forall|p1: int, k1: int, p2: int, k2: int|
                    0 <= p1 < nodes.len() && 0 <= k1 < nodes[p1].children@.len() && 0 <= p2
                        < nodes.len() && 0 <= k2 < nodes[p2].children@.len()
                        && #[trigger] nodes[p1].children@[k1]
                        == #[trigger] nodes[p2].children@[k2] implies p1 == p2 && k1 == k2 by {
                    assert(nodes[p1] == prev[p1] && nodes[p2] == prev[p2]);
                }
            }
            assert(!has_parent(nodes, idx as int)) by {
                if has_parent(nodes, idx as int) {
                    let (p, k) = choose|p: int, k: int|
                        0 <= p < nodes.len() && 0 <= k < nodes[p].children@.len()
                            && #[trigger] nodes[p].children@[k] == idx as int;
                    assert(nodes[p] == prev[p]);
                    assert(prev[p].children@[k] < prev.len());
                }
            }
        }
        idx
    }

    /// Transfers `child` into `parent`'s child list. A node may be added as
    /// a child exactly once, and only to an earlier-created parent; both are
    /// demanded of every caller here rather than left unchecked.
    pub fn add_child(&mut self, parent: usize, child: usize)
        requires
            scene_wf(old(self).nodes@),
            parent < child < old(self).nodes@.len(),
            !has_parent(old(self).nodes@, child as int),
        ensures
            final(self).nodes@.len() == old(self).nodes@.len(),
            forall|j: int|
                0 <= j < old(self).nodes@.len() && j != parent ==> final(self).nodes@[j] == old(
                    self,
                ).nodes@[j],
            same_but_children(final(self).nodes@[parent as int], old(self).nodes@[parent as int]),
            final(self).nodes@[parent as int].children@ == old(
                self,
            ).nodes@[parent as int].children@.push(child),
            scene_wf(final(self).nodes@),
            has_parent(final(self).nodes@, child as int),
    {
        self.nodes[parent].children.push(child);
        proof {
            let nodes = self.nodes@;
            let prev = old(self).nodes@;
            let pc = prev[parent as int].children@;
            assert forall|i: int|
                0 <= i < nodes.len() implies node_fields_ok(#[trigger] nodes[i]) && node_edges_ok(
                nodes,
                i,
            ) by {
                if i != parent {
                    assert(nodes[i] == prev[i]);
                }
                assert(node_edges_ok(prev, i));
                assert forall|k: int|
                    0 <= k < nodes[i].children@.len() implies i < #[trigger] nodes[i].children@[k]
                        < nodes.len() by {
                    if i == parent && k == pc.len() {
                        assert(nodes[i].children@[k] == child);
                    } else {
                        assert(nodes[i].children@[k] == prev[i].children@[k]);
                    }
                }
            }
            assert(single_parent(nodes)) by {
                assert forall|p1: int, k1: int, p2: int, k2: int|
                    0 <= p1 < nodes.len() && 0 <= k1 < nodes[p1].children@.len() && 0 <= p2
                        < nodes.len() && 0 <= k2 < nodes[p2].children@.len()
                        && #[trigger] nodes[p1].children@[k1]
                        == #[trigger] nodes[p2].children@[k2] implies p1 == p2 && k1 == k2 by {
                    let new1 = p1 == parent && k1 == pc.len();
                    let new2 = p2 == parent && k2 == pc.len();
                    if new1 && !new2 {
                        assert(nodes[p2].children@[k2] == prev[p2].children@[k2]);
                        assert(has_parent(prev, child as int));
                    } else if !new1 && new2 {
                        assert(nodes[p1].children@[k1] == prev[p1].children@[k1]);
                        assert(has_parent(prev, child as int));
                    } else if !new1 && !new2 {
                        assert(nodes[p1].children@[k1] == prev[p1].children@[k1]);
                        assert(nodes[p2].children@[k2] == prev[p2].children@[k2]);
                    }
                }
            }
            assert(nodes[parent as int].children@[pc.len() as int] == child);
        }
    }

    /// Rewrites node `i`'s local translation.
    pub fn set_position(&mut self, i: usize, v: Vec3)
        requires
            scene_wf(old(self).nodes@),
            i < old(self).nodes@.len(),
            v3_in_range(v, MAX_COORD as int),
        ensures
            final(self).nodes@ == old(self).nodes@.update(
                i as int,
                SceneNode { position: v, ..old(self).nodes@[i as int] },
            ),
            scene_wf(final(self).nodes@),
    {
        self.nodes[i].position = v;
        proof {
            lemma_wf_update_fields(old(self).nodes@, self.nodes@, i as int);
            assert(self.nodes@ =~= old(self).nodes@.update(
                i as int,
                SceneNode { position: v, ..old(self).nodes@[i as int] },
            ));
        }
    }

    /// Rewrites node `i`'s Euler angles; angles are unbounded (rotors
    /// accumulate indefinitely), so any value is accepted.
    pub fn set_rotation(&mut self, i: usize, v: Vec3)
        requires
            scene_wf(old(self).nodes@),
            i < old(self).nodes@.len(),
        ensures
            final(self).nodes@ == old(self).nodes@.update(
                i as int,
                SceneNode { rotation: v, ..old(self).nodes@[i as int] },
            ),
            scene_wf(final(self).nodes@),
    {
        self.nodes[i].rotation = v;
        proof {
            lemma_wf_update_fields(old(self).nodes@, self.nodes@, i as int);
            assert(self.nodes@ =~= old(self).nodes@.update(
                i as int,
                SceneNode { rotation: v, ..old(self).nodes@[i as int] },
            ));
        }
    }

    /// Rewrites node `i`'s per-axis scale.
    pub fn set_scale(&mut self, i: usize, v: Vec3)
        requires
            scene_wf(old(self).nodes@),
            i < old(self).nodes@.len(),
            v3_in_range(v, MAX_SCALE as int),
        ensures
            final(self).nodes@ == old(self).nodes@.update(
                i as int,
                SceneNode { scale: v, ..old(self).nodes@[i as int] },
            ),
            scene_wf(final(self).nodes@),
    {
        self.nodes[i].scale = v;
        proof {
            lemma_wf_update_fields(old(self).nodes@, self.nodes@, i as int);
            assert(self.nodes@ =~= old(self).nodes@.update(
                i as int,
                SceneNode { scale: v, ..old(self).nodes@[i as int] },
            ));
        }
    }

    /// Rewrites node `i`'s rotation/scale pivot.
    pub fn set_reference_point(&mut self, i: usize, v: Vec3)
        requires
            scene_wf(old(self).nodes@),
            i < old(self).nodes@.len(),
            v3_in_range(v, MAX_COORD as int),
        ensures
            final(self).nodes@ == old(self).nodes@.update(
                i as int,
                SceneNode { reference_point: v, ..old(self).nodes@[i as int] },
            ),
            scene_wf(final(self).nodes@),
    {
        self.nodes[i].reference_point = v;
        proof {
            lemma_wf_update_fields(old(self).nodes@, self.nodes@, i as int);
            assert(self.nodes@ =~= old(self).nodes@.update(
                i as int,
                SceneNode { reference_point: v, ..old(self).nodes@[i as int] },
            ));
        }
    }
}

} // verus!
