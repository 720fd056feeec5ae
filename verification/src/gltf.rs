//! The scene graph: a forest of nodes (name, local transform, children,
//! optional mesh) rooted at scenes, with meshes of primitives, materials,
//! and the scene's resolved lights. Drawing walks the active scene's roots
//! depth-first, accumulates a world transform per node, and submits one
//! (material uniforms, draw call, transform) triple per primitive to the
//! batching engine, with the front face recomputed from the sign of the
//! accumulated transform's determinant (a mirrored instance flips its
//! triangle winding).
//!
//! The loader hands out node lists in which every child's index is greater
//! than its parent's; that order is what [`Gltf::wf`] demands and what the
//! traversal's termination rests on.

use vstd::prelude::*;

use crate::animation::{Animation, NodeTransform};
use crate::draw_calls::{
    spec_accumulate_lights, spec_add_instance, DrawCall, DrawCalls, GroupsView, Light,
    UniformBlockLights, Uniforms, MAX_LIGHTS,
};
use crate::gpu::{GL_CCW, GL_CW};
use crate::mat::{det_pos_of, mat_det_positive, mat_mul, mat_mul_of, Mat4Bits};

verus! {

/// One scene: the indices of its root nodes.
pub struct Scene {
    pub node_indices: Vec<usize>,
}

/// One node: its name, its current local transform (mutable at runtime for
/// animation), the original transform kept as a baseline, an optional mesh,
/// and its children's indices (each greater than the node's own index).
pub struct Node {
    pub name: String,
    pub transform: Mat4Bits,
    pub original_transform: Mat4Bits,
    pub mesh_index: Option<usize>,
    pub child_node_indices: Vec<usize>,
}

/// One mesh: the indices of its primitives.
pub struct Mesh {
    pub primitive_indices: Vec<usize>,
}

/// One primitive: its draw call and its one material.
pub struct Primitive {
    pub draw_call: DrawCall,
    pub material_index: usize,
}

/// One material: its name and the GPU bindings that drawing with it needs.
pub struct Material {
    pub name: String,
    pub uniforms: Uniforms,
}

/// A loaded scene graph with everything drawing needs.
pub struct Gltf {
    pub scene: usize,
    pub animations: Vec<Animation>,
    pub scenes: Vec<Scene>,
    pub nodes: Vec<Node>,
    pub meshes: Vec<Mesh>,
    pub materials: Vec<Material>,
    pub primitives: Vec<Primitive>,
    pub lights: UniformBlockLights,
}

impl Gltf {
    /// Every index in bounds, every child's index greater than its
    /// parent's, the active scene valid, the lights at most
    /// [`MAX_LIGHTS`], and every animation shaped for this node list.
    pub open spec fn wf(&self) -> bool {
        &&& self.scene < self.scenes@.len()
        &&& forall|s: int, k: int|
            0 <= s < self.scenes@.len() && 0 <= k < self.scenes@[s].node_indices@.len()
                ==> (#[trigger] self.scenes@[s].node_indices@[k]) < self.nodes@.len()
        &&& forall|n: int, k: int|
            0 <= n < self.nodes@.len() && 0 <= k < self.nodes@[n].child_node_indices@.len() ==> n
                < (#[trigger] self.nodes@[n].child_node_indices@[k])
                && self.nodes@[n].child_node_indices@[k] < self.nodes@.len()
        &&& forall|n: int|
            0 <= n < self.nodes@.len() ==> match (#[trigger] self.nodes@[n]).mesh_index {
                Some(m) => m < self.meshes@.len(),
                None => true,
            }
        &&& forall|m: int, k: int|
            0 <= m < self.meshes@.len() && 0 <= k < self.meshes@[m].primitive_indices@.len()
                ==> (#[trigger] self.meshes@[m].primitive_indices@[k]) < self.primitives@.len()
        &&& forall|p: int|
            0 <= p < self.primitives@.len() ==> (#[trigger] self.primitives@[p]).material_index
                < self.materials@.len()
        &&& self.lights.lights@.len() <= MAX_LIGHTS
        &&& forall|a: int|
            0 <= a < self.animations@.len() ==> (#[trigger] self.animations@[a]).wf()
                && self.animations@[a].nodes_animations@.len() == self.nodes@.len()
    }

    /// The node transforms the plain (un-animated) traversal uses.
    pub open spec fn own_transforms(&self) -> Seq<Mat4Bits> {
        self.nodes@.map_values(|n: Node| n.transform)
    }
}

/// A draw call with its front face set from the accumulated transform's
/// determinant sign: counter-clockwise for a positive determinant,
/// clockwise otherwise.
pub open spec fn spec_winding(dc: DrawCall, world: Mat4Bits) -> DrawCall {
    DrawCall {
        front_face: if det_pos_of(world.e) {
            GL_CCW
        } else {
            GL_CW
        },
        ..dc
    }
}

/// The batching state (batches and accumulated lights) after submitting
/// the primitives of `prims` from index `k` on, all at world transform
/// `world`, with the scene's lights carried by `model`.
pub open spec fn spec_draw_prims(
    g: Gltf,
    prims: Seq<usize>,
    k: int,
    world: Mat4Bits,
    model: Mat4Bits,
    st: (GroupsView, Seq<Light>),
) -> (GroupsView, Seq<Light>)
    decreases prims.len() - k,
{
    if k < 0 || k >= prims.len() || !g.wf() || prims[k] >= g.primitives@.len() {
        st
    } else {
        let p = g.primitives@[prims[k] as int];
        let u = g.materials@[p.material_index as int].uniforms;
        let st1 = (
            spec_add_instance(st.0, u, spec_winding(p.draw_call, world), world, Mat4Bits::identity_spec()),
            spec_accumulate_lights(st.1, g.lights.lights@, model.e, 0),
        );
        spec_draw_prims(g, prims, k + 1, world, model, st1)
    }
}

/// The batching state after the depth-first walk rooted at node `idx`:
/// the node's world transform is its parent's times its own (taken from
/// `tfs`), its mesh's primitives are submitted, then its children are
/// walked in order.
pub open spec fn spec_draw_node(
    g: Gltf,
    tfs: Seq<Mat4Bits>,
    idx: int,
    parent: Mat4Bits,
    model: Mat4Bits,
    st: (GroupsView, Seq<Light>),
) -> (GroupsView, Seq<Light>)
    decreases g.nodes@.len() - idx, 1int, 0int,
{
    if !(g.wf() && 0 <= idx < g.nodes@.len() && tfs.len() == g.nodes@.len()) {
        st
    } else {
        let world = Mat4Bits { e: mat_mul_of(parent.e, tfs[idx].e) };
        let st1 = match g.nodes@[idx].mesh_index {
            Some(m) => spec_draw_prims(
                g,
                g.meshes@[m as int].primitive_indices@,
                0,
                world,
                model,
                st,
            ),
            None => st,
        };
        spec_draw_children(g, tfs, idx, 0, world, model, st1)
    }
}

/// The batching state after walking the children of node `idx` from child
/// list position `k` on.
pub open spec fn spec_draw_children(
    g: Gltf,
    tfs: Seq<Mat4Bits>,
    idx: int,
    k: int,
    world: Mat4Bits,
    model: Mat4Bits,
    st: (GroupsView, Seq<Light>),
) -> (GroupsView, Seq<Light>)
    decreases g.nodes@.len() - idx, 0int, g.nodes@[idx].child_node_indices@.len() - k,
{
    if !(g.wf() && 0 <= idx < g.nodes@.len() && tfs.len() == g.nodes@.len()) || k < 0 || k
        >= g.nodes@[idx].child_node_indices@.len() {
        st
    } else {
        let child = g.nodes@[idx].child_node_indices@[k] as int;
        let st1 = spec_draw_node(g, tfs, child, world, model, st);
        spec_draw_children(g, tfs, idx, k + 1, world, model, st1)
    }
}

/// The batching state after drawing the active scene: each root node of
/// the scene is walked in order, with `model` as the parent transform.
pub open spec fn spec_draw_scene(
    g: Gltf,
    tfs: Seq<Mat4Bits>,
    k: int,
    model: Mat4Bits,
    st: (GroupsView, Seq<Light>),
) -> (GroupsView, Seq<Light>)
    decreases g.scenes@[g.scene as int].node_indices@.len() - k,
{
    if !(g.wf() && tfs.len() == g.nodes@.len()) || k < 0 || k >= g.scenes@[g.scene as int].node_indices@.len() {
        st
    } else {
        let root = g.scenes@[g.scene as int].node_indices@[k] as int;
        let st1 = spec_draw_node(g, tfs, root, model, model, st);
        spec_draw_scene(g, tfs, k + 1, model, st1)
    }
}

impl Gltf {
    fn draw_node(
        &self,
        draw_calls: &mut DrawCalls,
        node_index: usize,
        parent_transform: &Mat4Bits,
        model_transform: &Mat4Bits,
        node_transforms: Option<&Vec<NodeTransform>>,
    )
        requires
            self.wf(),
            old(draw_calls).wf(),
            node_index < self.nodes@.len(),
            match node_transforms {
                Some(v) => v@.len() == self.nodes@.len(),
                None => true,
            },
        ensures
            final(draw_calls).wf(),
            ({
                let tfs = match node_transforms {
                    Some(v) => v@.map_values(|nt: NodeTransform| nt.transform),
                    None => self.own_transforms(),
                };
                let st = spec_draw_node(
                    *self,
                    tfs,
                    node_index as int,
                    *parent_transform,
                    *model_transform,
                    (old(draw_calls).groups(), old(draw_calls).lights()),
                );
                final(draw_calls).groups() == st.0 && final(draw_calls).lights() == st.1
            }),
            final(draw_calls).staged_bytes() == old(draw_calls).staged_bytes(),
            final(draw_calls).temp_handle() == old(draw_calls).temp_handle(),
        decreases self.nodes@.len() - node_index, 1int, 0int,
    {
        let ghost tfs = match node_transforms {
            Some(v) => v@.map_values(|nt: NodeTransform| nt.transform),
            None => self.own_transforms(),
        };
        let local = match node_transforms {
            Some(v) => v[node_index].transform,
            None => self.nodes[node_index].transform,
        };
        proof {
            assert(local == tfs[node_index as int]);
        }
        let world = mat_mul(parent_transform, &local);
        let ghost st0 = (draw_calls.groups(), draw_calls.lights());
        match self.nodes[node_index].mesh_index {
            Some(mesh_index) => {
                let prim_count = self.meshes[mesh_index].primitive_indices.len();
                let ghost prims = self.meshes@[mesh_index as int].primitive_indices@;
                let mut k: usize = 0;
                while k < prim_count
                    invariant
                        k <= prim_count,
                        self.wf(),
                        node_index < self.nodes@.len(),
                        self.nodes@[node_index as int].mesh_index == Some(mesh_index),
                        mesh_index < self.meshes@.len(),
                        prims == self.meshes@[mesh_index as int].primitive_indices@,
                        prim_count == prims.len(),
                        tfs.len() == self.nodes@.len(),
                        draw_calls.wf(),
                        draw_calls.staged_bytes() == old(draw_calls).staged_bytes(),
                        draw_calls.temp_handle() == old(draw_calls).temp_handle(),
                        world == (Mat4Bits { e: mat_mul_of(parent_transform.e, tfs[node_index as int].e) }),
                        spec_draw_prims(*self, prims, 0, world, *model_transform, st0)
                            == spec_draw_prims(
                            *self,
                            prims,
                            k as int,
                            world,
                            *model_transform,
                            (draw_calls.groups(), draw_calls.lights()),
                        ),
                    decreases prim_count - k,
                {
                    let prim_index = self.meshes[mesh_index].primitive_indices[k];
                    let p = &self.primitives[prim_index];
                    let winding = if mat_det_positive(&world) {
                        GL_CCW
                    } else {
                        GL_CW
                    };
                    let dc = DrawCall { front_face: winding, ..p.draw_call };
                    proof {
                        assert(dc == spec_winding(
                            self.primitives@[prim_index as int].draw_call,
                            world,
                        ));
                    }
                    let identity = Mat4Bits::identity();
                    draw_calls.add(
                        Some(&self.lights),
                        &self.materials[p.material_index].uniforms,
                        &dc,
                        model_transform,
                        &world,
                        &identity,
                    );
                    k = k + 1;
                }
            },
            None => {},
        }
        let ghost st1 = (draw_calls.groups(), draw_calls.lights());
        let child_count = self.nodes[node_index].child_node_indices.len();
        let mut k: usize = 0;
        while k < child_count
            invariant
                k <= child_count,
                self.wf(),
                node_index < self.nodes@.len(),
                child_count == self.nodes@[node_index as int].child_node_indices@.len(),
                match node_transforms {
                    Some(v) => v@.len() == self.nodes@.len(),
                    None => true,
                },
                tfs == (match node_transforms {
                    Some(v) => v@.map_values(|nt: NodeTransform| nt.transform),
                    None => self.own_transforms(),
                }),
                tfs.len() == self.nodes@.len(),
                draw_calls.wf(),
                draw_calls.staged_bytes() == old(draw_calls).staged_bytes(),
                draw_calls.temp_handle() == old(draw_calls).temp_handle(),
                world == (Mat4Bits { e: mat_mul_of(parent_transform.e, tfs[node_index as int].e) }),
                spec_draw_children(*self, tfs, node_index as int, 0, world, *model_transform, st1)
                    == spec_draw_children(
                    *self,
                    tfs,
                    node_index as int,
                    k as int,
                    world,
                    *model_transform,
                    (draw_calls.groups(), draw_calls.lights()),
                ),
            decreases child_count - k,
        {
            let child = self.nodes[node_index].child_node_indices[k];
            self.draw_node(draw_calls, child, &world, model_transform, node_transforms);
            k = k + 1;
        }
    }

    /// Submits every primitive of the active scene to the batching engine,
    /// walking the scene's roots depth-first with the nodes' own (static)
    /// transforms, all parented to `model_transform`; the scene's lights
    /// ride along, carried to world space by `model_transform`.
    pub fn draw(&self, draw_calls: &mut DrawCalls, model_transform: &Mat4Bits)
        requires
            self.wf(),
            old(draw_calls).wf(),
        ensures
            final(draw_calls).wf(),
            ({
                let st = spec_draw_scene(
                    *self,
                    self.own_transforms(),
                    0,
                    *model_transform,
                    (old(draw_calls).groups(), old(draw_calls).lights()),
                );
                final(draw_calls).groups() == st.0 && final(draw_calls).lights() == st.1
            }),
            final(draw_calls).staged_bytes() == old(draw_calls).staged_bytes(),
            final(draw_calls).temp_handle() == old(draw_calls).temp_handle(),
    {
        self.draw_with(draw_calls, model_transform, None)
    }

    /// Like [`Gltf::draw`], but takes each node's local transform from
    /// `node_transforms` (as the animation sampler produced them) instead
    /// of the node's static transform.
    pub fn draw_animated(
        &self,
        draw_calls: &mut DrawCalls,
        model_transform: &Mat4Bits,
        node_transforms: &Vec<NodeTransform>,
    )
        requires
            self.wf(),
            old(draw_calls).wf(),
            node_transforms@.len() == self.nodes@.len(),
        ensures
            final(draw_calls).wf(),
            ({
                let st = spec_draw_scene(
                    *self,
                    node_transforms@.map_values(|nt: NodeTransform| nt.transform),
                    0,
                    *model_transform,
                    (old(draw_calls).groups(), old(draw_calls).lights()),
                );
                final(draw_calls).groups() == st.0 && final(draw_calls).lights() == st.1
            }),
            final(draw_calls).staged_bytes() == old(draw_calls).staged_bytes(),
            final(draw_calls).temp_handle() == old(draw_calls).temp_handle(),
    {
        self.draw_with(draw_calls, model_transform, Some(node_transforms))
    }

    fn draw_with(
        &self,
        draw_calls: &mut DrawCalls,
        model_transform: &Mat4Bits,
        node_transforms: Option<&Vec<NodeTransform>>,
    )
        requires
            self.wf(),
            old(draw_calls).wf(),
            match node_transforms {
                Some(v) => v@.len() == self.nodes@.len(),
                None => true,
            },
        ensures
            final(draw_calls).wf(),
            ({
                let tfs = match node_transforms {
                    Some(v) => v@.map_values(|nt: NodeTransform| nt.transform),
                    None => self.own_transforms(),
                };
                let st = spec_draw_scene(
                    *self,
                    tfs,
                    0,
                    *model_transform,
                    (old(draw_calls).groups(), old(draw_calls).lights()),
                );
                final(draw_calls).groups() == st.0 && final(draw_calls).lights() == st.1
            }),
            final(draw_calls).staged_bytes() == old(draw_calls).staged_bytes(),
            final(draw_calls).temp_handle() == old(draw_calls).temp_handle(),
    {
        let ghost tfs = match node_transforms {
            Some(v) => v@.map_values(|nt: NodeTransform| nt.transform),
            None => self.own_transforms(),
        };
        let ghost st0 = (draw_calls.groups(), draw_calls.lights());
        let root_count = self.scenes[self.scene].node_indices.len();
        let mut k: usize = 0;
        while k < root_count
            invariant
                k <= root_count,
                self.wf(),
                root_count == self.scenes@[self.scene as int].node_indices@.len(),
                match node_transforms {
                    Some(v) => v@.len() == self.nodes@.len(),
                    None => true,
                },
                tfs == (match node_transforms {
                    Some(v) => v@.map_values(|nt: NodeTransform| nt.transform),
                    None => self.own_transforms(),
                }),
                tfs.len() == self.nodes@.len(),
                draw_calls.wf(),
                draw_calls.staged_bytes() == old(draw_calls).staged_bytes(),
                draw_calls.temp_handle() == old(draw_calls).temp_handle(),
                spec_draw_scene(*self, tfs, 0, *model_transform, st0) == spec_draw_scene(
                    *self,
                    tfs,
                    k as int,
                    *model_transform,
                    (draw_calls.groups(), draw_calls.lights()),
                ),
            decreases root_count - k,
        {
            let root = self.scenes[self.scene].node_indices[k];
            self.draw_node(draw_calls, root, model_transform, model_transform, node_transforms);
            k = k + 1;
        }
    }

    /// Each node's name and current local transform, in node order: the
    /// baseline the animation sampler rewrites.
    pub fn get_node_transforms(&self) -> (r: Vec<NodeTransform>)
        ensures
            r@.len() == self.nodes@.len(),
            forall|i: int|
                0 <= i < self.nodes@.len() ==> (#[trigger] r@[i]).name@ == self.nodes@[i].name@
                    && r@[i].transform == self.nodes@[i].transform,
    {
        let mut r: Vec<NodeTransform> = Vec::new();
        let mut i: usize = 0;
        while i < self.nodes.len()
            invariant
                i <= self.nodes@.len(),
                r@.len() == i,
                forall|k: int|
                    0 <= k < i ==> (#[trigger] r@[k]).name@ == self.nodes@[k].name@
                        && r@[k].transform == self.nodes@[k].transform,
            decreases self.nodes@.len() - i,
        {
            let n = &self.nodes[i];
            r.push(NodeTransform { name: clone_string(&n.name), transform: n.transform });
            i = i + 1;
        }
        r
    }

    /// Copies `other`'s light uniform-buffer binding descriptor (not the
    /// buffer itself) into this scene graph's materials, slot for slot,
    /// over as many materials as both have.
    pub fn copy_lights_from(&mut self, other: &Gltf)
        ensures
            final(self).materials@.len() == old(self).materials@.len(),
            forall|i: int|
                0 <= i < old(self).materials@.len() ==> #[trigger] final(self).materials@[i]
                    == (if i < other.materials@.len() {
                    (Material {
                        uniforms: Uniforms {
                            ubos: [
                                old(self).materials@[i].uniforms.ubos[0],
                                other.materials@[i].uniforms.ubos[1],
                            ],
                            ..old(self).materials@[i].uniforms
                        },
                        name: old(self).materials@[i].name,
                    })
                } else {
                    old(self).materials@[i]
                }),
            final(self).scene == old(self).scene,
            final(self).scenes == old(self).scenes,
            final(self).nodes == old(self).nodes,
            final(self).meshes == old(self).meshes,
            final(self).primitives == old(self).primitives,
            final(self).animations == old(self).animations,
            final(self).lights == old(self).lights,
    {
        let n = if self.materials.len() < other.materials.len() {
            self.materials.len()
        } else {
            other.materials.len()
        };
        let mut i: usize = 0;
        while i < n
            invariant
                i <= n,
                n <= self.materials@.len(),
                n <= other.materials@.len(),
                n == (if old(self).materials@.len() < other.materials@.len() {
                    old(self).materials@.len()
                } else {
                    other.materials@.len()
                }),
                self.materials@.len() == old(self).materials@.len(),
                forall|k: int|
                    0 <= k < i ==> #[trigger] self.materials@[k] == (Material {
                        uniforms: Uniforms {
                            ubos: [
                                old(self).materials@[k].uniforms.ubos[0],
                                other.materials@[k].uniforms.ubos[1],
                            ],
                            ..old(self).materials@[k].uniforms
                        },
                        name: old(self).materials@[k].name,
                    }),
                forall|k: int|
                    i <= k < self.materials@.len() ==> #[trigger] self.materials@[k] == old(
                        self,
                    ).materials@[k],
                self.scene == old(self).scene,
                self.scenes == old(self).scenes,
                self.nodes == old(self).nodes,
                self.meshes == old(self).meshes,
                self.primitives == old(self).primitives,
                self.animations == old(self).animations,
                self.lights == old(self).lights,
            decreases n - i,
        {
            let slot = other.materials[i].uniforms.ubos[1];
            let m = &mut self.materials[i];
            m.uniforms.ubos[1] = slot;
            proof {
                assert(m.uniforms.ubos =~= [
                    old(self).materials@[i as int].uniforms.ubos[0],
                    other.materials@[i as int].uniforms.ubos[1],
                ]);
            }
            i = i + 1;
        }
    }
}

/// Law: a scene of one root node carrying a one-primitive mesh, drawn
/// twice from an empty, light-free batch state with model transforms `a`
/// then `b`, accumulates exactly one batch: the primitive's one (uniforms,
/// draw call) key, holding both accumulated transforms in call order. The
/// draw-call key includes the winding recomputed per instance, so the
/// premise asks both accumulated transforms for the same determinant sign
/// (a mirroring second transform makes a second key, by design).
pub proof fn lemma_one_primitive_two_draws(g: Gltf, a: Mat4Bits, b: Mat4Bits)
    requires
        g.wf(),
        g.scenes@[g.scene as int].node_indices@.len() == 1,
        g.nodes@[g.scenes@[g.scene as int].node_indices@[0] as int].mesh_index matches Some(m)
            && g.meshes@[m as int].primitive_indices@.len() == 1,
        g.nodes@[g.scenes@[g.scene as int].node_indices@[0] as int].child_node_indices@.len() == 0,
        g.lights.lights@.len() == 0,
        ({
            let r = g.scenes@[g.scene as int].node_indices@[0] as int;
            let tf = g.nodes@[r].transform;
            det_pos_of(mat_mul_of(a.e, tf.e)) == det_pos_of(mat_mul_of(b.e, tf.e))
        }),
    ensures
        ({
            let r = g.scenes@[g.scene as int].node_indices@[0] as int;
            let tf = g.nodes@[r].transform;
            let m = g.nodes@[r].mesh_index.unwrap() as int;
            let p = g.meshes@[m].primitive_indices@[0] as int;
            let u = g.materials@[g.primitives@[p].material_index as int].uniforms;
            let wa = Mat4Bits { e: mat_mul_of(a.e, tf.e) };
            let wb = Mat4Bits { e: mat_mul_of(b.e, tf.e) };
            let d = spec_winding(g.primitives@[p].draw_call, wa);
            let once = spec_draw_scene(
                g,
                g.own_transforms(),
                0,
                a,
                (Seq::empty(), Seq::empty()),
            );
            let twice = spec_draw_scene(g, g.own_transforms(), 0, b, once);
            &&& once.0 == seq![
                (u, seq![(d, seq![wa], seq![Mat4Bits::identity_spec()])]),
            ]
            &&& once.1 == Seq::<Light>::empty()
            &&& twice.0 == seq![
                (
                    u,
                    seq![
                        (
                            d,
                            seq![wa, wb],
                            seq![Mat4Bits::identity_spec(), Mat4Bits::identity_spec()],
                        ),
                    ],
                ),
            ]
            &&& twice.1 == Seq::<Light>::empty()
        }),
{
    let r = g.scenes@[g.scene as int].node_indices@[0] as int;
    let tfs = g.own_transforms();
    let tf = g.nodes@[r].transform;
    let m = g.nodes@[r].mesh_index.unwrap() as int;
    let p = g.meshes@[m].primitive_indices@[0] as int;
    let u = g.materials@[g.primitives@[p].material_index as int].uniforms;
    let wa = Mat4Bits { e: mat_mul_of(a.e, tf.e) };
    let wb = Mat4Bits { e: mat_mul_of(b.e, tf.e) };
    let d = spec_winding(g.primitives@[p].draw_call, wa);
    let ident = Mat4Bits::identity_spec();
    assert(tfs[r] == tf);
    assert(spec_winding(g.primitives@[p].draw_call, wb) == d);

    // Lights: the scene has none, so accumulation changes nothing.
    assert(forall|st: Seq<Light>, mm: [u32; 16]|
        spec_accumulate_lights(st, g.lights.lights@, mm, 0) == st);

    // First draw, from the empty state.
    let st0: (GroupsView, Seq<Light>) = (Seq::empty(), Seq::empty());
    let prims = g.meshes@[m].primitive_indices@;
    let gs1 = spec_add_instance(st0.0, u, d, wa, ident);
    assert(gs1 =~~= seq![(u, seq![(d, seq![wa], seq![ident])])]);
    let st1 = spec_draw_prims(g, prims, 0, wa, a, st0);
    assert(st1 == spec_draw_prims(g, prims, 1, wa, a, (gs1, st0.1)));
    assert(st1.0 == gs1 && st1.1 == st0.1);
    let after_node1 = spec_draw_node(g, tfs, r, a, a, st0);
    assert(after_node1 == spec_draw_children(g, tfs, r, 0, wa, a, st1));
    assert(after_node1 == st1);
    let once = spec_draw_scene(g, tfs, 0, a, st0);
    assert(once == spec_draw_scene(g, tfs, 1, a, after_node1));
    assert(once == after_node1);

    // Second draw: the key is already there, so both lookups land on it.
    let gs2 = spec_add_instance(once.0, u, d, wb, ident);
    assert(exists|i: int| 0 <= i < once.0.len() && once.0[i].0 == u) by {
        assert(once.0[0].0 == u);
    }
    let i = choose|i: int| 0 <= i < once.0.len() && once.0[i].0 == u;
    assert(i == 0);
    let es = once.0[0].1;
    assert(exists|j: int| 0 <= j < es.len() && es[j].0 == d) by {
        assert(es[0].0 == d);
    }
    let j = choose|j: int| 0 <= j < es.len() && es[j].0 == d;
    assert(j == 0);
    assert(gs2 =~~= seq![(u, seq![(d, seq![wa, wb], seq![ident, ident])])]);
    let st2 = spec_draw_prims(g, prims, 0, wb, b, once);
    assert(st2 == spec_draw_prims(g, prims, 1, wb, b, (gs2, once.1)));
    assert(st2.0 == gs2 && st2.1 == once.1);
    let after_node2 = spec_draw_node(g, tfs, r, b, b, once);
    assert(after_node2 == spec_draw_children(g, tfs, r, 0, wb, b, st2));
    assert(after_node2 == st2);
    let twice = spec_draw_scene(g, tfs, 0, b, once);
    assert(twice == spec_draw_scene(g, tfs, 1, b, after_node2));
    assert(twice == after_node2);
}

/// Relies on String::clone: the copy reads back the same characters.
#[verifier::external_body]
pub(crate) fn clone_string(s: &String) -> (r: String)
    ensures
        r@ == s@,
{
    s.clone()
}

} // verus!
