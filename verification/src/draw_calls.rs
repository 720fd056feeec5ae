//! The draw-call batching engine: accepts a stream of (uniforms, draw call,
//! transform) submissions during a frame, groups them by GPU state so each
//! unique state is bound once, accumulates deduplicated light data, and
//! emits one instanced draw per unique (uniforms, draw call) pair.
//!
//! Matrix and light components are carried as bit patterns of their
//! single-precision values; two lights are "the same" when their stored
//! words are equal, and a light entry whose kind word is the zero pattern
//! ends the active part of a light list.

use vstd::prelude::*;

use crate::arena::BumpAllocatedBuffer;
use crate::bytes::{mats_le, pack_mats, push_vec4s_le, vec4s_le};
use crate::gpu::{GL_ARRAY_BUFFER, GL_STREAM_DRAW, GL_UNIFORM_BUFFER, UNIFORM_BLOCK_LIGHTS};
use crate::mat::{mat_mul_vec4, mat_mul_vec4_of, Mat4Bits};

verus! {

/// Most lights one frame or one scene can carry.
pub const MAX_LIGHTS: usize = 32;

/// The texture and uniform-buffer bindings that must match for two draws to
/// share GPU binding state. Each texture slot holds (texture unit, texture,
/// sampler); each buffer slot holds (binding index, buffer, byte offset,
/// byte length).
#[derive(Clone, Copy, PartialEq, Eq, Debug)]
pub struct Uniforms {
    pub textures: [Option<(u32, u32, u32)>; 5],
    pub ubos: [Option<(u32, u32, usize, usize)>; 2],
}

/// Identifies a fixed mesh primitive: its vertex array, topology, index
/// buffer range, the location of a disabled vertex-color attribute that must
/// fall back to opaque white at draw time (if any), and the front-face
/// winding.
#[derive(Clone, Copy, PartialEq, Eq, Debug)]
pub struct DrawCall {
    pub vao: u32,
    pub mode: u32,
    pub index_buffer: u32,
    pub index_type: u32,
    pub index_byte_offset: usize,
    pub index_count: usize,
    pub disabled_all_ones_vertex_attribute: Option<u32>,
    pub front_face: u32,
}

/// One punctual light: color with the kind tag in the fourth word (zero
/// means "no light"), intensity and cone parameters, world-space position
/// and direction.
#[derive(Clone, Copy, PartialEq, Eq, Debug)]
pub struct Light {
    pub color_and_kind: [u32; 4],
    pub intensity_params: [u32; 4],
    pub position: [u32; 4],
    pub direction: [u32; 4],
}

/// The active lights of one scene or one frame, at most [`MAX_LIGHTS`].
#[derive(Clone, Debug)]
pub struct UniformBlockLights {
    pub lights: Vec<Light>,
}

/// The per-instance data accumulated for one (uniforms, draw call) pair:
/// parallel lists of model transforms and texture-coordinate transforms.
struct InstanceData {
    transforms: Vec<Mat4Bits>,
    texcoord_transforms: Vec<Mat4Bits>,
    count: usize,
}

struct Batch {
    draw_call: DrawCall,
    instances: InstanceData,
}

struct UniformGroup {
    uniforms: Uniforms,
    batches: Vec<Batch>,
}

/// What one (uniforms, draw call) pair has accumulated: the draw call, the
/// model transforms in submission order, and the texture-coordinate
/// transforms in submission order.
pub type EntryView = (DrawCall, Seq<Mat4Bits>, Seq<Mat4Bits>);

/// The whole batch state: uniform keys in first-submission order, each with
/// its entries in first-submission order.
pub type GroupsView = Seq<(Uniforms, Seq<EntryView>)>;

pub struct DrawCalls {
    draws: Vec<UniformGroup>,
    temp_buffer: BumpAllocatedBuffer,
    lights_ubo: UniformBlockLights,
}

impl Batch {
    spec fn view_spec(&self) -> EntryView {
        (self.draw_call, self.instances.transforms@, self.instances.texcoord_transforms@)
    }

    spec fn wf(&self) -> bool {
        &&& self.instances.count == self.instances.transforms@.len()
        &&& self.instances.transforms@.len() == self.instances.texcoord_transforms@.len()
    }
}

impl UniformGroup {
    spec fn view_spec(&self) -> (Uniforms, Seq<EntryView>) {
        (self.uniforms, self.batches@.map_values(|b: Batch| b.view_spec()))
    }

    spec fn wf(&self) -> bool {
        &&& forall|i: int, j: int|
            0 <= i < j < self.batches@.len() ==> self.batches@[i].draw_call != (
            self.batches@[j].draw_call)
        &&& forall|i: int| 0 <= i < self.batches@.len() ==> self.batches@[i].wf()
    }
}

/// Appends one instance to the entry for `d` in `es`, creating the entry if
/// `d` is new.
pub open spec fn spec_add_entry(
    es: Seq<EntryView>,
    d: DrawCall,
    t: Mat4Bits,
    tt: Mat4Bits,
) -> Seq<EntryView> {
    if exists|j: int| 0 <= j < es.len() && es[j].0 == d {
        let j = choose|j: int| 0 <= j < es.len() && es[j].0 == d;
        es.update(j, (d, es[j].1.push(t), es[j].2.push(tt)))
    } else {
        es.push((d, seq![t], seq![tt]))
    }
}

/// Appends one instance to the batch keyed by (`u`, `d`), creating the group
/// and the entry on first use.
pub open spec fn spec_add_instance(
    gs: GroupsView,
    u: Uniforms,
    d: DrawCall,
    t: Mat4Bits,
    tt: Mat4Bits,
) -> GroupsView {
    if exists|i: int| 0 <= i < gs.len() && gs[i].0 == u {
        let i = choose|i: int| 0 <= i < gs.len() && gs[i].0 == u;
        gs.update(i, (u, spec_add_entry(gs[i].1, d, t, tt)))
    } else {
        gs.push((u, seq![(d, seq![t], seq![tt])]))
    }
}

/// The `i`-th incoming light of `inc` carried into world space by `model`.
pub open spec fn spec_transformed_light(inc: Seq<Light>, model: [u32; 16], i: int) -> Light {
    Light {
        color_and_kind: inc[i].color_and_kind,
        intensity_params: inc[i].intensity_params,
        position: mat_mul_vec4_of(model, inc[i].position),
        direction: mat_mul_vec4_of(model, inc[i].direction),
    }
}

/// Accumulates the lights of `inc` (transformed by `model`) into `cur`,
/// starting at index `i`: the scan stops at the first light whose kind word
/// is zero, a light already present is not added again, and a genuinely new
/// light is dropped (ending the scan) once `cur` holds [`MAX_LIGHTS`].
pub open spec fn spec_accumulate_lights(
    cur: Seq<Light>,
    inc: Seq<Light>,
    model: [u32; 16],
    i: int,
) -> Seq<Light>
    decreases inc.len() - i,
{
    if i < 0 || i >= inc.len() {
        cur
    } else if inc[i].color_and_kind@[3] == 0 {
        cur
    } else {
        let l = spec_transformed_light(inc, model, i);
        if cur.contains(l) {
            spec_accumulate_lights(cur, inc, model, i + 1)
        } else if cur.len() >= MAX_LIGHTS {
            cur
        } else {
            spec_accumulate_lights(cur.push(l), inc, model, i + 1)
        }
    }
}

/// True when two texture slots hold the same binding.
fn tex_slot_eq(a: &Option<(u32, u32, u32)>, b: &Option<(u32, u32, u32)>) -> (r: bool)
    ensures
        r == (*a == *b),
{
    match (a, b) {
        (None, None) => true,
        (Some(x), Some(y)) => x.0 == y.0 && x.1 == y.1 && x.2 == y.2,
        _ => false,
    }
}

/// True when two uniform-buffer slots hold the same binding.
fn ubo_slot_eq(a: &Option<(u32, u32, usize, usize)>, b: &Option<(u32, u32, usize, usize)>) -> (r:
    bool)
    ensures
        r == (*a == *b),
{
    match (a, b) {
        (None, None) => true,
        (Some(x), Some(y)) => x.0 == y.0 && x.1 == y.1 && x.2 == y.2 && x.3 == y.3,
        _ => false,
    }
}

/// True when two uniform keys are structurally equal, slot by slot.
pub fn uniforms_eq(a: &Uniforms, b: &Uniforms) -> (r: bool)
    ensures
        r == (*a == *b),
{
    let r = tex_slot_eq(&a.textures[0], &b.textures[0]) && tex_slot_eq(
        &a.textures[1],
        &b.textures[1],
    ) && tex_slot_eq(&a.textures[2], &b.textures[2]) && tex_slot_eq(&a.textures[3], &b.textures[3])
        && tex_slot_eq(&a.textures[4], &b.textures[4]) && ubo_slot_eq(&a.ubos[0], &b.ubos[0])
        && ubo_slot_eq(&a.ubos[1], &b.ubos[1]);
    proof {
        if r {
            assert(a.textures@ =~= b.textures@);
            assert(a.textures =~= b.textures);
            assert(a.ubos@ =~= b.ubos@);
            assert(a.ubos =~= b.ubos);
        }
    }
    r
}

fn opt_u32_eq(a: &Option<u32>, b: &Option<u32>) -> (r: bool)
    ensures
        r == (*a == *b),
{
    match (a, b) {
        (None, None) => true,
        (Some(x), Some(y)) => *x == *y,
        _ => false,
    }
}

/// True when two draw-call descriptors are structurally equal.
pub fn draw_call_eq(a: &DrawCall, b: &DrawCall) -> (r: bool)
    ensures
        r == (*a == *b),
{
    a.vao == b.vao && a.mode == b.mode && a.index_buffer == b.index_buffer && a.index_type
        == b.index_type && a.index_byte_offset == b.index_byte_offset && a.index_count
        == b.index_count && opt_u32_eq(
        &a.disabled_all_ones_vertex_attribute,
        &b.disabled_all_ones_vertex_attribute,
    ) && a.front_face == b.front_face
}

/// True when two lights hold the same words in every component.
pub fn light_eq(a: &Light, b: &Light) -> (r: bool)
    ensures
        r == (*a == *b),
{
    let r = vec4_bits_eq(&a.color_and_kind, &b.color_and_kind) && vec4_bits_eq(
        &a.intensity_params,
        &b.intensity_params,
    ) && vec4_bits_eq(&a.position, &b.position) && vec4_bits_eq(&a.direction, &b.direction);
    r
}

fn vec4_bits_eq(a: &[u32; 4], b: &[u32; 4]) -> (r: bool)
    ensures
        r == (*a == *b),
{
    let r = a[0] == b[0] && a[1] == b[1] && a[2] == b[2] && a[3] == b[3];
    proof {
        if r {
            assert(a@ =~= b@);
            assert(*a =~= *b);
        }
    }
    r
}

impl UniformBlockLights {
    /// An empty light list.
    pub fn new() -> (r: UniformBlockLights)
        ensures
            r.lights@ == Seq::<Light>::empty(),
    {
        UniformBlockLights { lights: Vec::new() }
    }
}

fn contains_light(ls: &Vec<Light>, l: &Light) -> (r: bool)
    ensures
        r == ls@.contains(*l),
{
    let mut i: usize = 0;
    while i < ls.len()
        invariant
            i <= ls@.len(),
            forall|k: int| 0 <= k < i ==> ls@[k] != *l,
        decreases ls@.len() - i,
    {
        if light_eq(&ls[i], l) {
            return true;
        }
        i = i + 1;
    }
    false
}

fn find_group(draws: &Vec<UniformGroup>, u: &Uniforms) -> (r: Option<usize>)
    ensures
        match r {
            Some(i) => i < draws@.len() && draws@[i as int].uniforms == *u,
            None => forall|k: int| 0 <= k < draws@.len() ==> draws@[k].uniforms != *u,
        },
{
    let mut i: usize = 0;
    while i < draws.len()
        invariant
            i <= draws@.len(),
            forall|k: int| 0 <= k < i ==> draws@[k].uniforms != *u,
        decreases draws@.len() - i,
    {
        if uniforms_eq(&draws[i].uniforms, u) {
            return Some(i);
        }
        i = i + 1;
    }
    None
}

fn find_batch(batches: &Vec<Batch>, d: &DrawCall) -> (r: Option<usize>)
    ensures
        match r {
            Some(i) => i < batches@.len() && batches@[i as int].draw_call == *d,
            None => forall|k: int| 0 <= k < batches@.len() ==> batches@[k].draw_call != *d,
        },
{
    let mut i: usize = 0;
    while i < batches.len()
        invariant
            i <= batches@.len(),
            forall|k: int| 0 <= k < i ==> batches@[k].draw_call != *d,
        decreases batches@.len() - i,
    {
        if draw_call_eq(&batches[i].draw_call, d) {
            return Some(i);
        }
        i = i + 1;
    }
    None
}

impl DrawCalls {
    /// The batch state: uniform keys in first-submission order, each with
    /// its (draw call, transforms, texcoord transforms) entries.
    pub closed spec fn groups(&self) -> GroupsView {
        self.draws@.map_values(|g: UniformGroup| g.view_spec())
    }

    /// The lights accumulated so far this frame, in accumulation order.
    pub closed spec fn lights(&self) -> Seq<Light> {
        self.lights_ubo.lights@
    }

    /// The bytes staged in the transient arena so far this frame.
    pub closed spec fn staged_bytes(&self) -> Seq<u8> {
        self.temp_buffer.contents()
    }

    pub closed spec fn wf(&self) -> bool {
        &&& forall|i: int, j: int|
            0 <= i < j < self.draws@.len() ==> self.draws@[i].uniforms != (self.draws@[j].uniforms)
        &&& forall|i: int| 0 <= i < self.draws@.len() ==> self.draws@[i].wf()
        &&& self.lights_ubo.lights@.len() <= MAX_LIGHTS
        &&& self.temp_buffer.wf()
    }

    /// A fresh batching engine whose transient arena stands in front of the
    /// (caller-created) buffer object `temp_buffer`.
    pub fn new(temp_buffer: u32) -> (r: DrawCalls)
        ensures
            r.wf(),
            r.groups() == Seq::<(Uniforms, Seq<EntryView>)>::empty(),
            r.lights() == Seq::<Light>::empty(),
            r.staged_bytes() == Seq::<u8>::empty(),
            r.temp_handle() == temp_buffer,
    {
        let r = DrawCalls {
            draws: Vec::new(),
            temp_buffer: BumpAllocatedBuffer::new(GL_ARRAY_BUFFER, GL_STREAM_DRAW, temp_buffer),
            lights_ubo: UniformBlockLights::new(),
        };
        proof {
            assert(r.groups() =~= Seq::<(Uniforms, Seq<EntryView>)>::empty());
        }
        r
    }

    /// Accumulates `inc`'s active lights, carried into world space by
    /// `model`, into this frame's light list: scanning stops at the first
    /// zero-kind entry, an already-present light is not added again, and
    /// once the list holds [`MAX_LIGHTS`] a new light is dropped.
    fn accumulate_lights(&mut self, inc: &UniformBlockLights, model: &Mat4Bits)
        requires
            old(self).wf(),
        ensures
            final(self).wf(),
            final(self).lights() == spec_accumulate_lights(
                old(self).lights(),
                inc.lights@,
                model.e,
                0,
            ),
            final(self).groups() == old(self).groups(),
            final(self).staged_bytes() == old(self).staged_bytes(),
            final(self).temp_handle() == old(self).temp_handle(),
    {
        let n = inc.lights.len();
        let mut i: usize = 0;
        while i < n
            invariant
                i <= n,
                n == inc.lights@.len(),
                self.wf(),
                self.draws == old(self).draws,
                self.temp_buffer == old(self).temp_buffer,
                spec_accumulate_lights(old(self).lights(), inc.lights@, model.e, 0)
                    == spec_accumulate_lights(self.lights(), inc.lights@, model.e, i as int),
            decreases n - i,
        {
            let lc = inc.lights[i];
            if lc.color_and_kind[3] == 0 {
                proof {
                    assert(spec_accumulate_lights(self.lights(), inc.lights@, model.e, i as int)
                        == self.lights());
                }
                return ;
            }
            let l = Light {
                color_and_kind: lc.color_and_kind,
                intensity_params: lc.intensity_params,
                position: mat_mul_vec4(model, &lc.position),
                direction: mat_mul_vec4(model, &lc.direction),
            };
            proof {
                assert(l == spec_transformed_light(inc.lights@, model.e, i as int));
            }
            if contains_light(&self.lights_ubo.lights, &l) {
            } else if self.lights_ubo.lights.len() >= MAX_LIGHTS {
                return ;
            } else {
                self.lights_ubo.lights.push(l);
            }
            i = i + 1;
        }
    }

    /// Appends one instance (`primitive_transform`, `texcoord_transform`) to
    /// the batch keyed by (`uniforms`, `draw_call`), creating the batch on
    /// first use, and accumulates the submission's lights (if any), carried
    /// to world space by `model_transform`, into the frame's light list.
    pub fn add(
        &mut self,
        lights: Option<&UniformBlockLights>,
        uniforms: &Uniforms,
        draw_call: &DrawCall,
        model_transform: &Mat4Bits,
        primitive_transform: &Mat4Bits,
        texcoord_transform: &Mat4Bits,
    )
        requires
            old(self).wf(),
        ensures
            final(self).wf(),
            final(self).groups() == spec_add_instance(
                old(self).groups(),
                *uniforms,
                *draw_call,
                *primitive_transform,
                *texcoord_transform,
            ),
            final(self).lights() == match lights {
                Some(inc) => spec_accumulate_lights(
                    old(self).lights(),
                    inc.lights@,
                    model_transform.e,
                    0,
                ),
                None => old(self).lights(),
            },
            final(self).staged_bytes() == old(self).staged_bytes(),
            final(self).temp_handle() == old(self).temp_handle(),
    {
        match lights {
            Some(inc) => self.accumulate_lights(inc, model_transform),
            None => {},
        }
        let ghost gs = self.groups();
        match find_group(&self.draws, uniforms) {
            None => {
                let batch = Batch {
                    draw_call: *draw_call,
                    instances: InstanceData {
                        transforms: vec![*primitive_transform],
                        texcoord_transforms: vec![*texcoord_transform],
                        count: 1,
                    },
                };
                let mut batches = Vec::new();
                batches.push(batch);
                self.draws.push(UniformGroup { uniforms: *uniforms, batches });
                proof {
                    assert(self.groups() =~~= spec_add_instance(
                        gs,
                        *uniforms,
                        *draw_call,
                        *primitive_transform,
                        *texcoord_transform,
                    ));
                }
            },
            Some(gi) => {
                proof {
                    let i = choose|i: int| 0 <= i < gs.len() && gs[i].0 == *uniforms;
                    assert(gs[gi as int].0 == *uniforms);
                    assert(i == gi as int);
                }
                let ghost es = gs[gi as int].1;
                let g = &mut self.draws[gi];
                match find_batch(&g.batches, draw_call) {
                    None => {
                        let batch = Batch {
                            draw_call: *draw_call,
                            instances: InstanceData {
                                transforms: vec![*primitive_transform],
                                texcoord_transforms: vec![*texcoord_transform],
                                count: 1,
                            },
                        };
                        g.batches.push(batch);
                        proof {
                            assert(g.view_spec().1 =~~= spec_add_entry(
                                es,
                                *draw_call,
                                *primitive_transform,
                                *texcoord_transform,
                            ));
                        }
                    },
                    Some(bi) => {
                        proof {
                            let j = choose|j: int| 0 <= j < es.len() && es[j].0 == *draw_call;
                            assert(es[bi as int].0 == *draw_call);
                            assert(j == bi as int);
                        }
                        let b = &mut g.batches[bi];
                        b.instances.transforms.push(*primitive_transform);
                        b.instances.texcoord_transforms.push(*texcoord_transform);
                        b.instances.count = b.instances.transforms.len();
                        proof {
                            assert(g.view_spec().1 =~~= spec_add_entry(
                                es,
                                *draw_call,
                                *primitive_transform,
                                *texcoord_transform,
                            ));
                        }
                    },
                }
                proof {
                    assert(self.groups() =~~= spec_add_instance(
                        gs,
                        *uniforms,
                        *draw_call,
                        *primitive_transform,
                        *texcoord_transform,
                    ));
                }
            },
        }
    }

    /// The buffer object the transient arena stands in front of.
    pub closed spec fn temp_handle(&self) -> u32 {
        self.temp_buffer.spec_buffer()
    }

    /// How many lights this frame has accumulated so far.
    pub fn light_count(&self) -> (r: usize)
        ensures
            r == self.lights().len(),
    {
        self.lights_ubo.lights.len()
    }

    /// The staged byte stream that `UploadBytes` commands refer to.
    pub fn staged(&self) -> (r: &Vec<u8>)
        ensures
            r@ == self.staged_bytes(),
    {
        self.temp_buffer.data()
    }

    /// Emits this frame's command stream: the accumulated lights are staged
    /// into the transient arena and bound once, then every (uniforms, draw
    /// call) pair with at least one instance has its GPU state bound and its
    /// instance transforms staged, and is drawn with exactly one instanced
    /// draw. A batch with no instances is skipped entirely; a group none of
    /// whose batches has an instance binds nothing at all.
    pub fn draw(
        &mut self,
        model_transform_attrib_locations: [u32; 4],
        texcoord_transform_attrib_locations: [u32; 4],
    ) -> (r: Vec<GlCommand>)
        requires
            old(self).wf(),
        ensures
            final(self).wf(),
            final(self).groups() == old(self).groups(),
            final(self).lights() == old(self).lights(),
            r@ == spec_draw_cmds(
                old(self).groups(),
                old(self).lights(),
                old(self).temp_handle(),
                old(self).staged_bytes().len() as int,
                model_transform_attrib_locations,
                texcoord_transform_attrib_locations,
            ),
            final(self).staged_bytes() == old(self).staged_bytes() + lights_block_le(
                old(self).lights(),
            ) + groups_bytes(old(self).groups(), 0),
            final(self).temp_handle() == old(self).temp_handle(),
    {
        let mlocs = model_transform_attrib_locations;
        let tlocs = texcoord_transform_attrib_locations;
        let ghost gs = self.groups();
        proof {
            crate::arena::lemma_wf_cursor(&self.temp_buffer);
        }
        let mut cmds: Vec<GlCommand> = Vec::new();
        let lights_bytes = pack_lights(&self.lights_ubo.lights);
        proof {
            crate::bytes::lemma_vec4s_le_len(pad_lights(self.lights_ubo.lights@.map_values(|l: Light| l.color_and_kind)));
            crate::bytes::lemma_vec4s_le_len(pad_lights(self.lights_ubo.lights@.map_values(|l: Light| l.intensity_params)));
            crate::bytes::lemma_vec4s_le_len(pad_lights(self.lights_ubo.lights@.map_values(|l: Light| l.position)));
            crate::bytes::lemma_vec4s_le_len(pad_lights(self.lights_ubo.lights@.map_values(|l: Light| l.direction)));
        }
        let (lbuf, loff) = self.temp_buffer.allocate_buffer(lights_bytes.as_slice());
        cmds.push(
            GlCommand::UploadBytes {
                target: GL_ARRAY_BUFFER,
                buffer: lbuf,
                byte_offset: loff,
                byte_len: lights_bytes.len(),
            },
        );
        cmds.push(
            GlCommand::BindUniformBufferRange {
                index: UNIFORM_BLOCK_LIGHTS,
                buffer: lbuf,
                byte_offset: loff,
                byte_len: lights_bytes.len(),
            },
        );
        let ghost base = cmds@;
        let ghost off1 = self.temp_buffer.spec_offset();
        let ghost staged1 = self.temp_buffer.contents();
        let n = self.draws.len();
        let mut gi: usize = 0;
        while gi < n
            invariant
                gi <= n,
                n == self.draws@.len(),
                self.wf(),
                self.draws == old(self).draws,
                self.lights_ubo == old(self).lights_ubo,
                gs == self.groups(),
                self.temp_buffer.spec_buffer() == lbuf,
                self.temp_buffer.wf(),
                base + groups_cmds(gs, 0, lbuf, off1, mlocs, tlocs).0 == cmds@ + groups_cmds(
                    gs,
                    gi as int,
                    lbuf,
                    self.temp_buffer.spec_offset(),
                    mlocs,
                    tlocs,
                ).0,
                staged1 + groups_bytes(gs, 0) == self.temp_buffer.contents() + groups_bytes(
                    gs,
                    gi as int,
                ),
                self.temp_buffer.spec_offset() == self.temp_buffer.contents().len(),
            decreases n - gi,
        {
            let ghost off_gi = self.temp_buffer.spec_offset();
            if group_has_instances(&self.draws[gi]) {
                push_tex_cmds(&mut cmds, &self.draws[gi].uniforms);
                let m = self.draws[gi].batches.len();
                let mut bi: usize = 0;
                while bi < m
                    invariant
                        bi <= m,
                        gi < n,
                        n == self.draws@.len(),
                        m == self.draws@[gi as int].batches@.len(),
                        self.wf(),
                        self.draws == old(self).draws,
                        self.lights_ubo == old(self).lights_ubo,
                        gs == self.groups(),
                        self.temp_buffer.spec_buffer() == lbuf,
                        self.temp_buffer.wf(),
                        base + groups_cmds(gs, 0, lbuf, off1, mlocs, tlocs).0 == cmds@
                            + entries_cmds(
                            gs[gi as int].1,
                            bi as int,
                            lbuf,
                            self.temp_buffer.spec_offset(),
                            mlocs,
                            tlocs,
                        ).0 + groups_cmds(
                            gs,
                            gi as int + 1,
                            lbuf,
                            entries_cmds(
                                gs[gi as int].1,
                                bi as int,
                                lbuf,
                                self.temp_buffer.spec_offset(),
                                mlocs,
                                tlocs,
                            ).1,
                            mlocs,
                            tlocs,
                        ).0,
                        staged1 + groups_bytes(gs, 0) == self.temp_buffer.contents()
                            + entries_bytes(gs[gi as int].1, bi as int) + groups_bytes(
                            gs,
                            gi as int + 1,
                        ),
                        self.temp_buffer.spec_offset() == self.temp_buffer.contents().len(),
                    decreases m - bi,
                {
                    let transform_count = self.draws[gi].batches[bi].instances.transforms.len();
                    if transform_count > 0 {
                        let b = &self.draws[gi].batches[bi];
                        cmds.push(GlCommand::BindVertexArray { vao: b.draw_call.vao });
                        let t_bytes = pack_mats(&b.instances.transforms);
                        proof {
                            crate::bytes::lemma_mats_le_len(b.instances.transforms@);
                            crate::bytes::lemma_mats_le_len(b.instances.texcoord_transforms@);
                        }
                        let (t_buf, t_off) = self.temp_buffer.allocate_buffer(t_bytes.as_slice());
                        cmds.push(
                            GlCommand::UploadBytes {
                                target: GL_ARRAY_BUFFER,
                                buffer: t_buf,
                                byte_offset: t_off,
                                byte_len: t_bytes.len(),
                            },
                        );
                        cmds.push(
                            GlCommand::BindInstanceAttributes {
                                locations: mlocs,
                                buffer: t_buf,
                                byte_offset: t_off,
                            },
                        );
                        let b = &self.draws[gi].batches[bi];
                        let tt_bytes = pack_mats(&b.instances.texcoord_transforms);
                        let (tt_buf, tt_off) = self.temp_buffer.allocate_buffer(
                            tt_bytes.as_slice(),
                        );
                        cmds.push(
                            GlCommand::UploadBytes {
                                target: GL_ARRAY_BUFFER,
                                buffer: tt_buf,
                                byte_offset: tt_off,
                                byte_len: tt_bytes.len(),
                            },
                        );
                        cmds.push(
                            GlCommand::BindInstanceAttributes {
                                locations: tlocs,
                                buffer: tt_buf,
                                byte_offset: tt_off,
                            },
                        );
                        let b = &self.draws[gi].batches[bi];
                        match b.draw_call.disabled_all_ones_vertex_attribute {
                            Some(location) => {
                                cmds.push(GlCommand::SetDefaultColorAttribute { location });
                            },
                            None => {},
                        }
                        cmds.push(GlCommand::SetFrontFace { mode: b.draw_call.front_face });
                        cmds.push(GlCommand::BindIndexBuffer { buffer: b.draw_call.index_buffer });
                        cmds.push(
                            GlCommand::DrawElementsInstanced {
                                mode: b.draw_call.mode,
                                index_count: b.draw_call.index_count,
                                index_type: b.draw_call.index_type,
                                index_byte_offset: b.draw_call.index_byte_offset,
                                instance_count: transform_count,
                            },
                        );
                    }
                    bi = bi + 1;
                }
                proof {
                    assert(entries_cmds(gs[gi as int].1, m as int, lbuf, self.temp_buffer.spec_offset(), mlocs, tlocs).0 =~= Seq::<GlCommand>::empty());
                    assert(entries_bytes(gs[gi as int].1, m as int) =~= Seq::<u8>::empty());
                }
            } else {
                proof {
                    assert(!group_nonempty(gs[gi as int]));
                }
            }
            gi = gi + 1;
        }
        proof {
            assert(groups_cmds(gs, n as int, lbuf, self.temp_buffer.spec_offset(), mlocs, tlocs).0
                =~= Seq::<GlCommand>::empty());
            assert(groups_bytes(gs, n as int) =~= Seq::<u8>::empty());
            assert(cmds@ =~= base + groups_cmds(gs, 0, lbuf, off1, mlocs, tlocs).0);
            assert(cmds@ =~= spec_draw_cmds(
                gs,
                old(self).lights(),
                old(self).temp_handle(),
                old(self).staged_bytes().len() as int,
                mlocs,
                tlocs,
            ));
            assert(self.temp_buffer.contents() =~= old(self).staged_bytes() + lights_block_le(
                old(self).lights(),
            ) + groups_bytes(gs, 0));
        }
        cmds
    }

    /// Empties every batch's instance lists (the batch keys stay, so the
    /// next frame reuses their allocations), resets the transient arena's
    /// cursor, and forgets the frame's lights.
    pub fn clear(&mut self)
        requires
            old(self).wf(),
        ensures
            final(self).wf(),
            final(self).groups() == spec_cleared(old(self).groups()),
            final(self).lights() == Seq::<Light>::empty(),
            final(self).staged_bytes() == Seq::<u8>::empty(),
            final(self).temp_handle() == old(self).temp_handle(),
    {
        let n = self.draws.len();
        let mut gi: usize = 0;
        while gi < n
            invariant
                gi <= n,
                n == self.draws@.len(),
                self.draws@.len() == old(self).draws@.len(),
                forall|k: int|
                    0 <= k < gi ==> #[trigger] self.draws@[k].view_spec() == spec_cleared_group(
                        old(self).draws@[k].view_spec(),
                    ),
                forall|k: int| gi <= k < n ==> self.draws@[k] == old(self).draws@[k],
                forall|k: int| 0 <= k < gi ==> self.draws@[k].uniforms == old(
                    self,
                ).draws@[k].uniforms,
                forall|k: int| 0 <= k < n ==> self.draws@[k].wf(),
                self.temp_buffer == old(self).temp_buffer,
                self.lights_ubo == old(self).lights_ubo,
            decreases n - gi,
        {
            clear_group(&mut self.draws[gi]);
            gi = gi + 1;
        }
        self.temp_buffer.clear();
        self.lights_ubo.lights.clear();
        proof {
            assert(old(self).wf());
            assert(self.groups() =~~= spec_cleared(old(self).groups()));
        }
    }
}

/// One GPU state change or draw submission, in the order the backend must
/// perform them. `UploadBytes` names a range of the frame's staged byte
/// stream (see [`DrawCalls::staged`]) to hand to the named buffer object.
#[derive(Clone, Copy, PartialEq, Eq, Debug)]
pub enum GlCommand {
    UploadBytes { target: u32, buffer: u32, byte_offset: usize, byte_len: usize },
    BindUniformBufferRange { index: u32, buffer: u32, byte_offset: usize, byte_len: usize },
    BindTexture { unit: u32, texture: u32, sampler: u32 },
    BindVertexArray { vao: u32 },
    BindInstanceAttributes { locations: [u32; 4], buffer: u32, byte_offset: usize },
    SetDefaultColorAttribute { location: u32 },
    SetFrontFace { mode: u32 },
    BindIndexBuffer { buffer: u32 },
    DrawElementsInstanced {
        mode: u32,
        index_count: usize,
        index_type: u32,
        index_byte_offset: usize,
        instance_count: usize,
    },
}

/// The fixed GPU layout of a light uniform block: each component array
/// padded with zero entries to [`MAX_LIGHTS`], the four arrays laid out one
/// after another.
pub open spec fn lights_block_le(ls: Seq<Light>) -> Seq<u8> {
    vec4s_le(pad_lights(ls.map_values(|l: Light| l.color_and_kind))) + vec4s_le(
        pad_lights(ls.map_values(|l: Light| l.intensity_params)),
    ) + vec4s_le(pad_lights(ls.map_values(|l: Light| l.position))) + vec4s_le(
        pad_lights(ls.map_values(|l: Light| l.direction)),
    )
}

pub open spec fn pad_lights(vs: Seq<[u32; 4]>) -> Seq<[u32; 4]> {
    vs + Seq::new((MAX_LIGHTS - vs.len()) as nat, |i: int| [0u32, 0u32, 0u32, 0u32])
}

fn push_padded_vec4s(out: &mut Vec<u8>, vs: &Vec<[u32; 4]>)
    requires
        vs@.len() <= MAX_LIGHTS,
    ensures
        final(out)@ == old(out)@ + vec4s_le(pad_lights(vs@)),
{
    let mut padded: Vec<[u32; 4]> = Vec::new();
    let mut i: usize = 0;
    while i < vs.len()
        invariant
            i <= vs@.len(),
            padded@ == vs@.subrange(0, i as int),
        decreases vs@.len() - i,
    {
        padded.push(vs[i]);
        proof {
            assert(padded@ =~= vs@.subrange(0, i + 1 as int));
        }
        i = i + 1;
    }
    proof {
        assert(vs@.subrange(0, vs@.len() as int) =~= vs@);
    }
    while i < MAX_LIGHTS
        invariant
            vs@.len() <= i <= MAX_LIGHTS,
            padded@ == vs@ + Seq::new((i - vs@.len()) as nat, |k: int| [0u32, 0u32, 0u32, 0u32]),
        decreases MAX_LIGHTS - i,
    {
        padded.push([0u32, 0u32, 0u32, 0u32]);
        proof {
            assert(padded@ =~= vs@ + Seq::new(
                (i + 1 - vs@.len()) as nat,
                |k: int| [0u32, 0u32, 0u32, 0u32],
            ));
        }
        i = i + 1;
    }
    proof {
        assert(padded@ =~= pad_lights(vs@));
    }
    push_vec4s_le(out, &padded);
}

fn light_color_and_kinds(ls: &Vec<Light>) -> (r: Vec<[u32; 4]>)
    ensures
        r@ == ls@.map_values(|l: Light| l.color_and_kind),
{
    let mut r: Vec<[u32; 4]> = Vec::new();
    let mut i: usize = 0;
    while i < ls.len()
        invariant
            i <= ls@.len(),
            r@ == ls@.subrange(0, i as int).map_values(|l: Light| l.color_and_kind),
        decreases ls@.len() - i,
    {
        r.push(ls[i].color_and_kind);
        proof {
            assert(r@ =~= ls@.subrange(0, i + 1 as int).map_values(
                |l: Light| l.color_and_kind,
            ));
        }
        i = i + 1;
    }
    proof {
        assert(ls@.subrange(0, ls@.len() as int) =~= ls@);
    }
    r
}

fn light_intensity_params(ls: &Vec<Light>) -> (r: Vec<[u32; 4]>)
    ensures
        r@ == ls@.map_values(|l: Light| l.intensity_params),
{
    let mut r: Vec<[u32; 4]> = Vec::new();
    let mut i: usize = 0;
    while i < ls.len()
        invariant
            i <= ls@.len(),
            r@ == ls@.subrange(0, i as int).map_values(|l: Light| l.intensity_params),
        decreases ls@.len() - i,
    {
        r.push(ls[i].intensity_params);
        proof {
            assert(r@ =~= ls@.subrange(0, i + 1 as int).map_values(
                |l: Light| l.intensity_params,
            ));
        }
        i = i + 1;
    }
    proof {
        assert(ls@.subrange(0, ls@.len() as int) =~= ls@);
    }
    r
}

fn light_positions(ls: &Vec<Light>) -> (r: Vec<[u32; 4]>)
    ensures
        r@ == ls@.map_values(|l: Light| l.position),
{
    let mut r: Vec<[u32; 4]> = Vec::new();
    let mut i: usize = 0;
    while i < ls.len()
        invariant
            i <= ls@.len(),
            r@ == ls@.subrange(0, i as int).map_values(|l: Light| l.position),
        decreases ls@.len() - i,
    {
        r.push(ls[i].position);
        proof {
            assert(r@ =~= ls@.subrange(0, i + 1 as int).map_values(|l: Light| l.position));
        }
        i = i + 1;
    }
    proof {
        assert(ls@.subrange(0, ls@.len() as int) =~= ls@);
    }
    r
}

fn light_directions(ls: &Vec<Light>) -> (r: Vec<[u32; 4]>)
    ensures
        r@ == ls@.map_values(|l: Light| l.direction),
{
    let mut r: Vec<[u32; 4]> = Vec::new();
    let mut i: usize = 0;
    while i < ls.len()
        invariant
            i <= ls@.len(),
            r@ == ls@.subrange(0, i as int).map_values(|l: Light| l.direction),
        decreases ls@.len() - i,
    {
        r.push(ls[i].direction);
        proof {
            assert(r@ =~= ls@.subrange(0, i + 1 as int).map_values(|l: Light| l.direction));
        }
        i = i + 1;
    }
    proof {
        assert(ls@.subrange(0, ls@.len() as int) =~= ls@);
    }
    r
}

/// Packs a frame's lights into the fixed 2048-byte uniform block layout.
pub fn pack_lights(ls: &Vec<Light>) -> (r: Vec<u8>)
    requires
        ls@.len() <= MAX_LIGHTS,
    ensures
        r@ == lights_block_le(ls@),
{
    let mut out: Vec<u8> = Vec::new();
    let cks = light_color_and_kinds(ls);
    push_padded_vec4s(&mut out, &cks);
    let ips = light_intensity_params(ls);
    push_padded_vec4s(&mut out, &ips);
    let ps = light_positions(ls);
    push_padded_vec4s(&mut out, &ps);
    let ds = light_directions(ls);
    push_padded_vec4s(&mut out, &ds);
    proof {
        assert(out@ =~= lights_block_le(ls@));
    }
    out
}

/// The texture binding commands of one uniform key, slot by slot in slot
/// order; an empty slot binds nothing.
pub open spec fn tex_cmds(ts: Seq<Option<(u32, u32, u32)>>) -> Seq<GlCommand>
    decreases ts.len(),
{
    if ts.len() == 0 {
        Seq::empty()
    } else {
        tex_cmds(ts.drop_last()) + match ts.last() {
            Some(t) => seq![GlCommand::BindTexture { unit: t.0, texture: t.1, sampler: t.2 }],
            None => Seq::empty(),
        }
    }
}

/// The uniform-buffer binding commands of one uniform key, slot by slot.
pub open spec fn ubo_cmds(us: Seq<Option<(u32, u32, usize, usize)>>) -> Seq<GlCommand>
    decreases us.len(),
{
    if us.len() == 0 {
        Seq::empty()
    } else {
        ubo_cmds(us.drop_last()) + match us.last() {
            Some(u) => seq![
                GlCommand::BindUniformBufferRange {
                    index: u.0,
                    buffer: u.1,
                    byte_offset: u.2,
                    byte_len: u.3,
                },
            ],
            None => Seq::empty(),
        }
    }
}

/// The commands for one batch with at least one instance, staged at byte
/// offset `off` of the arena in front of buffer `buf`: bind the vertex
/// array, upload and bind the model transforms and the texcoord transforms
/// as instanced attributes, restore the disabled color attribute's white
/// default if the draw call asks for it, set the winding, bind the index
/// buffer, and issue one instanced draw for all accumulated instances.
pub open spec fn entry_cmds(
    e: EntryView,
    buf: u32,
    off: int,
    mlocs: [u32; 4],
    tlocs: [u32; 4],
) -> Seq<GlCommand> {
    let n = e.1.len();
    seq![
        GlCommand::BindVertexArray { vao: e.0.vao },
        GlCommand::UploadBytes {
            target: GL_ARRAY_BUFFER,
            buffer: buf,
            byte_offset: off as usize,
            byte_len: (64 * n) as usize,
        },
        GlCommand::BindInstanceAttributes { locations: mlocs, buffer: buf, byte_offset: off as usize },
        GlCommand::UploadBytes {
            target: GL_ARRAY_BUFFER,
            buffer: buf,
            byte_offset: (off + 64 * n) as usize,
            byte_len: (64 * n) as usize,
        },
        GlCommand::BindInstanceAttributes {
            locations: tlocs,
            buffer: buf,
            byte_offset: (off + 64 * n) as usize,
        },
    ] + (match e.0.disabled_all_ones_vertex_attribute {
        Some(loc) => seq![GlCommand::SetDefaultColorAttribute { location: loc }],
        None => Seq::empty(),
    }) + seq![
        GlCommand::SetFrontFace { mode: e.0.front_face },
        GlCommand::BindIndexBuffer { buffer: e.0.index_buffer },
        GlCommand::DrawElementsInstanced {
            mode: e.0.mode,
            index_count: e.0.index_count,
            index_type: e.0.index_type,
            index_byte_offset: e.0.index_byte_offset,
            instance_count: n as usize,
        },
    ]
}

/// The bytes one batch stages: its model transforms then its texcoord
/// transforms, 64 bytes a matrix.
pub open spec fn entry_bytes(e: EntryView) -> Seq<u8> {
    mats_le(e.1) + mats_le(e.2)
}

/// Commands of the entries of one group from index `i` on, threading the
/// arena offset; a batch with no instances is skipped entirely.
pub open spec fn entries_cmds(
    es: Seq<EntryView>,
    i: int,
    buf: u32,
    off: int,
    mlocs: [u32; 4],
    tlocs: [u32; 4],
) -> (Seq<GlCommand>, int)
    decreases es.len() - i,
{
    if i < 0 || i >= es.len() {
        (Seq::empty(), off)
    } else if es[i].1.len() == 0 {
        entries_cmds(es, i + 1, buf, off, mlocs, tlocs)
    } else {
        let rest = entries_cmds(es, i + 1, buf, off + 128 * es[i].1.len(), mlocs, tlocs);
        (entry_cmds(es[i], buf, off, mlocs, tlocs) + rest.0, rest.1)
    }
}

pub open spec fn entries_bytes(es: Seq<EntryView>, i: int) -> Seq<u8>
    decreases es.len() - i,
{
    if i < 0 || i >= es.len() {
        Seq::empty()
    } else if es[i].1.len() == 0 {
        entries_bytes(es, i + 1)
    } else {
        entry_bytes(es[i]) + entries_bytes(es, i + 1)
    }
}

/// True when some batch of the group has accumulated an instance.
pub open spec fn group_nonempty(g: (Uniforms, Seq<EntryView>)) -> bool {
    exists|j: int| 0 <= j < g.1.len() && g.1[j].1.len() > 0
}

/// Commands of the groups from index `i` on: a group none of whose batches
/// accumulated an instance is skipped entirely; otherwise its texture and
/// uniform-buffer bindings are set once, then its batches are drawn.
pub open spec fn groups_cmds(
    gs: GroupsView,
    i: int,
    buf: u32,
    off: int,
    mlocs: [u32; 4],
    tlocs: [u32; 4],
) -> (Seq<GlCommand>, int)
    decreases gs.len() - i,
{
    if i < 0 || i >= gs.len() {
        (Seq::empty(), off)
    } else if !group_nonempty(gs[i]) {
        groups_cmds(gs, i + 1, buf, off, mlocs, tlocs)
    } else {
        let e = entries_cmds(gs[i].1, 0, buf, off, mlocs, tlocs);
        let rest = groups_cmds(gs, i + 1, buf, e.1, mlocs, tlocs);
        (tex_cmds(gs[i].0.textures@) + ubo_cmds(gs[i].0.ubos@) + e.0 + rest.0, rest.1)
    }
}

pub open spec fn groups_bytes(gs: GroupsView, i: int) -> Seq<u8>
    decreases gs.len() - i,
{
    if i < 0 || i >= gs.len() {
        Seq::empty()
    } else if !group_nonempty(gs[i]) {
        groups_bytes(gs, i + 1)
    } else {
        entries_bytes(gs[i].1, 0) + groups_bytes(gs, i + 1)
    }
}

/// Everything one frame's `draw` emits: the lights block is staged and
/// bound first, then each group with at least one instance is bound and
/// drawn.
pub open spec fn spec_draw_cmds(
    gs: GroupsView,
    ls: Seq<Light>,
    buf: u32,
    off: int,
    mlocs: [u32; 4],
    tlocs: [u32; 4],
) -> Seq<GlCommand> {
    seq![
        GlCommand::UploadBytes {
            target: GL_ARRAY_BUFFER,
            buffer: buf,
            byte_offset: off as usize,
            byte_len: 2048,
        },
        GlCommand::BindUniformBufferRange {
            index: UNIFORM_BLOCK_LIGHTS,
            buffer: buf,
            byte_offset: off as usize,
            byte_len: 2048,
        },
    ] + groups_cmds(gs, 0, buf, off + 2048, mlocs, tlocs).0
}

fn group_has_instances(g: &UniformGroup) -> (r: bool)
    ensures
        r == group_nonempty(g.view_spec()),
{
    let mut j: usize = 0;
    while j < g.batches.len()
        invariant
            j <= g.batches@.len(),
            forall|k: int| 0 <= k < j ==> g.batches@[k].instances.transforms@.len() == 0,
        decreases g.batches@.len() - j,
    {
        if g.batches[j].instances.transforms.len() > 0 {
            proof {
                assert(g.view_spec().1[j as int] == g.batches@[j as int].view_spec());
                assert(g.view_spec().1[j as int].1.len() > 0);
            }
            return true;
        }
        j = j + 1;
    }
    proof {
        assert forall|k: int| 0 <= k < g.view_spec().1.len() implies g.view_spec().1[k].1.len()
            == 0 by {
            assert(g.view_spec().1[k] == g.batches@[k].view_spec());
        }
    }
    false
}

fn push_tex_cmds(out: &mut Vec<GlCommand>, u: &Uniforms)
    ensures
        final(out)@ == old(out)@ + tex_cmds(u.textures@) + ubo_cmds(u.ubos@),
{
    let mut k: usize = 0;
    while k < 5
        invariant
            k <= 5,
            out@ == old(out)@ + tex_cmds(u.textures@.subrange(0, k as int)),
        decreases 5 - k,
    {
        let ghost prefix = u.textures@.subrange(0, k as int);
        match u.textures[k] {
            Some(t) => {
                out.push(GlCommand::BindTexture { unit: t.0, texture: t.1, sampler: t.2 });
            },
            None => {},
        }
        proof {
            let next = u.textures@.subrange(0, k + 1 as int);
            assert(next.drop_last() =~= prefix);
            assert(next.last() == u.textures@[k as int]);
        }
        k = k + 1;
    }
    proof {
        assert(u.textures@.subrange(0, 5) =~= u.textures@);
    }
    let mut k: usize = 0;
    while k < 2
        invariant
            k <= 2,
            out@ == old(out)@ + tex_cmds(u.textures@) + ubo_cmds(u.ubos@.subrange(0, k as int)),
        decreases 2 - k,
    {
        let ghost prefix = u.ubos@.subrange(0, k as int);
        match u.ubos[k] {
            Some(b) => {
                out.push(
                    GlCommand::BindUniformBufferRange {
                        index: b.0,
                        buffer: b.1,
                        byte_offset: b.2,
                        byte_len: b.3,
                    },
                );
            },
            None => {},
        }
        proof {
            let next = u.ubos@.subrange(0, k + 1 as int);
            assert(next.drop_last() =~= prefix);
            assert(next.last() == u.ubos@[k as int]);
        }
        k = k + 1;
    }
    proof {
        assert(u.ubos@.subrange(0, 2) =~= u.ubos@);
    }
}

/// The batch state after submitting instances `ts[k]` (with texcoord
/// transforms `tts[k]`), in order, all keyed by the one pair (`u`, `d`).
pub open spec fn spec_add_all(
    gs: GroupsView,
    u: Uniforms,
    d: DrawCall,
    ts: Seq<Mat4Bits>,
    tts: Seq<Mat4Bits>,
) -> GroupsView
    decreases ts.len(),
{
    if ts.len() == 0 {
        gs
    } else {
        spec_add_instance(
            spec_add_all(gs, u, d, ts.drop_last(), tts.drop_last()),
            u,
            d,
            ts.last(),
            tts.last(),
        )
    }
}

/// Law: submitting the same (uniforms, draw call) pair N times into an
/// empty engine accumulates exactly one batch, holding all N transforms in
/// submission order.
pub proof fn lemma_same_pair_one_batch(
    u: Uniforms,
    d: DrawCall,
    ts: Seq<Mat4Bits>,
    tts: Seq<Mat4Bits>,
)
    requires
        ts.len() == tts.len(),
        ts.len() > 0,
    ensures
        spec_add_all(Seq::empty(), u, d, ts, tts) == seq![(u, seq![(d, ts, tts)])],
    decreases ts.len(),
{
    if ts.len() == 1 {
        assert(ts.drop_last().len() == 0);
        assert(spec_add_all(Seq::empty(), u, d, ts.drop_last(), tts.drop_last()) == Seq::<(
            Uniforms,
            Seq<EntryView>,
        )>::empty());
        let gs1 = spec_add_all(Seq::empty(), u, d, ts, tts);
        assert(gs1 == spec_add_instance(Seq::empty(), u, d, ts.last(), tts.last()));
        assert(gs1 =~~= seq![(u, seq![(d, ts, tts)])]) by {
            assert(seq![ts.last()] =~= ts);
            assert(seq![tts.last()] =~= tts);
        }
    } else {
        lemma_same_pair_one_batch(u, d, ts.drop_last(), tts.drop_last());
        let prev: GroupsView = seq![(u, seq![(d, ts.drop_last(), tts.drop_last())])];
        let gs1 = spec_add_instance(prev, u, d, ts.last(), tts.last());
        assert(prev[0].0 == u);
        let i = choose|i: int| 0 <= i < prev.len() && prev[i].0 == u;
        assert(i == 0);
        let es = prev[0].1;
        assert(es[0].0 == d);
        let j = choose|j: int| 0 <= j < es.len() && es[j].0 == d;
        assert(j == 0);
        assert(gs1 =~~= seq![(u, seq![(d, ts, tts)])]) by {
            assert(ts.drop_last().push(ts.last()) =~= ts);
            assert(tts.drop_last().push(tts.last()) =~= tts);
        }
    }
}

/// The instanced draw submissions among a command stream.
pub open spec fn instanced_draws(cmds: Seq<GlCommand>) -> Seq<GlCommand> {
    cmds.filter(|c: GlCommand| c is DrawElementsInstanced)
}

/// The one draw submission a batch produces.
pub open spec fn draw_cmd_of(e: EntryView) -> GlCommand {
    GlCommand::DrawElementsInstanced {
        mode: e.0.mode,
        index_count: e.0.index_count,
        index_type: e.0.index_type,
        index_byte_offset: e.0.index_byte_offset,
        instance_count: e.1.len() as usize,
    }
}

/// The batches with at least one instance among a group's entries, from
/// index `i` on.
pub open spec fn nonempty_entries_of(es: Seq<EntryView>, i: int) -> Seq<EntryView>
    decreases es.len() - i,
{
    if i < 0 || i >= es.len() {
        Seq::empty()
    } else if es[i].1.len() == 0 {
        nonempty_entries_of(es, i + 1)
    } else {
        seq![es[i]] + nonempty_entries_of(es, i + 1)
    }
}

/// The batches with at least one instance across all groups, in the order
/// they are drawn.
pub open spec fn nonempty_entries(gs: GroupsView, i: int) -> Seq<EntryView>
    decreases gs.len() - i,
{
    if i < 0 || i >= gs.len() {
        Seq::empty()
    } else if !group_nonempty(gs[i]) {
        nonempty_entries(gs, i + 1)
    } else {
        nonempty_entries_of(gs[i].1, 0) + nonempty_entries(gs, i + 1)
    }
}

proof fn lemma_tex_cmds_no_draws(ts: Seq<Option<(u32, u32, u32)>>)
    ensures
        instanced_draws(tex_cmds(ts)) == Seq::<GlCommand>::empty(),
    decreases ts.len(),
{
    broadcast use vstd::seq_lib::group_seq_properties;

    reveal_with_fuel(Seq::filter, 3);
    if ts.len() > 0 {
        lemma_tex_cmds_no_draws(ts.drop_last());
        match ts.last() {
            Some(t) => {
                Seq::filter_distributes_over_add(
                    tex_cmds(ts.drop_last()),
                    seq![GlCommand::BindTexture { unit: t.0, texture: t.1, sampler: t.2 }],
                    |c: GlCommand| c is DrawElementsInstanced,
                );
            },
            None => {
                assert(tex_cmds(ts) =~= tex_cmds(ts.drop_last()));
            },
        }
    }
}

proof fn lemma_ubo_cmds_no_draws(us: Seq<Option<(u32, u32, usize, usize)>>)
    ensures
        instanced_draws(ubo_cmds(us)) == Seq::<GlCommand>::empty(),
    decreases us.len(),
{
    reveal_with_fuel(Seq::filter, 3);
    if us.len() > 0 {
        lemma_ubo_cmds_no_draws(us.drop_last());
        match us.last() {
            Some(u) => {
                Seq::filter_distributes_over_add(
                    ubo_cmds(us.drop_last()),
                    seq![
                        GlCommand::BindUniformBufferRange {
                            index: u.0,
                            buffer: u.1,
                            byte_offset: u.2,
                            byte_len: u.3,
                        },
                    ],
                    |c: GlCommand| c is DrawElementsInstanced,
                );
            },
            None => {
                assert(ubo_cmds(us) =~= ubo_cmds(us.drop_last()));
            },
        }
    }
}

proof fn lemma_entry_cmds_draws(e: EntryView, buf: u32, off: int, mlocs: [u32; 4], tlocs: [u32; 4])
    ensures
        instanced_draws(entry_cmds(e, buf, off, mlocs, tlocs)) == seq![draw_cmd_of(e)],
{
    reveal_with_fuel(Seq::filter, 12);
    let pred = |c: GlCommand| c is DrawElementsInstanced;
    let head = seq![
        GlCommand::BindVertexArray { vao: e.0.vao },
        GlCommand::UploadBytes {
            target: GL_ARRAY_BUFFER,
            buffer: buf,
            byte_offset: off as usize,
            byte_len: (64 * e.1.len()) as usize,
        },
        GlCommand::BindInstanceAttributes {
            locations: mlocs,
            buffer: buf,
            byte_offset: off as usize,
        },
        GlCommand::UploadBytes {
            target: GL_ARRAY_BUFFER,
            buffer: buf,
            byte_offset: (off + 64 * e.1.len()) as usize,
            byte_len: (64 * e.1.len()) as usize,
        },
        GlCommand::BindInstanceAttributes {
            locations: tlocs,
            buffer: buf,
            byte_offset: (off + 64 * e.1.len()) as usize,
        },
    ];
    let mid = match e.0.disabled_all_ones_vertex_attribute {
        Some(loc) => seq![GlCommand::SetDefaultColorAttribute { location: loc }],
        None => Seq::<GlCommand>::empty(),
    };
    let tail = seq![
        GlCommand::SetFrontFace { mode: e.0.front_face },
        GlCommand::BindIndexBuffer { buffer: e.0.index_buffer },
        draw_cmd_of(e),
    ];
    Seq::filter_distributes_over_add(head + mid, tail, pred);
    Seq::filter_distributes_over_add(head, mid, pred);
    assert(head.filter(pred) =~= Seq::<GlCommand>::empty());
    assert(mid.filter(pred) =~= Seq::<GlCommand>::empty());
    assert(tail.filter(pred) =~= seq![draw_cmd_of(e)]);
    assert(entry_cmds(e, buf, off, mlocs, tlocs) == (head + mid) + tail);
    assert(instanced_draws(entry_cmds(e, buf, off, mlocs, tlocs)) =~= seq![draw_cmd_of(e)]);
}

proof fn lemma_entries_cmds_draws(
    es: Seq<EntryView>,
    i: int,
    buf: u32,
    off: int,
    mlocs: [u32; 4],
    tlocs: [u32; 4],
)
    ensures
        instanced_draws(entries_cmds(es, i, buf, off, mlocs, tlocs).0) == nonempty_entries_of(
            es,
            i,
        ).map_values(|e: EntryView| draw_cmd_of(e)),
    decreases es.len() - i,
{
    reveal_with_fuel(Seq::filter, 2);
    let pred = |c: GlCommand| c is DrawElementsInstanced;
    if i < 0 || i >= es.len() {
        assert(instanced_draws(Seq::<GlCommand>::empty()) =~= Seq::<GlCommand>::empty());
        assert(nonempty_entries_of(es, i).map_values(|e: EntryView| draw_cmd_of(e)) =~= Seq::<
            GlCommand,
        >::empty());
    } else if es[i].1.len() == 0 {
        lemma_entries_cmds_draws(es, i + 1, buf, off, mlocs, tlocs);
    } else {
        let rest = entries_cmds(es, i + 1, buf, off + 128 * es[i].1.len(), mlocs, tlocs);
        lemma_entries_cmds_draws(es, i + 1, buf, off + 128 * es[i].1.len(), mlocs, tlocs);
        lemma_entry_cmds_draws(es[i], buf, off, mlocs, tlocs);
        Seq::filter_distributes_over_add(entry_cmds(es[i], buf, off, mlocs, tlocs), rest.0, pred);
        assert(instanced_draws(entries_cmds(es, i, buf, off, mlocs, tlocs).0) =~= seq![
            draw_cmd_of(es[i]),
        ] + nonempty_entries_of(es, i + 1).map_values(|e: EntryView| draw_cmd_of(e)));
        assert(nonempty_entries_of(es, i).map_values(|e: EntryView| draw_cmd_of(e)) =~= seq![
            draw_cmd_of(es[i]),
        ] + nonempty_entries_of(es, i + 1).map_values(|e: EntryView| draw_cmd_of(e)));
    }
}

proof fn lemma_groups_cmds_draws(
    gs: GroupsView,
    i: int,
    buf: u32,
    off: int,
    mlocs: [u32; 4],
    tlocs: [u32; 4],
)
    ensures
        instanced_draws(groups_cmds(gs, i, buf, off, mlocs, tlocs).0) == nonempty_entries(
            gs,
            i,
        ).map_values(|e: EntryView| draw_cmd_of(e)),
    decreases gs.len() - i,
{
    reveal_with_fuel(Seq::filter, 2);
    let pred = |c: GlCommand| c is DrawElementsInstanced;
    if i < 0 || i >= gs.len() {
        assert(instanced_draws(Seq::<GlCommand>::empty()) =~= Seq::<GlCommand>::empty());
        assert(nonempty_entries(gs, i).map_values(|e: EntryView| draw_cmd_of(e)) =~= Seq::<
            GlCommand,
        >::empty());
    } else if !group_nonempty(gs[i]) {
        lemma_groups_cmds_draws(gs, i + 1, buf, off, mlocs, tlocs);
    } else {
        let e = entries_cmds(gs[i].1, 0, buf, off, mlocs, tlocs);
        let rest = groups_cmds(gs, i + 1, buf, e.1, mlocs, tlocs);
        let hdr = tex_cmds(gs[i].0.textures@) + ubo_cmds(gs[i].0.ubos@);
        lemma_tex_cmds_no_draws(gs[i].0.textures@);
        lemma_ubo_cmds_no_draws(gs[i].0.ubos@);
        Seq::filter_distributes_over_add(tex_cmds(gs[i].0.textures@), ubo_cmds(gs[i].0.ubos@), pred);
        lemma_entries_cmds_draws(gs[i].1, 0, buf, off, mlocs, tlocs);
        lemma_groups_cmds_draws(gs, i + 1, buf, e.1, mlocs, tlocs);
        Seq::filter_distributes_over_add(hdr + e.0, rest.0, pred);
        Seq::filter_distributes_over_add(hdr, e.0, pred);
        assert(groups_cmds(gs, i, buf, off, mlocs, tlocs).0 == (hdr + e.0) + rest.0);
        assert(instanced_draws(groups_cmds(gs, i, buf, off, mlocs, tlocs).0) =~= nonempty_entries_of(
            gs[i].1,
            0,
        ).map_values(|e: EntryView| draw_cmd_of(e)) + nonempty_entries(gs, i + 1).map_values(
            |e: EntryView| draw_cmd_of(e),
        ));
        assert(nonempty_entries(gs, i).map_values(|e: EntryView| draw_cmd_of(e))
            =~= nonempty_entries_of(gs[i].1, 0).map_values(|e: EntryView| draw_cmd_of(e))
            + nonempty_entries(gs, i + 1).map_values(|e: EntryView| draw_cmd_of(e)));
    }
}

/// Law: a frame's command stream holds exactly one instanced draw per
/// (uniforms, draw call) pair with at least one instance, in draw order,
/// each with the instance count its batch accumulated; in particular a
/// frame with no instances issues no draw at all.
pub proof fn lemma_one_draw_per_nonempty_batch(
    gs: GroupsView,
    ls: Seq<Light>,
    buf: u32,
    off: int,
    mlocs: [u32; 4],
    tlocs: [u32; 4],
)
    ensures
        instanced_draws(spec_draw_cmds(gs, ls, buf, off, mlocs, tlocs)) == nonempty_entries(
            gs,
            0,
        ).map_values(|e: EntryView| draw_cmd_of(e)),
{
    reveal_with_fuel(Seq::filter, 4);
    let pred = |c: GlCommand| c is DrawElementsInstanced;
    let head = seq![
        GlCommand::UploadBytes {
            target: GL_ARRAY_BUFFER,
            buffer: buf,
            byte_offset: off as usize,
            byte_len: 2048,
        },
        GlCommand::BindUniformBufferRange {
            index: UNIFORM_BLOCK_LIGHTS,
            buffer: buf,
            byte_offset: off as usize,
            byte_len: 2048,
        },
    ];
    lemma_groups_cmds_draws(gs, 0, buf, off + 2048, mlocs, tlocs);
    Seq::filter_distributes_over_add(head, groups_cmds(gs, 0, buf, off + 2048, mlocs, tlocs).0, pred);
    assert(head.filter(pred) =~= Seq::<GlCommand>::empty());
    assert(instanced_draws(spec_draw_cmds(gs, ls, buf, off, mlocs, tlocs)) =~= nonempty_entries(
        gs,
        0,
    ).map_values(|e: EntryView| draw_cmd_of(e)));
}

/// Law: accumulating never removes a light that is already present.
pub proof fn lemma_accumulate_keeps(
    cur: Seq<Light>,
    inc: Seq<Light>,
    model: [u32; 16],
    i: int,
    l: Light,
)
    requires
        cur.contains(l),
    ensures
        spec_accumulate_lights(cur, inc, model, i).contains(l),
    decreases inc.len() - i,
{
    if i < 0 || i >= inc.len() {
    } else if inc[i].color_and_kind@[3] == 0 {
    } else {
        let c = spec_transformed_light(inc, model, i);
        if cur.contains(c) {
            lemma_accumulate_keeps(cur, inc, model, i + 1, l);
        } else if cur.len() >= MAX_LIGHTS {
        } else {
            assert(cur.push(c).contains(l)) by {
                let k = choose|k: int| 0 <= k < cur.len() && cur[k] == l;
                assert(cur.push(c)[k] == l);
            }
            lemma_accumulate_keeps(cur.push(c), inc, model, i + 1, l);
        }
    }
}

/// Law: light accumulation is idempotent. Submitting the same light set
/// with the same transform a second time within one frame adds nothing: a
/// light already accumulated is recognized by exact (bitwise) equality of
/// its color-and-kind, transformed position, intensity parameters and
/// transformed direction, and deduplicated.
pub proof fn lemma_accumulate_idempotent(cur: Seq<Light>, inc: Seq<Light>, model: [u32; 16], i: int)
    ensures
        spec_accumulate_lights(spec_accumulate_lights(cur, inc, model, i), inc, model, i)
            == spec_accumulate_lights(cur, inc, model, i),
    decreases inc.len() - i,
{
    if i < 0 || i >= inc.len() {
    } else if inc[i].color_and_kind@[3] == 0 {
    } else {
        let c = spec_transformed_light(inc, model, i);
        let r = spec_accumulate_lights(cur, inc, model, i);
        if cur.contains(c) {
            lemma_accumulate_idempotent(cur, inc, model, i + 1);
            lemma_accumulate_keeps(cur, inc, model, i + 1, c);
            assert(r.contains(c));
        } else if cur.len() >= MAX_LIGHTS {
            assert(r == cur);
        } else {
            lemma_accumulate_idempotent(cur.push(c), inc, model, i + 1);
            assert(cur.push(c).contains(c)) by {
                assert(cur.push(c)[cur.len() as int] == c);
            }
            lemma_accumulate_keeps(cur.push(c), inc, model, i + 1, c);
            assert(r.contains(c));
        }
    }
}

/// Law: accumulation never grows the light list past [`MAX_LIGHTS`]; a
/// light beyond the cap is dropped.
pub proof fn lemma_accumulate_capped(cur: Seq<Light>, inc: Seq<Light>, model: [u32; 16], i: int)
    requires
        cur.len() <= MAX_LIGHTS,
    ensures
        spec_accumulate_lights(cur, inc, model, i).len() <= MAX_LIGHTS,
    decreases inc.len() - i,
{
    if i < 0 || i >= inc.len() {
    } else if inc[i].color_and_kind@[3] == 0 {
    } else {
        let c = spec_transformed_light(inc, model, i);
        if cur.contains(c) {
            lemma_accumulate_capped(cur, inc, model, i + 1);
        } else if cur.len() >= MAX_LIGHTS {
        } else {
            lemma_accumulate_capped(cur.push(c), inc, model, i + 1);
        }
    }
}

/// Law: accumulation never stores the same light twice.
pub proof fn lemma_accumulate_no_duplicates(
    cur: Seq<Light>,
    inc: Seq<Light>,
    model: [u32; 16],
    i: int,
)
    requires
        cur.no_duplicates(),
    ensures
        spec_accumulate_lights(cur, inc, model, i).no_duplicates(),
    decreases inc.len() - i,
{
    if i < 0 || i >= inc.len() {
    } else if inc[i].color_and_kind@[3] == 0 {
    } else {
        let c = spec_transformed_light(inc, model, i);
        if cur.contains(c) {
            lemma_accumulate_no_duplicates(cur, inc, model, i + 1);
        } else if cur.len() >= MAX_LIGHTS {
        } else {
            assert(cur.push(c).no_duplicates());
            lemma_accumulate_no_duplicates(cur.push(c), inc, model, i + 1);
        }
    }
}

/// A batch state with every instance list emptied and every key kept.
pub open spec fn spec_cleared(gs: GroupsView) -> GroupsView {
    gs.map_values(
        |g: (Uniforms, Seq<EntryView>)|
            (g.0, g.1.map_values(|e: EntryView| (e.0, Seq::<Mat4Bits>::empty(), Seq::<
                Mat4Bits,
            >::empty()))),
    )
}

spec fn spec_cleared_group(g: (Uniforms, Seq<EntryView>)) -> (Uniforms, Seq<EntryView>) {
    (g.0, g.1.map_values(|e: EntryView| (e.0, Seq::<Mat4Bits>::empty(), Seq::<Mat4Bits>::empty())))
}

fn clear_batch(b: &mut Batch)
    ensures
        final(b).draw_call == old(b).draw_call,
        final(b).instances.transforms@ == Seq::<Mat4Bits>::empty(),
        final(b).instances.texcoord_transforms@ == Seq::<Mat4Bits>::empty(),
        final(b).instances.count == 0,
        final(b).wf(),
{
    b.instances.transforms.clear();
    b.instances.texcoord_transforms.clear();
    b.instances.count = 0;
}

fn clear_group(g: &mut UniformGroup)
    requires
        old(g).wf(),
    ensures
        final(g).wf(),
        final(g).uniforms == old(g).uniforms,
        final(g).view_spec() == spec_cleared_group(old(g).view_spec()),
{
    let n = g.batches.len();
    let mut bi: usize = 0;
    while bi < n
        invariant
            bi <= n,
            n == g.batches@.len(),
            g.batches@.len() == old(g).batches@.len(),
            g.uniforms == old(g).uniforms,
            forall|k: int|
                0 <= k < bi ==> (#[trigger] g.batches@[k].view_spec()) == (
                old(g).batches@[k].view_spec().0,
                Seq::<Mat4Bits>::empty(),
                Seq::<Mat4Bits>::empty(),
            ),
            forall|k: int| bi <= k < n ==> g.batches@[k] == old(g).batches@[k],
            forall|k: int|
                0 <= k < n ==> (#[trigger] g.batches@[k].draw_call) == old(g).batches@[k].draw_call,
            forall|k: int| 0 <= k < n ==> g.batches@[k].wf(),
        decreases n - bi,
    {
        clear_batch(&mut g.batches[bi]);
        bi = bi + 1;
    }
    proof {
        assert(g.view_spec().1 =~~= spec_cleared_group(old(g).view_spec()).1);
        assert(g.view_spec() =~~= spec_cleared_group(old(g).view_spec()));
    }
}

} // verus!
