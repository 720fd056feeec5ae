//! Text drawing: one static unit quad, instanced once per glyph, with the
//! glyph atlas supplying each glyph's texture-coordinate window. Line
//! breaking and alignment are the external text layout's business; this
//! module consumes its output, positioned glyphs with rasterization keys.

use vstd::prelude::*;

use crate::arena::BumpAllocatedBuffer;
use crate::atlas::{
    font_glyph_count, glyph_count, norm_rect_of, normalized_rect, spec_glyph_key, spec_reserve,
    AtlasFull, GlyphCache, GlyphUpload, PositionedGlyph,
};
use crate::bytes::{push_words_le, words_le};
use crate::draw_calls::{
    lights_block_le, pack_lights, spec_add_instance, DrawCall, DrawCalls, GroupsView, Light,
    Uniforms,
};
use crate::fbits::{F_ONE, F_ZERO};
use crate::gpu::{
    ATTR_LOC_COLOR_0, ATTR_LOC_POSITION, ATTR_LOC_TEXCOORD_0, GL_ARRAY_BUFFER, GL_CCW,
    GL_DYNAMIC_DRAW, GL_ELEMENT_ARRAY_BUFFER, GL_FLOAT, GL_TRIANGLES, GL_UNSIGNED_SHORT, TEX_UNIT_BASE_COLOR,
    TEX_UNIT_EMISSIVE, TEX_UNIT_METALLIC_ROUGHNESS, TEX_UNIT_NORMAL, TEX_UNIT_OCCLUSION,
    UNIFORM_BLOCK_LIGHTS, UNIFORM_BLOCK_MATERIAL,
};
use crate::loader::{
    material_block_words, pack_material, AttribPointer, BufferInit, UniformBlockMaterial, VaoInit,
};
use crate::mat::{mat_from_srt, mat_from_srt_of, Mat4Bits};

verus! {

pub uninterp spec fn from_uint_bits(x: u32) -> u32;

/// Relies on glam::UVec2::as_vec2: an unsigned integer converted to the
/// nearest single-precision value, a function of the integer alone.
#[verifier::external_body]
pub fn f_from_u32(x: u32) -> (r: u32)
    ensures
        r == from_uint_bits(x),
{
    let a: [u32; 2] = bytemuck::cast(glam::UVec2::new(x, x).as_vec2().to_array());
    a[0]
}

pub uninterp spec fn font_parses(bytes: Seq<u8>) -> bool;

/// Relies on fontdue::Font::from_bytes with default settings: parsing is a
/// pure function of the bytes, and fails exactly when they hold no
/// parseable font face.
#[verifier::external_body]
fn load_font(bytes: &Vec<u8>) -> (r: Option<fontdue::Font>)
    ensures
        r is Some <==> font_parses(bytes@),
{
    fontdue::Font::from_bytes(bytes.as_slice(), fontdue::FontSettings::default()).ok()
}

/// The unit quad's corner positions: bottom-left, bottom-right, top-left,
/// top-right, three words a corner.
pub open spec fn spec_quad_position_words() -> Seq<u32> {
    seq![
        F_ZERO, F_ZERO, F_ZERO,
        F_ONE, F_ZERO, F_ZERO,
        F_ZERO, F_ONE, F_ZERO,
        F_ONE, F_ONE, F_ZERO,
    ]
}

/// The quad's texture coordinates, two words a corner.
pub open spec fn spec_quad_texcoord_words() -> Seq<u32> {
    seq![F_ZERO, F_ONE, F_ONE, F_ONE, F_ZERO, F_ZERO, F_ONE, F_ZERO]
}

/// The quad's two triangles as little-endian 16-bit indices.
pub open spec fn spec_quad_index_bytes() -> Seq<u8> {
    seq![0u8, 0u8, 1u8, 0u8, 2u8, 0u8, 2u8, 0u8, 1u8, 0u8, 3u8, 0u8]
}

/// The text material: black base color with white emissive, so the atlas
/// alpha alone shapes each glyph.
pub open spec fn spec_text_material() -> UniformBlockMaterial {
    UniformBlockMaterial {
        base_color_factor: [F_ZERO, F_ZERO, F_ZERO, F_ONE],
        metallic_factor: F_ZERO,
        roughness_factor: F_ONE,
        normal_scale: F_ONE,
        occlusion_strength: F_ONE,
        emissive_factor: [F_ONE, F_ONE, F_ONE, F_ONE],
    }
}

/// Everything the text renderer stages into its array buffer, in order:
/// quad positions, quad texture coordinates, the text material block, an
/// empty light block.
pub open spec fn spec_text_staged_bytes() -> Seq<u8> {
    words_le(spec_quad_position_words()) + words_le(spec_quad_texcoord_words()) + words_le(
        material_block_words(spec_text_material()),
    ) + lights_block_le(Seq::empty())
}

/// The glyph quad's uniform key: atlas texture in the base-color and
/// emissive units, flat fallbacks elsewhere, and the staged material and
/// light blocks bound at their fixed offsets.
pub open spec fn spec_text_uniforms(
    array_buffer: u32,
    glyph_texture: u32,
    white_texture: u32,
    normal_texture: u32,
    sampler: u32,
) -> Uniforms {
    Uniforms {
        textures: [
            Some((TEX_UNIT_BASE_COLOR, glyph_texture, sampler)),
            Some((TEX_UNIT_METALLIC_ROUGHNESS, white_texture, sampler)),
            Some((TEX_UNIT_NORMAL, normal_texture, sampler)),
            Some((TEX_UNIT_OCCLUSION, white_texture, sampler)),
            Some((TEX_UNIT_EMISSIVE, glyph_texture, sampler)),
        ],
        ubos: [
            Some((UNIFORM_BLOCK_MATERIAL, array_buffer, 80usize, 48usize)),
            Some((UNIFORM_BLOCK_LIGHTS, array_buffer, 128usize, 2048usize)),
        ],
    }
}

/// The glyph quad's draw call: six 16-bit indices at the start of the
/// index buffer, with the vertex-color attribute falling back to white.
pub open spec fn spec_text_draw_call(vao: u32, index_buffer: u32) -> DrawCall {
    DrawCall {
        vao,
        mode: GL_TRIANGLES,
        index_buffer,
        index_type: GL_UNSIGNED_SHORT,
        index_byte_offset: 0usize,
        index_count: 6usize,
        disabled_all_ones_vertex_attribute: Some(ATTR_LOC_COLOR_0),
        front_face: GL_CCW,
    }
}

/// What the backend must create for the text renderer: the quad and
/// uniform data staged in one buffer, the index data in another, and the
/// quad's vertex array.
pub struct FontSetup {
    pub buffers: Vec<BufferInit>,
    pub quad_vao: VaoInit,
    pub atlas_texture: u32,
}

pub struct FontRenderer {
    pub glyph_uniforms: Uniforms,
    pub glyph_draw_call: DrawCall,
    pub glyph_cache: GlyphCache,
    pub fonts: Vec<fontdue::Font>,
}

/// The texture-coordinate transform of one glyph: its normalized atlas
/// window as a scale and offset.
pub open spec fn spec_texcoord_transform(t: [u32; 4]) -> Mat4Bits {
    Mat4Bits {
        e: mat_from_srt_of(
            [t[2], t[3], F_ONE],
            [F_ZERO, F_ZERO, F_ZERO, F_ONE],
            [t[0], t[1], F_ZERO],
        ),
    }
}

/// The model transform of one glyph: its layout box as a scale, its layout
/// position and the text depth as a translation.
pub open spec fn spec_glyph_transform(g: PositionedGlyph, depth_bits: u32) -> Mat4Bits {
    Mat4Bits {
        e: mat_from_srt_of(
            [from_uint_bits(g.width as u32), from_uint_bits(g.height as u32), F_ONE],
            [F_ZERO, F_ZERO, F_ZERO, F_ONE],
            [g.x_bits, g.y_bits, depth_bits],
        ),
    }
}

/// One glyph's step through the atlas: a hit returns the cached rectangle
/// unchanged; a miss reserves by shelf packing, caches, and is marked
/// fresh (the final component); `None` when the glyph cannot fit.
pub open spec fn spec_atlas_step(
    cache: Map<u64, (u32, u32, u32, u32)>,
    cursor: (int, int),
    shelf: int,
    dims: (u32, u32),
    g: PositionedGlyph,
) -> Option<(Map<u64, (u32, u32, u32, u32)>, (int, int), int, (u32, u32, u32, u32), bool)> {
    let k = spec_glyph_key(g.font_index, g.glyph_index, g.px_bits);
    if cache.contains_key(k) {
        Some((cache, cursor, shelf, cache[k], false))
    } else {
        match spec_reserve(
            dims.0 as int,
            dims.1 as int,
            cursor.0,
            cursor.1,
            shelf,
            g.width as int,
            g.height as int,
        ) {
            Some(placed) => {
                let rect = (
                    placed.0.0 as u32,
                    placed.0.1 as u32,
                    g.width as u32,
                    g.height as u32,
                );
                Some((cache.insert(k, rect), (placed.1.0, placed.1.1), placed.1.2, rect, true))
            },
            None => None,
        }
    }
}

/// The batch state, atlas state and freshly reserved rectangles (in glyph
/// order) that drawing a glyph run produces.
pub type TextOutcome = (
    GroupsView,
    Map<u64, (u32, u32, u32, u32)>,
    (int, int),
    int,
    Seq<(u32, u32, u32, u32)>,
);

/// What one returned upload must hold for the fresh rectangle it fills:
/// the rectangle's position, and four-channel data that is white with the
/// coverage in alpha.
pub open spec fn spec_upload_ok(up: GlyphUpload, rect: (u32, u32, u32, u32)) -> bool {
    &&& up.x == rect.0
    &&& up.y == rect.1
    &&& up.rgba@.len() == 4 * up.width * up.height
    &&& forall|j: int| 0 <= j < up.rgba@.len() && j % 4 != 3 ==> #[trigger] up.rgba@[j] == 0xFF
}

/// How a partially drawn run relates to the whole: same final outcome,
/// with `prefix` the fresh rectangles already produced.
pub open spec fn spec_text_outcomes_agree(
    total: Option<TextOutcome>,
    rest: Option<TextOutcome>,
    prefix: Seq<(u32, u32, u32, u32)>,
) -> bool {
    match (total, rest) {
        (Some(t), Some(r)) => {
            &&& t.0 == r.0
            &&& t.1 == r.1
            &&& t.2 == r.2
            &&& t.3 == r.3
            &&& t.4 == prefix + r.4
        },
        (None, None) => true,
        _ => false,
    }
}

/// The batch state after drawing the glyphs from index `i` on, with the
/// atlas threading through each glyph's step: each glyph appends one
/// instance keyed by the glyph quad's (uniforms, draw call) pair, its
/// transform from its layout box and its texcoord transform from its atlas
/// window. `None` when some glyph cannot fit the atlas.
pub open spec fn spec_draw_text(
    u: Uniforms,
    d: DrawCall,
    glyphs: Seq<PositionedGlyph>,
    i: int,
    depth_bits: u32,
    cache: Map<u64, (u32, u32, u32, u32)>,
    cursor: (int, int),
    shelf: int,
    dims: (u32, u32),
    gs: GroupsView,
) -> Option<TextOutcome>
    decreases glyphs.len() - i,
{
    if i < 0 || i >= glyphs.len() {
        Some((gs, cache, cursor, shelf, Seq::empty()))
    } else {
        match spec_atlas_step(cache, cursor, shelf, dims, glyphs[i]) {
            None => None,
            Some(step) => {
                let t = norm_rect_of(step.3, dims.0, dims.1);
                let gs1 = spec_add_instance(
                    gs,
                    u,
                    d,
                    spec_glyph_transform(glyphs[i], depth_bits),
                    spec_texcoord_transform(t),
                );
                match spec_draw_text(
                    u,
                    d,
                    glyphs,
                    i + 1,
                    depth_bits,
                    step.0,
                    step.1,
                    step.2,
                    dims,
                    gs1,
                ) {
                    Some(rest) => Some(
                        (
                            rest.0,
                            rest.1,
                            rest.2,
                            rest.3,
                            (if step.4 {
                                seq![step.3]
                            } else {
                                Seq::empty()
                            }) + rest.4,
                        ),
                    ),
                    None => None,
                }
            },
        }
    }
}

impl FontRenderer {
    /// The glyphs every draw call of this renderer shares one key with.
    pub open spec fn wf(&self) -> bool {
        &&& self.glyph_cache.wf()
        &&& self.glyph_cache.dims() == (2048u32, 2048u32)
        &&& self.fonts@.len() == 1
    }

    /// Builds the text renderer around caller-created GL objects: the quad
    /// geometry, the text material block and an empty light block are
    /// staged into `array_buffer`, the quad's six indices into
    /// `index_buffer`, and the one embedded font face is parsed from
    /// `font_bytes`; `None` when the font does not parse.
    pub fn new(
        vao: u32,
        array_buffer: u32,
        index_buffer: u32,
        glyph_texture: u32,
        white_texture: u32,
        normal_texture: u32,
        sampler: u32,
        font_bytes: &Vec<u8>,
    ) -> (r: Option<(FontRenderer, FontSetup)>)
        ensures
            r is Some <==> font_parses(font_bytes@),
            r matches Some(out) ==> {
                &&& out.0.wf()
                &&& out.0.glyph_uniforms == spec_text_uniforms(
                    array_buffer,
                    glyph_texture,
                    white_texture,
                    normal_texture,
                    sampler,
                )
                &&& out.0.glyph_draw_call == spec_text_draw_call(vao, index_buffer)
                &&& out.0.glyph_cache.cache_map() == Map::<u64, (u32, u32, u32, u32)>::empty()
                &&& out.0.glyph_cache.spec_cursor() == (0int, 0int)
                &&& out.0.glyph_cache.shelf_height() == 0
                &&& out.0.glyph_cache.spec_texture() == glyph_texture
                &&& out.1.atlas_texture == glyph_texture
                &&& out.1.quad_vao.vao == vao
                &&& out.1.quad_vao.attributes@.len() == 2
                &&& out.1.quad_vao.attributes@[0] == (AttribPointer {
                    location: ATTR_LOC_POSITION,
                    size: 3usize,
                    component_type: GL_FLOAT as usize,
                    normalized: false,
                    buffer: array_buffer,
                    byte_offset: 0usize,
                })
                &&& out.1.quad_vao.attributes@[1] == (AttribPointer {
                    location: ATTR_LOC_TEXCOORD_0,
                    size: 2usize,
                    component_type: GL_FLOAT as usize,
                    normalized: false,
                    buffer: array_buffer,
                    byte_offset: 48usize,
                })
                &&& out.1.buffers@.len() == 2
                &&& out.1.buffers@[0].buffer == array_buffer
                &&& out.1.buffers@[0].target == GL_ARRAY_BUFFER
                &&& out.1.buffers@[0].bytes@ == spec_text_staged_bytes()
                &&& out.1.buffers@[1].buffer == index_buffer
                &&& out.1.buffers@[1].target == GL_ELEMENT_ARRAY_BUFFER
                &&& out.1.buffers@[1].bytes@ == spec_quad_index_bytes()
            },
    {
        let font = match load_font(font_bytes) {
            Some(f) => f,
            None => {
                return None;
            },
        };
        let mut allocator = BumpAllocatedBuffer::new(GL_ARRAY_BUFFER, GL_DYNAMIC_DRAW, array_buffer);
        let mut index_allocator = BumpAllocatedBuffer::new(
            GL_ELEMENT_ARRAY_BUFFER,
            GL_DYNAMIC_DRAW,
            index_buffer,
        );
        // The unit quad: bottom-left, bottom-right, top-left, top-right.
        let mut position_words: Vec<u32> = Vec::new();
        position_words.push(F_ZERO);
        position_words.push(F_ZERO);
        position_words.push(F_ZERO);
        position_words.push(F_ONE);
        position_words.push(F_ZERO);
        position_words.push(F_ZERO);
        position_words.push(F_ZERO);
        position_words.push(F_ONE);
        position_words.push(F_ZERO);
        position_words.push(F_ONE);
        position_words.push(F_ONE);
        position_words.push(F_ZERO);
        proof {
            assert(position_words@ =~= spec_quad_position_words());
        }
        let mut positions: Vec<u8> = Vec::new();
        push_words_le(&mut positions, &position_words);
        proof {
            crate::bytes::lemma_words_le_len(spec_quad_position_words());
        }
        let mut texcoord_words: Vec<u32> = Vec::new();
        texcoord_words.push(F_ZERO);
        texcoord_words.push(F_ONE);
        texcoord_words.push(F_ONE);
        texcoord_words.push(F_ONE);
        texcoord_words.push(F_ZERO);
        texcoord_words.push(F_ZERO);
        texcoord_words.push(F_ONE);
        texcoord_words.push(F_ZERO);
        proof {
            assert(texcoord_words@ =~= spec_quad_texcoord_words());
        }
        let mut texcoords: Vec<u8> = Vec::new();
        push_words_le(&mut texcoords, &texcoord_words);
        proof {
            crate::bytes::lemma_words_le_len(spec_quad_texcoord_words());
        }
        // Two triangles over the quad, as 16-bit indices.
        let mut indices: Vec<u8> = Vec::new();
        indices.push(0);
        indices.push(0);
        indices.push(1);
        indices.push(0);
        indices.push(2);
        indices.push(0);
        indices.push(2);
        indices.push(0);
        indices.push(1);
        indices.push(0);
        indices.push(3);
        indices.push(0);
        proof {
            assert(indices@ =~= spec_quad_index_bytes());
        }
        let (_, pos_offset) = allocator.allocate_buffer(positions.as_slice());
        let (_, tex_offset) = allocator.allocate_buffer(texcoords.as_slice());
        let (_, idx_offset) = index_allocator.allocate_buffer(indices.as_slice());
        let glyph_draw_call = DrawCall {
            vao,
            mode: GL_TRIANGLES,
            index_buffer,
            index_type: GL_UNSIGNED_SHORT,
            index_byte_offset: idx_offset,
            index_count: 6,
            disabled_all_ones_vertex_attribute: Some(ATTR_LOC_COLOR_0),
            front_face: GL_CCW,
        };
        // Text is drawn black with white emissive, so the atlas alpha alone
        // shapes the glyph.
        let material = UniformBlockMaterial {
            base_color_factor: [F_ZERO, F_ZERO, F_ZERO, F_ONE],
            metallic_factor: F_ZERO,
            roughness_factor: F_ONE,
            normal_scale: F_ONE,
            occlusion_strength: F_ONE,
            emissive_factor: [F_ONE, F_ONE, F_ONE, F_ONE],
        };
        proof {
            assert(material == spec_text_material());
            assert(material_block_words(spec_text_material()).len() == 12);
            crate::bytes::lemma_words_le_len(material_block_words(spec_text_material()));
        }
        let mat_bytes = pack_material(&material);
        let mat_size = mat_bytes.len();
        let (_, mat_offset) = allocator.allocate_buffer(mat_bytes.as_slice());
        let no_lights: Vec<Light> = Vec::new();
        let lgt_bytes = pack_lights(&no_lights);
        proof {
            let empty_lights = Seq::<Light>::empty();
            crate::bytes::lemma_vec4s_le_len(
                crate::draw_calls::pad_lights(
                    empty_lights.map_values(|l: Light| l.color_and_kind),
                ),
            );
            crate::bytes::lemma_vec4s_le_len(
                crate::draw_calls::pad_lights(
                    empty_lights.map_values(|l: Light| l.intensity_params),
                ),
            );
            crate::bytes::lemma_vec4s_le_len(
                crate::draw_calls::pad_lights(empty_lights.map_values(|l: Light| l.position)),
            );
            crate::bytes::lemma_vec4s_le_len(
                crate::draw_calls::pad_lights(empty_lights.map_values(|l: Light| l.direction)),
            );
        }
        let lgt_size = lgt_bytes.len();
        let (_, lgt_offset) = allocator.allocate_buffer(lgt_bytes.as_slice());
        let glyph_uniforms = Uniforms {
            textures: [
                Some((TEX_UNIT_BASE_COLOR, glyph_texture, sampler)),
                Some((TEX_UNIT_METALLIC_ROUGHNESS, white_texture, sampler)),
                Some((TEX_UNIT_NORMAL, normal_texture, sampler)),
                Some((TEX_UNIT_OCCLUSION, white_texture, sampler)),
                Some((TEX_UNIT_EMISSIVE, glyph_texture, sampler)),
            ],
            ubos: [
                Some((UNIFORM_BLOCK_MATERIAL, array_buffer, mat_offset, mat_size)),
                Some((UNIFORM_BLOCK_LIGHTS, array_buffer, lgt_offset, lgt_size)),
            ],
        };
        let mut attributes: Vec<AttribPointer> = Vec::new();
        attributes.push(
            AttribPointer {
                location: ATTR_LOC_POSITION,
                size: 3,
                component_type: GL_FLOAT as usize,
                normalized: false,
                buffer: array_buffer,
                byte_offset: pos_offset,
            },
        );
        attributes.push(
            AttribPointer {
                location: ATTR_LOC_TEXCOORD_0,
                size: 2,
                component_type: GL_FLOAT as usize,
                normalized: false,
                buffer: array_buffer,
                byte_offset: tex_offset,
            },
        );
        let mut buffers: Vec<BufferInit> = Vec::new();
        buffers.push(
            BufferInit {
                buffer: array_buffer,
                target: GL_ARRAY_BUFFER,
                usage: GL_DYNAMIC_DRAW,
                bytes: crate::loader::clone_bytes(allocator.data()),
            },
        );
        buffers.push(
            BufferInit {
                buffer: index_buffer,
                target: GL_ELEMENT_ARRAY_BUFFER,
                usage: GL_DYNAMIC_DRAW,
                bytes: crate::loader::clone_bytes(index_allocator.data()),
            },
        );
        let mut fonts: Vec<fontdue::Font> = Vec::new();
        fonts.push(font);
        let renderer = FontRenderer {
            glyph_uniforms,
            glyph_draw_call,
            glyph_cache: GlyphCache::new(glyph_texture),
            fonts,
        };
        let setup = FontSetup {
            buffers,
            quad_vao: VaoInit { vao, attributes },
            atlas_texture: glyph_texture,
        };
        proof {
            assert(setup.buffers@[0].bytes@ =~= spec_text_staged_bytes());
        }
        Some((renderer, setup))
    }

    /// The number of glyphs the loaded face holds; the layout must not
    /// hand over a glyph index at or past it.
    pub fn glyph_limit(&self) -> (r: u16)
        requires
            self.wf(),
        ensures
            r == font_glyph_count(self.fonts@[0]),
    {
        glyph_count(&self.fonts[0])
    }

    /// Draws a run of positioned glyphs, one instanced quad each: every
    /// glyph's atlas window is looked up or rasterized and cached, its
    /// transforms are submitted to the batching engine, and the freshly
    /// rasterized glyphs' texture regions are handed back for upload.
    /// Fails, leaving the batches as they were up to the failing glyph,
    /// when a never-seen glyph cannot fit the atlas.
    pub fn draw_text(
        &mut self,
        draw_calls: &mut DrawCalls,
        glyphs: &Vec<PositionedGlyph>,
        depth_bits: u32,
    ) -> (r: Result<Vec<GlyphUpload>, AtlasFull>)
        requires
            old(self).wf(),
            old(draw_calls).wf(),
            forall|i: int| 0 <= i < glyphs@.len() ==> (#[trigger] glyphs@[i]).wf(),
            forall|i: int| 0 <= i < glyphs@.len() ==> (#[trigger] glyphs@[i]).font_index == 0,
            forall|i: int|
                0 <= i < glyphs@.len() ==> (#[trigger] glyphs@[i]).glyph_index < font_glyph_count(
                    old(self).fonts@[0],
                ),
        ensures
            final(self).wf(),
            final(draw_calls).wf(),
            final(draw_calls).lights() == old(draw_calls).lights(),
            final(draw_calls).staged_bytes() == old(draw_calls).staged_bytes(),
            final(draw_calls).temp_handle() == old(draw_calls).temp_handle(),
            final(self).glyph_cache.dims() == old(self).glyph_cache.dims(),
            final(self).glyph_uniforms == old(self).glyph_uniforms,
            final(self).glyph_draw_call == old(self).glyph_draw_call,
            r is Ok <==> spec_draw_text(
                old(self).glyph_uniforms,
                old(self).glyph_draw_call,
                glyphs@,
                0,
                depth_bits,
                old(self).glyph_cache.cache_map(),
                old(self).glyph_cache.spec_cursor(),
                old(self).glyph_cache.shelf_height(),
                old(self).glyph_cache.dims(),
                old(draw_calls).groups(),
            ) is Some,
            r is Ok ==> {
                let outcome = spec_draw_text(
                    old(self).glyph_uniforms,
                    old(self).glyph_draw_call,
                    glyphs@,
                    0,
                    depth_bits,
                    old(self).glyph_cache.cache_map(),
                    old(self).glyph_cache.spec_cursor(),
                    old(self).glyph_cache.shelf_height(),
                    old(self).glyph_cache.dims(),
                    old(draw_calls).groups(),
                ).unwrap();
                &&& final(draw_calls).groups() == outcome.0
                &&& final(self).glyph_cache.cache_map() == outcome.1
                &&& final(self).glyph_cache.spec_cursor() == outcome.2
                &&& final(self).glyph_cache.shelf_height() == outcome.3
                &&& r matches Ok(uploads)
                &&& uploads@.len() == outcome.4.len()
                &&& forall|k: int|
                    0 <= k < uploads@.len() ==> spec_upload_ok(
                        #[trigger] uploads@[k],
                        outcome.4[k],
                    )
            },
    {
        let ghost u = self.glyph_uniforms;
        let ghost d = self.glyph_draw_call;
        let ghost dims = self.glyph_cache.dims();
        let ghost mut fresh: Seq<(u32, u32, u32, u32)> = Seq::empty();
        let mut uploads: Vec<GlyphUpload> = Vec::new();
        let n = glyphs.len();
        let mut i: usize = 0;
        while i < n
            invariant
                i <= n,
                n == glyphs@.len(),
                self.wf(),
                draw_calls.wf(),
                forall|k: int| 0 <= k < glyphs@.len() ==> (#[trigger] glyphs@[k]).wf(),
                forall|k: int| 0 <= k < glyphs@.len() ==> (#[trigger] glyphs@[k]).font_index == 0,
                forall|k: int|
                    0 <= k < glyphs@.len() ==> (#[trigger] glyphs@[k]).glyph_index
                        < font_glyph_count(self.fonts@[0]),
                u == self.glyph_uniforms,
                d == self.glyph_draw_call,
                dims == self.glyph_cache.dims(),
                u == old(self).glyph_uniforms,
                d == old(self).glyph_draw_call,
                dims == old(self).glyph_cache.dims(),
                self.fonts@ == old(self).fonts@,
                draw_calls.lights() == old(draw_calls).lights(),
                draw_calls.staged_bytes() == old(draw_calls).staged_bytes(),
                draw_calls.temp_handle() == old(draw_calls).temp_handle(),
                uploads@.len() == fresh.len(),
                forall|k: int|
                    0 <= k < uploads@.len() ==> spec_upload_ok(#[trigger] uploads@[k], fresh[k]),
                spec_text_outcomes_agree(
                    spec_draw_text(
                        u,
                        d,
                        glyphs@,
                        0,
                        depth_bits,
                        old(self).glyph_cache.cache_map(),
                        old(self).glyph_cache.spec_cursor(),
                        old(self).glyph_cache.shelf_height(),
                        dims,
                        old(draw_calls).groups(),
                    ),
                    spec_draw_text(
                        u,
                        d,
                        glyphs@,
                        i as int,
                        depth_bits,
                        self.glyph_cache.cache_map(),
                        self.glyph_cache.spec_cursor(),
                        self.glyph_cache.shelf_height(),
                        dims,
                        draw_calls.groups(),
                    ),
                    fresh,
                ),
            decreases n - i,
        {
            let g = &glyphs[i];
            let ghost pre_cache = self.glyph_cache.cache_map();
            let ghost pre_cursor = self.glyph_cache.spec_cursor();
            let ghost pre_shelf = self.glyph_cache.shelf_height();
            let (rect, upload) = match self.glyph_cache.get_texcoord_transform(g, &self.fonts) {
                Ok(hit) => hit,
                Err(e) => {
                    return Err(e);
                },
            };
            let ghost step = spec_atlas_step(
                pre_cache,
                pre_cursor,
                pre_shelf,
                dims,
                glyphs@[i as int],
            ).unwrap();
            match upload {
                Some(up) => {
                    proof {
                        assert(step.4);
                        assert(spec_upload_ok(up, step.3));
                        fresh = fresh + seq![step.3];
                    }
                    uploads.push(up);
                },
                None => {
                    proof {
                        assert(!step.4);
                    }
                },
            }
            let texcoord = normalized_rect(rect, 2048, 2048);
            let texcoord_transform = mat_from_srt(
                &[texcoord[2], texcoord[3], F_ONE],
                &[F_ZERO, F_ZERO, F_ZERO, F_ONE],
                &[texcoord[0], texcoord[1], F_ZERO],
            );
            let transform = mat_from_srt(
                &[f_from_u32(g.width as u32), f_from_u32(g.height as u32), F_ONE],
                &[F_ZERO, F_ZERO, F_ZERO, F_ONE],
                &[g.x_bits, g.y_bits, depth_bits],
            );
            let identity = Mat4Bits::identity();
            let uniforms = self.glyph_uniforms;
            let dc = self.glyph_draw_call;
            draw_calls.add(None, &uniforms, &dc, &identity, &transform, &texcoord_transform);
            proof {
                let total = spec_draw_text(
                    u,
                    d,
                    glyphs@,
                    0,
                    depth_bits,
                    old(self).glyph_cache.cache_map(),
                    old(self).glyph_cache.spec_cursor(),
                    old(self).glyph_cache.shelf_height(),
                    dims,
                    old(draw_calls).groups(),
                );
                let rest = spec_draw_text(
                    u,
                    d,
                    glyphs@,
                    i + 1,
                    depth_bits,
                    self.glyph_cache.cache_map(),
                    self.glyph_cache.spec_cursor(),
                    self.glyph_cache.shelf_height(),
                    dims,
                    draw_calls.groups(),
                );
                if total is Some {
                    let fp: Seq<(u32, u32, u32, u32)> = if step.4 {
                        seq![step.3]
                    } else {
                        Seq::empty()
                    };
                    assert(total.unwrap().4 =~= fresh + rest.unwrap().4);
                }
            }
            i = i + 1;
        }
        Ok(uploads)
    }
}

} // verus!
