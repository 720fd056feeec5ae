//! The glyph atlas: an on-demand rasterization cache that packs glyph
//! coverage bitmaps into one fixed-size texture using shelf packing. A
//! glyph, once cached, keeps its rectangle for the atlas's whole lifetime;
//! a repeated request returns the same rectangle without rasterizing again.

use std::collections::HashMap;

use vstd::prelude::*;


verus! {

broadcast use vstd::std_specs::hash::group_hash_axioms;

/// One glyph placement to rasterize and draw, as the external text layout
/// hands it over: which glyph of which font at which pixel size, the layout
/// box in pixels, and the layout position (bit patterns of single-precision
/// coordinates).
#[derive(Clone, Copy, PartialEq, Eq, Debug)]
pub struct PositionedGlyph {
    pub font_index: usize,
    pub glyph_index: u16,
    pub px_bits: u32,
    pub width: usize,
    pub height: usize,
    pub x_bits: u32,
    pub y_bits: u32,
}

impl PositionedGlyph {
    /// The glyph's key fits the packed cache key and its box fits the
    /// atlas's coordinate space.
    pub open spec fn wf(&self) -> bool {
        &&& self.font_index < 0x10000
        &&& self.width < 0x4000_0000
        &&& self.height < 0x4000_0000
    }
}

/// The cache key of one rasterized glyph: pixel size, glyph index and font
/// index packed into one word.
pub open spec fn spec_glyph_key(font_index: usize, glyph_index: u16, px_bits: u32) -> u64 {
    ((px_bits as u64) << 32) | ((glyph_index as u64) << 16) | (font_index as u64)
}

pub fn glyph_key(font_index: usize, glyph_index: u16, px_bits: u32) -> (r: u64)
    requires
        font_index < 0x10000,
    ensures
        r == spec_glyph_key(font_index, glyph_index, px_bits),
{
    ((px_bits as u64) << 32) | ((glyph_index as u64) << 16) | (font_index as u64)
}

/// A pixel region of the atlas texture to fill with freshly rasterized
/// glyph coverage, as four-channel data: white with the coverage in alpha.
pub struct GlyphUpload {
    pub x: u32,
    pub y: u32,
    pub width: usize,
    pub height: usize,
    pub rgba: Vec<u8>,
}

/// The atlas has no room left for a glyph of the requested size: a fixed,
/// unrecoverable capacity limit.
#[derive(Clone, Copy, PartialEq, Eq, Debug)]
pub struct AtlasFull {
    pub glyph_width: u32,
    pub glyph_height: u32,
}

/// Where shelf packing puts the next rectangle of size `w` x `h`, and the
/// packer state after placing it: `None` when the rectangle cannot fit.
/// The cursor first wraps to a new shelf when the rectangle would pass the
/// atlas's right edge; a rectangle that exactly reaches the edge stays on
/// its shelf. After placing, the cursor advances by the width plus a
/// one-pixel margin, and the shelf height follows the tallest rectangle of
/// the current shelf.
pub open spec fn spec_reserve(
    width: int,
    height: int,
    cx: int,
    cy: int,
    mh: int,
    w: int,
    h: int,
) -> Option<((int, int), (int, int, int))> {
    let wrapped = cx + w > width;
    let x = if wrapped {
        0
    } else {
        cx
    };
    let y = if wrapped {
        cy + mh + 1
    } else {
        cy
    };
    let mh0 = if wrapped {
        0
    } else {
        mh
    };
    if x + w <= width && y + h <= height {
        Some(
            (
                (x, y),
                (
                    x + w + 1,
                    y,
                    if h > mh0 {
                        h
                    } else {
                        mh0
                    },
                ),
            ),
        )
    } else {
        None
    }
}

/// A rectangle lies inside a `w` by `h` texture.
pub open spec fn spec_rect_in_bounds(r: (u32, u32, u32, u32), w: u32, h: u32) -> bool {
    r.0 + r.2 <= w && r.1 + r.3 <= h
}

/// Two rectangles share no pixel: they are separated along one axis.
pub open spec fn spec_rects_disjoint(a: (u32, u32, u32, u32), b: (u32, u32, u32, u32)) -> bool {
    ||| a.0 + a.2 <= b.0
    ||| b.0 + b.2 <= a.0
    ||| a.1 + a.3 <= b.1
    ||| b.1 + b.3 <= a.1
}

/// Every placed rectangle sits behind the packing cursor: fully above the
/// current shelf, or on the current shelf, left of the cursor and no
/// taller than the shelf.
pub open spec fn spec_rect_behind_cursor(
    r: (u32, u32, u32, u32),
    cx: int,
    cy: int,
    mh: int,
) -> bool {
    ||| r.1 + r.3 < cy
    ||| (r.1 == cy && r.0 + r.2 < cx && r.3 <= mh)
}

pub struct GlyphCache {
    cache: HashMap<u64, (u32, u32, u32, u32)>,
    cursor_x: u32,
    cursor_y: u32,
    width: u32,
    height: u32,
    texture: u32,
    max_height_this_row: u32,
}

impl GlyphCache {
    /// The cached rectangles, by glyph key.
    pub closed spec fn cache_map(&self) -> Map<u64, (u32, u32, u32, u32)> {
        self.cache@
    }

    pub closed spec fn spec_cursor(&self) -> (int, int) {
        (self.cursor_x as int, self.cursor_y as int)
    }

    pub closed spec fn shelf_height(&self) -> int {
        self.max_height_this_row as int
    }

    pub closed spec fn dims(&self) -> (u32, u32) {
        (self.width, self.height)
    }

    pub closed spec fn spec_texture(&self) -> u32 {
        self.texture
    }

    pub closed spec fn wf(&self) -> bool {
        &&& self.width <= 0x4000_0000
        &&& self.height <= 0x4000_0000
        &&& self.cursor_x as int <= self.width as int + 1
        &&& self.cursor_y <= self.height
        &&& self.max_height_this_row <= self.height
        &&& forall|k: u64|
            #[trigger] self.cache@.contains_key(k) ==> spec_rect_in_bounds(
                self.cache@[k],
                self.width,
                self.height,
            ) && spec_rect_behind_cursor(
                self.cache@[k],
                self.cursor_x as int,
                self.cursor_y as int,
                self.max_height_this_row as int,
            )
        &&& forall|k1: u64, k2: u64|
            #[trigger] self.cache@.contains_key(k1) && #[trigger] self.cache@.contains_key(k2)
                && k1 != k2 ==> spec_rects_disjoint(self.cache@[k1], self.cache@[k2])
    }

    /// Law: a cached glyph's rectangle lies inside the atlas texture.
    pub proof fn lemma_cached_rect_in_bounds(&self, k: u64)
        requires
            self.wf(),
            self.cache_map().contains_key(k),
        ensures
            spec_rect_in_bounds(self.cache_map()[k], self.dims().0, self.dims().1),
    {
    }

    /// Law: two distinct cached glyphs never share an atlas pixel: shelf
    /// packing hands every glyph its own region, for good.
    pub proof fn lemma_cached_rects_disjoint(&self, k1: u64, k2: u64)
        requires
            self.wf(),
            self.cache_map().contains_key(k1),
            self.cache_map().contains_key(k2),
            k1 != k2,
        ensures
            spec_rects_disjoint(self.cache_map()[k1], self.cache_map()[k2]),
    {
    }

    /// A fresh, empty atlas in front of the (caller-created) 2048 by 2048
    /// texture object `texture`.
    pub fn new(texture: u32) -> (r: GlyphCache)
        ensures
            r.wf(),
            r.cache_map() == Map::<u64, (u32, u32, u32, u32)>::empty(),
            r.spec_cursor() == (0int, 0int),
            r.shelf_height() == 0,
            r.dims() == (2048u32, 2048u32),
            r.spec_texture() == texture,
    {
        GlyphCache {
            cache: HashMap::new(),
            cursor_x: 0,
            cursor_y: 0,
            width: 2048,
            height: 2048,
            texture,
            max_height_this_row: 0,
        }
    }

    /// Reserves a `width` x `height` rectangle at the packing cursor,
    /// wrapping to a new shelf when the rectangle would pass the atlas's
    /// right edge; fails, changing nothing, when the rectangle cannot fit
    /// in the atlas at all.
    pub fn reserve(&mut self, width: u32, height: u32) -> (r: Result<(u32, u32, u32, u32), AtlasFull>)
        requires
            old(self).wf(),
            width < 0x4000_0000,
            height < 0x4000_0000,
        ensures
            final(self).wf(),
            final(self).cache_map() == old(self).cache_map(),
            final(self).dims() == old(self).dims(),
            final(self).spec_texture() == old(self).spec_texture(),
            match spec_reserve(
                old(self).dims().0 as int,
                old(self).dims().1 as int,
                old(self).spec_cursor().0,
                old(self).spec_cursor().1,
                old(self).shelf_height(),
                width as int,
                height as int,
            ) {
                Some(placed) => {
                    &&& r matches Ok(rect)
                    &&& rect.0 == placed.0.0
                    &&& rect.1 == placed.0.1
                    &&& rect.2 == width
                    &&& rect.3 == height
                    &&& final(self).spec_cursor() == (placed.1.0, placed.1.1)
                    &&& final(self).shelf_height() == placed.1.2
                },
                None => {
                    &&& r matches Err(e)
                    &&& e.glyph_width == width
                    &&& e.glyph_height == height
                    &&& final(self).spec_cursor() == old(self).spec_cursor()
                    &&& final(self).shelf_height() == old(self).shelf_height()
                },
            },
    {
        let wrapped = self.cursor_x as u64 + width as u64 > self.width as u64;
        let x64: u64 = if wrapped {
            0
        } else {
            self.cursor_x as u64
        };
        let y64: u64 = if wrapped {
            self.cursor_y as u64 + self.max_height_this_row as u64 + 1
        } else {
            self.cursor_y as u64
        };
        let mh0: u32 = if wrapped {
            0
        } else {
            self.max_height_this_row
        };
        if x64 + width as u64 <= self.width as u64 && y64 + height as u64 <= self.height as u64 {
            let x = x64 as u32;
            let y = y64 as u32;
            self.cursor_x = x + width + 1;
            self.cursor_y = y;
            self.max_height_this_row = if height > mh0 {
                height
            } else {
                mh0
            };
            Ok((x, y, width, height))
        } else {
            Err(AtlasFull { glyph_width: width, glyph_height: height })
        }
    }

    /// Looks the glyph up in the cache. On a hit, the cached rectangle is
    /// returned unchanged and nothing is rasterized or uploaded. On a miss,
    /// atlas space is reserved by shelf packing, the glyph is rasterized
    /// through the font face, and the caller receives the texture region to
    /// fill beside the new rectangle, which is cached for good. Fails only
    /// when a never-seen glyph cannot fit in the atlas.
    ///
    /// The returned rectangle is in pixels; [`normalized_rect`] turns it
    /// into texture coordinates.
    pub fn get_texcoord_transform(
        &mut self,
        glyph: &PositionedGlyph,
        fonts: &Vec<fontdue::Font>,
    ) -> (r: Result<((u32, u32, u32, u32), Option<GlyphUpload>), AtlasFull>)
        requires
            old(self).wf(),
            glyph.wf(),
            glyph.font_index < fonts@.len(),
            glyph.glyph_index < font_glyph_count(fonts@[glyph.font_index as int]),
        ensures
            final(self).wf(),
            final(self).dims() == old(self).dims(),
            final(self).spec_texture() == old(self).spec_texture(),
            ({
                let k = spec_glyph_key(glyph.font_index, glyph.glyph_index, glyph.px_bits);
                if old(self).cache_map().contains_key(k) {
                    &&& r matches Ok(hit)
                    &&& hit.0 == old(self).cache_map()[k]
                    &&& hit.1 is None
                    &&& final(self).cache_map() == old(self).cache_map()
                    &&& final(self).spec_cursor() == old(self).spec_cursor()
                    &&& final(self).shelf_height() == old(self).shelf_height()
                } else {
                    match spec_reserve(
                        old(self).dims().0 as int,
                        old(self).dims().1 as int,
                        old(self).spec_cursor().0,
                        old(self).spec_cursor().1,
                        old(self).shelf_height(),
                        glyph.width as int,
                        glyph.height as int,
                    ) {
                        Some(placed) => {
                            &&& r matches Ok(miss)
                            &&& miss.0.0 == placed.0.0
                            &&& miss.0.1 == placed.0.1
                            &&& miss.0.2 == glyph.width
                            &&& miss.0.3 == glyph.height
                            &&& miss.1 matches Some(up)
                            &&& up.x == placed.0.0
                            &&& up.y == placed.0.1
                            &&& up.rgba@.len() == 4 * up.width * up.height
                            &&& forall|j: int|
                                0 <= j < up.rgba@.len() && j % 4 != 3 ==> #[trigger] up.rgba@[j]
                                    == 0xFF
                            &&& final(self).cache_map() == old(self).cache_map().insert(
                                k,
                                miss.0,
                            )
                            &&& final(self).spec_cursor() == (placed.1.0, placed.1.1)
                            &&& final(self).shelf_height() == placed.1.2
                        },
                        None => {
                            &&& r matches Err(e)
                            &&& e.glyph_width == glyph.width
                            &&& e.glyph_height == glyph.height
                            &&& final(self).cache_map() == old(self).cache_map()
                            &&& final(self).spec_cursor() == old(self).spec_cursor()
                            &&& final(self).shelf_height() == old(self).shelf_height()
                        },
                    }
                }
            }),
    {
        let k = glyph_key(glyph.font_index, glyph.glyph_index, glyph.px_bits);
        match self.cache.get(&k) {
            Some(cached) => Ok((*cached, None)),
            None => {
                let rect = match self.reserve(glyph.width as u32, glyph.height as u32) {
                    Ok(rect) => rect,
                    Err(e) => {
                        return Err(e);
                    },
                };
                let (rw, rh, coverage) = rasterize_glyph(
                    &fonts[glyph.font_index],
                    glyph.glyph_index,
                    glyph.px_bits,
                );
                let rgba = coverage_to_rgba(&coverage);
                proof {
                    assert(4 * ((rw as int) * (rh as int)) == 4 * (rw as int) * (rh as int))
                        by (nonlinear_arith);
                }
                self.cache.insert(k, rect);
                Ok(
                    (
                        rect,
                        Some(
                            GlyphUpload {
                                x: rect.0,
                                y: rect.1,
                                width: rw,
                                height: rh,
                                rgba,
                            },
                        ),
                    ),
                )
            },
        }
    }
}

/// Widens a single-channel coverage bitmap to four channels: white, with
/// the coverage as alpha.
pub fn coverage_to_rgba(coverage: &Vec<u8>) -> (r: Vec<u8>)
    ensures
        r@.len() == 4 * coverage@.len(),
        forall|j: int|
            0 <= j < r@.len() ==> #[trigger] r@[j] == (if j % 4 == 3 {
                coverage@[j / 4]
            } else {
                0xFFu8
            }),
{
    let mut r: Vec<u8> = Vec::new();
    let mut i: usize = 0;
    while i < coverage.len()
        invariant
            i <= coverage@.len(),
            r@.len() == 4 * i,
            forall|j: int|
                0 <= j < r@.len() ==> #[trigger] r@[j] == (if j % 4 == 3 {
                    coverage@[j / 4]
                } else {
                    0xFFu8
                }),
        decreases coverage@.len() - i,
    {
        let ghost prev = r@;
        r.push(0xFF);
        r.push(0xFF);
        r.push(0xFF);
        r.push(coverage[i]);
        proof {
            assert(r@ =~= prev + seq![0xFFu8, 0xFFu8, 0xFFu8, coverage@[i as int]]);
        }
        i = i + 1;
    }
    r
}

/// The four-channel pattern the atlas texture is first filled with, before
/// any glyph lands in it.
pub fn initial_atlas_pixels() -> (r: Vec<u8>)
    ensures
        r@.len() == 4 * 2048 * 2048,
        forall|j: int|
            0 <= j < r@.len() ==> #[trigger] r@[j] == (if j % 4 == 1 || j % 4 == 3 {
                0u8
            } else {
                0xFFu8
            }),
{
    let mut r: Vec<u8> = Vec::new();
    let n: usize = 2048 * 2048;
    let mut i: usize = 0;
    while i < n
        invariant
            i <= n,
            n == 2048 * 2048,
            r@.len() == 4 * i,
            forall|j: int|
                0 <= j < r@.len() ==> #[trigger] r@[j] == (if j % 4 == 1 || j % 4 == 3 {
                    0u8
                } else {
                    0xFFu8
                }),
        decreases n - i,
    {
        let ghost prev = r@;
        r.push(0xFF);
        r.push(0);
        r.push(0xFF);
        r.push(0);
        proof {
            assert(r@ =~= prev + seq![0xFFu8, 0u8, 0xFFu8, 0u8]);
        }
        i = i + 1;
    }
    r
}

#[verifier::external_type_specification]
#[verifier::external_body]
pub struct ExFont(fontdue::Font);

pub uninterp spec fn norm_rect_of(rect: (u32, u32, u32, u32), tw: u32, th: u32) -> [u32; 4];

/// Relies on glam::UVec4::as_vec4 and the Vec4 division operator: each
/// pixel coordinate of the rectangle divided by the matching texture
/// dimension, a deterministic function of the values alone.
#[verifier::external_body]
pub fn normalized_rect(rect: (u32, u32, u32, u32), tw: u32, th: u32) -> (r: [u32; 4])
    ensures
        r == norm_rect_of(rect, tw, th),
{
    let v = glam::UVec4::new(rect.0, rect.1, rect.2, rect.3).as_vec4() / glam::UVec4::new(
        tw,
        th,
        tw,
        th,
    ).as_vec4();
    bytemuck::cast(v.to_array())
}

pub uninterp spec fn font_glyph_count(font: fontdue::Font) -> u16;

/// Relies on fontdue::Font::glyph_count: how many glyphs the face holds, a
/// fixed property of the font value.
#[verifier::external_body]
pub fn glyph_count(font: &fontdue::Font) -> (r: u16)
    ensures
        r == font_glyph_count(*font),
{
    font.glyph_count()
}

/// Relies on fontdue::Font::rasterize_indexed: the returned coverage
/// bitmap holds one byte per pixel, its metrics' width times height. The
/// call indexes the face's glyph table unchecked, so the index must be
/// below the face's glyph count.
#[verifier::external_body]
fn rasterize_glyph(font: &fontdue::Font, glyph_index: u16, px_bits: u32) -> (r: (
    usize,
    usize,
    Vec<u8>,
))
    requires
        glyph_index < font_glyph_count(*font),
    ensures
        r.2@.len() == r.0 * r.1,
{
    let (metrics, coverage) = font.rasterize_indexed(glyph_index, bytemuck::cast(px_bits));
    (metrics.width, metrics.height, coverage)
}

/// Law: a glyph key requested once keeps its rectangle: the atlas never
/// moves or evicts a cached glyph, and a second request returns the very
/// same rectangle with nothing to rasterize or upload. This is what
/// [`GlyphCache::get_texcoord_transform`]'s contract says on a cache hit;
/// stated here over the cache map itself.
pub proof fn lemma_cached_rect_stable(
    m: Map<u64, (u32, u32, u32, u32)>,
    k: u64,
    k2: u64,
    rect2: (u32, u32, u32, u32),
)
    requires
        m.contains_key(k),
        !m.contains_key(k2),
    ensures
        m.insert(k2, rect2).contains_key(k),
        m.insert(k2, rect2)[k] == m[k],
{
}

} // verus!
