//! The scene loader: interprets a glTF document (parsed JSON plus binary
//! resource blobs) into the scene graph, and produces the plan of GPU
//! objects (buffers, textures, samplers, vertex arrays) for the backend to
//! create, each named by a small handle the scene graph's draw calls refer
//! to.
//!
//! Every malformed or unsupported document is a fatal load error: there is
//! no partial scene. The node hierarchy must be a forest (as the format
//! demands); the loader renumbers nodes in depth-first preorder so that
//! every child's index is greater than its parent's, which the traversal's
//! termination rests on, and rejects documents whose node links are not a
//! forest.

use vstd::prelude::*;

use crate::animation::{Animation, Interpolation, Keyframes, NodeAnimation};
use crate::arena::BumpAllocatedBuffer;
use crate::bytes::{push_words_le, words_le};
use crate::draw_calls::{pack_lights, DrawCall, Light, UniformBlockLights, Uniforms, MAX_LIGHTS};
use crate::fbits::{f_cos, f_div, f_lt, f_max, f_min, f_mul, f_neg, f_sub, lt_bits, max_bits, min_bits, sub_bits, F_INF, F_MILLI, F_NEG_INF, F_ONE, F_QUARTER_PI, F_THREE, F_TWO, F_ZERO};
use crate::gltf::{clone_string, Gltf, Material, Mesh, Node, Primitive, Scene};
use crate::gpu::{
    ATTR_LOC_COLOR_0, ATTR_LOC_NORMAL, ATTR_LOC_POSITION, ATTR_LOC_TANGENT, ATTR_LOC_TEXCOORD_0,
    ATTR_LOC_TEXCOORD_1, GL_ARRAY_BUFFER, GL_CCW, GL_DYNAMIC_DRAW, GL_ELEMENT_ARRAY_BUFFER,
    GL_LINEAR, GL_LINEAR_MIPMAP_LINEAR, GL_REPEAT, GL_RGB, GL_RGBA, GL_SRGB8, GL_SRGB8_ALPHA8,
    GL_STATIC_READ, GL_TRIANGLES, GL_UNIFORM_BUFFER, GL_UNSIGNED_BYTE, GL_UNSIGNED_INT,
    GL_UNSIGNED_SHORT, TEX_UNIT_BASE_COLOR, TEX_UNIT_EMISSIVE, TEX_UNIT_METALLIC_ROUGHNESS,
    TEX_UNIT_NORMAL, TEX_UNIT_OCCLUSION, UNIFORM_BLOCK_LIGHTS, UNIFORM_BLOCK_MATERIAL,
};
use crate::json::{parse_json, spec_f32_of, spec_member, spec_usize_of, str_eq, Json};
use crate::mat::{mat_from_srt, mat_mul_vec4, Mat4Bits};

verus! {

/// Why a document was rejected. Every variant is fatal: scene construction
/// stops at the first one.
#[derive(Clone, Copy, PartialEq, Eq, Debug)]
pub enum LoadError {
    /// The text is not valid JSON.
    NotJson,
    /// The document requires an extension other than the supported
    /// punctual-lights one.
    UnsupportedExtension,
    /// A member the format requires is missing or has the wrong type.
    MissingOrWrongField,
    /// A buffer's URI matches none of the supplied resources.
    BufferNotFound,
    /// A buffer's declared byte length is not its resource's actual length.
    BufferLengthMismatch,
    /// Strided buffer views are not supported.
    StridedBufferView,
    /// An accessor's element type is none of SCALAR, VEC2, VEC3, VEC4.
    BadAccessorType,
    /// An index buffer's component type is not an unsigned 8-, 16- or
    /// 32-bit type.
    BadIndexType,
    /// A byte range points outside its buffer, or a size computation does
    /// not fit the machine.
    RangeOutOfBounds,
    /// An image did not decode, or decoded to an unsupported pixel format.
    BadImage,
    /// A texture is referenced both as color data and as linear data.
    InconsistentColorSpace,
    /// More lights than the fixed light block holds.
    TooManyLights,
    /// A light's type is none of directional, point, spot.
    BadLightType,
    /// An animation channel's target path is none of translation, rotation,
    /// scale.
    BadAnimationTarget,
    /// An animation sampler's interpolation is none of STEP, LINEAR,
    /// CUBICSPLINE.
    BadInterpolation,
    /// An animation channel's keyframe count does not fit its timestamp
    /// count.
    ChannelLengthMismatch,
    /// An animation channel's timestamps are not strictly increasing.
    NonIncreasingTimestamps,
    /// The node hierarchy is not a forest: a node has two parents or the
    /// links close a cycle.
    NodeGraphNotForest,
}

/// Reads a whole number, as an index or byte length.
pub fn take_usize(j: &Json) -> (r: Result<usize, LoadError>)
    ensures
        match r {
            Ok(v) => spec_usize_of(*j) == Some(v),
            Err(e) => spec_usize_of(*j) is None && e == LoadError::MissingOrWrongField,
        },
{
    match j.as_usize() {
        Some(v) => Ok(v),
        None => Err(LoadError::MissingOrWrongField),
    }
}

/// Reads a number's single-precision bit pattern.
pub fn take_f32_bits(j: &Json) -> (r: Result<u32, LoadError>)
    ensures
        match r {
            Ok(v) => spec_f32_of(*j) == Some(v),
            Err(e) => spec_f32_of(*j) is None && e == LoadError::MissingOrWrongField,
        },
{
    match j.as_f32_bits() {
        Some(v) => Ok(v),
        None => Err(LoadError::MissingOrWrongField),
    }
}

/// The three-component reading of `j`: an array of exactly three numbers,
/// as their single-precision bit patterns.
pub open spec fn spec_take_vec3(j: Json) -> Option<[u32; 3]> {
    match j {
        Json::Arr(v) => {
            if v@.len() == 3 && spec_f32_of(v@[0]) is Some && spec_f32_of(v@[1]) is Some
                && spec_f32_of(v@[2]) is Some {
                Some(
                    [
                        spec_f32_of(v@[0]).unwrap(),
                        spec_f32_of(v@[1]).unwrap(),
                        spec_f32_of(v@[2]).unwrap(),
                    ],
                )
            } else {
                None
            }
        },
        _ => None,
    }
}

/// The four-component reading of `j`.
pub open spec fn spec_take_quat(j: Json) -> Option<[u32; 4]> {
    match j {
        Json::Arr(v) => {
            if v@.len() == 4 && spec_f32_of(v@[0]) is Some && spec_f32_of(v@[1]) is Some
                && spec_f32_of(v@[2]) is Some && spec_f32_of(v@[3]) is Some {
                Some(
                    [
                        spec_f32_of(v@[0]).unwrap(),
                        spec_f32_of(v@[1]).unwrap(),
                        spec_f32_of(v@[2]).unwrap(),
                        spec_f32_of(v@[3]).unwrap(),
                    ],
                )
            } else {
                None
            }
        },
        _ => None,
    }
}

/// Reads a three-component vector.
pub fn take_vec3(j: &Json) -> (r: Result<[u32; 3], LoadError>)
    ensures
        match r {
            Ok(v) => spec_take_vec3(*j) == Some(v),
            Err(e) => spec_take_vec3(*j) is None && e == LoadError::MissingOrWrongField,
        },
{
    match j.as_array() {
        Some(v) => {
            if v.len() != 3 {
                return Err(LoadError::MissingOrWrongField);
            }
            let x = take_f32_bits(&v[0])?;
            let y = take_f32_bits(&v[1])?;
            let z = take_f32_bits(&v[2])?;
            Ok([x, y, z])
        },
        None => Err(LoadError::MissingOrWrongField),
    }
}

/// Reads a four-component vector (a quaternion).
pub fn take_quat(j: &Json) -> (r: Result<[u32; 4], LoadError>)
    ensures
        match r {
            Ok(v) => spec_take_quat(*j) == Some(v),
            Err(e) => spec_take_quat(*j) is None && e == LoadError::MissingOrWrongField,
        },
{
    match j.as_array() {
        Some(v) => {
            if v.len() != 4 {
                return Err(LoadError::MissingOrWrongField);
            }
            let x = take_f32_bits(&v[0])?;
            let y = take_f32_bits(&v[1])?;
            let z = take_f32_bits(&v[2])?;
            let w = take_f32_bits(&v[3])?;
            Ok([x, y, z, w])
        },
        None => Err(LoadError::MissingOrWrongField),
    }
}

/// Fetches a member the format requires.
pub fn require<'a>(j: &'a Json, key: &str) -> (r: Result<&'a Json, LoadError>)
    ensures
        match r {
            Ok(v) => spec_member(*j, key@) == Some(*v),
            Err(e) => spec_member(*j, key@) is None && e == LoadError::MissingOrWrongField,
        },
{
    match j.member(key) {
        Some(v) => Ok(v),
        None => Err(LoadError::MissingOrWrongField),
    }
}

/// `a + b`, rejecting a sum past the machine's limit.
pub fn add_usize(a: usize, b: usize) -> (r: Result<usize, LoadError>)
    ensures
        match r {
            Ok(v) => v == a + b,
            Err(e) => a + b > usize::MAX && e == LoadError::RangeOutOfBounds,
        },
{
    if a <= usize::MAX - b {
        Ok(a + b)
    } else {
        Err(LoadError::RangeOutOfBounds)
    }
}

/// `a * b`, rejecting a product past the machine's limit.
pub fn mul_usize(a: usize, b: usize) -> (r: Result<usize, LoadError>)
    ensures
        match r {
            Ok(v) => v == a * b,
            Err(e) => a * b > usize::MAX && e == LoadError::RangeOutOfBounds,
        },
{
    proof {
        assert((a as int) * (b as int) <= u128::MAX as int) by (nonlinear_arith)
            requires
                a as int <= usize::MAX as int,
                b as int <= usize::MAX as int,
        ;
    }
    let p: u128 = (a as u128) * (b as u128);
    if p <= usize::MAX as u128 {
        Ok(p as usize)
    } else {
        Err(LoadError::RangeOutOfBounds)
    }
}

/// A copy of `bytes[offset .. offset + len]`, rejecting a range that does
/// not lie inside `bytes`.
pub fn slice_bytes(bytes: &Vec<u8>, offset: usize, len: usize) -> (r: Result<Vec<u8>, LoadError>)
    ensures
        match r {
            Ok(v) => offset + len <= bytes@.len() && v@ == bytes@.subrange(
                offset as int,
                offset + len,
            ),
            Err(e) => offset + len > bytes@.len() && e == LoadError::RangeOutOfBounds,
        },
{
    let n_bytes = bytes.len();
    if len > n_bytes || offset > n_bytes - len {
        return Err(LoadError::RangeOutOfBounds);
    }
    let mut out: Vec<u8> = Vec::new();
    let mut i: usize = 0;
    while i < len
        invariant
            i <= len,
            n_bytes == bytes@.len(),
            offset + len <= n_bytes,
            out@ == bytes@.subrange(offset as int, offset + i),
        decreases len - i,
    {
        out.push(bytes[offset + i]);
        proof {
            assert(out@ =~= bytes@.subrange(offset as int, offset + i + 1));
        }
        i = i + 1;
    }
    Ok(out)
}

/// The little-endian 32-bit word at byte offset `off`.
pub open spec fn spec_u32_at(b: Seq<u8>, off: int) -> u32 {
    (b[off] as u32) | ((b[off + 1] as u32) << 8) | ((b[off + 2] as u32) << 16) | ((b[off + 3]
        as u32) << 24)
}

/// Reads `count` little-endian 32-bit words from `bytes` starting at
/// `offset`, rejecting a range that does not lie inside `bytes`.
pub fn read_f32_words(bytes: &Vec<u8>, offset: usize, count: usize) -> (r: Result<
    Vec<u32>,
    LoadError,
>)
    ensures
        match r {
            Ok(v) => {
                &&& offset + 4 * count <= bytes@.len()
                &&& v@.len() == count
                &&& forall|k: int|
                    0 <= k < count ==> #[trigger] v@[k] == spec_u32_at(bytes@, offset + 4 * k)
            },
            Err(e) => offset + 4 * count > bytes@.len() && e == LoadError::RangeOutOfBounds,
        },
{
    let n_bytes = bytes.len();
    if count > n_bytes / 4 || offset > n_bytes - 4 * count {
        proof {
            assert(4 * (count as int) > bytes@.len() || offset + 4 * count > bytes@.len());
        }
        return Err(LoadError::RangeOutOfBounds);
    }
    let mut out: Vec<u32> = Vec::new();
    let mut i: usize = 0;
    while i < count
        invariant
            i <= count,
            n_bytes == bytes@.len(),
            offset + 4 * count <= n_bytes,
            out@.len() == i,
            forall|k: int|
                0 <= k < i ==> #[trigger] out@[k] == spec_u32_at(bytes@, offset + 4 * k),
        decreases count - i,
    {
        let base = offset + 4 * i;
        let w = (bytes[base] as u32) | ((bytes[base + 1] as u32) << 8) | ((bytes[base + 2] as u32)
            << 16) | ((bytes[base + 3] as u32) << 24);
        out.push(w);
        i = i + 1;
    }
    Ok(out)
}

/// Groups a flat word list into three-word entries.
pub fn group3(words: &Vec<u32>) -> (r: Vec<[u32; 3]>)
    requires
        words@.len() % 3 == 0,
    ensures
        r@.len() == words@.len() / 3,
        forall|k: int|
            0 <= k < r@.len() ==> #[trigger] r@[k] == [
                words@[3 * k],
                words@[3 * k + 1],
                words@[3 * k + 2],
            ],
{
    let n_words = words.len();
    let n = n_words / 3;
    let mut out: Vec<[u32; 3]> = Vec::new();
    let mut i: usize = 0;
    while i < n
        invariant
            i <= n,
            n_words == words@.len(),
            n == words@.len() / 3,
            words@.len() % 3 == 0,
            out@.len() == i,
            forall|k: int|
                0 <= k < i ==> #[trigger] out@[k] == [
                    words@[3 * k],
                    words@[3 * k + 1],
                    words@[3 * k + 2],
                ],
        decreases n - i,
    {
        out.push([words[3 * i], words[3 * i + 1], words[3 * i + 2]]);
        i = i + 1;
    }
    out
}

/// Groups a flat word list into four-word entries.
pub fn group4(words: &Vec<u32>) -> (r: Vec<[u32; 4]>)
    requires
        words@.len() % 4 == 0,
    ensures
        r@.len() == words@.len() / 4,
        forall|k: int|
            0 <= k < r@.len() ==> #[trigger] r@[k] == [
                words@[4 * k],
                words@[4 * k + 1],
                words@[4 * k + 2],
                words@[4 * k + 3],
            ],
{
    let n_words = words.len();
    let n = n_words / 4;
    let mut out: Vec<[u32; 4]> = Vec::new();
    let mut i: usize = 0;
    while i < n
        invariant
            i <= n,
            n_words == words@.len(),
            n == words@.len() / 4,
            words@.len() % 4 == 0,
            out@.len() == i,
            forall|k: int|
                0 <= k < i ==> #[trigger] out@[k] == [
                    words@[4 * k],
                    words@[4 * k + 1],
                    words@[4 * k + 2],
                    words@[4 * k + 3],
                ],
        decreases n - i,
    {
        out.push([words[4 * i], words[4 * i + 1], words[4 * i + 2], words[4 * i + 3]]);
        i = i + 1;
    }
    out
}

/// Relies on Vec::clone for byte blobs: the copy holds the same bytes.
#[verifier::external_body]
pub fn clone_bytes(v: &Vec<u8>) -> (r: Vec<u8>)
    ensures
        r@ == v@,
{
    v.clone()
}


/// One resolved accessor: which buffer its data sits in, where, how many
/// elements, how many components per element, the component type code, and
/// whether integer data is normalized.
#[derive(Clone, Copy, PartialEq, Eq, Debug)]
pub struct Accessor {
    pub buffer: usize,
    pub byte_offset: usize,
    pub count: usize,
    pub size: usize,
    pub component_type: usize,
    pub normalized: bool,
}

/// The whole-number reading of object `j`'s member `key`, when the member
/// is there and is a number.
pub open spec fn spec_usize_member(j: Json, key: Seq<char>) -> Option<usize> {
    match spec_member(j, key) {
        Some(v) => spec_usize_of(v),
        None => None,
    }
}

/// The text of object `j`'s member `key`, when the member is there and is
/// a string.
pub open spec fn spec_str_member(j: Json, key: Seq<char>) -> Option<Seq<char>> {
    match spec_member(j, key) {
        Some(v) => match v {
            Json::Str(t) => Some(t@),
            _ => None,
        },
        None => None,
    }
}

/// An optional whole-number member: absent is fine, present must be a
/// number.
pub open spec fn spec_opt_usize_member(j: Json, key: Seq<char>) -> bool {
    match spec_member(j, key) {
        Some(v) => spec_usize_of(v) is Some,
        None => true,
    }
}

/// The value an optional whole-number member reads, absent meaning zero.
pub open spec fn spec_opt_usize_value(j: Json, key: Seq<char>) -> usize {
    match spec_member(j, key) {
        Some(v) => spec_usize_of(v).unwrap(),
        None => 0,
    }
}

/// Everything accessor `idx` needs to resolve: a numeric buffer-view link
/// to an unstrided view with a numeric buffer link, numeric offsets whose
/// sum fits the machine, a numeric count and component type, an element
/// type among the four supported ones, and a boolean `normalized` flag if
/// one is declared.
pub open spec fn spec_accessor_resolves(accessors: Seq<Json>, views: Seq<Json>, idx: int) -> bool {
    &&& 0 <= idx < accessors.len()
    &&& spec_usize_member(accessors[idx], "bufferView"@) is Some
    &&& (spec_usize_member(accessors[idx], "bufferView"@).unwrap() as int) < views.len()
    &&& spec_member(
        views[spec_usize_member(accessors[idx], "bufferView"@).unwrap() as int],
        "byteStride"@,
    ) is None
    &&& spec_usize_member(
        views[spec_usize_member(accessors[idx], "bufferView"@).unwrap() as int],
        "buffer"@,
    ) is Some
    &&& spec_opt_usize_member(accessors[idx], "byteOffset"@)
    &&& spec_opt_usize_member(
        views[spec_usize_member(accessors[idx], "bufferView"@).unwrap() as int],
        "byteOffset"@,
    )
    &&& spec_opt_usize_value(accessors[idx], "byteOffset"@) + spec_opt_usize_value(
        views[spec_usize_member(accessors[idx], "bufferView"@).unwrap() as int],
        "byteOffset"@,
    ) <= usize::MAX
    &&& spec_usize_member(accessors[idx], "count"@) is Some
    &&& (spec_str_member(accessors[idx], "type"@) matches Some(t) && (t == "SCALAR"@ || t
        == "VEC2"@ || t == "VEC3"@ || t == "VEC4"@))
    &&& spec_usize_member(accessors[idx], "componentType"@) is Some
    &&& match spec_member(accessors[idx], "normalized"@) {
        Some(v) => v is Bool,
        None => true,
    }
}

/// The accessor a resolvable document entry denotes: its view's buffer
/// link, the summed byte offset, its count, its element arity by type
/// name, its component type, and its normalized flag (false when absent).
pub open spec fn spec_resolved_accessor(accessors: Seq<Json>, views: Seq<Json>, idx: int) -> Accessor {
    let acc = accessors[idx];
    let view = views[spec_usize_member(acc, "bufferView"@).unwrap() as int];
    let t = spec_str_member(acc, "type"@).unwrap();
    Accessor {
        buffer: spec_usize_member(view, "buffer"@).unwrap(),
        byte_offset: (spec_opt_usize_value(acc, "byteOffset"@) + spec_opt_usize_value(
            view,
            "byteOffset"@,
        )) as usize,
        count: spec_usize_member(acc, "count"@).unwrap(),
        size: if t == "SCALAR"@ {
            1
        } else if t == "VEC2"@ {
            2
        } else if t == "VEC3"@ {
            3
        } else {
            4
        },
        component_type: spec_usize_member(acc, "componentType"@).unwrap(),
        normalized: match spec_member(acc, "normalized"@) {
            Some(v) => v == Json::Bool(true),
            None => false,
        },
    }
}

/// What a resolved accessor says about the document: `a` reads index `idx`
/// of the accessor list, through an unstrided buffer view.
pub open spec fn accessor_ok(accessors: Seq<Json>, views: Seq<Json>, idx: int, a: Accessor) -> bool {
    &&& 0 <= idx < accessors.len()
    &&& exists|bvi: usize|
        {
            &&& spec_member(accessors[idx], "bufferView"@) matches Some(bv) && spec_usize_of(bv)
                == Some(bvi)
            &&& bvi < views.len()
            &&& spec_member(views[bvi as int], "byteStride"@) is None
            &&& spec_member(views[bvi as int], "buffer"@) matches Some(b) && spec_usize_of(b)
                == Some(a.buffer)
            &&& spec_member(accessors[idx], "count"@) matches Some(c) && spec_usize_of(c) == Some(
                a.count,
            )
        }
    &&& 1 <= a.size <= 4
}

/// Resolves an accessor: its buffer view must be unstrided, its element
/// type one of SCALAR, VEC2, VEC3, VEC4, and its byte offset the sum of
/// the accessor's and the view's.
pub fn unpack_accessor(accessors: &Vec<Json>, views: &Vec<Json>, idx: usize) -> (r: Result<
    Accessor,
    LoadError,
>)
    ensures
        r is Ok <==> spec_accessor_resolves(accessors@, views@, idx as int),
        r matches Ok(a) ==> a == spec_resolved_accessor(accessors@, views@, idx as int),
        r matches Ok(a) ==> accessor_ok(accessors@, views@, idx as int, a),
{
    if idx >= accessors.len() {
        return Err(LoadError::MissingOrWrongField);
    }
    let acc = &accessors[idx];
    let bvi = take_usize(require(acc, "bufferView")?)?;
    if bvi >= views.len() {
        return Err(LoadError::MissingOrWrongField);
    }
    let view = &views[bvi];
    if view.member("byteStride").is_some() {
        return Err(LoadError::StridedBufferView);
    }
    let buffer = take_usize(require(view, "buffer")?)?;
    let acc_off = match acc.member("byteOffset") {
        Some(v) => take_usize(v)?,
        None => 0,
    };
    let view_off = match view.member("byteOffset") {
        Some(v) => take_usize(v)?,
        None => 0,
    };
    let byte_offset = add_usize(acc_off, view_off)?;
    let count = take_usize(require(acc, "count")?)?;
    let elem_type = match require(acc, "type")?.as_string() {
        Some(s) => s,
        None => {
            return Err(LoadError::MissingOrWrongField);
        },
    };
    let size: usize = if str_eq(elem_type.as_str(), "SCALAR") {
        1
    } else if str_eq(elem_type.as_str(), "VEC2") {
        2
    } else if str_eq(elem_type.as_str(), "VEC3") {
        3
    } else if str_eq(elem_type.as_str(), "VEC4") {
        4
    } else {
        proof {
            reveal_strlit("SCALAR");
            reveal_strlit("VEC2");
            reveal_strlit("VEC3");
            reveal_strlit("VEC4");
        }
        return Err(LoadError::BadAccessorType);
    };
    let component_type = take_usize(require(acc, "componentType")?)?;
    let normalized = match acc.member("normalized") {
        Some(v) => match v.as_bool() {
            Some(b) => b,
            None => {
                return Err(LoadError::MissingOrWrongField);
            },
        },
        None => false,
    };
    let a = Accessor { buffer, byte_offset, count, size, component_type, normalized };
    proof {
        reveal_strlit("SCALAR");
        reveal_strlit("VEC2");
        reveal_strlit("VEC3");
        reveal_strlit("VEC4");
        assert("SCALAR"@.len() == 6);
        assert("VEC2"@.len() == 4);
        assert("VEC3"@.len() == 4);
        assert("VEC4"@.len() == 4);
        assert(accessor_ok(accessors@, views@, idx as int, a)) by {
            assert({
                &&& spec_member(accessors@[idx as int], "bufferView"@) matches Some(bv)
                    && spec_usize_of(bv) == Some(bvi)
                &&& bvi < views@.len()
                &&& spec_member(views@[bvi as int], "byteStride"@) is None
                &&& spec_member(views@[bvi as int], "buffer"@) matches Some(b) && spec_usize_of(b)
                    == Some(a.buffer)
                &&& spec_member(accessors@[idx as int], "count"@) matches Some(c) && spec_usize_of(
                    c,
                ) == Some(a.count)
            });
        }
    }
    Ok(a)
}

/// True when the document requires no extension this renderer does not
/// support: the punctual-lights extension is the only supported one.
pub open spec fn spec_exts_ok(doc: Json) -> bool {
    match spec_member(doc, "extensionsRequired"@) {
        None => true,
        Some(exts) => match exts {
            Json::Arr(v) => forall|i: int|
                0 <= i < v@.len() ==> ((#[trigger] v@[i]) matches Json::Str(s) && s@
                    == "KHR_lights_punctual"@),
            _ => false,
        },
    }
}

/// Checks the document's required extensions against the supported set.
pub fn check_required_extensions(doc: &Json) -> (r: Result<(), LoadError>)
    ensures
        r is Ok <==> spec_exts_ok(*doc),
{
    match doc.member("extensionsRequired") {
        None => Ok(()),
        Some(exts) => match exts.as_array() {
            None => Err(LoadError::MissingOrWrongField),
            Some(v) => {
                let n = v.len();
                let mut i: usize = 0;
                while i < n
                    invariant
                        n == v@.len(),
                        i <= n,
                        *exts == Json::Arr(*v),
                        spec_member(*doc, "extensionsRequired"@) == Some(*exts),
                        forall|k: int|
                            0 <= k < i ==> ((#[trigger] v@[k]) matches Json::Str(s) && s@
                                == "KHR_lights_punctual"@),
                    decreases n - i,
                {
                    match v[i].as_string() {
                        Some(s) => {
                            if !str_eq(s.as_str(), "KHR_lights_punctual") {
                                proof {
                                    assert(!(v@[i as int] matches Json::Str(t) && t@
                                        == "KHR_lights_punctual"@));
                                }
                                return Err(LoadError::UnsupportedExtension);
                            }
                        },
                        None => {
                            return Err(LoadError::MissingOrWrongField);
                        },
                    }
                    i = i + 1;
                }
                Ok(())
            },
        },
    }
}

/// A vector of `n` copies of `v`.
fn filled_usize(n: usize, v: usize) -> (r: Vec<usize>)
    ensures
        r@.len() == n,
        forall|k: int| 0 <= k < n ==> r@[k] == v,
{
    let mut r: Vec<usize> = Vec::new();
    let mut i: usize = 0;
    while i < n
        invariant
            i <= n,
            r@.len() == i,
            forall|k: int| 0 <= k < i ==> r@[k] == v,
        decreases n - i,
    {
        r.push(v);
        i = i + 1;
    }
    r
}

fn filled_bool(n: usize, v: bool) -> (r: Vec<bool>)
    ensures
        r@.len() == n,
        forall|k: int| 0 <= k < n ==> r@[k] == v,
{
    let mut r: Vec<bool> = Vec::new();
    let mut i: usize = 0;
    while i < n
        invariant
            i <= n,
            r@.len() == i,
            forall|k: int| 0 <= k < i ==> r@[k] == v,
        decreases n - i,
    {
        r.push(v);
        i = i + 1;
    }
    r
}

/// A depth-first preorder of the node forest given by each node's child
/// list: the visit order (old indices) and each old index's new position.
/// Fails when a node has two parents, a child index is out of range, or
/// the links close a cycle.
fn forest_order(children: &Vec<Vec<usize>>) -> (r: Result<(Vec<usize>, Vec<usize>), LoadError>)
    ensures
        r matches Ok(o) ==> {
            &&& o.0@.len() == children@.len()
            &&& o.1@.len() == children@.len()
            &&& forall|k: int| 0 <= k < o.0@.len() ==> (#[trigger] o.0@[k]) < children@.len()
            &&& forall|k: int|
                0 <= k < o.0@.len() ==> (#[trigger] o.1@[o.0@[k] as int]) == k
        },
{
    let n = children.len();
    let mut has_parent = filled_bool(n, false);
    let mut i: usize = 0;
    while i < n
        invariant
            i <= n,
            n == children@.len(),
            has_parent@.len() == n,
        decreases n - i,
    {
        let m = children[i].len();
        let mut k: usize = 0;
        while k < m
            invariant
                k <= m,
                i < n,
                n == children@.len(),
                m == children@[i as int]@.len(),
                has_parent@.len() == n,
            decreases m - k,
        {
            let c = children[i][k];
            if c >= n {
                return Err(LoadError::RangeOutOfBounds);
            }
            if has_parent[c] {
                return Err(LoadError::NodeGraphNotForest);
            }
            has_parent.set(c, true);
            k = k + 1;
        }
        i = i + 1;
    }
    let mut stack: Vec<usize> = Vec::new();
    let mut i: usize = n;
    while i > 0
        invariant
            i <= n,
            n == children@.len(),
            has_parent@.len() == n,
            forall|k: int| 0 <= k < stack@.len() ==> (#[trigger] stack@[k]) < n,
        decreases i,
    {
        i = i - 1;
        if !has_parent[i] {
            stack.push(i);
        }
    }
    let mut order: Vec<usize> = Vec::new();
    let mut new_of_old = filled_usize(n, 0);
    let mut visited = filled_bool(n, false);
    let mut n_visited: usize = 0;
    loop
        invariant
            n == children@.len(),
            visited@.len() == n,
            new_of_old@.len() == n,
            n_visited <= n,
            order@.len() == n_visited,
            forall|k: int| 0 <= k < stack@.len() ==> (#[trigger] stack@[k]) < n,
            forall|k: int| 0 <= k < order@.len() ==> (#[trigger] order@[k]) < n,
            forall|k: int| 0 <= k < order@.len() ==> visited@[(#[trigger] order@[k]) as int],
            forall|k: int|
                0 <= k < order@.len() ==> (#[trigger] new_of_old@[order@[k] as int]) == k,
        ensures
            n_visited <= n,
            order@.len() == n_visited,
            forall|k: int| 0 <= k < order@.len() ==> (#[trigger] order@[k]) < n,
            forall|k: int|
                0 <= k < order@.len() ==> (#[trigger] new_of_old@[order@[k] as int]) == k,
        decreases n - n_visited,
    {
        let node = match stack.pop() {
            Some(node) => node,
            None => {
                break ;
            },
        };
        if visited[node] {
            return Err(LoadError::NodeGraphNotForest);
        }
        if n_visited >= n {
            return Err(LoadError::NodeGraphNotForest);
        }
        visited.set(node, true);
        new_of_old.set(node, n_visited);
        order.push(node);
        n_visited = n_visited + 1;
        let m = children[node].len();
        let mut k: usize = 0;
        while k < m
            invariant
                k <= m,
                node < n,
                n == children@.len(),
                m == children@[node as int]@.len(),
                forall|j: int| 0 <= j < stack@.len() ==> (#[trigger] stack@[j]) < n,
            decreases m - k,
        {
            let c = children[node][k];
            if c >= n {
                return Err(LoadError::RangeOutOfBounds);
            }
            stack.push(c);
            k = k + 1;
        }
    }
    if n_visited < n {
        return Err(LoadError::NodeGraphNotForest);
    }
    Ok((order, new_of_old))
}


/// `x` as a 32-bit handle or enumerant value.
pub fn to_u32(x: usize) -> (r: Result<u32, LoadError>)
    ensures
        match r {
            Ok(v) => v == x,
            Err(e) => x > 0xFFFF_FFFF && e == LoadError::RangeOutOfBounds,
        },
{
    if x <= 0xFFFF_FFFF {
        Ok(x as u32)
    } else {
        Err(LoadError::RangeOutOfBounds)
    }
}

/// One buffer object to create and fill.
pub struct BufferInit {
    pub buffer: u32,
    pub target: u32,
    pub usage: u32,
    pub bytes: Vec<u8>,
}

/// One level of a texture's mip chain.
pub struct MipLevel {
    pub width: usize,
    pub height: usize,
    pub format: u32,
    pub component: u32,
    pub internal_format: u32,
    pub bytes: Vec<u8>,
}

/// One texture object to create and fill, level by level.
pub struct TextureInit {
    pub texture: u32,
    pub levels: Vec<MipLevel>,
}

/// One sampler object to create and configure.
pub struct SamplerInit {
    pub sampler: u32,
    pub mag_filter: usize,
    pub min_filter: usize,
    pub wrap_s: usize,
    pub wrap_t: usize,
}

/// One pointer of a vertex array: where attribute `location` reads its
/// data.
pub struct AttribPointer {
    pub location: u32,
    pub size: usize,
    pub component_type: usize,
    pub normalized: bool,
    pub buffer: u32,
    pub byte_offset: usize,
}

/// One vertex array object to create.
pub struct VaoInit {
    pub vao: u32,
    pub attributes: Vec<AttribPointer>,
}

/// Everything the GPU backend must create for a loaded scene, each object
/// named by the handle the scene graph's draw calls carry.
pub struct LoadPlan {
    pub buffers: Vec<BufferInit>,
    pub textures: Vec<TextureInit>,
    pub samplers: Vec<SamplerInit>,
    pub vaos: Vec<VaoInit>,
}

/// The fixed-layout material uniform block, each factor as the bit pattern
/// of its single-precision value.
#[derive(Clone, Copy, PartialEq, Eq, Debug)]
pub struct UniformBlockMaterial {
    pub base_color_factor: [u32; 4],
    pub metallic_factor: u32,
    pub roughness_factor: u32,
    pub normal_scale: u32,
    pub occlusion_strength: u32,
    pub emissive_factor: [u32; 4],
}

/// The 48-byte layout of a material block: base color factor, the four
/// scalar factors, then the emissive factor.
pub open spec fn material_block_words(m: UniformBlockMaterial) -> Seq<u32> {
    m.base_color_factor@ + seq![
        m.metallic_factor,
        m.roughness_factor,
        m.normal_scale,
        m.occlusion_strength,
    ] + m.emissive_factor@
}

/// Packs a material block into its GPU byte layout.
pub fn pack_material(m: &UniformBlockMaterial) -> (r: Vec<u8>)
    ensures
        r@ == words_le(material_block_words(*m)),
{
    let mut ws: Vec<u32> = Vec::new();
    ws.push(m.base_color_factor[0]);
    ws.push(m.base_color_factor[1]);
    ws.push(m.base_color_factor[2]);
    ws.push(m.base_color_factor[3]);
    ws.push(m.metallic_factor);
    ws.push(m.roughness_factor);
    ws.push(m.normal_scale);
    ws.push(m.occlusion_strength);
    ws.push(m.emissive_factor[0]);
    ws.push(m.emissive_factor[1]);
    ws.push(m.emissive_factor[2]);
    ws.push(m.emissive_factor[3]);
    proof {
        assert(ws@ =~= material_block_words(*m));
    }
    let mut out: Vec<u8> = Vec::new();
    push_words_le(&mut out, &ws);
    out
}

#[verifier::external_type_specification]
#[verifier::external_body]
pub struct ExDynamicImage(image::DynamicImage);

pub uninterp spec fn image_dims(img: image::DynamicImage) -> (usize, usize);

pub uninterp spec fn image_pixel_bytes(img: image::DynamicImage) -> Seq<u8>;

pub uninterp spec fn image_decodes(bytes: Seq<u8>) -> bool;

/// Relies on image::load_from_memory: decoding is a pure function of the
/// bytes, and fails exactly when they hold no supported image.
#[verifier::external_body]
fn decode_image(bytes: &Vec<u8>) -> (r: Option<image::DynamicImage>)
    ensures
        r is Some <==> image_decodes(bytes@),
{
    image::load_from_memory(bytes.as_slice()).ok()
}

/// Relies on image::DynamicImage::width and height.
#[verifier::external_body]
fn image_size(img: &image::DynamicImage) -> (r: (usize, usize))
    ensures
        r == image_dims(*img),
{
    (img.width() as usize, img.height() as usize)
}

/// Relies on the documented pixel buffer layout of image::DynamicImage:
/// the four variants this renderer supports hold exactly width times
/// height pixels at 3, 4, 6 or 8 bytes each; any other variant is reported
/// as unsupported.
#[verifier::external_body]
fn image_format(img: &image::DynamicImage) -> (r: u8)
    ensures
        r == 0 ==> image_pixel_bytes(*img).len() == 3 * image_dims(*img).0 * image_dims(*img).1,
        r == 1 ==> image_pixel_bytes(*img).len() == 4 * image_dims(*img).0 * image_dims(*img).1,
        r == 2 ==> image_pixel_bytes(*img).len() == 6 * image_dims(*img).0 * image_dims(*img).1,
        r == 3 ==> image_pixel_bytes(*img).len() == 8 * image_dims(*img).0 * image_dims(*img).1,
        r <= 3 || r == 255,
{
    match img {
        image::DynamicImage::ImageRgb8(_) => 0,
        image::DynamicImage::ImageRgba8(_) => 1,
        image::DynamicImage::ImageRgb16(_) => 2,
        image::DynamicImage::ImageRgba16(_) => 3,
        _ => 255,
    }
}

/// Relies on image::DynamicImage::as_bytes: the image's raw pixel buffer.
#[verifier::external_body]
fn image_bytes(img: &image::DynamicImage) -> (r: Vec<u8>)
    ensures
        r@ == image_pixel_bytes(*img),
{
    img.as_bytes().to_vec()
}

/// Relies on image::DynamicImage::resize_exact, which returns an image of
/// exactly the requested dimensions; color data is filtered with the
/// gamma-aware Catmull-Rom kernel, linear data with the triangle kernel.
#[verifier::external_body]
fn resize_image(img: &image::DynamicImage, w: u32, h: u32, srgb: bool) -> (r: image::DynamicImage)
    ensures
        image_dims(r) == (w as usize, h as usize),
{
    img.resize_exact(
        w,
        h,
        if srgb {
            image::imageops::FilterType::CatmullRom
        } else {
            image::imageops::FilterType::Triangle
        },
    )
}

/// Powers of two, for bounding the mip recursion.
pub open spec fn pow2(k: int) -> int
    decreases k,
{
    if k <= 0 {
        1
    } else {
        2 * pow2(k - 1)
    }
}

/// The full mip chain length of a texture whose smaller dimension is
/// `size`: one more level than the dimension can be halved.
pub open spec fn spec_mip_levels(size: int) -> int
    decreases size,
{
    if size < 2 {
        1
    } else {
        1 + spec_mip_levels(size / 2)
    }
}

proof fn lemma_mip_levels_ge1(size: int)
    ensures
        spec_mip_levels(size) >= 1,
    decreases size,
{
    if size >= 2 {
        lemma_mip_levels_ge1(size / 2);
    }
}

proof fn lemma_mip_levels_le(size: int, k: int)
    requires
        0 <= size,
        1 <= k,
        size < pow2(k),
    ensures
        spec_mip_levels(size) <= k,
    decreases k,
{
    if size >= 2 {
        assert(pow2(k) == 2 * pow2(k - 1));
        lemma_mip_levels_le(size / 2, k - 1);
    }
}

/// How many mip levels a full chain has: one more than the smaller
/// dimension can be halved.
fn mip_level_count(w: usize, h: usize) -> (r: usize)
    ensures
        r == spec_mip_levels(
            if w < h {
                w as int
            } else {
                h as int
            },
        ),
        1 <= r <= 64,
{
    let mut size = if w < h {
        w
    } else {
        h
    };
    let ghost size0 = size as int;
    proof {
        reveal_with_fuel(pow2, 65);
        assert(pow2(64) == 0x1_0000_0000_0000_0000);
        lemma_mip_levels_le(size0, 64);
        lemma_mip_levels_ge1(size0);
    }
    let mut levels: usize = 1;
    while size >= 2 && levels < 64
        invariant
            1 <= levels,
            levels + spec_mip_levels(size as int) == spec_mip_levels(size0) + 1,
            spec_mip_levels(size0) <= 64,
        decreases size,
    {
        proof {
            lemma_mip_levels_ge1(size as int / 2);
        }
        size = size / 2;
        levels = levels + 1;
    }
    proof {
        lemma_mip_levels_ge1(size as int);
        if size >= 2 {
            assert(spec_mip_levels(size as int) >= 2) by {
                lemma_mip_levels_ge1(size as int / 2);
            }
            assert(false);
        }
    }
    levels
}


fn check_scene_roots(scenes: &Vec<Scene>, n_nodes: usize) -> (r: bool)
    ensures
        r == forall|s: int, k: int|
            0 <= s < scenes@.len() && 0 <= k < scenes@[s].node_indices@.len()
                ==> (#[trigger] scenes@[s].node_indices@[k]) < n_nodes,
{
    let n = scenes.len();
    let mut s_i: usize = 0;
    while s_i < n
        invariant
            s_i <= n,
            n == scenes@.len(),
            forall|s: int, k: int|
                0 <= s < s_i && 0 <= k < scenes@[s].node_indices@.len()
                    ==> (#[trigger] scenes@[s].node_indices@[k]) < n_nodes,
        decreases n - s_i,
    {
        let m = scenes[s_i].node_indices.len();
        let mut k: usize = 0;
        while k < m
            invariant
                k <= m,
                s_i < n,
                n == scenes@.len(),
                m == scenes@[s_i as int].node_indices@.len(),
                forall|j: int|
                    0 <= j < k ==> (#[trigger] scenes@[s_i as int].node_indices@[j]) < n_nodes,
            decreases m - k,
        {
            if scenes[s_i].node_indices[k] >= n_nodes {
                return false;
            }
            k = k + 1;
        }
        s_i = s_i + 1;
    }
    true
}

fn check_nodes(nodes: &Vec<Node>, n_meshes: usize) -> (r: bool)
    ensures
        r == ({
            &&& forall|n: int, k: int|
                0 <= n < nodes@.len() && 0 <= k < nodes@[n].child_node_indices@.len() ==> n
                    < (#[trigger] nodes@[n].child_node_indices@[k])
                    && nodes@[n].child_node_indices@[k] < nodes@.len()
            &&& forall|n: int|
                0 <= n < nodes@.len() ==> match (#[trigger] nodes@[n]).mesh_index {
                    Some(m) => m < n_meshes,
                    None => true,
                }
        }),
{
    let n = nodes.len();
    let mut i: usize = 0;
    while i < n
        invariant
            i <= n,
            n == nodes@.len(),
            forall|nn: int, k: int|
                0 <= nn < i && 0 <= k < nodes@[nn].child_node_indices@.len() ==> nn
                    < (#[trigger] nodes@[nn].child_node_indices@[k])
                    && nodes@[nn].child_node_indices@[k] < nodes@.len(),
            forall|nn: int|
                0 <= nn < i ==> match (#[trigger] nodes@[nn]).mesh_index {
                    Some(m) => m < n_meshes,
                    None => true,
                },
        decreases n - i,
    {
        match nodes[i].mesh_index {
            Some(m) => {
                if m >= n_meshes {
                    return false;
                }
            },
            None => {},
        }
        let cm = nodes[i].child_node_indices.len();
        let mut k: usize = 0;
        while k < cm
            invariant
                k <= cm,
                i < n,
                n == nodes@.len(),
                cm == nodes@[i as int].child_node_indices@.len(),
                forall|j: int|
                    0 <= j < k ==> i < (#[trigger] nodes@[i as int].child_node_indices@[j])
                        && nodes@[i as int].child_node_indices@[j] < nodes@.len(),
            decreases cm - k,
        {
            let c = nodes[i].child_node_indices[k];
            if c <= i || c >= n {
                return false;
            }
            k = k + 1;
        }
        i = i + 1;
    }
    true
}

fn check_meshes(meshes: &Vec<Mesh>, n_prims: usize) -> (r: bool)
    ensures
        r == forall|m: int, k: int|
            0 <= m < meshes@.len() && 0 <= k < meshes@[m].primitive_indices@.len()
                ==> (#[trigger] meshes@[m].primitive_indices@[k]) < n_prims,
{
    let n = meshes.len();
    let mut i: usize = 0;
    while i < n
        invariant
            i <= n,
            n == meshes@.len(),
            forall|m: int, k: int|
                0 <= m < i && 0 <= k < meshes@[m].primitive_indices@.len()
                    ==> (#[trigger] meshes@[m].primitive_indices@[k]) < n_prims,
        decreases n - i,
    {
        let pm = meshes[i].primitive_indices.len();
        let mut k: usize = 0;
        while k < pm
            invariant
                k <= pm,
                i < n,
                n == meshes@.len(),
                pm == meshes@[i as int].primitive_indices@.len(),
                forall|j: int|
                    0 <= j < k ==> (#[trigger] meshes@[i as int].primitive_indices@[j]) < n_prims,
            decreases pm - k,
        {
            if meshes[i].primitive_indices[k] >= n_prims {
                return false;
            }
            k = k + 1;
        }
        i = i + 1;
    }
    true
}

fn check_prims(prims: &Vec<Primitive>, n_mats: usize) -> (r: bool)
    ensures
        r == forall|p: int|
            0 <= p < prims@.len() ==> (#[trigger] prims@[p]).material_index < n_mats,
{
    let n = prims.len();
    let mut i: usize = 0;
    while i < n
        invariant
            i <= n,
            n == prims@.len(),
            forall|p: int| 0 <= p < i ==> (#[trigger] prims@[p]).material_index < n_mats,
        decreases n - i,
    {
        if prims[i].material_index >= n_mats {
            return false;
        }
        i = i + 1;
    }
    true
}

fn check_channel(a: &NodeAnimation) -> (r: bool)
    ensures
        r == a.wf(),
{
    let n_keys = match &a.keyframes {
        Keyframes::Translation(kf) => kf.len(),
        Keyframes::Rotation(kf) => kf.len(),
        Keyframes::Scale(kf) => kf.len(),
    };
    let n_ts = a.timestamps.len();
    match a.interpolation {
        Interpolation::CubicSpline => {
            if n_ts > usize::MAX / 3 {
                return false;
            }
            n_keys == 3 * n_ts
        },
        _ => n_keys == n_ts,
    }
}



/// The byte length of the first resource named `name`, if any is.
pub open spec fn spec_resource_len(
    resources: Seq<(String, Vec<u8>)>,
    name: Seq<char>,
    i: int,
) -> Option<usize>
    decreases resources.len() - i,
{
    if i < 0 || i >= resources.len() {
        None
    } else if resources[i].0@ == name {
        Some(resources[i].1.len() as usize)
    } else {
        spec_resource_len(resources, name, i + 1)
    }
}

/// The index of the first resource named `name`.
fn find_resource(resources: &Vec<(String, Vec<u8>)>, name: &str) -> (r: Option<usize>)
    ensures
        match r {
            Some(i) => {
                &&& i < resources@.len()
                &&& resources@[i as int].0@ == name@
                &&& spec_resource_len(resources@, name@, 0) == Some(
                    resources@[i as int].1.len() as usize,
                )
            },
            None => spec_resource_len(resources@, name@, 0) is None,
        },
{
    let n = resources.len();
    let mut i: usize = 0;
    while i < n
        invariant
            i <= n,
            n == resources@.len(),
            spec_resource_len(resources@, name@, 0) == spec_resource_len(
                resources@,
                name@,
                i as int,
            ),
        decreases n - i,
    {
        if str_eq(resources[i].0.as_str(), name) {
            proof {
                assert(spec_resource_len(resources@, name@, i as int) == Some(
                    resources@[i as int].1.len() as usize,
                ));
            }
            return Some(i);
        }
        i = i + 1;
    }
    None
}

/// One declared buffer matches a supplied resource: the entry names a
/// resource by URI (the first buffer may instead be the embedded unnamed
/// chunk, offered under the empty name), and its declared byte length is
/// the resource's actual length.
pub open spec fn spec_buffer_entry_ok(
    b: Json,
    i: int,
    resources: Seq<(String, Vec<u8>)>,
) -> bool {
    let len = if i != 0 || spec_member(b, "uri"@) is Some {
        match spec_member(b, "uri"@) {
            Some(Json::Str(name)) => spec_resource_len(resources, name@, 0),
            _ => None,
        }
    } else {
        spec_resource_len(resources, ""@, 0)
    };
    &&& len is Some
    &&& spec_member(b, "byteLength"@) matches Some(bl) && spec_usize_of(bl) == Some(len.unwrap())
}

/// The document's buffer list, where one is declared.
pub open spec fn spec_buffers_of(doc: Json) -> Vec<Json> {
    spec_member(doc, "buffers"@).unwrap()->Arr_0
}

/// The whole buffer section resolves: a `buffers` array whose every entry
/// matches its resource.
pub open spec fn spec_buffers_ok(doc: Json, resources: Seq<(String, Vec<u8>)>) -> bool {
    &&& spec_member(doc, "buffers"@) is Some
    &&& spec_member(doc, "buffers"@).unwrap() is Arr
    &&& forall|i: int|
        0 <= i < spec_buffers_of(doc)@.len() ==> spec_buffer_entry_ok(
            #[trigger] spec_buffers_of(doc)@[i],
            i,
            resources,
        )
}

proof fn lemma_buffers_entry_refutes(
    doc: Json,
    resources: Seq<(String, Vec<u8>)>,
    v: Vec<Json>,
    i: int,
)
    requires
        spec_member(doc, "buffers"@) == Some(Json::Arr(v)),
        0 <= i < v@.len(),
        !spec_buffer_entry_ok(v@[i], i, resources),
    ensures
        !spec_buffers_ok(doc, resources),
{
    if spec_buffers_ok(doc, resources) {
        assert(spec_buffers_of(doc) == v);
        assert(spec_buffer_entry_ok(v@[i], i, resources));
    }
}

/// Matches each declared buffer to its named resource (the first buffer may
/// be the embedded unnamed chunk), checks the declared byte length against
/// the resource's actual size, and plans one buffer object per blob;
/// succeeds exactly when the whole buffer section resolves.
fn load_buffers(doc: &Json, resources: &Vec<(String, Vec<u8>)>) -> (r: Result<
    (Vec<Vec<u8>>, Vec<BufferInit>),
    LoadError,
>)
    ensures
        r is Ok <==> spec_buffers_ok(*doc, resources@) && spec_buffers_of(*doc)@.len()
            <= 0xFFFF_FFFF,
        r matches Ok(o) ==> {
            &&& spec_member(*doc, "buffers"@) matches Some(b) && b matches Json::Arr(v)
                && o.0@.len() == v@.len() && o.1@.len() == v@.len()
        },
{
    let buffers_json = match require(doc, "buffers")?.as_array() {
        Some(v) => v,
        None => {
            return Err(LoadError::MissingOrWrongField);
        },
    };
    let n = buffers_json.len();
    if n > 0xFFFF_FFFF {
        proof {
            assert(spec_buffers_of(*doc) == *buffers_json);
        }
        return Err(LoadError::RangeOutOfBounds);
    }
    let mut datas: Vec<Vec<u8>> = Vec::new();
    let mut inits: Vec<BufferInit> = Vec::new();
    let mut i: usize = 0;
    while i < n
        invariant
            i <= n,
            n <= 0xFFFF_FFFF,
            n == buffers_json@.len(),
            datas@.len() == i,
            inits@.len() == i,
            spec_member(*doc, "buffers"@) == Some(Json::Arr(*buffers_json)),
            forall|z: int|
                0 <= z < i ==> spec_buffer_entry_ok(#[trigger] buffers_json@[z], z, resources@),
        decreases n - i,
    {
        let b = &buffers_json[i];
        let data_index = if i != 0 || b.member("uri").is_some() {
            let uri_json = match b.member("uri") {
                Some(v) => v,
                None => {
                    proof {
                        assert(!spec_buffer_entry_ok(buffers_json@[i as int], i as int, resources@));
                        lemma_buffers_entry_refutes(*doc, resources@, *buffers_json, i as int);
                    }
                    return Err(LoadError::MissingOrWrongField);
                },
            };
            let uri = match uri_json.as_string() {
                Some(s) => s,
                None => {
                    proof {
                        assert(!spec_buffer_entry_ok(buffers_json@[i as int], i as int, resources@));
                        lemma_buffers_entry_refutes(*doc, resources@, *buffers_json, i as int);
                    }
                    return Err(LoadError::MissingOrWrongField);
                },
            };
            match find_resource(resources, uri.as_str()) {
                Some(k) => k,
                None => {
                    proof {
                        assert(!spec_buffer_entry_ok(buffers_json@[i as int], i as int, resources@));
                        lemma_buffers_entry_refutes(*doc, resources@, *buffers_json, i as int);
                    }
                    return Err(LoadError::BufferNotFound);
                },
            }
        } else {
            // The embedded binary chunk of a packed file has no URI and is
            // supplied under the empty name.
            match find_resource(resources, "") {
                Some(k) => k,
                None => {
                    proof {
                        assert(!spec_buffer_entry_ok(buffers_json@[i as int], i as int, resources@));
                        lemma_buffers_entry_refutes(*doc, resources@, *buffers_json, i as int);
                    }
                    return Err(LoadError::BufferNotFound);
                },
            }
        };
        let bl_json = match b.member("byteLength") {
            Some(v) => v,
            None => {
                proof {
                    assert(!spec_buffer_entry_ok(buffers_json@[i as int], i as int, resources@));
                    lemma_buffers_entry_refutes(*doc, resources@, *buffers_json, i as int);
                }
                return Err(LoadError::MissingOrWrongField);
            },
        };
        let byte_length = match bl_json.as_usize() {
            Some(v) => v,
            None => {
                proof {
                    assert(!spec_buffer_entry_ok(buffers_json@[i as int], i as int, resources@));
                    lemma_buffers_entry_refutes(*doc, resources@, *buffers_json, i as int);
                }
                return Err(LoadError::MissingOrWrongField);
            },
        };
        if byte_length != resources[data_index].1.len() {
            proof {
                assert(!spec_buffer_entry_ok(buffers_json@[i as int], i as int, resources@));
                lemma_buffers_entry_refutes(*doc, resources@, *buffers_json, i as int);
            }
            return Err(LoadError::BufferLengthMismatch);
        }
        proof {
            assert(spec_buffer_entry_ok(buffers_json@[i as int], i as int, resources@));
        }
        let bytes = clone_bytes(&resources[data_index].1);
        let id = to_u32(i + 1)?;
        inits.push(
            BufferInit {
                buffer: id,
                target: GL_ARRAY_BUFFER,
                usage: GL_STATIC_READ,
                bytes: clone_bytes(&resources[data_index].1),
            },
        );
        datas.push(bytes);
        i = i + 1;
    }
    proof {
        assert(spec_buffers_of(*doc) == *buffers_json);
    }
    Ok((datas, inits))
}

/// Each node's child list, read straight from the document, every index
/// checked against the node count.
/// One node's child links read: absent, or an array of numbers each below
/// the node count.
pub open spec fn spec_children_ok(nj: Json, n_nodes: int) -> bool {
    match spec_member(nj, "children"@) {
        None => true,
        Some(c) => match c {
            Json::Arr(arr) => forall|k: int|
                0 <= k < arr@.len() ==> (spec_usize_of(#[trigger] arr@[k]) matches Some(ci) && (
                ci as int) < n_nodes),
            _ => false,
        },
    }
}

/// Each node's child list, read straight from the document; succeeds
/// exactly when every declared child list is an array of node indices in
/// range.
fn node_children_raw(nodes_json: &Vec<Json>) -> (r: Result<Vec<Vec<usize>>, LoadError>)
    ensures
        r is Ok <==> forall|i: int|
            0 <= i < nodes_json@.len() ==> spec_children_ok(
                #[trigger] nodes_json@[i],
                nodes_json@.len() as int,
            ),
        r matches Ok(v) ==> {
            &&& v@.len() == nodes_json@.len()
            &&& forall|i: int, k: int|
                0 <= i < v@.len() && 0 <= k < v@[i]@.len() ==> (#[trigger] v@[i]@[k])
                    < nodes_json@.len()
        },
{
    let n = nodes_json.len();
    let mut out: Vec<Vec<usize>> = Vec::new();
    let mut i: usize = 0;
    while i < n
        invariant
            i <= n,
            n == nodes_json@.len(),
            out@.len() == i,
            forall|x: int, k: int|
                0 <= x < i && 0 <= k < out@[x]@.len() ==> (#[trigger] out@[x]@[k]) < n,
            forall|x: int| 0 <= x < i ==> spec_children_ok(#[trigger] nodes_json@[x], n as int),
        decreases n - i,
    {
        let mut children: Vec<usize> = Vec::new();
        match nodes_json[i].member("children") {
            Some(c) => {
                let arr = match c.as_array() {
                    Some(a) => a,
                    None => {
                        proof {
                            assert(!spec_children_ok(nodes_json@[i as int], n as int));
                        }
                        return Err(LoadError::MissingOrWrongField);
                    },
                };
                let m = arr.len();
                let mut k: usize = 0;
                while k < m
                    invariant
                        k <= m,
                        i < n,
                        m == arr@.len(),
                        n == nodes_json@.len(),
                        spec_member(nodes_json@[i as int], "children"@) == Some(Json::Arr(*arr)),
                        forall|z: int| 0 <= z < children@.len() ==> (#[trigger] children@[z]) < n,
                        forall|z: int|
                            0 <= z < k ==> (spec_usize_of(#[trigger] arr@[z]) matches Some(ci)
                                && (ci as int) < n),
                    decreases m - k,
                {
                    let c_idx = match arr[k].as_usize() {
                        Some(v) => v,
                        None => {
                            proof {
                                assert(!spec_children_ok(nodes_json@[i as int], n as int));
                            }
                            return Err(LoadError::MissingOrWrongField);
                        },
                    };
                    if c_idx >= n {
                        proof {
                            assert(!spec_children_ok(nodes_json@[i as int], n as int));
                        }
                        return Err(LoadError::RangeOutOfBounds);
                    }
                    children.push(c_idx);
                    k = k + 1;
                }
                proof {
                    assert(spec_children_ok(nodes_json@[i as int], n as int));
                }
            },
            None => {},
        }
        out.push(children);
        i = i + 1;
    }
    Ok(out)
}

/// The local transform a node declares: an explicit column-major matrix
/// when a `matrix` member is present, otherwise translation, rotation and
/// scale parts composed, each part defaulting to the identity.
pub open spec fn spec_node_transform(node: Json) -> Option<Mat4Bits> {
    match spec_member(node, "matrix"@) {
        Some(mj) => match mj {
            Json::Arr(arr) => {
                if arr@.len() == 16 && (forall|k: int|
                    0 <= k < 16 ==> spec_f32_of(#[trigger] arr@[k]) is Some) {
                    Some(Mat4Bits { e: spec_matrix_entries(arr@) })
                } else {
                    None
                }
            },
            _ => None,
        },
        None => {
            let tr = match spec_member(node, "translation"@) {
                Some(v) => spec_take_vec3(v),
                None => Some([F_ZERO, F_ZERO, F_ZERO]),
            };
            let sc = match spec_member(node, "scale"@) {
                Some(v) => spec_take_vec3(v),
                None => Some([F_ONE, F_ONE, F_ONE]),
            };
            let ro = match spec_member(node, "rotation"@) {
                Some(v) => spec_take_quat(v),
                None => Some([F_ZERO, F_ZERO, F_ZERO, F_ONE]),
            };
            if tr is Some && sc is Some && ro is Some {
                Some(
                    Mat4Bits {
                        e: crate::mat::mat_from_srt_of(sc.unwrap(), ro.unwrap(), tr.unwrap()),
                    },
                )
            } else {
                None
            }
        },
    }
}

pub open spec fn spec_matrix_entries(arr: Seq<Json>) -> [u32; 16] {
    [
        spec_f32_of(arr[0]).unwrap(),
        spec_f32_of(arr[1]).unwrap(),
        spec_f32_of(arr[2]).unwrap(),
        spec_f32_of(arr[3]).unwrap(),
        spec_f32_of(arr[4]).unwrap(),
        spec_f32_of(arr[5]).unwrap(),
        spec_f32_of(arr[6]).unwrap(),
        spec_f32_of(arr[7]).unwrap(),
        spec_f32_of(arr[8]).unwrap(),
        spec_f32_of(arr[9]).unwrap(),
        spec_f32_of(arr[10]).unwrap(),
        spec_f32_of(arr[11]).unwrap(),
        spec_f32_of(arr[12]).unwrap(),
        spec_f32_of(arr[13]).unwrap(),
        spec_f32_of(arr[14]).unwrap(),
        spec_f32_of(arr[15]).unwrap(),
    ]
}

fn node_transform(node: &Json) -> (r: Result<Mat4Bits, LoadError>)
    ensures
        match r {
            Ok(m) => spec_node_transform(*node) == Some(m),
            Err(_) => spec_node_transform(*node) is None,
        },
{
    match node.member("matrix") {
        Some(mj) => {
            let arr = match mj.as_array() {
                Some(a) => a,
                None => {
                    return Err(LoadError::MissingOrWrongField);
                },
            };
            if arr.len() != 16 {
                return Err(LoadError::MissingOrWrongField);
            }
            let mut e: [u32; 16] = [0;16];
            let mut k: usize = 0;
            while k < 16
                invariant
                    k <= 16,
                    arr@.len() == 16,
                    *mj == Json::Arr(*arr),
                    spec_member(*node, "matrix"@) == Some(*mj),
                    forall|z: int|
                        0 <= z < k ==> spec_f32_of(#[trigger] arr@[z]) == Some(e@[z]),
                decreases 16 - k,
            {
                let w = take_f32_bits(&arr[k])?;
                e[k] = w;
                k = k + 1;
            }
            proof {
                assert(e =~= spec_matrix_entries(arr@));
            }
            Ok(Mat4Bits { e })
        },
        None => {
            let translation = match node.member("translation") {
                Some(v) => take_vec3(v)?,
                None => [F_ZERO, F_ZERO, F_ZERO],
            };
            let scale = match node.member("scale") {
                Some(v) => take_vec3(v)?,
                None => [F_ONE, F_ONE, F_ONE],
            };
            let rotation = match node.member("rotation") {
                Some(v) => take_quat(v)?,
                None => [F_ZERO, F_ZERO, F_ZERO, F_ONE],
            };
            Ok(mat_from_srt(&scale, &rotation, &translation))
        },
    }
}

/// What a built node says about its document entry: the declared name,
/// the declared local transform (kept twice, as the live transform and the
/// immutable baseline), and the declared mesh link.
pub open spec fn spec_node_ok(nj: Json, node: Node) -> bool {
    &&& (spec_member(nj, "name"@) matches Some(n) && n matches Json::Str(s) && node.name@ == s@)
    &&& spec_node_transform(nj) == Some(node.transform)
    &&& node.original_transform == node.transform
    &&& match spec_member(nj, "mesh"@) {
        Some(m) => node.mesh_index is Some && spec_usize_of(m) == Some(node.mesh_index.unwrap()),
        None => node.mesh_index is None,
    }
}

/// Builds the node list in depth-first preorder, remapping each child link
/// to the new numbering.
/// One node's document entry builds: a string name, a well-formed local
/// transform, and a numeric mesh link if one is declared.
pub open spec fn spec_node_entry_ok(nj: Json) -> bool {
    &&& spec_str_member(nj, "name"@) is Some
    &&& spec_node_transform(nj) is Some
    &&& match spec_member(nj, "mesh"@) {
        Some(m) => spec_usize_of(m) is Some,
        None => true,
    }
}

/// Builds the node list in depth-first preorder, remapping each child link
/// to the new numbering; succeeds exactly when every visited node's entry
/// builds.
fn build_nodes(
    nodes_json: &Vec<Json>,
    children_raw: &Vec<Vec<usize>>,
    order: &Vec<usize>,
    new_of_old: &Vec<usize>,
) -> (r: Result<Vec<Node>, LoadError>)
    requires
        children_raw@.len() == nodes_json@.len(),
        new_of_old@.len() == nodes_json@.len(),
        forall|k: int| 0 <= k < order@.len() ==> (#[trigger] order@[k]) < nodes_json@.len(),
        forall|i: int, k: int|
            0 <= i < children_raw@.len() && 0 <= k < children_raw@[i]@.len()
                ==> (#[trigger] children_raw@[i]@[k]) < nodes_json@.len(),
    ensures
        r is Ok <==> forall|k: int|
            0 <= k < order@.len() ==> spec_node_entry_ok(
                #[trigger] nodes_json@[order@[k] as int],
            ),
        r matches Ok(v) ==> {
            &&& v@.len() == order@.len()
            &&& forall|k: int|
                0 <= k < v@.len() ==> spec_node_ok(
                    nodes_json@[order@[k] as int],
                    #[trigger] v@[k],
                )
        },
{
    let n = order.len();
    let mut out: Vec<Node> = Vec::new();
    let mut k: usize = 0;
    while k < n
        invariant
            k <= n,
            n == order@.len(),
            out@.len() == k,
            forall|z: int|
                0 <= z < k ==> spec_node_ok(nodes_json@[order@[z] as int], #[trigger] out@[z]),
            forall|z: int|
                0 <= z < k ==> spec_node_entry_ok(#[trigger] nodes_json@[order@[z] as int]),
            children_raw@.len() == nodes_json@.len(),
            new_of_old@.len() == nodes_json@.len(),
            forall|z: int| 0 <= z < order@.len() ==> (#[trigger] order@[z]) < nodes_json@.len(),
            forall|i: int, z: int|
                0 <= i < children_raw@.len() && 0 <= z < children_raw@[i]@.len()
                    ==> (#[trigger] children_raw@[i]@[z]) < nodes_json@.len(),
        decreases n - k,
    {
        let old_index = order[k];
        let node_json = &nodes_json[old_index];
        let name_json = match node_json.member("name") {
            Some(v) => v,
            None => {
                proof {
                    assert(!spec_node_entry_ok(nodes_json@[old_index as int]));
                }
                return Err(LoadError::MissingOrWrongField);
            },
        };
        let name = match name_json.as_string() {
            Some(s) => clone_string(s),
            None => {
                proof {
                    assert(!spec_node_entry_ok(nodes_json@[old_index as int]));
                }
                return Err(LoadError::MissingOrWrongField);
            },
        };
        let mesh_index = match node_json.member("mesh") {
            Some(v) => match v.as_usize() {
                Some(m) => Some(m),
                None => {
                    proof {
                        assert(!spec_node_entry_ok(nodes_json@[old_index as int]));
                    }
                    return Err(LoadError::MissingOrWrongField);
                },
            },
            None => None,
        };
        let transform = match node_transform(node_json) {
            Ok(t) => t,
            Err(e) => {
                proof {
                    assert(!spec_node_entry_ok(nodes_json@[old_index as int]));
                }
                return Err(e);
            },
        };
        let raw = &children_raw[old_index];
        let mut child_node_indices: Vec<usize> = Vec::new();
        let m = raw.len();
        let mut z: usize = 0;
        while z < m
            invariant
                z <= m,
                old_index < children_raw@.len(),
                raw == &children_raw@[old_index as int],
                m == raw@.len(),
                new_of_old@.len() == nodes_json@.len(),
                children_raw@.len() == nodes_json@.len(),
                forall|i: int, y: int|
                    0 <= i < children_raw@.len() && 0 <= y < children_raw@[i]@.len()
                        ==> (#[trigger] children_raw@[i]@[y]) < nodes_json@.len(),
            decreases m - z,
        {
            child_node_indices.push(new_of_old[raw[z]]);
            z = z + 1;
        }
        out.push(
            Node {
                name,
                transform,
                original_transform: transform,
                mesh_index,
                child_node_indices,
            },
        );
        k = k + 1;
    }
    Ok(out)
}

/// Builds the scene list, each root link remapped to the new numbering.
/// One scene entry's root links: a `nodes` array of node indices in
/// range.
pub open spec fn spec_scene_ok(sj: Json, n_nodes: int) -> bool {
    match spec_member(sj, "nodes"@) {
        Some(rj) => match rj {
            Json::Arr(arr) => forall|k: int|
                0 <= k < arr@.len() ==> (spec_usize_of(#[trigger] arr@[k]) matches Some(ri) && (
                ri as int) < n_nodes),
            _ => false,
        },
        None => false,
    }
}

/// The document's scene list, where one is declared.
pub open spec fn spec_scenes_of(doc: Json) -> Vec<Json> {
    spec_member(doc, "scenes"@).unwrap()->Arr_0
}

/// The whole scene section resolves: a `scenes` array whose every entry
/// lists in-range root nodes.
pub open spec fn spec_scenes_ok(doc: Json, n_nodes: int) -> bool {
    &&& spec_member(doc, "scenes"@) is Some
    &&& spec_member(doc, "scenes"@).unwrap() is Arr
    &&& forall|i: int|
        0 <= i < spec_scenes_of(doc)@.len() ==> spec_scene_ok(
            #[trigger] spec_scenes_of(doc)@[i],
            n_nodes,
        )
}

proof fn lemma_scenes_entry_refutes(doc: Json, v: Vec<Json>, i: int, n_nodes: int)
    requires
        spec_member(doc, "scenes"@) == Some(Json::Arr(v)),
        0 <= i < v@.len(),
        !spec_scene_ok(v@[i], n_nodes),
    ensures
        !spec_scenes_ok(doc, n_nodes),
{
    if spec_scenes_ok(doc, n_nodes) {
        assert(spec_scenes_of(doc) == v);
        assert(spec_scene_ok(v@[i], n_nodes));
    }
}

/// Builds the scene list, each root link remapped to the new numbering;
/// succeeds exactly when the whole scene section resolves.
fn build_scenes(doc: &Json, new_of_old: &Vec<usize>) -> (r: Result<Vec<Scene>, LoadError>)
    ensures
        r is Ok <==> spec_scenes_ok(*doc, new_of_old@.len() as int),
        r matches Ok(v) ==> {
            &&& spec_member(*doc, "scenes"@) matches Some(sj) && sj matches Json::Arr(a)
                && v@.len() == a@.len()
        },
{
    let scenes_json = match require(doc, "scenes")?.as_array() {
        Some(v) => v,
        None => {
            return Err(LoadError::MissingOrWrongField);
        },
    };
    let n = scenes_json.len();
    let n_nodes = new_of_old.len();
    let mut out: Vec<Scene> = Vec::new();
    let mut i: usize = 0;
    while i < n
        invariant
            i <= n,
            n == scenes_json@.len(),
            n_nodes == new_of_old@.len(),
            out@.len() == i,
            spec_member(*doc, "scenes"@) == Some(Json::Arr(*scenes_json)),
            forall|z: int|
                0 <= z < i ==> spec_scene_ok(#[trigger] scenes_json@[z], n_nodes as int),
        decreases n - i,
    {
        let roots_json = match scenes_json[i].member("nodes") {
            Some(v) => v,
            None => {
                proof {
                    assert(!spec_scene_ok(scenes_json@[i as int], n_nodes as int));
                    lemma_scenes_entry_refutes(*doc, *scenes_json, i as int, n_nodes as int);
                }
                return Err(LoadError::MissingOrWrongField);
            },
        };
        let roots = match roots_json.as_array() {
            Some(v) => v,
            None => {
                proof {
                    assert(!spec_scene_ok(scenes_json@[i as int], n_nodes as int));
                    lemma_scenes_entry_refutes(*doc, *scenes_json, i as int, n_nodes as int);
                }
                return Err(LoadError::MissingOrWrongField);
            },
        };
        let m = roots.len();
        let mut node_indices: Vec<usize> = Vec::new();
        let mut k: usize = 0;
        while k < m
            invariant
                k <= m,
                i < n,
                m == roots@.len(),
                n == scenes_json@.len(),
                n_nodes == new_of_old@.len(),
                spec_member(*doc, "scenes"@) == Some(Json::Arr(*scenes_json)),
                spec_member(scenes_json@[i as int], "nodes"@) == Some(Json::Arr(*roots)),
                forall|z: int|
                    0 <= z < k ==> (spec_usize_of(#[trigger] roots@[z]) matches Some(ri) && (
                    ri as int) < n_nodes),
            decreases m - k,
        {
            let old_root = match roots[k].as_usize() {
                Some(v) => v,
                None => {
                    proof {
                        assert(!spec_scene_ok(scenes_json@[i as int], n_nodes as int));
                        lemma_scenes_entry_refutes(*doc, *scenes_json, i as int, n_nodes as int);
                    }
                    return Err(LoadError::MissingOrWrongField);
                },
            };
            if old_root >= n_nodes {
                proof {
                    assert(!spec_scene_ok(scenes_json@[i as int], n_nodes as int));
                    lemma_scenes_entry_refutes(*doc, *scenes_json, i as int, n_nodes as int);
                }
                return Err(LoadError::RangeOutOfBounds);
            }
            node_indices.push(new_of_old[old_root]);
            k = k + 1;
        }
        proof {
            assert(spec_scene_ok(scenes_json@[i as int], n_nodes as int));
        }
        out.push(Scene { node_indices });
        i = i + 1;
    }
    proof {
        assert(spec_scenes_of(*doc) == *scenes_json);
    }
    Ok(out)
}


/// The attribute location each standard attribute semantic maps to, per
/// the shader contract; any other semantic is unsupported.
pub open spec fn spec_attribute_location(name: Seq<char>) -> Option<u32> {
    if name == "POSITION"@ {
        Some(ATTR_LOC_POSITION)
    } else if name == "NORMAL"@ {
        Some(ATTR_LOC_NORMAL)
    } else if name == "TANGENT"@ {
        Some(ATTR_LOC_TANGENT)
    } else if name == "TEXCOORD_0"@ {
        Some(ATTR_LOC_TEXCOORD_0)
    } else if name == "TEXCOORD_1"@ {
        Some(ATTR_LOC_TEXCOORD_1)
    } else if name == "COLOR_0"@ {
        Some(ATTR_LOC_COLOR_0)
    } else {
        None
    }
}

fn attribute_location(name: &str) -> (r: Result<u32, LoadError>)
    ensures
        match r {
            Ok(l) => spec_attribute_location(name@) == Some(l),
            Err(_) => spec_attribute_location(name@) is None,
        },
{
    if str_eq(name, "POSITION") {
        Ok(ATTR_LOC_POSITION)
    } else if str_eq(name, "NORMAL") {
        Ok(ATTR_LOC_NORMAL)
    } else if str_eq(name, "TANGENT") {
        Ok(ATTR_LOC_TANGENT)
    } else if str_eq(name, "TEXCOORD_0") {
        Ok(ATTR_LOC_TEXCOORD_0)
    } else if str_eq(name, "TEXCOORD_1") {
        Ok(ATTR_LOC_TEXCOORD_1)
    } else if str_eq(name, "COLOR_0") {
        Ok(ATTR_LOC_COLOR_0)
    } else {
        Err(LoadError::MissingOrWrongField)
    }
}

/// Builds the meshes: one vertex array per primitive, the standard
/// attribute semantics mapped to their fixed locations, a primitive
/// without a vertex-color stream marked so drawing restores the all-white
/// default, and every primitive's index range copied into the permanent
/// index arena.
/// The byte size of one index element of a component type; zero marks an
/// unsupported type.
pub open spec fn spec_index_type_size(t: u32) -> int {
    if t == GL_UNSIGNED_BYTE {
        1
    } else if t == GL_UNSIGNED_SHORT {
        2
    } else if t == GL_UNSIGNED_INT {
        4
    } else {
        0
    }
}

/// True when one of the first `n` attribute semantics is the vertex-color
/// stream.
pub open spec fn spec_has_color0_upto(fields: Seq<(String, Json)>, n: int) -> bool {
    exists|k: int|
        0 <= k < n && spec_attribute_location(#[trigger] fields[k].0@) == Some(ATTR_LOC_COLOR_0)
}

/// True when one of the attribute semantics is the vertex-color stream.
pub open spec fn spec_has_color0(fields: Seq<(String, Json)>) -> bool {
    spec_has_color0_upto(fields, fields.len() as int)
}

/// What one built primitive says about its document entry: the declared
/// material link and topology mode (defaulting to triangles), a vertex
/// array named after the primitive's position, the white vertex-color
/// fallback exactly when the attributes lack a COLOR_0 stream, and an
/// index range of a supported element type drawn through the consolidated
/// index buffer with counter-clockwise winding to start.
pub open spec fn spec_prim_from_doc(
    pj: Json,
    p: Primitive,
    prim_index: int,
    index_buffer_id: u32,
) -> bool {
    &&& spec_member(pj, "material"@) matches Some(m) && spec_usize_of(m) == Some(p.material_index)
    &&& match spec_member(pj, "mode"@) {
        Some(mj) => spec_usize_of(mj) == Some(p.draw_call.mode as usize),
        None => p.draw_call.mode == GL_TRIANGLES,
    }
    &&& (spec_member(pj, "attributes"@) matches Some(a) && a matches Json::Obj(fields)
        && p.draw_call.disabled_all_ones_vertex_attribute == (if spec_has_color0(fields@) {
        None::<u32>
    } else {
        Some(ATTR_LOC_COLOR_0)
    }))
    &&& spec_prim_fixed(p, prim_index, index_buffer_id)
}

/// The handles every loaded primitive is fixed to: the vertex array named
/// after its position, the one consolidated index buffer, initial
/// counter-clockwise winding, and a supported index element type.
pub open spec fn spec_prim_fixed(p: Primitive, prim_index: int, index_buffer_id: u32) -> bool {
    &&& p.draw_call.vao == prim_index + 1
    &&& p.draw_call.index_buffer == index_buffer_id
    &&& p.draw_call.front_face == GL_CCW
    &&& spec_index_type_size(p.draw_call.index_type) >= 1
}

/// The index ranges the primitives draw (`index_count` elements of their
/// element type each) are pairwise disjoint within the consolidated index
/// buffer, in primitive order.
pub open spec fn spec_prim_ranges_disjoint(prims: Seq<Primitive>) -> bool {
    forall|i: int, j: int|
        0 <= i < j < prims.len() ==> (#[trigger] prims[i]).draw_call.index_byte_offset + prims[
            i
        ].draw_call.index_count * spec_index_type_size(prims[i].draw_call.index_type)
            <= (#[trigger] prims[j]).draw_call.index_byte_offset
}

/// The primitive entries one mesh's document entry declares.
pub open spec fn spec_mesh_prims(mj: Json) -> Seq<Json> {
    match spec_member(mj, "primitives"@) {
        Some(pj) => match pj {
            Json::Arr(v) => v@,
            _ => Seq::empty(),
        },
        _ => Seq::empty(),
    }
}

/// The document's primitive entries across its first `n` meshes,
/// flattened in mesh order — the order the loader numbers primitives in.
pub open spec fn spec_flat_prims(meshes_json: Seq<Json>, n: int) -> Seq<Json>
    decreases n,
{
    if n <= 0 {
        Seq::empty()
    } else {
        spec_flat_prims(meshes_json, n - 1) + spec_mesh_prims(meshes_json[n - 1])
    }
}

/// The document-free shape every loaded primitive list has: all draw
/// calls share the one consolidated index buffer, each primitive owns the
/// vertex array named after its position (so all vertex arrays are
/// distinct), winding starts counter-clockwise, index element types are
/// supported, and the drawn index ranges are pairwise disjoint.
pub open spec fn spec_primitives_consolidated(prims: Seq<Primitive>) -> bool {
    &&& forall|i: int, j: int|
        0 <= i < prims.len() && 0 <= j < prims.len() ==> (
        #[trigger] prims[i]).draw_call.index_buffer == (#[trigger] prims[j]).draw_call.index_buffer
    &&& forall|k: int| 0 <= k < prims.len() ==> (#[trigger] prims[k]).draw_call.vao == k + 1
    &&& forall|k: int|
        0 <= k < prims.len() ==> (#[trigger] prims[k]).draw_call.front_face == GL_CCW
            && spec_index_type_size(prims[k].draw_call.index_type) >= 1
    &&& spec_prim_ranges_disjoint(prims)
}

/// The document-free animation facts every loaded clip has: channels
/// shaped, non-empty and strictly increasing in time, one channel list per
/// node, and the clip's start and length folded from its channels' first
/// and last timestamps.
pub open spec fn spec_clips_ok(anims: Seq<Animation>, n_nodes: nat) -> bool {
    &&& forall|a: int| 0 <= a < anims.len() ==> spec_clip_channels_ok(#[trigger] anims[a], n_nodes)
    &&& forall|a: int|
        0 <= a < anims.len() ==> (#[trigger] anims[a]).start == spec_fold_start(
            anims[a].nodes_animations@,
            0,
            F_INF,
        ) && anims[a].length == sub_bits(
            spec_fold_end(anims[a].nodes_animations@, 0, F_NEG_INF),
            anims[a].start,
        )
}

/// Builds one primitive: resolves its attributes to pointers, marks the
/// missing-color fallback, and copies its index range into the index
/// arena. On failure nothing is staged.
fn build_primitive(
    pj: &Json,
    prim_index: usize,
    accessors_json: &Vec<Json>,
    views_json: &Vec<Json>,
    buffer_datas: &Vec<Vec<u8>>,
    index_arena: &mut BumpAllocatedBuffer,
    index_buffer_id: u32,
) -> (r: Result<(Primitive, VaoInit), LoadError>)
    requires
        old(index_arena).wf(),
    ensures
        final(index_arena).wf(),
        r matches Ok(o) ==> {
            &&& spec_prim_from_doc(*pj, o.0, prim_index as int, index_buffer_id)
            &&& o.1.vao == o.0.draw_call.vao
            &&& o.0.draw_call.index_byte_offset == old(index_arena).spec_offset()
            &&& o.0.draw_call.index_byte_offset + o.0.draw_call.index_count
                * spec_index_type_size(o.0.draw_call.index_type) <= final(index_arena).spec_offset()
            &&& old(index_arena).spec_offset() <= final(index_arena).spec_offset()
        },
        r is Err ==> final(index_arena).spec_offset() == old(index_arena).spec_offset()
            && final(index_arena).contents() == old(index_arena).contents()
            && final(index_arena).spec_size() == old(index_arena).spec_size(),
{
    let n_buffers = buffer_datas.len();
    let material_index = take_usize(require(pj, "material")?)?;
    let mode = match pj.member("mode") {
        Some(v) => take_usize(v)?,
        None => 4,
    };
    let vao_id = to_u32(add_usize(prim_index, 1)?)?;
    let mut disabled_all_ones_vertex_attribute: Option<u32> = Some(ATTR_LOC_COLOR_0);
    let attrs_json = require(pj, "attributes")?;
    let attrs = match attrs_json.as_object() {
        Some(v) => v,
        None => {
            return Err(LoadError::MissingOrWrongField);
        },
    };
    let na = attrs.len();
    let mut pointers: Vec<AttribPointer> = Vec::new();
    let mut a_i: usize = 0;
    while a_i < na
        invariant
            a_i <= na,
            na == attrs@.len(),
            n_buffers == buffer_datas@.len(),
            index_arena.spec_offset() == old(index_arena).spec_offset(),
            index_arena.contents() == old(index_arena).contents(),
            index_arena.spec_size() == old(index_arena).spec_size(),
            index_arena.wf(),
            disabled_all_ones_vertex_attribute == (if spec_has_color0_upto(attrs@, a_i as int) {
                None::<u32>
            } else {
                Some(ATTR_LOC_COLOR_0)
            }),
        decreases na - a_i,
    {
        let location = attribute_location(attrs[a_i].0.as_str())?;
        let acc_idx = take_usize(&attrs[a_i].1)?;
        let acc = unpack_accessor(accessors_json, views_json, acc_idx)?;
        if acc.buffer >= n_buffers {
            return Err(LoadError::RangeOutOfBounds);
        }
        pointers.push(
            AttribPointer {
                location,
                size: acc.size,
                component_type: acc.component_type,
                normalized: acc.normalized,
                buffer: to_u32(acc.buffer + 1)?,
                byte_offset: acc.byte_offset,
            },
        );
        if location == ATTR_LOC_COLOR_0 {
            disabled_all_ones_vertex_attribute = None;
            proof {
                assert(spec_has_color0_upto(attrs@, a_i + 1)) by {
                    assert(spec_attribute_location(attrs@[a_i as int].0@) == Some(
                        ATTR_LOC_COLOR_0,
                    ));
                }
            }
        } else {
            proof {
                assert(spec_has_color0_upto(attrs@, a_i + 1) == spec_has_color0_upto(
                    attrs@,
                    a_i as int,
                )) by {
                    if spec_has_color0_upto(attrs@, a_i + 1) {
                        let w = choose|k: int|
                            0 <= k < a_i + 1 && spec_attribute_location(
                                #[trigger] attrs@[k].0@,
                            ) == Some(ATTR_LOC_COLOR_0);
                        assert(w < a_i);
                    }
                }
            }
        }
        a_i = a_i + 1;
    }
    let indices_idx = take_usize(require(pj, "indices")?)?;
    let idx = unpack_accessor(accessors_json, views_json, indices_idx)?;
    let type_size: usize = if idx.component_type == GL_UNSIGNED_BYTE as usize {
        1
    } else if idx.component_type == GL_UNSIGNED_SHORT as usize {
        2
    } else if idx.component_type == GL_UNSIGNED_INT as usize {
        4
    } else {
        return Err(LoadError::BadIndexType);
    };
    let index_byte_length = mul_usize(mul_usize(idx.count, idx.size)?, type_size)?;
    if idx.buffer >= n_buffers {
        return Err(LoadError::RangeOutOfBounds);
    }
    let index_bytes = slice_bytes(&buffer_datas[idx.buffer], idx.byte_offset, index_byte_length)?;
    let mode_value = to_u32(mode)?;
    let index_type_value = to_u32(idx.component_type)?;
    let (_, index_byte_offset) = index_arena.allocate_buffer(index_bytes.as_slice());
    let draw_call = DrawCall {
        vao: vao_id,
        mode: mode_value,
        index_buffer: index_buffer_id,
        index_type: index_type_value,
        index_byte_offset,
        index_count: idx.count,
        disabled_all_ones_vertex_attribute,
        front_face: GL_CCW,
    };
    proof {
        assert((idx.count as int) * (type_size as int) <= (idx.count as int) * (idx.size as int)
            * (type_size as int)) by (nonlinear_arith)
            requires
                idx.size >= 1,
                idx.count >= 0,
                type_size >= 0,
        ;
    }
    Ok((Primitive { draw_call, material_index }, VaoInit { vao: vao_id, attributes: pointers }))
}

/// Builds the meshes: one vertex array per primitive (named after the
/// primitive's position, so all are distinct), the standard attribute
/// semantics mapped to their fixed locations, a primitive without a
/// vertex-color stream marked so drawing restores the all-white default,
/// and every primitive's index range copied into the permanent index
/// arena, at pairwise disjoint offsets.
fn build_meshes(
    meshes_json: &Vec<Json>,
    accessors_json: &Vec<Json>,
    views_json: &Vec<Json>,
    buffer_datas: &Vec<Vec<u8>>,
    index_arena: &mut BumpAllocatedBuffer,
    index_buffer_id: u32,
) -> (r: Result<(Vec<Mesh>, Vec<Primitive>, Vec<VaoInit>), LoadError>)
    requires
        old(index_arena).wf(),
    ensures
        final(index_arena).wf(),
        r matches Ok(o) ==> {
            &&& o.0@.len() == meshes_json@.len()
            &&& o.1@.len() == o.2@.len()
            &&& forall|k: int|
                0 <= k < o.1@.len() ==> spec_prim_fixed(#[trigger] o.1@[k], k, index_buffer_id)
            &&& spec_prim_ranges_disjoint(o.1@)
            &&& o.1@.len() == spec_flat_prims(meshes_json@, meshes_json@.len() as int).len()
            &&& forall|k: int|
                0 <= k < o.1@.len() ==> spec_prim_from_doc(
                    spec_flat_prims(meshes_json@, meshes_json@.len() as int)[k],
                    #[trigger] o.1@[k],
                    k,
                    index_buffer_id,
                )
        },
{
    let mut meshes: Vec<Mesh> = Vec::new();
    let mut prims: Vec<Primitive> = Vec::new();
    let mut vaos: Vec<VaoInit> = Vec::new();
    let n = meshes_json.len();
    let mut i: usize = 0;
    while i < n
        invariant
            i <= n,
            n == meshes_json@.len(),
            meshes@.len() == i,
            prims@.len() == vaos@.len(),
            index_arena.wf(),
            forall|z: int|
                0 <= z < prims@.len() ==> spec_prim_fixed(#[trigger] prims@[z], z, index_buffer_id),
            spec_prim_ranges_disjoint(prims@),
            forall|z: int|
                0 <= z < prims@.len() ==> (#[trigger] prims@[z]).draw_call.index_byte_offset
                    + prims@[z].draw_call.index_count * spec_index_type_size(
                    prims@[z].draw_call.index_type,
                ) <= index_arena.spec_offset(),
            prims@.len() == spec_flat_prims(meshes_json@, i as int).len(),
            forall|z: int|
                0 <= z < prims@.len() ==> spec_prim_from_doc(
                    spec_flat_prims(meshes_json@, i as int)[z],
                    #[trigger] prims@[z],
                    z,
                    index_buffer_id,
                ),
        decreases n - i,
    {
        let ghost flat_i = spec_flat_prims(meshes_json@, i as int);
        let prims_json = match require(&meshes_json[i], "primitives")?.as_array() {
            Some(v) => v,
            None => {
                return Err(LoadError::MissingOrWrongField);
            },
        };
        let m = prims_json.len();
        let mut primitive_indices: Vec<usize> = Vec::new();
        let mut k: usize = 0;
        while k < m
            invariant
                k <= m,
                i < n,
                n == meshes_json@.len(),
                m == prims_json@.len(),
                prims@.len() == vaos@.len(),
                index_arena.wf(),
                forall|z: int|
                    0 <= z < prims@.len() ==> spec_prim_fixed(
                        #[trigger] prims@[z],
                        z,
                        index_buffer_id,
                    ),
                spec_prim_ranges_disjoint(prims@),
                forall|z: int|
                    0 <= z < prims@.len() ==> (#[trigger] prims@[z]).draw_call.index_byte_offset
                        + prims@[z].draw_call.index_count * spec_index_type_size(
                        prims@[z].draw_call.index_type,
                    ) <= index_arena.spec_offset(),
                flat_i == spec_flat_prims(meshes_json@, i as int),
                spec_member(meshes_json@[i as int], "primitives"@) == Some(
                    Json::Arr(*prims_json),
                ),
                prims@.len() == flat_i.len() + k,
                forall|z: int|
                    0 <= z < prims@.len() ==> spec_prim_from_doc(
                        (flat_i + prims_json@)[z],
                        #[trigger] prims@[z],
                        z,
                        index_buffer_id,
                    ),
            decreases m - k,
        {
            let (prim, vao_init) = build_primitive(
                &prims_json[k],
                prims.len(),
                accessors_json,
                views_json,
                buffer_datas,
                index_arena,
                index_buffer_id,
            )?;
            primitive_indices.push(prims.len());
            prims.push(prim);
            vaos.push(vao_init);
            k = k + 1;
        }
        proof {
            assert(spec_mesh_prims(meshes_json@[i as int]) == prims_json@);
            assert(spec_flat_prims(meshes_json@, i + 1) == flat_i + prims_json@);
        }
        meshes.push(Mesh { primitive_indices });
        i = i + 1;
    }
    Ok((meshes, prims, vaos))
}

/// The image a material channel references, if the channel is present:
/// reads `channel.index` as a texture, then that texture's `source`.
fn texture_source(
    textures_json: &Vec<Json>,
    channel: Option<&Json>,
) -> (r: Result<Option<usize>, LoadError>) {
    match channel {
        None => Ok(None),
        Some(info) => {
            let t = take_usize(require(info, "index")?)?;
            if t >= textures_json.len() {
                return Err(LoadError::RangeOutOfBounds);
            }
            let source = take_usize(require(&textures_json[t], "source")?)?;
            Ok(Some(source))
        },
    }
}

/// Marks each image as color data (gamma-encoded) or linear data from the
/// material channels that reference it; an image referenced both ways is a
/// fatal inconsistency. Unreferenced images stay unmarked and are not
/// decoded.
fn mark_srgb(
    materials_json: &Vec<Json>,
    textures_json: &Vec<Json>,
    n_images: usize,
) -> (r: Result<Vec<u8>, LoadError>)
    ensures
        r matches Ok(v) ==> v@.len() == n_images,
{
    let mut marks: Vec<u8> = Vec::new();
    let mut z: usize = 0;
    while z < n_images
        invariant
            z <= n_images,
            marks@.len() == z,
        decreases n_images - z,
    {
        marks.push(0);
        z = z + 1;
    }
    let n = materials_json.len();
    let mut i: usize = 0;
    while i < n
        invariant
            i <= n,
            n == materials_json@.len(),
            marks@.len() == n_images,
        decreases n - i,
    {
        let mj = &materials_json[i];
        let pbr = mj.member("pbrMetallicRoughness");
        let channels: [(Option<usize>, u8); 5] = [
            (
                texture_source(
                    textures_json,
                    match pbr {
                        Some(p) => p.member("baseColorTexture"),
                        None => None,
                    },
                )?,
                1,
            ),
            (
                texture_source(
                    textures_json,
                    match pbr {
                        Some(p) => p.member("metallicRoughnessTexture"),
                        None => None,
                    },
                )?,
                2,
            ),
            (texture_source(textures_json, mj.member("normalTexture"))?, 2),
            (texture_source(textures_json, mj.member("occlusionTexture"))?, 2),
            (texture_source(textures_json, mj.member("emissiveTexture"))?, 1),
        ];
        let mut c: usize = 0;
        while c < 5
            invariant
                c <= 5,
                marks@.len() == n_images,
            decreases 5 - c,
        {
            match channels[c].0 {
                Some(src) => {
                    if src >= n_images {
                        return Err(LoadError::RangeOutOfBounds);
                    }
                    let expected = channels[c].1;
                    let cur = marks[src];
                    if cur != 0 && cur != expected {
                        return Err(LoadError::InconsistentColorSpace);
                    }
                    marks.set(src, expected);
                },
                None => {},
            }
            c = c + 1;
        }
        i = i + 1;
    }
    Ok(marks)
}

/// Decodes each referenced image and lays out its full mip chain, each
/// level half the previous one, filtered per the image's color space.
/// How many of the first `n` images are marked as referenced (and so get
/// decoded and planned).
pub open spec fn spec_marked_count(marks: Seq<u8>, n: int) -> int
    decreases n,
{
    if n <= 0 {
        0
    } else {
        spec_marked_count(marks, n - 1) + if marks[n - 1] != 0 {
            1int
        } else {
            0int
        }
    }
}

/// Halving a mip dimension, held at one.
pub open spec fn spec_half_dim(w: int) -> int {
    if w / 2 == 0 {
        1
    } else {
        w / 2
    }
}

/// The mip chain every planned texture carries: at least one level, as
/// many levels as the top level's smaller dimension can be halved, and
/// each level's dimensions the previous level's halved (held at one).
pub open spec fn spec_texture_levels_ok(t: TextureInit) -> bool {
    &&& t.levels@.len() >= 1
    &&& t.levels@.len() == spec_mip_levels(
        if t.levels@[0].width < t.levels@[0].height {
            t.levels@[0].width as int
        } else {
            t.levels@[0].height as int
        },
    )
    &&& forall|l: int|
        0 <= l && l + 1 < t.levels@.len() ==> (#[trigger] t.levels@[l + 1]).width as int
            == spec_half_dim(t.levels@[l].width as int) && t.levels@[l + 1].height as int
            == spec_half_dim(t.levels@[l].height as int)
}

fn build_textures(
    images_json: &Vec<Json>,
    marks: &Vec<u8>,
    buffer_datas: &Vec<Vec<u8>>,
    resources: &Vec<(String, Vec<u8>)>,
    n_images: usize,
) -> (r: Result<Vec<TextureInit>, LoadError>)
    requires
        marks@.len() == n_images,
        images_json@.len() == n_images,
    ensures
        r matches Ok(v) ==> {
            &&& v@.len() == spec_marked_count(marks@, n_images as int) + 3
            &&& v@[v@.len() - 3].texture == n_images + 1
            &&& v@[v@.len() - 2].texture == n_images + 2
            &&& v@[v@.len() - 1].texture == n_images + 3
            &&& v@[v@.len() - 3].levels@.len() == 1
            &&& v@[v@.len() - 2].levels@.len() == 1
            &&& v@[v@.len() - 1].levels@.len() == 1
            &&& forall|t: int| 0 <= t < v@.len() ==> spec_texture_levels_ok(#[trigger] v@[t])
        },
{
    let mut out: Vec<TextureInit> = Vec::new();
    let mut i: usize = 0;
    while i < n_images
        invariant
            i <= n_images,
            marks@.len() == n_images,
            images_json@.len() == n_images,
            out@.len() == spec_marked_count(marks@, i as int),
            forall|t: int| 0 <= t < out@.len() ==> spec_texture_levels_ok(#[trigger] out@[t]),
        decreases n_images - i,
    {
        if marks[i] == 0 {
            i = i + 1;
            continue ;
        }
        let srgb = marks[i] == 1;
        let ij = &images_json[i];
        let data = match ij.member("uri") {
            Some(u) => {
                let uri = match u.as_string() {
                    Some(s) => s,
                    None => {
                        return Err(LoadError::MissingOrWrongField);
                    },
                };
                match find_resource(resources, uri.as_str()) {
                    Some(k) => clone_bytes(&resources[k].1),
                    None => {
                        return Err(LoadError::BufferNotFound);
                    },
                }
            },
            None => {
                let view = require(ij, "bufferView")?;
                let buffer = take_usize(require(view, "buffer")?)?;
                let offset = match view.member("byteOffset") {
                    Some(v) => take_usize(v)?,
                    None => 0,
                };
                let length = take_usize(require(view, "byteLength")?)?;
                if view.member("byteStride").is_some() {
                    return Err(LoadError::StridedBufferView);
                }
                if buffer >= buffer_datas.len() {
                    return Err(LoadError::RangeOutOfBounds);
                }
                slice_bytes(&buffer_datas[buffer], offset, length)?
            },
        };
        let mut img = match decode_image(&data) {
            Some(im) => im,
            None => {
                return Err(LoadError::BadImage);
            },
        };
        let (w0, h0) = image_size(&img);
        if w0 == 0 || h0 == 0 {
            return Err(LoadError::BadImage);
        }
        let levels = mip_level_count(w0, h0);
        let mut mips: Vec<MipLevel> = Vec::new();
        let mut level: usize = 0;
        while level < levels
            invariant
                level <= levels,
                levels <= 64,
                mips@.len() == level,
                level >= 1 ==> mips@[0].width == w0 && mips@[0].height == h0,
                level == 0 ==> image_dims(img) == (w0, h0),
                1 <= level && level < levels ==> image_dims(img).0 as int == spec_half_dim(
                    mips@[level - 1].width as int,
                ) && image_dims(img).1 as int == spec_half_dim(mips@[level - 1].height as int),
                forall|l: int|
                    0 <= l && l + 1 < mips@.len() ==> (#[trigger] mips@[l + 1]).width as int
                        == spec_half_dim(mips@[l].width as int) && mips@[l + 1].height as int
                        == spec_half_dim(mips@[l].height as int),
            decreases levels - level,
        {
            let fmt = image_format(&img);
            if fmt > 3 {
                return Err(LoadError::BadImage);
            }
            let (format, component) = if fmt == 0 {
                (GL_RGB, GL_UNSIGNED_BYTE)
            } else if fmt == 1 {
                (GL_RGBA, GL_UNSIGNED_BYTE)
            } else if fmt == 2 {
                (GL_RGB, GL_UNSIGNED_SHORT)
            } else {
                (GL_RGBA, GL_UNSIGNED_SHORT)
            };
            let internal_format = if srgb && format == GL_RGBA {
                GL_SRGB8_ALPHA8
            } else if srgb {
                GL_SRGB8
            } else {
                format
            };
            let (w, h) = image_size(&img);
            mips.push(
                MipLevel {
                    width: w,
                    height: h,
                    format,
                    component,
                    internal_format,
                    bytes: image_bytes(&img),
                },
            );
            if level + 1 < levels {
                let nw = if w / 2 == 0 {
                    1
                } else {
                    w / 2
                };
                let nh = if h / 2 == 0 {
                    1
                } else {
                    h / 2
                };
                img = resize_image(&img, to_u32(nw)?, to_u32(nh)?, srgb);
            }
            level = level + 1;
        }
        out.push(TextureInit { texture: to_u32(i + 1)?, levels: mips });
        i = i + 1;
    }
    // The three fallback textures: black, flat normal, white, in rising
    // handle order past the images.
    let mut black: Vec<u8> = Vec::new();
    black.push(0);
    black.push(0);
    black.push(0);
    let mut normal: Vec<u8> = Vec::new();
    normal.push(0x7F);
    normal.push(0x7F);
    normal.push(0xFF);
    let mut white: Vec<u8> = Vec::new();
    white.push(0xFF);
    white.push(0xFF);
    white.push(0xFF);
    let black_init = TextureInit {
        texture: to_u32(add_usize(n_images, 1)?)?,
        levels: vec![
            MipLevel {
                width: 1,
                height: 1,
                format: GL_RGB,
                component: GL_UNSIGNED_BYTE,
                internal_format: GL_RGB,
                bytes: black,
            },
        ],
    };
    proof {
        assert(spec_texture_levels_ok(black_init));
    }
    out.push(black_init);
    let normal_init = TextureInit {
        texture: to_u32(add_usize(n_images, 2)?)?,
        levels: vec![
            MipLevel {
                width: 1,
                height: 1,
                format: GL_RGB,
                component: GL_UNSIGNED_BYTE,
                internal_format: GL_RGB,
                bytes: normal,
            },
        ],
    };
    proof {
        assert(spec_texture_levels_ok(normal_init));
    }
    out.push(normal_init);
    let white_init = TextureInit {
        texture: to_u32(add_usize(n_images, 3)?)?,
        levels: vec![
            MipLevel {
                width: 1,
                height: 1,
                format: GL_RGB,
                component: GL_UNSIGNED_BYTE,
                internal_format: GL_RGB,
                bytes: white,
            },
        ],
    };
    proof {
        assert(spec_texture_levels_ok(white_init));
    }
    out.push(white_init);
    Ok(out)
}

/// Plans the sampler objects: one per declared sampler, with linear
/// filtering and repeat wrapping as defaults, and one default sampler past
/// them.
fn build_samplers(doc: &Json) -> (r: Result<Vec<SamplerInit>, LoadError>)
    ensures
        r matches Ok(v) ==> v@.len() >= 1,
{
    let mut out: Vec<SamplerInit> = Vec::new();
    let mut n: usize = 0;
    match doc.member("samplers") {
        Some(sj) => {
            let arr = match sj.as_array() {
                Some(a) => a,
                None => {
                    return Err(LoadError::MissingOrWrongField);
                },
            };
            n = arr.len();
            let mut i: usize = 0;
            while i < n
                invariant
                    i <= n,
                    n == arr@.len(),
                decreases n - i,
            {
                let s = &arr[i];
                let mag_filter = match s.member("magFilter") {
                    Some(v) => take_usize(v)?,
                    None => GL_LINEAR as usize,
                };
                let min_filter = match s.member("minFilter") {
                    Some(v) => take_usize(v)?,
                    None => GL_LINEAR_MIPMAP_LINEAR as usize,
                };
                let wrap_s = match s.member("wrapS") {
                    Some(v) => take_usize(v)?,
                    None => GL_REPEAT as usize,
                };
                let wrap_t = match s.member("wrapT") {
                    Some(v) => take_usize(v)?,
                    None => GL_REPEAT as usize,
                };
                out.push(
                    SamplerInit {
                        sampler: to_u32(i + 1)?,
                        mag_filter,
                        min_filter,
                        wrap_s,
                        wrap_t,
                    },
                );
                i = i + 1;
            }
        },
        None => {},
    }
    out.push(
        SamplerInit {
            sampler: to_u32(add_usize(n, 1)?)?,
            mag_filter: GL_LINEAR as usize,
            min_filter: GL_LINEAR_MIPMAP_LINEAR as usize,
            wrap_s: GL_REPEAT as usize,
            wrap_t: GL_REPEAT as usize,
        },
    );
    Ok(out)
}


/// Whether a node's document entry references a punctual light.
pub open spec fn spec_node_has_light(nj: Json) -> bool {
    match spec_member(nj, "extensions"@) {
        Some(e) => spec_member(e, "KHR_lights_punctual"@) is Some,
        None => false,
    }
}

/// How many of the first `n` nodes reference a punctual light.
pub open spec fn spec_light_refs(nodes_json: Seq<Json>, n: int) -> int
    decreases n,
{
    if n <= 0 {
        0
    } else {
        spec_light_refs(nodes_json, n - 1) + if spec_node_has_light(nodes_json[n - 1]) {
            1int
        } else {
            0int
        }
    }
}

/// The document's punctual light list, where one is declared.
pub open spec fn spec_doc_lights(doc: Json) -> Option<Json> {
    match spec_member(doc, "extensions"@) {
        Some(e) => match spec_member(e, "KHR_lights_punctual"@) {
            Some(k) => spec_member(k, "lights"@),
            None => None,
        },
        None => None,
    }
}

/// An optional single-precision member: absent is fine, present must be a
/// number.
pub open spec fn spec_opt_f32_member(j: Json, key: Seq<char>) -> bool {
    match spec_member(j, key) {
        Some(v) => spec_f32_of(v) is Some,
        None => true,
    }
}

/// One light-referencing node resolves: the document declares a light
/// array, the node's light link lands in it, the light's members read
/// (color a three-vector, intensity and cone angles numbers, the type one
/// of the three punctual kinds), and the node's renumbered index is in
/// range.
pub open spec fn spec_light_entry_ok(
    nodes_json: Seq<Json>,
    i: int,
    doc: Json,
    new_of_old: Seq<usize>,
    n_nodes: int,
) -> bool {
    let khr = spec_member(
        spec_member(nodes_json[i], "extensions"@).unwrap(),
        "KHR_lights_punctual"@,
    ).unwrap();
    &&& spec_doc_lights(doc) is Some
    &&& spec_doc_lights(doc).unwrap() is Arr
    &&& spec_usize_member(khr, "light"@) is Some
    &&& (spec_usize_member(khr, "light"@).unwrap() as int) < spec_doc_lights(
        doc,
    ).unwrap()->Arr_0@.len()
    &&& ({
        let light = spec_doc_lights(doc).unwrap()->Arr_0@[spec_usize_member(
            khr,
            "light"@,
        ).unwrap() as int];
        &&& match spec_member(light, "color"@) {
            Some(v) => spec_take_vec3(v) is Some,
            None => true,
        }
        &&& spec_opt_f32_member(light, "intensity"@)
        &&& (spec_str_member(light, "type"@) matches Some(t) && (t == "directional"@ || t
            == "point"@ || t == "spot"@))
        &&& spec_opt_f32_member(light, "innerConeAngle"@)
        &&& spec_opt_f32_member(light, "outerConeAngle"@)
    })
    &&& (new_of_old[i] as int) < n_nodes
}

proof fn lemma_light_refs_monotone(nodes_json: Seq<Json>, a: int, b: int)
    requires
        0 <= a <= b,
    ensures
        spec_light_refs(nodes_json, a) <= spec_light_refs(nodes_json, b),
    decreases b - a,
{
    if a < b {
        lemma_light_refs_monotone(nodes_json, a, b - 1);
    }
}

/// Resolves the punctual lights referenced by nodes into the fixed light
/// list: one light per referencing node, with color and kind tag,
/// cone-angle scale and offset, and the position and direction carried to
/// the node's space by its transform. More than [`MAX_LIGHTS`] referenced
/// lights is fatal at load time.
fn build_lights(
    nodes_json: &Vec<Json>,
    doc: &Json,
    nodes: &Vec<Node>,
    new_of_old: &Vec<usize>,
) -> (r: Result<Vec<Light>, LoadError>)
    requires
        new_of_old@.len() == nodes_json@.len(),
    ensures
        r is Ok <==> spec_light_refs(nodes_json@, nodes_json@.len() as int) <= MAX_LIGHTS
            && (forall|i: int|
            0 <= i < nodes_json@.len() && spec_node_has_light(#[trigger] nodes_json@[i])
                ==> spec_light_entry_ok(nodes_json@, i, *doc, new_of_old@, nodes@.len() as int)),
        r matches Ok(v) ==> v@.len() == spec_light_refs(
            nodes_json@,
            nodes_json@.len() as int,
        ) && v@.len() <= MAX_LIGHTS,
        spec_light_refs(nodes_json@, nodes_json@.len() as int) > MAX_LIGHTS ==> r is Err,
{
    let mut lights: Vec<Light> = Vec::new();
    let n = nodes_json.len();
    let n_nodes = nodes.len();
    let mut i: usize = 0;
    while i < n
        invariant
            i <= n,
            n == nodes_json@.len(),
            n_nodes == nodes@.len(),
            new_of_old@.len() == n,
            lights@.len() <= MAX_LIGHTS,
            lights@.len() == spec_light_refs(nodes_json@, i as int),
            forall|z: int|
                0 <= z < i && spec_node_has_light(#[trigger] nodes_json@[z])
                    ==> spec_light_entry_ok(nodes_json@, z, *doc, new_of_old@, n_nodes as int),
        decreases n - i,
    {
        let ext = match nodes_json[i].member("extensions") {
            Some(e) => e.member("KHR_lights_punctual"),
            None => None,
        };
        match ext {
            None => {},
            Some(khr) => {
                if lights.len() >= MAX_LIGHTS {
                    proof {
                        assert(spec_light_refs(nodes_json@, i + 1) > MAX_LIGHTS);
                        lemma_light_refs_monotone(nodes_json@, i + 1, n as int);
                    }
                    return Err(LoadError::TooManyLights);
                }
                let lights_json = match doc.member("extensions") {
                    Some(e) => match e.member("KHR_lights_punctual") {
                        Some(k) => match k.member("lights") {
                            Some(l) => match l.as_array() {
                                Some(a) => a,
                                None => {
                                    return Err(LoadError::MissingOrWrongField);
                                },
                            },
                            None => {
                                return Err(LoadError::MissingOrWrongField);
                            },
                        },
                        None => {
                            return Err(LoadError::MissingOrWrongField);
                        },
                    },
                    None => {
                        return Err(LoadError::MissingOrWrongField);
                    },
                };
                let light_index = take_usize(require(khr, "light")?)?;
                if light_index >= lights_json.len() {
                    return Err(LoadError::RangeOutOfBounds);
                }
                let lj = &lights_json[light_index];
                let color = match lj.member("color") {
                    Some(v) => take_vec3(v)?,
                    None => [F_ONE, F_ONE, F_ONE],
                };
                let intensity = match lj.member("intensity") {
                    Some(v) => take_f32_bits(v)?,
                    None => F_ONE,
                };
                let kind_name = match require(lj, "type")?.as_string() {
                    Some(s) => s,
                    None => {
                        return Err(LoadError::MissingOrWrongField);
                    },
                };
                let kind: u32 = if str_eq(kind_name.as_str(), "directional") {
                    F_ONE
                } else if str_eq(kind_name.as_str(), "point") {
                    F_TWO
                } else if str_eq(kind_name.as_str(), "spot") {
                    F_THREE
                } else {
                    proof {
                        reveal_strlit("directional");
                        reveal_strlit("point");
                        reveal_strlit("spot");
                    }
                    return Err(LoadError::BadLightType);
                };
                let inner_angle = match lj.member("innerConeAngle") {
                    Some(v) => take_f32_bits(v)?,
                    None => F_ZERO,
                };
                let outer_angle = match lj.member("outerConeAngle") {
                    Some(v) => take_f32_bits(v)?,
                    None => F_QUARTER_PI,
                };
                let cos_inner = f_cos(inner_angle);
                let cos_outer = f_cos(outer_angle);
                let light_angle_scale = f_div(F_ONE, f_max(F_MILLI, f_sub(cos_inner, cos_outer)));
                let light_angle_offset = f_mul(f_neg(cos_outer), light_angle_scale);
                let new_index = new_of_old[i];
                if new_index >= n_nodes {
                    return Err(LoadError::RangeOutOfBounds);
                }
                let transform = nodes[new_index].transform;
                proof {
                    reveal_strlit("directional");
                    reveal_strlit("point");
                    reveal_strlit("spot");
                    assert("directional"@.len() == 11);
                    assert("point"@.len() == 5);
                    assert("spot"@.len() == 4);
                    assert(spec_light_entry_ok(
                        nodes_json@,
                        i as int,
                        *doc,
                        new_of_old@,
                        n_nodes as int,
                    ));
                }
                lights.push(
                    Light {
                        color_and_kind: [color[0], color[1], color[2], kind],
                        intensity_params: [intensity, light_angle_scale, light_angle_offset, F_ZERO],
                        position: mat_mul_vec4(&transform, &[F_ZERO, F_ZERO, F_ZERO, F_ONE]),
                        direction: mat_mul_vec4(&transform, &[F_ZERO, F_ZERO, F_ONE, F_ZERO]),
                    },
                );
            },
        }
        i = i + 1;
    }
    Ok(lights)
}

/// A built material carries the name its document entry declares.
pub open spec fn spec_material_named(mj: Json, m: Material) -> bool {
    spec_member(mj, "name"@) matches Some(n) && n matches Json::Str(s) && m.name@ == s@
}

/// Resolves one material channel's texture binding: the texture's image
/// and sampler as backend handles, defaulting the sampler.
fn unpack_texture_info(
    info: &Json,
    textures_json: &Vec<Json>,
    n_images: usize,
    n_samplers: usize,
) -> (r: Result<(u32, u32), LoadError>) {
    match info.member("texCoord") {
        None => {},
        Some(tc) => {
            let v = take_usize(tc)?;
            if v != 0 {
                return Err(LoadError::MissingOrWrongField);
            }
        },
    }
    let t = take_usize(require(info, "index")?)?;
    if t >= textures_json.len() {
        return Err(LoadError::RangeOutOfBounds);
    }
    let tj = &textures_json[t];
    let source = take_usize(require(tj, "source")?)?;
    if source >= n_images {
        return Err(LoadError::RangeOutOfBounds);
    }
    let sampler = match tj.member("sampler") {
        Some(v) => {
            let s = take_usize(v)?;
            if s >= n_samplers {
                return Err(LoadError::RangeOutOfBounds);
            }
            add_usize(s, 1)?
        },
        None => add_usize(n_samplers, 1)?,
    };
    Ok((to_u32(add_usize(source, 1)?)?, to_u32(sampler)?))
}

/// Packs each material's fixed-layout uniform block into the permanent
/// uniform arena and resolves its five texture slots, each defaulting to
/// the flat white, normal-flat or black fallback texture.
fn build_materials(
    materials_json: &Vec<Json>,
    textures_json: &Vec<Json>,
    n_images: usize,
    n_samplers: usize,
    uniform_arena: &mut BumpAllocatedBuffer,
    uniform_buffer_id: u32,
    lights_slot: (u32, u32, usize, usize),
) -> (r: Result<Vec<Material>, LoadError>)
    requires
        old(uniform_arena).wf(),
    ensures
        final(uniform_arena).wf(),
        r matches Ok(v) ==> {
            &&& v@.len() == materials_json@.len()
            &&& forall|i: int|
                0 <= i < v@.len() ==> spec_material_named(materials_json@[i], #[trigger] v@[i])
        },
{
    let default_sampler = to_u32(add_usize(n_samplers, 1)?)?;
    let black_tex = to_u32(add_usize(n_images, 1)?)?;
    let normal_tex = to_u32(add_usize(n_images, 2)?)?;
    let white_tex = to_u32(add_usize(n_images, 3)?)?;
    let n = materials_json.len();
    let mut out: Vec<Material> = Vec::new();
    let mut i: usize = 0;
    while i < n
        invariant
            i <= n,
            n == materials_json@.len(),
            out@.len() == i,
            forall|z: int|
                0 <= z < i ==> spec_material_named(materials_json@[z], #[trigger] out@[z]),
            uniform_arena.wf(),
        decreases n - i,
    {
        let mj = &materials_json[i];
        let name_json = require(mj, "name")?;
        let name = match name_json.as_string() {
            Some(s) => clone_string(s),
            None => {
                return Err(LoadError::MissingOrWrongField);
            },
        };
        let mut block = UniformBlockMaterial {
            base_color_factor: [F_ONE, F_ONE, F_ONE, F_ONE],
            metallic_factor: F_ONE,
            roughness_factor: F_ONE,
            normal_scale: F_ONE,
            occlusion_strength: F_ONE,
            emissive_factor: [F_ZERO, F_ZERO, F_ZERO, F_ZERO],
        };
        let mut textures: [Option<(u32, u32, u32)>; 5] = [None, None, None, None, None];
        match mj.member("pbrMetallicRoughness") {
            Some(pbr) => {
                match pbr.member("baseColorTexture") {
                    Some(info) => {
                        let (tex, smp) = unpack_texture_info(
                            info,
                            textures_json,
                            n_images,
                            n_samplers,
                        )?;
                        textures[0] = Some((TEX_UNIT_BASE_COLOR, tex, smp));
                    },
                    None => {
                        textures[0] = Some((TEX_UNIT_BASE_COLOR, white_tex, default_sampler));
                    },
                }
                match pbr.member("metallicRoughnessTexture") {
                    Some(info) => {
                        let (tex, smp) = unpack_texture_info(
                            info,
                            textures_json,
                            n_images,
                            n_samplers,
                        )?;
                        textures[1] = Some((TEX_UNIT_METALLIC_ROUGHNESS, tex, smp));
                    },
                    None => {
                        textures[1] = Some(
                            (TEX_UNIT_METALLIC_ROUGHNESS, white_tex, default_sampler),
                        );
                    },
                }
                match pbr.member("baseColorFactor") {
                    Some(f) => {
                        block.base_color_factor = take_quat(f)?;
                    },
                    None => {},
                }
                match pbr.member("metallicFactor") {
                    Some(f) => {
                        block.metallic_factor = take_f32_bits(f)?;
                    },
                    None => {},
                }
                match pbr.member("roughnessFactor") {
                    Some(f) => {
                        block.roughness_factor = take_f32_bits(f)?;
                    },
                    None => {},
                }
            },
            None => {},
        }
        match mj.member("normalTexture") {
            Some(info) => {
                let (tex, smp) = unpack_texture_info(info, textures_json, n_images, n_samplers)?;
                textures[2] = Some((TEX_UNIT_NORMAL, tex, smp));
                match info.member("scale") {
                    Some(f) => {
                        block.normal_scale = take_f32_bits(f)?;
                    },
                    None => {},
                }
            },
            None => {
                textures[2] = Some((TEX_UNIT_NORMAL, normal_tex, default_sampler));
            },
        }
        match mj.member("occlusionTexture") {
            Some(info) => {
                let (tex, smp) = unpack_texture_info(info, textures_json, n_images, n_samplers)?;
                textures[3] = Some((TEX_UNIT_OCCLUSION, tex, smp));
                match info.member("strength") {
                    Some(f) => {
                        block.occlusion_strength = take_f32_bits(f)?;
                    },
                    None => {},
                }
            },
            None => {
                textures[3] = Some((TEX_UNIT_OCCLUSION, white_tex, default_sampler));
            },
        }
        match mj.member("emissiveTexture") {
            Some(info) => {
                let (tex, smp) = unpack_texture_info(info, textures_json, n_images, n_samplers)?;
                textures[4] = Some((TEX_UNIT_EMISSIVE, tex, smp));
            },
            None => {
                textures[4] = Some((TEX_UNIT_EMISSIVE, black_tex, default_sampler));
            },
        }
        match mj.member("emissiveFactor") {
            Some(f) => {
                let rgb = take_vec3(f)?;
                block.emissive_factor = [rgb[0], rgb[1], rgb[2], F_ONE];
            },
            None => {},
        }
        let block_bytes = pack_material(&block);
        let (_, ubo_offset) = uniform_arena.allocate_buffer(block_bytes.as_slice());
        let ubo_size = block_bytes.len();
        let ubos: [Option<(u32, u32, usize, usize)>; 2] = [
            Some((UNIFORM_BLOCK_MATERIAL, uniform_buffer_id, ubo_offset, ubo_size)),
            Some(lights_slot),
        ];
        out.push(Material { name, uniforms: Uniforms { textures, ubos } });
        i = i + 1;
    }
    Ok(out)
}

/// A channel's timestamps rise strictly under single-precision
/// comparison, which also rules out NaN entries.
pub open spec fn spec_timestamps_increasing(ts: Seq<u32>) -> bool {
    forall|i: int| 0 <= i && i + 1 < ts.len() ==> lt_bits(#[trigger] ts[i], ts[i + 1])
}

fn check_timestamps(ts: &Vec<u32>) -> (r: bool)
    ensures
        r == spec_timestamps_increasing(ts@),
{
    let n = ts.len();
    if n == 0 {
        return true;
    }
    let mut i: usize = 0;
    while i < n - 1
        invariant
            n == ts@.len(),
            n >= 1,
            i <= n - 1,
            forall|k: int| 0 <= k < i ==> lt_bits(#[trigger] ts@[k], ts@[k + 1]),
        decreases n - i,
    {
        if !f_lt(ts[i], ts[i + 1]) {
            return false;
        }
        i = i + 1;
    }
    true
}

/// What one built channel says about its document entry: its keyframes are
/// typed by the channel's declared target path.
pub open spec fn spec_channel_from_doc(cj: Json, ch: NodeAnimation) -> bool {
    &&& spec_member(cj, "target"@) matches Some(t)
    &&& spec_member(spec_member(cj, "target"@).unwrap(), "path"@) matches Some(p)
    &&& p matches Json::Str(path)
    &&& (path@ == "rotation"@ ==> ch.keyframes is Rotation)
    &&& (path@ == "translation"@ ==> ch.keyframes is Translation)
    &&& (path@ == "scale"@ ==> ch.keyframes is Scale)
}

/// Every channel a clip holds is shaped for its interpolation, non-empty,
/// and strictly increasing in time, and the clip covers every node.
pub open spec fn spec_clip_channels_ok(anim: Animation, n_nodes: nat) -> bool {
    &&& anim.nodes_animations@.len() == n_nodes
    &&& forall|x: int, y: int|
        0 <= x < anim.nodes_animations@.len() && 0 <= y < anim.nodes_animations@[x]@.len() ==> {
            &&& (#[trigger] anim.nodes_animations@[x]@[y]).wf()
            &&& spec_timestamps_increasing(anim.nodes_animations@[x]@[y].timestamps@)
            &&& anim.nodes_animations@[x]@[y].timestamps@.len() >= 1
        }
}

/// The running single-precision minimum of the channels' first timestamps,
/// folded over the clip's channels in node order.
pub open spec fn spec_fold_start(nas: Seq<Vec<NodeAnimation>>, i: int, acc: u32) -> u32
    decreases nas.len() - i,
{
    if i < 0 || i >= nas.len() {
        acc
    } else {
        spec_fold_start(nas, i + 1, spec_fold_start_node(nas[i]@, 0, acc))
    }
}

pub open spec fn spec_fold_start_node(cs: Seq<NodeAnimation>, j: int, acc: u32) -> u32
    decreases cs.len() - j,
{
    if j < 0 || j >= cs.len() {
        acc
    } else if cs[j].timestamps@.len() == 0 {
        spec_fold_start_node(cs, j + 1, acc)
    } else {
        spec_fold_start_node(cs, j + 1, min_bits(acc, cs[j].timestamps@[0]))
    }
}

/// The running single-precision maximum of the channels' last timestamps.
pub open spec fn spec_fold_end(nas: Seq<Vec<NodeAnimation>>, i: int, acc: u32) -> u32
    decreases nas.len() - i,
{
    if i < 0 || i >= nas.len() {
        acc
    } else {
        spec_fold_end(nas, i + 1, spec_fold_end_node(nas[i]@, 0, acc))
    }
}

pub open spec fn spec_fold_end_node(cs: Seq<NodeAnimation>, j: int, acc: u32) -> u32
    decreases cs.len() - j,
{
    if j < 0 || j >= cs.len() {
        acc
    } else if cs[j].timestamps@.len() == 0 {
        spec_fold_end_node(cs, j + 1, acc)
    } else {
        spec_fold_end_node(cs, j + 1, max_bits(acc, cs[j].timestamps@.last()))
    }
}

/// The little-endian 32-bit words at byte offset `off` of `bytes`.
pub open spec fn spec_words_at(bytes: Seq<u8>, off: int, count: int) -> Seq<u32> {
    Seq::new(count as nat, |k: int| spec_u32_at(bytes, off + 4 * k))
}

/// One animation channel's document entry resolves: its sampler and
/// target links, a supported target path, input and output accessors that
/// resolve to in-range byte runs, at least one timestamp, strictly rising
/// timestamps, and keyframe counts that fit the interpolation's shape.
pub open spec fn spec_channel_resolves(
    cj: Json,
    samplers: Seq<Json>,
    accessors: Seq<Json>,
    views: Seq<Json>,
    buffer_datas: Seq<Vec<u8>>,
    new_of_old: Seq<usize>,
    n_nodes: int,
) -> bool {
    &&& spec_usize_member(cj, "sampler"@) is Some
    &&& (spec_usize_member(cj, "sampler"@).unwrap() as int) < samplers.len()
    &&& spec_member(cj, "target"@) is Some
    &&& spec_usize_member(spec_member(cj, "target"@).unwrap(), "node"@) is Some
    &&& (spec_usize_member(spec_member(cj, "target"@).unwrap(), "node"@).unwrap() as int)
        < new_of_old.len()
    &&& (new_of_old[spec_usize_member(spec_member(cj, "target"@).unwrap(), "node"@).unwrap() as int]
        as int) < n_nodes
    &&& spec_str_member(spec_member(cj, "target"@).unwrap(), "path"@) is Some
    &&& ({
        let sj = samplers[spec_usize_member(cj, "sampler"@).unwrap() as int];
        let path = spec_str_member(spec_member(cj, "target"@).unwrap(), "path"@).unwrap();
        &&& (path == "rotation"@ || path == "translation"@ || path == "scale"@)
        &&& spec_usize_member(sj, "input"@) is Some
        &&& spec_accessor_resolves(
            accessors,
            views,
            spec_usize_member(sj, "input"@).unwrap() as int,
        )
        &&& ({
            let ia = spec_resolved_accessor(
                accessors,
                views,
                spec_usize_member(sj, "input"@).unwrap() as int,
            );
            &&& (ia.buffer as int) < buffer_datas.len()
            &&& ia.byte_offset + 4 * ia.count <= buffer_datas[ia.buffer as int]@.len()
            &&& ia.count >= 1
            &&& spec_timestamps_increasing(
                spec_words_at(
                    buffer_datas[ia.buffer as int]@,
                    ia.byte_offset as int,
                    ia.count as int,
                ),
            )
            &&& spec_usize_member(sj, "output"@) is Some
            &&& spec_accessor_resolves(
                accessors,
                views,
                spec_usize_member(sj, "output"@).unwrap() as int,
            )
            &&& ({
                let oa = spec_resolved_accessor(
                    accessors,
                    views,
                    spec_usize_member(sj, "output"@).unwrap() as int,
                );
                let components: int = if path == "rotation"@ {
                    4
                } else {
                    3
                };
                &&& oa.count * components <= usize::MAX
                &&& (oa.buffer as int) < buffer_datas.len()
                &&& oa.byte_offset + 4 * (oa.count * components) <= buffer_datas[
                    oa.buffer as int
                ]@.len()
                &&& (spec_str_member(sj, "interpolation"@) matches Some(interp) && (interp
                    == "STEP"@ || interp == "LINEAR"@ || interp == "CUBICSPLINE"@) && (interp
                    == "CUBICSPLINE"@ ==> oa.count == 3 * ia.count) && (interp != "CUBICSPLINE"@
                    ==> oa.count == ia.count))
            })
        })
    })
}

/// Builds one channel of one clip: the target node (renumbered), the
/// timestamps and keyframes decoded from their accessors' bytes and typed
/// by the target path, the keyframe count checked against the
/// interpolation's shape, and the timestamps checked strictly increasing.
fn build_channel(
    cj: &Json,
    samplers_json: &Vec<Json>,
    accessors_json: &Vec<Json>,
    views_json: &Vec<Json>,
    buffer_datas: &Vec<Vec<u8>>,
    new_of_old: &Vec<usize>,
    n_nodes: usize,
) -> (r: Result<(usize, NodeAnimation), LoadError>)
    ensures
        r is Ok <==> spec_channel_resolves(
            *cj,
            samplers_json@,
            accessors_json@,
            views_json@,
            buffer_datas@,
            new_of_old@,
            n_nodes as int,
        ),
        r matches Ok(o) ==> {
            &&& spec_channel_from_doc(*cj, o.1)
            &&& o.0 < n_nodes
            &&& o.1.wf()
            &&& spec_timestamps_increasing(o.1.timestamps@)
            &&& o.1.timestamps@.len() >= 1
        },
{
    let sampler_index = take_usize(require(cj, "sampler")?)?;
    if sampler_index >= samplers_json.len() {
        return Err(LoadError::RangeOutOfBounds);
    }
    let sj = &samplers_json[sampler_index];
    let target = require(cj, "target")?;
    let old_node = take_usize(require(target, "node")?)?;
    if old_node >= new_of_old.len() {
        return Err(LoadError::RangeOutOfBounds);
    }
    let node = new_of_old[old_node];
    if node >= n_nodes {
        return Err(LoadError::RangeOutOfBounds);
    }
    let path = match require(target, "path")?.as_string() {
        Some(s) => s,
        None => {
            return Err(LoadError::MissingOrWrongField);
        },
    };
    let input_idx = take_usize(require(sj, "input")?)?;
    let input_acc = unpack_accessor(accessors_json, views_json, input_idx)?;
    if input_acc.buffer >= buffer_datas.len() {
        return Err(LoadError::RangeOutOfBounds);
    }
    let timestamps = read_f32_words(
        &buffer_datas[input_acc.buffer],
        input_acc.byte_offset,
        input_acc.count,
    )?;
    proof {
        assert(timestamps@ =~= spec_words_at(
            buffer_datas@[input_acc.buffer as int]@,
            input_acc.byte_offset as int,
            input_acc.count as int,
        ));
    }
    if timestamps.len() == 0 {
        return Err(LoadError::ChannelLengthMismatch);
    }
    if !check_timestamps(&timestamps) {
        return Err(LoadError::NonIncreasingTimestamps);
    }
    let output_idx = take_usize(require(sj, "output")?)?;
    let output_acc = unpack_accessor(accessors_json, views_json, output_idx)?;
    if output_acc.buffer >= buffer_datas.len() {
        return Err(LoadError::RangeOutOfBounds);
    }
    let components: usize = if str_eq(path.as_str(), "rotation") {
        4
    } else if str_eq(path.as_str(), "translation") || str_eq(path.as_str(), "scale") {
        3
    } else {
        return Err(LoadError::BadAnimationTarget);
    };
    let n_words = mul_usize(output_acc.count, components)?;
    let words = read_f32_words(
        &buffer_datas[output_acc.buffer],
        output_acc.byte_offset,
        n_words,
    )?;
    let keyframes = if components == 4 {
        proof {
            assert(words@.len() % 4 == 0) by (nonlinear_arith)
                requires
                    words@.len() == 4 * output_acc.count,
            ;
        }
        Keyframes::Rotation(group4(&words))
    } else if str_eq(path.as_str(), "translation") {
        proof {
            assert(words@.len() % 3 == 0) by (nonlinear_arith)
                requires
                    words@.len() == 3 * output_acc.count,
            ;
        }
        Keyframes::Translation(group3(&words))
    } else {
        proof {
            assert(words@.len() % 3 == 0) by (nonlinear_arith)
                requires
                    words@.len() == 3 * output_acc.count,
            ;
        }
        Keyframes::Scale(group3(&words))
    };
    let interpolation = match require(sj, "interpolation")?.as_string() {
        Some(s) => {
            if str_eq(s.as_str(), "STEP") {
                Interpolation::Step
            } else if str_eq(s.as_str(), "LINEAR") {
                Interpolation::Linear
            } else if str_eq(s.as_str(), "CUBICSPLINE") {
                Interpolation::CubicSpline
            } else {
                return Err(LoadError::BadInterpolation);
            }
        },
        None => {
            return Err(LoadError::MissingOrWrongField);
        },
    };
    proof {
        reveal_strlit("rotation");
        reveal_strlit("translation");
        reveal_strlit("scale");
        reveal_strlit("STEP");
        reveal_strlit("LINEAR");
        reveal_strlit("CUBICSPLINE");
        assert("rotation"@.len() == 8);
        assert("translation"@.len() == 11);
        assert("scale"@.len() == 5);
        assert("STEP"@.len() == 4);
        assert("LINEAR"@.len() == 6);
        assert("CUBICSPLINE"@.len() == 11);
        assert((3 * (output_acc.count as int)) / 3 == output_acc.count as int)
            by (nonlinear_arith);
        assert((4 * (output_acc.count as int)) / 4 == output_acc.count as int)
            by (nonlinear_arith);
    }
    let channel = NodeAnimation { timestamps, keyframes, interpolation };
    if !check_channel(&channel) {
        return Err(LoadError::ChannelLengthMismatch);
    }
    Ok((node, channel))
}

/// One clip's document entry resolves: a string name, sampler and channel
/// arrays, and every channel resolving against them.
pub open spec fn spec_clip_resolves(
    aj: Json,
    accessors: Seq<Json>,
    views: Seq<Json>,
    buffer_datas: Seq<Vec<u8>>,
    new_of_old: Seq<usize>,
    n_nodes: int,
) -> bool {
    &&& spec_str_member(aj, "name"@) is Some
    &&& spec_member(aj, "samplers"@) is Some
    &&& spec_member(aj, "samplers"@).unwrap() is Arr
    &&& spec_member(aj, "channels"@) is Some
    &&& spec_member(aj, "channels"@).unwrap() is Arr
    &&& forall|c: int|
        0 <= c < spec_member(aj, "channels"@).unwrap()->Arr_0@.len() ==> spec_channel_resolves(
            #[trigger] spec_member(aj, "channels"@).unwrap()->Arr_0@[c],
            spec_member(aj, "samplers"@).unwrap()->Arr_0@,
            accessors,
            views,
            buffer_datas,
            new_of_old,
            n_nodes,
        )
}

/// The document's animation section resolves: absent, or an array whose
/// every clip resolves.
pub open spec fn spec_animations_resolve(
    doc: Json,
    accessors: Seq<Json>,
    views: Seq<Json>,
    buffer_datas: Seq<Vec<u8>>,
    new_of_old: Seq<usize>,
    n_nodes: int,
) -> bool {
    match spec_member(doc, "animations"@) {
        None => true,
        Some(aj) => aj is Arr && (forall|x: int|
            0 <= x < aj->Arr_0@.len() ==> spec_clip_resolves(
                #[trigger] aj->Arr_0@[x],
                accessors,
                views,
                buffer_datas,
                new_of_old,
                n_nodes,
            )),
    }
}

proof fn lemma_animations_refutes(
    doc: Json,
    v: Vec<Json>,
    i: int,
    accessors: Seq<Json>,
    views: Seq<Json>,
    buffer_datas: Seq<Vec<u8>>,
    new_of_old: Seq<usize>,
    n_nodes: int,
)
    requires
        spec_member(doc, "animations"@) == Some(Json::Arr(v)),
        0 <= i < v@.len(),
        !spec_clip_resolves(v@[i], accessors, views, buffer_datas, new_of_old, n_nodes),
    ensures
        !spec_animations_resolve(doc, accessors, views, buffer_datas, new_of_old, n_nodes),
{
    if spec_animations_resolve(doc, accessors, views, buffer_datas, new_of_old, n_nodes) {
        assert(spec_member(doc, "animations"@).unwrap()->Arr_0 == v);
        assert(spec_clip_resolves(v@[i], accessors, views, buffer_datas, new_of_old, n_nodes));
    }
}

proof fn lemma_clip_channel_refutes(
    aj: Json,
    samplers: Vec<Json>,
    channels: Vec<Json>,
    c: int,
    accessors: Seq<Json>,
    views: Seq<Json>,
    buffer_datas: Seq<Vec<u8>>,
    new_of_old: Seq<usize>,
    n_nodes: int,
)
    requires
        spec_member(aj, "samplers"@) == Some(Json::Arr(samplers)),
        spec_member(aj, "channels"@) == Some(Json::Arr(channels)),
        0 <= c < channels@.len(),
        !spec_channel_resolves(
            channels@[c],
            samplers@,
            accessors,
            views,
            buffer_datas,
            new_of_old,
            n_nodes,
        ),
    ensures
        !spec_clip_resolves(aj, accessors, views, buffer_datas, new_of_old, n_nodes),
{
    if spec_clip_resolves(aj, accessors, views, buffer_datas, new_of_old, n_nodes) {
        assert(spec_member(aj, "channels"@).unwrap()->Arr_0 == channels);
        assert(spec_member(aj, "samplers"@).unwrap()->Arr_0 == samplers);
        assert(spec_channel_resolves(
            channels@[c],
            samplers@,
            accessors,
            views,
            buffer_datas,
            new_of_old,
            n_nodes,
        ));
    }
}

/// Builds each named clip: its channels are decoded and filed under their
/// (renumbered) nodes, and the clip's start and length come from the
/// single-precision minimum of the channels' first timestamps and maximum
/// of their last ones, folded over the clip's channels in node order;
/// succeeds exactly when the declared clips all resolve.
fn build_animations(
    doc: &Json,
    accessors_json: &Vec<Json>,
    views_json: &Vec<Json>,
    buffer_datas: &Vec<Vec<u8>>,
    new_of_old: &Vec<usize>,
    n_nodes: usize,
) -> (r: Result<Vec<Animation>, LoadError>)
    ensures
        r is Ok <==> spec_animations_resolve(
            *doc,
            accessors_json@,
            views_json@,
            buffer_datas@,
            new_of_old@,
            n_nodes as int,
        ),
        r matches Ok(v) ==> {
            &&& match spec_member(*doc, "animations"@) {
                Some(aj) => aj matches Json::Arr(a) && v@.len() == a@.len(),
                None => v@.len() == 0,
            }
            &&& forall|a: int|
                0 <= a < v@.len() ==> spec_clip_channels_ok(#[trigger] v@[a], n_nodes as nat)
            &&& forall|a: int|
                0 <= a < v@.len() ==> (#[trigger] v@[a]).start == spec_fold_start(
                    v@[a].nodes_animations@,
                    0,
                    F_INF,
                ) && v@[a].length == sub_bits(
                    spec_fold_end(v@[a].nodes_animations@, 0, F_NEG_INF),
                    v@[a].start,
                )
        },
{
    let animations_json = match doc.member("animations") {
        Some(aj) => match aj.as_array() {
            Some(a) => a,
            None => {
                return Err(LoadError::MissingOrWrongField);
            },
        },
        None => {
            return Ok(Vec::new());
        },
    };
    let n = animations_json.len();
    let mut out: Vec<Animation> = Vec::new();
    let mut i: usize = 0;
    while i < n
        invariant
            i <= n,
            n == animations_json@.len(),
            out@.len() == i,
            spec_member(*doc, "animations"@) == Some(Json::Arr(*animations_json)),
            forall|x: int|
                0 <= x < i ==> spec_clip_resolves(
                    #[trigger] animations_json@[x],
                    accessors_json@,
                    views_json@,
                    buffer_datas@,
                    new_of_old@,
                    n_nodes as int,
                ),
            forall|a: int|
                0 <= a < out@.len() ==> spec_clip_channels_ok(#[trigger] out@[a], n_nodes as nat),
            forall|a: int|
                0 <= a < out@.len() ==> (#[trigger] out@[a]).start == spec_fold_start(
                    out@[a].nodes_animations@,
                    0,
                    F_INF,
                ) && out@[a].length == sub_bits(
                    spec_fold_end(out@[a].nodes_animations@, 0, F_NEG_INF),
                    out@[a].start,
                ),
        decreases n - i,
    {
        let aj = &animations_json[i];
        let name_json = match aj.member("name") {
            Some(v) => v,
            None => {
                proof {
                    assert(!spec_clip_resolves(
                        animations_json@[i as int],
                        accessors_json@,
                        views_json@,
                        buffer_datas@,
                        new_of_old@,
                        n_nodes as int,
                    ));
                    lemma_animations_refutes(
                        *doc,
                        *animations_json,
                        i as int,
                        accessors_json@,
                        views_json@,
                        buffer_datas@,
                        new_of_old@,
                        n_nodes as int,
                    );
                }
                return Err(LoadError::MissingOrWrongField);
            },
        };
        let name = match name_json.as_string() {
            Some(s) => clone_string(s),
            None => {
                proof {
                    assert(!spec_clip_resolves(
                        animations_json@[i as int],
                        accessors_json@,
                        views_json@,
                        buffer_datas@,
                        new_of_old@,
                        n_nodes as int,
                    ));
                    lemma_animations_refutes(
                        *doc,
                        *animations_json,
                        i as int,
                        accessors_json@,
                        views_json@,
                        buffer_datas@,
                        new_of_old@,
                        n_nodes as int,
                    );
                }
                return Err(LoadError::MissingOrWrongField);
            },
        };
        let samplers_json = match require(aj, "samplers")?.as_array() {
            Some(v) => v,
            None => {
                proof {
                    assert(!spec_clip_resolves(
                        animations_json@[i as int],
                        accessors_json@,
                        views_json@,
                        buffer_datas@,
                        new_of_old@,
                        n_nodes as int,
                    ));
                    lemma_animations_refutes(
                        *doc,
                        *animations_json,
                        i as int,
                        accessors_json@,
                        views_json@,
                        buffer_datas@,
                        new_of_old@,
                        n_nodes as int,
                    );
                }
                return Err(LoadError::MissingOrWrongField);
            },
        };
        let channels_json = match require(aj, "channels")?.as_array() {
            Some(v) => v,
            None => {
                proof {
                    assert(!spec_clip_resolves(
                        animations_json@[i as int],
                        accessors_json@,
                        views_json@,
                        buffer_datas@,
                        new_of_old@,
                        n_nodes as int,
                    ));
                    lemma_animations_refutes(
                        *doc,
                        *animations_json,
                        i as int,
                        accessors_json@,
                        views_json@,
                        buffer_datas@,
                        new_of_old@,
                        n_nodes as int,
                    );
                }
                return Err(LoadError::MissingOrWrongField);
            },
        };
        let mut nodes_animations: Vec<Vec<NodeAnimation>> = Vec::new();
        let mut z: usize = 0;
        while z < n_nodes
            invariant
                z <= n_nodes,
                nodes_animations@.len() == z,
                forall|x: int| 0 <= x < z ==> (#[trigger] nodes_animations@[x])@.len() == 0,
            decreases n_nodes - z,
        {
            nodes_animations.push(Vec::new());
            z = z + 1;
        }
        let m = channels_json.len();
        let mut c: usize = 0;
        while c < m
            invariant
                c <= m,
                i < n,
                n == animations_json@.len(),
                m == channels_json@.len(),
                spec_member(*doc, "animations"@) == Some(Json::Arr(*animations_json)),
                nodes_animations@.len() == n_nodes,
                spec_member(animations_json@[i as int], "samplers"@) == Some(
                    Json::Arr(*samplers_json),
                ),
                spec_member(animations_json@[i as int], "channels"@) == Some(
                    Json::Arr(*channels_json),
                ),
                forall|z: int|
                    0 <= z < c ==> spec_channel_resolves(
                        #[trigger] channels_json@[z],
                        samplers_json@,
                        accessors_json@,
                        views_json@,
                        buffer_datas@,
                        new_of_old@,
                        n_nodes as int,
                    ),
                forall|x: int, y: int|
                    0 <= x < nodes_animations@.len() && 0 <= y < nodes_animations@[x]@.len() ==> {
                        &&& (#[trigger] nodes_animations@[x]@[y]).wf()
                        &&& spec_timestamps_increasing(nodes_animations@[x]@[y].timestamps@)
                        &&& nodes_animations@[x]@[y].timestamps@.len() >= 1
                    },
            decreases m - c,
        {
            let (node, channel) = match build_channel(
                &channels_json[c],
                samplers_json,
                accessors_json,
                views_json,
                buffer_datas,
                new_of_old,
                n_nodes,
            ) {
                Ok(o) => o,
                Err(e) => {
                    proof {
                        lemma_clip_channel_refutes(
                            animations_json@[i as int],
                            *samplers_json,
                            *channels_json,
                            c as int,
                            accessors_json@,
                            views_json@,
                            buffer_datas@,
                            new_of_old@,
                            n_nodes as int,
                        );
                        lemma_animations_refutes(
                            *doc,
                            *animations_json,
                            i as int,
                            accessors_json@,
                            views_json@,
                            buffer_datas@,
                            new_of_old@,
                            n_nodes as int,
                        );
                    }
                    return Err(e);
                },
            };
            let slot = &mut nodes_animations[node];
            slot.push(channel);
            c = c + 1;
        }
        // The clip's time bounds, folded over the channels as they now
        // stand, node by node.
        let mut start: u32 = F_INF;
        let mut end: u32 = F_NEG_INF;
        let nn = nodes_animations.len();
        let mut x: usize = 0;
        while x < nn
            invariant
                x <= nn,
                nn == nodes_animations@.len(),
                spec_fold_start(nodes_animations@, 0, F_INF) == spec_fold_start(
                    nodes_animations@,
                    x as int,
                    start,
                ),
                spec_fold_end(nodes_animations@, 0, F_NEG_INF) == spec_fold_end(
                    nodes_animations@,
                    x as int,
                    end,
                ),
                forall|a: int, y: int|
                    0 <= a < nodes_animations@.len() && 0 <= y < nodes_animations@[a]@.len() ==> {
                        &&& (#[trigger] nodes_animations@[a]@[y]).wf()
                        &&& spec_timestamps_increasing(nodes_animations@[a]@[y].timestamps@)
                        &&& nodes_animations@[a]@[y].timestamps@.len() >= 1
                    },
            decreases nn - x,
        {
            let cs = &nodes_animations[x];
            let ghost acc_start0 = start;
            let ghost acc_end0 = end;
            let cm = cs.len();
            let mut y: usize = 0;
            while y < cm
                invariant
                    y <= cm,
                    x < nn,
                    nn == nodes_animations@.len(),
                    cs == &nodes_animations@[x as int],
                    cm == cs@.len(),
                    forall|yy: int| 0 <= yy < cm ==> (#[trigger] cs@[yy]).timestamps@.len() >= 1,
                    spec_fold_start_node(cs@, 0, acc_start0) == spec_fold_start_node(
                        cs@,
                        y as int,
                        start,
                    ),
                    spec_fold_end_node(cs@, 0, acc_end0) == spec_fold_end_node(
                        cs@,
                        y as int,
                        end,
                    ),
                decreases cm - y,
            {
                let ch = &cs[y];
                start = f_min(start, ch.timestamps[0]);
                end = f_max(end, ch.timestamps[ch.timestamps.len() - 1]);
                y = y + 1;
            }
            x = x + 1;
        }
        proof {
            assert(spec_clip_resolves(
                animations_json@[i as int],
                accessors_json@,
                views_json@,
                buffer_datas@,
                new_of_old@,
                n_nodes as int,
            ));
        }
        out.push(
            Animation { name, nodes_animations, start, length: f_sub(end, start) },
        );
        i = i + 1;
    }
    proof {
        assert(spec_member(*doc, "animations"@).unwrap()->Arr_0 == *animations_json);
    }
    Ok(out)
}

/// Interprets a parsed scene document against its binary resources:
/// validates it, builds the scene graph, and plans the GPU objects the
/// backend must create. On success the scene graph is well-formed — every
/// index in bounds, the node lists renumbered parent-before-child, the
/// lights within capacity, every animation channel shaped — which is what
/// drawing and animating require.
///
/// Backend handle numbering: buffer objects 1..=B for the document's B
/// buffers, B+1 for the consolidated index arena, B+2 for the uniform
/// arena; texture objects 1..=I for the document's I images, then the
/// black, flat-normal and white fallbacks; sampler objects 1..=S, then the
/// default sampler; one vertex array per primitive, in primitive order.
pub fn load_document(doc: &Json, resources: &Vec<(String, Vec<u8>)>) -> (r: Result<
    (Gltf, LoadPlan),
    LoadError,
>)
    ensures
        !spec_exts_ok(*doc) ==> r is Err,
        spec_exts_ok(*doc) && !(spec_buffers_ok(*doc, resources@) && spec_buffers_of(*doc)@.len()
            <= 0xFFFF_FFFF) ==> r is Err,
        spec_member(*doc, "buffers"@) is None ==> r is Err,
        spec_member(*doc, "nodes"@) is None ==> r is Err,
        spec_member(*doc, "scenes"@) is None ==> r is Err,
        spec_member(*doc, "scene"@) is None ==> r is Err,
        spec_member(*doc, "meshes"@) is None ==> r is Err,
        spec_member(*doc, "materials"@) is None ==> r is Err,
        (spec_member(*doc, "nodes"@) matches Some(nj2) && nj2 matches Json::Arr(nv2)
            && spec_light_refs(nv2@, nv2@.len() as int) > MAX_LIGHTS) ==> r is Err,
        (spec_member(*doc, "nodes"@) matches Some(nj3) && nj3 matches Json::Arr(nv3) && !(forall|
            i: int,
        |
            0 <= i < nv3@.len() ==> spec_children_ok(#[trigger] nv3@[i], nv3@.len() as int)))
            ==> r is Err,
        (spec_member(*doc, "nodes"@) matches Some(nj4) && nj4 matches Json::Arr(nv4)
            && !spec_scenes_ok(*doc, nv4@.len() as int)) ==> r is Err,
        (spec_member(*doc, "scene"@) matches Some(sv) && spec_usize_of(sv) is None) ==> r is Err,
        (spec_member(*doc, "scene"@) matches Some(sv2) && spec_usize_of(sv2) matches Some(si)
            && spec_member(*doc, "scenes"@) matches Some(scj2) && scj2 matches Json::Arr(sa) && (
        si as int) >= sa@.len()) ==> r is Err,
        r matches Ok(out) ==> {
            &&& out.0.wf()
            &&& (spec_member(*doc, "nodes"@) matches Some(nj) && nj matches Json::Arr(nv)
                && out.0.nodes@.len() == nv@.len() && out.0.lights.lights@.len()
                == spec_light_refs(nv@, nv@.len() as int))
            &&& (spec_member(*doc, "scenes"@) matches Some(sj) && sj matches Json::Arr(sv)
                && out.0.scenes@.len() == sv@.len())
            &&& (spec_member(*doc, "meshes"@) matches Some(mj) && mj matches Json::Arr(mv)
                && out.0.meshes@.len() == mv@.len() && out.0.primitives@.len() == spec_flat_prims(
                mv@,
                mv@.len() as int,
            ).len() && (forall|k: int|
                0 <= k < out.0.primitives@.len() ==> spec_prim_from_doc(
                    spec_flat_prims(mv@, mv@.len() as int)[k],
                    #[trigger] out.0.primitives@[k],
                    k,
                    (spec_buffers_of(*doc)@.len() + 1) as u32,
                )))
            &&& (spec_member(*doc, "materials"@) matches Some(aj) && aj matches Json::Arr(av)
                && out.0.materials@.len() == av@.len())
            &&& spec_member(*doc, "scene"@) matches Some(scj) && spec_usize_of(scj) == Some(
                out.0.scene,
            )
            &&& (match spec_member(*doc, "animations"@) {
                Some(anj) => anj matches Json::Arr(anv) && out.0.animations@.len() == anv@.len(),
                None => out.0.animations@.len() == 0,
            })
            &&& out.0.lights.lights@.len() <= MAX_LIGHTS
            &&& (spec_member(*doc, "buffers"@) matches Some(bj) && bj matches Json::Arr(bv)
                && (forall|k: int|
                0 <= k < out.0.primitives@.len() ==> spec_prim_fixed(
                    #[trigger] out.0.primitives@[k],
                    k,
                    (bv@.len() + 1) as u32,
                )))
            &&& spec_primitives_consolidated(out.0.primitives@)
            &&& spec_clips_ok(out.0.animations@, out.0.nodes@.len())
            &&& forall|t: int|
                0 <= t < out.1.textures@.len() ==> spec_texture_levels_ok(
                    #[trigger] out.1.textures@[t],
                )
        },
{
    check_required_extensions(doc)?;
    let (buffer_datas, mut buffer_inits) = load_buffers(doc, resources)?;
    let n_buffers = buffer_datas.len();
    let index_buffer_id = to_u32(add_usize(n_buffers, 1)?)?;
    let uniform_buffer_id = to_u32(add_usize(n_buffers, 2)?)?;

    let nodes_json = match require(doc, "nodes")?.as_array() {
        Some(v) => v,
        None => {
            return Err(LoadError::MissingOrWrongField);
        },
    };
    let children_raw = node_children_raw(nodes_json)?;
    let (order, new_of_old) = forest_order(&children_raw)?;
    let nodes = build_nodes(nodes_json, &children_raw, &order, &new_of_old)?;
    let scenes = build_scenes(doc, &new_of_old)?;
    let scene = take_usize(require(doc, "scene")?)?;
    if scene >= scenes.len() {
        return Err(LoadError::RangeOutOfBounds);
    }

    let accessors_json = match require(doc, "accessors")?.as_array() {
        Some(v) => v,
        None => {
            return Err(LoadError::MissingOrWrongField);
        },
    };
    let views_json = match require(doc, "bufferViews")?.as_array() {
        Some(v) => v,
        None => {
            return Err(LoadError::MissingOrWrongField);
        },
    };
    let meshes_json = match require(doc, "meshes")?.as_array() {
        Some(v) => v,
        None => {
            return Err(LoadError::MissingOrWrongField);
        },
    };
    let materials_json = match require(doc, "materials")?.as_array() {
        Some(v) => v,
        None => {
            return Err(LoadError::MissingOrWrongField);
        },
    };
    let textures_json = match require(doc, "textures")?.as_array() {
        Some(v) => v,
        None => {
            return Err(LoadError::MissingOrWrongField);
        },
    };
    let images_json = match require(doc, "images")?.as_array() {
        Some(v) => v,
        None => {
            return Err(LoadError::MissingOrWrongField);
        },
    };
    let n_images = images_json.len();
    let n_samplers = match doc.member("samplers") {
        Some(sj) => match sj.as_array() {
            Some(a) => a.len(),
            None => {
                return Err(LoadError::MissingOrWrongField);
            },
        },
        None => 0,
    };

    let mut index_arena = BumpAllocatedBuffer::new(
        GL_ELEMENT_ARRAY_BUFFER,
        GL_DYNAMIC_DRAW,
        index_buffer_id,
    );
    let (meshes, primitives, vaos) = build_meshes(
        meshes_json,
        accessors_json,
        views_json,
        &buffer_datas,
        &mut index_arena,
        index_buffer_id,
    )?;

    let marks = mark_srgb(materials_json, textures_json, n_images)?;
    let textures = build_textures(images_json, &marks, &buffer_datas, resources, n_images)?;
    let samplers = build_samplers(doc)?;

    let lights = build_lights(nodes_json, doc, &nodes, &new_of_old)?;
    let mut uniform_arena = BumpAllocatedBuffer::new(
        GL_UNIFORM_BUFFER,
        GL_DYNAMIC_DRAW,
        uniform_buffer_id,
    );
    let lights_bytes = pack_lights(&lights);
    let (_, lights_offset) = uniform_arena.allocate_buffer(lights_bytes.as_slice());
    let lights_slot = (UNIFORM_BLOCK_LIGHTS, uniform_buffer_id, lights_offset, lights_bytes.len());
    let materials = build_materials(
        materials_json,
        textures_json,
        n_images,
        n_samplers,
        &mut uniform_arena,
        uniform_buffer_id,
        lights_slot,
    )?;

    let animations = build_animations(
        doc,
        accessors_json,
        views_json,
        &buffer_datas,
        &new_of_old,
        nodes.len(),
    )?;

    // Validation: what drawing and animating rely on, checked once here.
    if !check_scene_roots(&scenes, nodes.len()) {
        return Err(LoadError::RangeOutOfBounds);
    }
    if !check_nodes(&nodes, meshes.len()) {
        return Err(LoadError::NodeGraphNotForest);
    }
    if !check_meshes(&meshes, primitives.len()) {
        return Err(LoadError::RangeOutOfBounds);
    }
    if !check_prims(&primitives, materials.len()) {
        return Err(LoadError::RangeOutOfBounds);
    }

    buffer_inits.push(
        BufferInit {
            buffer: index_buffer_id,
            target: GL_ELEMENT_ARRAY_BUFFER,
            usage: GL_DYNAMIC_DRAW,
            bytes: clone_bytes(index_arena.data()),
        },
    );
    buffer_inits.push(
        BufferInit {
            buffer: uniform_buffer_id,
            target: GL_UNIFORM_BUFFER,
            usage: GL_DYNAMIC_DRAW,
            bytes: clone_bytes(uniform_arena.data()),
        },
    );

    let g = Gltf {
        scene,
        animations,
        scenes,
        nodes,
        meshes,
        materials,
        primitives,
        lights: UniformBlockLights { lights },
    };
    let plan = LoadPlan { buffers: buffer_inits, textures, samplers, vaos };
    proof {
        assert(g.wf());
        assert(spec_buffers_of(*doc)@.len() == n_buffers);
        assert(index_buffer_id == (spec_buffers_of(*doc)@.len() + 1) as u32);
    }
    Ok((g, plan))
}

/// Parses a scene document from its textual form and loads it; see
/// [`load_document`].
pub fn load_gltf(gltf: &str, resources: &Vec<(String, Vec<u8>)>) -> (r: Result<
    (Gltf, LoadPlan),
    LoadError,
>)
    ensures
        !crate::json::json_parses(gltf@) ==> (r matches Err(e) && e == LoadError::NotJson),
        r is Ok ==> crate::json::json_parses(gltf@),
        r matches Ok(out) ==> {
            &&& out.0.wf()
            &&& spec_primitives_consolidated(out.0.primitives@)
            &&& spec_clips_ok(out.0.animations@, out.0.nodes@.len())
            &&& out.0.lights.lights@.len() <= MAX_LIGHTS
        },
{
    let doc = match parse_json(gltf) {
        Some(d) => d,
        None => {
            return Err(LoadError::NotJson);
        },
    };
    load_document(&doc, resources)
}

} // verus!
