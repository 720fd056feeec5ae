//! Matrix, vector and quaternion values carried as the bit patterns of their
//! single-precision components, with the operations the renderer needs done
//! by glam behind trusted wrappers. Each operation is a deterministic
//! function of its operands' bits, so each result is given a name that
//! contracts can speak of.

use vstd::prelude::*;

use crate::fbits::F_ONE;

verus! {

/// A 4x4 matrix held as the bit patterns of its 16 entries, in column-major
/// order as glam and the GPU vertex fetch expect them.
#[derive(Clone, Copy, PartialEq, Eq, Debug)]
pub struct Mat4Bits {
    pub e: [u32; 16],
}

impl Mat4Bits {
    /// The identity matrix: ones (bit pattern of 1.0) on the diagonal.
    pub fn identity() -> (r: Mat4Bits)
        ensures
            r == Mat4Bits::identity_spec(),
    {
        Mat4Bits {
            e: [
                F_ONE, 0, 0, 0,
                0, F_ONE, 0, 0,
                0, 0, F_ONE, 0,
                0, 0, 0, F_ONE,
            ],
        }
    }

    pub open spec fn identity_spec() -> Mat4Bits {
        Mat4Bits {
            e: [
                F_ONE, 0u32, 0u32, 0u32,
                0u32, F_ONE, 0u32, 0u32,
                0u32, 0u32, F_ONE, 0u32,
                0u32, 0u32, 0u32, F_ONE,
            ],
        }
    }
}

pub uninterp spec fn mat_mul_of(a: [u32; 16], b: [u32; 16]) -> [u32; 16];

pub uninterp spec fn det_pos_of(m: [u32; 16]) -> bool;

pub uninterp spec fn mat_mul_vec4_of(m: [u32; 16], v: [u32; 4]) -> [u32; 4];

pub uninterp spec fn mat_from_srt_of(s: [u32; 3], r: [u32; 4], t: [u32; 3]) -> [u32; 16];

pub uninterp spec fn srt_of(m: [u32; 16]) -> ([u32; 3], [u32; 4], [u32; 3]);

pub uninterp spec fn lerp3_of(a: [u32; 3], b: [u32; 3], u: u32) -> [u32; 3];

pub uninterp spec fn slerp_of(a: [u32; 4], b: [u32; 4], u: u32) -> [u32; 4];

/// Relies on glam::Mat4 multiplication: the product's entries depend on the
/// operands' entries alone.
#[verifier::external_body]
pub fn mat_mul(a: &Mat4Bits, b: &Mat4Bits) -> (r: Mat4Bits)
    ensures
        r.e == mat_mul_of(a.e, b.e),
{
    let am = glam::Mat4::from_cols_array(&bytemuck::cast(a.e));
    let bm = glam::Mat4::from_cols_array(&bytemuck::cast(b.e));
    Mat4Bits { e: bytemuck::cast((am * bm).to_cols_array()) }
}

/// Relies on glam::Mat4::determinant: whether the determinant is strictly
/// positive depends on the matrix entries alone.
#[verifier::external_body]
pub fn mat_det_positive(m: &Mat4Bits) -> (r: bool)
    ensures
        r == det_pos_of(m.e),
{
    let mm = glam::Mat4::from_cols_array(&bytemuck::cast(m.e));
    let zero = glam::Vec2::ZERO.x;
    mm.determinant() > zero
}

/// Relies on glam::Mat4::mul_vec4: the transformed vector depends on the
/// matrix and vector entries alone.
#[verifier::external_body]
pub fn mat_mul_vec4(m: &Mat4Bits, v: &[u32; 4]) -> (r: [u32; 4])
    ensures
        r == mat_mul_vec4_of(m.e, *v),
{
    let mm = glam::Mat4::from_cols_array(&bytemuck::cast(m.e));
    let vv = glam::Vec4::from_array(bytemuck::cast(*v));
    bytemuck::cast(mm.mul_vec4(vv).to_array())
}

/// Relies on glam::Mat4::from_scale_rotation_translation: the composed
/// matrix depends on the three parts' components alone.
#[verifier::external_body]
pub fn mat_from_srt(s: &[u32; 3], r: &[u32; 4], t: &[u32; 3]) -> (m: Mat4Bits)
    ensures
        m.e == mat_from_srt_of(*s, *r, *t),
{
    let sv = glam::Vec3::from_array(bytemuck::cast(*s));
    let rq = glam::Quat::from_array(bytemuck::cast(*r));
    let tv = glam::Vec3::from_array(bytemuck::cast(*t));
    Mat4Bits { e: bytemuck::cast(glam::Mat4::from_scale_rotation_translation(sv, rq, tv).to_cols_array()) }
}

/// Relies on glam::Mat4::to_scale_rotation_translation: the decomposition
/// depends on the matrix entries alone.
#[verifier::external_body]
pub fn mat_to_srt(m: &Mat4Bits) -> (r: ([u32; 3], [u32; 4], [u32; 3]))
    ensures
        r == srt_of(m.e),
{
    let mm = glam::Mat4::from_cols_array(&bytemuck::cast(m.e));
    let (s, q, t) = mm.to_scale_rotation_translation();
    (
        bytemuck::cast(s.to_array()),
        bytemuck::cast(q.to_array()),
        bytemuck::cast(t.to_array()),
    )
}

/// Relies on glam::Vec3::lerp, which computes `(1 - u) * a + u * b`.
#[verifier::external_body]
pub fn vec3_lerp(a: &[u32; 3], b: &[u32; 3], u: u32) -> (r: [u32; 3])
    ensures
        r == lerp3_of(*a, *b, u),
{
    let av = glam::Vec3::from_array(bytemuck::cast(*a));
    let bv = glam::Vec3::from_array(bytemuck::cast(*b));
    let uv = glam::Vec2::from_array(bytemuck::cast([u, u]));
    bytemuck::cast(av.lerp(bv, uv.x).to_array())
}

pub uninterp spec fn scale3_of(v: [u32; 3], s: u32) -> [u32; 3];

pub uninterp spec fn add3_of(a: [u32; 3], b: [u32; 3]) -> [u32; 3];

pub uninterp spec fn scale4_of(q: [u32; 4], s: u32) -> [u32; 4];

pub uninterp spec fn add4_of(a: [u32; 4], b: [u32; 4]) -> [u32; 4];

/// Relies on glam::Vec3 multiplication by a scalar.
#[verifier::external_body]
pub fn vec3_scale(v: &[u32; 3], s: u32) -> (r: [u32; 3])
    ensures
        r == scale3_of(*v, s),
{
    let vv = glam::Vec3::from_array(bytemuck::cast(*v));
    let sv = glam::Vec2::from_array(bytemuck::cast([s, s]));
    bytemuck::cast((vv * sv.x).to_array())
}

/// Relies on glam::Vec3 addition.
#[verifier::external_body]
pub fn vec3_add(a: &[u32; 3], b: &[u32; 3]) -> (r: [u32; 3])
    ensures
        r == add3_of(*a, *b),
{
    let av = glam::Vec3::from_array(bytemuck::cast(*a));
    let bv = glam::Vec3::from_array(bytemuck::cast(*b));
    bytemuck::cast((av + bv).to_array())
}

/// Relies on glam::Quat multiplication by a scalar, which scales each
/// component.
#[verifier::external_body]
pub fn quat_scale(q: &[u32; 4], s: u32) -> (r: [u32; 4])
    ensures
        r == scale4_of(*q, s),
{
    let qq = glam::Quat::from_array(bytemuck::cast(*q));
    let sv = glam::Vec2::from_array(bytemuck::cast([s, s]));
    bytemuck::cast((qq * sv.x).to_array())
}

/// Relies on glam::Quat addition, which adds componentwise.
#[verifier::external_body]
pub fn quat_add(a: &[u32; 4], b: &[u32; 4]) -> (r: [u32; 4])
    ensures
        r == add4_of(*a, *b),
{
    let aq = glam::Quat::from_array(bytemuck::cast(*a));
    let bq = glam::Quat::from_array(bytemuck::cast(*b));
    bytemuck::cast((aq + bq).to_array())
}

/// Relies on glam::Quat::slerp, the spherical interpolation that negates one
/// endpoint when the dot product is negative, so the shorter arc is taken;
/// for nearly parallel endpoints it falls back to a normalized linear
/// blend, which also avoids the divide-by-sin(0) hazard. Its sine may come
/// from the platform's math library, so the result's bits are fixed only
/// within one build, which is all the contracts here use.
#[verifier::external_body]
pub fn quat_slerp(a: &[u32; 4], b: &[u32; 4], u: u32) -> (r: [u32; 4])
    ensures
        r == slerp_of(*a, *b, u),
{
    let aq = glam::Quat::from_array(bytemuck::cast(*a));
    let bq = glam::Quat::from_array(bytemuck::cast(*b));
    let uv = glam::Vec2::from_array(bytemuck::cast([u, u]));
    bytemuck::cast(aq.slerp(bq, uv.x).to_array())
}

} // verus!
