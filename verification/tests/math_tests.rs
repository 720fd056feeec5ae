use rendercore::bytes::{pack_mats, push_u32_le};
use rendercore::draw_calls::pack_lights;
use rendercore::fbits::{f_add, f_div, f_max, f_min, f_mul, f_neg, f_rem, f_sub, f_le, f_lt};
use rendercore::mat::{
    mat_det_positive, mat_from_srt, mat_mul, mat_mul_vec4, mat_to_srt, quat_slerp, vec3_lerp,
    Mat4Bits,
};

fn b(x: f32) -> u32 {
    x.to_bits()
}

fn mat_bits(m: glam::Mat4) -> Mat4Bits {
    Mat4Bits { e: bytemuck::cast(m.to_cols_array()) }
}

#[test]
fn scalar_operations_match_ieee_arithmetic() {
    assert_eq!(f_add(b(1.0), b(2.0)), b(3.0));
    assert_eq!(f_sub(b(5.0), b(2.0)), b(3.0));
    assert_eq!(f_mul(b(3.0), b(4.0)), b(12.0));
    assert_eq!(f_div(b(1.0), b(4.0)), b(0.25));
    assert_eq!(f_rem(b(5.0), b(2.0)), b(1.0));
    assert_eq!(f_min(b(2.0), b(7.0)), b(2.0));
    assert_eq!(f_max(b(2.0), b(7.0)), b(7.0));
    assert_eq!(f_neg(b(2.0)), b(-2.0));
    assert!(f_le(b(2.0), b(2.0)));
    assert!(f_lt(b(1.0), b(2.0)));
    assert!(!f_lt(b(2.0), b(2.0)));
    assert!(!f_le(f32::NAN.to_bits(), b(2.0)));
}

#[test]
fn matrix_product_matches_glam() {
    let a = glam::Mat4::from_translation(glam::Vec3::new(1.0, 2.0, 3.0));
    let c = glam::Mat4::from_scale(glam::Vec3::new(2.0, 2.0, 2.0));
    let r = mat_mul(&mat_bits(a), &mat_bits(c));
    assert_eq!(r, mat_bits(a * c));
}

#[test]
fn determinant_sign_detects_mirroring() {
    assert!(mat_det_positive(&Mat4Bits::identity()));
    let mirrored = glam::Mat4::from_scale(glam::Vec3::new(-1.0, 1.0, 1.0));
    assert!(!mat_det_positive(&mat_bits(mirrored)));
}

#[test]
fn transforming_a_point_matches_glam() {
    let m = glam::Mat4::from_translation(glam::Vec3::new(10.0, 0.0, 0.0));
    let r = mat_mul_vec4(&mat_bits(m), &[b(1.0), b(2.0), b(3.0), b(1.0)]);
    assert_eq!(r, [b(11.0), b(2.0), b(3.0), b(1.0)]);
}

#[test]
fn srt_composition_and_decomposition_roundtrip() {
    let composed = mat_from_srt(
        &[b(2.0), b(2.0), b(2.0)],
        &[b(0.0), b(0.0), b(0.0), b(1.0)],
        &[b(1.0), b(2.0), b(3.0)],
    );
    let expected = glam::Mat4::from_scale_rotation_translation(
        glam::Vec3::splat(2.0),
        glam::Quat::IDENTITY,
        glam::Vec3::new(1.0, 2.0, 3.0),
    );
    assert_eq!(composed, mat_bits(expected));
    let (s, r, t) = mat_to_srt(&composed);
    assert_eq!(s, [b(2.0), b(2.0), b(2.0)]);
    assert_eq!(r, [b(0.0), b(0.0), b(0.0), b(1.0)]);
    assert_eq!(t, [b(1.0), b(2.0), b(3.0)]);
}

#[test]
fn lerp_and_slerp_hit_their_endpoints() {
    let a = [b(0.0), b(0.0), b(0.0)];
    let c = [b(2.0), b(4.0), b(6.0)];
    assert_eq!(vec3_lerp(&a, &c, b(0.5)), [b(1.0), b(2.0), b(3.0)]);
    let q = [b(0.0), b(0.0), b(0.0), b(1.0)];
    let s = quat_slerp(&q, &q, b(0.25));
    let sq = glam::Quat::from_xyzw(
        f32::from_bits(s[0]),
        f32::from_bits(s[1]),
        f32::from_bits(s[2]),
        f32::from_bits(s[3]),
    );
    assert!(sq.angle_between(glam::Quat::IDENTITY) < 1e-6);
}

#[test]
fn words_pack_little_endian() {
    let mut out: Vec<u8> = Vec::new();
    push_u32_le(&mut out, 0x0403_0201);
    assert_eq!(out, vec![1, 2, 3, 4]);
}

#[test]
fn one_matrix_packs_to_its_sixty_four_bytes() {
    let bytes = pack_mats(&vec![Mat4Bits::identity()]);
    assert_eq!(bytes.len(), 64);
    assert_eq!(&bytes[0..4], &[0, 0, 0x80, 0x3F]);
    assert_eq!(&bytes[4..8], &[0, 0, 0, 0]);
}

#[test]
fn light_block_is_always_two_kibibytes() {
    assert_eq!(pack_lights(&Vec::new()).len(), 2048);
}

#[test]
fn material_block_lays_out_forty_eight_bytes() {
    let block = rendercore::loader::UniformBlockMaterial {
        base_color_factor: [b(1.0), b(0.5), b(0.25), b(1.0)],
        metallic_factor: b(0.0),
        roughness_factor: b(1.0),
        normal_scale: b(1.0),
        occlusion_strength: b(1.0),
        emissive_factor: [b(0.0), b(0.0), b(0.0), b(0.0)],
    };
    let bytes = rendercore::loader::pack_material(&block);
    assert_eq!(bytes.len(), 48);
    assert_eq!(&bytes[0..4], &1.0f32.to_le_bytes());
    assert_eq!(&bytes[4..8], &0.5f32.to_le_bytes());
    assert_eq!(&bytes[16..20], &0.0f32.to_le_bytes());
    assert_eq!(&bytes[44..48], &0.0f32.to_le_bytes());
}
