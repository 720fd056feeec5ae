use rendercore::animation::{
    sample_quat_keyframes, sample_vec3_keyframes, Animation, Interpolation, Keyframes,
    NodeAnimation, NodeTransform,
};
use rendercore::mat::Mat4Bits;

fn b(x: f32) -> u32 {
    x.to_bits()
}

fn v3(x: f32, y: f32, z: f32) -> [u32; 3] {
    [b(x), b(y), b(z)]
}

#[test]
fn linear_translation_midpoint() {
    let timestamps = vec![b(0.0), b(2.0)];
    let keyframes = vec![v3(0.0, 0.0, 0.0), v3(2.0, 0.0, 0.0)];
    let r = sample_vec3_keyframes(&timestamps, &keyframes, Interpolation::Linear, b(1.0)).unwrap();
    assert_eq!(r, v3(1.0, 0.0, 0.0));
}

#[test]
fn sampling_past_the_end_wraps_modulo_the_last_timestamp() {
    let timestamps = vec![b(0.0), b(2.0)];
    let keyframes = vec![v3(0.0, 0.0, 0.0), v3(2.0, 0.0, 0.0)];
    let direct = sample_vec3_keyframes(&timestamps, &keyframes, Interpolation::Linear, b(1.0));
    // 3.0 and 5.0 both wrap to 1.0 inside [0, 2).
    let wrapped3 = sample_vec3_keyframes(&timestamps, &keyframes, Interpolation::Linear, b(3.0));
    let wrapped5 = sample_vec3_keyframes(&timestamps, &keyframes, Interpolation::Linear, b(5.0));
    assert_eq!(direct, wrapped3);
    assert_eq!(direct, wrapped5);
    assert_eq!(direct.unwrap(), v3(1.0, 0.0, 0.0));
}

#[test]
fn step_channel_holds_the_active_key() {
    let timestamps = vec![b(0.0), b(1.0), b(2.0)];
    let keyframes = vec![v3(5.0, 0.0, 0.0), v3(6.0, 0.0, 0.0), v3(7.0, 0.0, 0.0)];
    let r = sample_vec3_keyframes(&timestamps, &keyframes, Interpolation::Step, b(1.5)).unwrap();
    assert_eq!(r, v3(6.0, 0.0, 0.0));
}

#[test]
fn out_of_range_time_yields_no_sample() {
    // Timestamps starting past zero leave early times in no interval.
    let timestamps = vec![b(1.0), b(2.0)];
    let keyframes = vec![v3(0.0, 0.0, 0.0), v3(1.0, 0.0, 0.0)];
    let r = sample_vec3_keyframes(&timestamps, &keyframes, Interpolation::Linear, b(0.5));
    assert!(r.is_none());
}

#[test]
fn quat_endpoints_interpolate_to_themselves() {
    let timestamps = vec![b(0.0), b(2.0)];
    let q = [b(0.0), b(0.0), b(0.0), b(1.0)];
    let keyframes = vec![q, q];
    let r = sample_quat_keyframes(&timestamps, &keyframes, Interpolation::Linear, b(0.0)).unwrap();
    let rq = glam::Quat::from_xyzw(
        f32::from_bits(r[0]),
        f32::from_bits(r[1]),
        f32::from_bits(r[2]),
        f32::from_bits(r[3]),
    );
    assert!(rq.angle_between(glam::Quat::IDENTITY) < 1e-6);
}

#[test]
fn animate_transforms_rewrites_the_translation_component() {
    let channel = NodeAnimation {
        timestamps: vec![b(0.0), b(2.0)],
        keyframes: Keyframes::Translation(vec![v3(0.0, 0.0, 0.0), v3(2.0, 0.0, 0.0)]),
        interpolation: Interpolation::Linear,
    };
    let anim = Animation {
        name: String::from("walk"),
        nodes_animations: vec![vec![channel]],
        start: b(0.0),
        length: b(2.0),
    };
    let mut transforms = vec![NodeTransform {
        name: String::from("n"),
        transform: Mat4Bits::identity(),
    }];
    anim.animate_transforms(&mut transforms, b(1.0));
    let expected = glam::Mat4::from_translation(glam::Vec3::new(1.0, 0.0, 0.0));
    let got = glam::Mat4::from_cols_array(&bytemuck::cast(transforms[0].transform.e));
    assert!((got.to_cols_array()
        .iter()
        .zip(expected.to_cols_array().iter())
        .map(|(a, b)| (a - b).abs())
        .fold(0.0f32, f32::max))
        < 1e-6);
    assert_eq!(transforms[0].name, "n");
}

#[test]
fn node_without_channels_keeps_its_transform() {
    let anim = Animation {
        name: String::from("idle"),
        nodes_animations: vec![vec![]],
        start: b(0.0),
        length: b(0.0),
    };
    let original = Mat4Bits { e: [7; 16] };
    let mut transforms = vec![NodeTransform { name: String::from("n"), transform: original }];
    anim.animate_transforms(&mut transforms, b(0.5));
    assert_eq!(transforms[0].transform, original);
}
