use rendercore::draw_calls::{
    DrawCall, DrawCalls, GlCommand, Light, UniformBlockLights, Uniforms, MAX_LIGHTS,
};
use rendercore::gpu::{GL_CCW, GL_TRIANGLES, GL_UNSIGNED_SHORT};
use rendercore::mat::Mat4Bits;

fn test_uniforms(texture: u32) -> Uniforms {
    Uniforms {
        textures: [Some((0, texture, 1)), None, None, None, None],
        ubos: [Some((0, 5, 0, 48)), None],
    }
}

fn test_draw_call(vao: u32) -> DrawCall {
    DrawCall {
        vao,
        mode: GL_TRIANGLES,
        index_buffer: 9,
        index_type: GL_UNSIGNED_SHORT,
        index_byte_offset: 0,
        index_count: 6,
        disabled_all_ones_vertex_attribute: None,
        front_face: GL_CCW,
    }
}

fn translation_bits(x: f32, y: f32, z: f32) -> Mat4Bits {
    let m = glam::Mat4::from_translation(glam::Vec3::new(x, y, z));
    Mat4Bits { e: bytemuck::cast(m.to_cols_array()) }
}

fn instanced_draws(cmds: &[GlCommand]) -> Vec<GlCommand> {
    cmds.iter()
        .filter(|c| matches!(c, GlCommand::DrawElementsInstanced { .. }))
        .cloned()
        .collect()
}

#[test]
fn same_pair_batches_into_one_instanced_draw() {
    let mut dc = DrawCalls::new(1);
    let u = test_uniforms(2);
    let d = test_draw_call(3);
    let identity = Mat4Bits::identity();
    let t1 = translation_bits(1.0, 0.0, 0.0);
    let t2 = translation_bits(2.0, 0.0, 0.0);
    let t3 = translation_bits(3.0, 0.0, 0.0);
    dc.add(None, &u, &d, &identity, &t1, &identity);
    dc.add(None, &u, &d, &identity, &t2, &identity);
    dc.add(None, &u, &d, &identity, &t3, &identity);
    let cmds = dc.draw([6, 7, 8, 9], [10, 11, 12, 13]);
    let draws = instanced_draws(&cmds);
    assert_eq!(draws.len(), 1);
    match draws[0] {
        GlCommand::DrawElementsInstanced { instance_count, index_count, .. } => {
            assert_eq!(instance_count, 3);
            assert_eq!(index_count, 6);
        }
        _ => unreachable!(),
    }
    // The three transforms sit in the staged stream in submission order,
    // right after the 2048-byte light block.
    let staged = dc.staged();
    let t1_bytes: [u8; 64] = bytemuck::cast(t1.e);
    let t2_bytes: [u8; 64] = bytemuck::cast(t2.e);
    let t3_bytes: [u8; 64] = bytemuck::cast(t3.e);
    assert_eq!(&staged[2048..2112], &t1_bytes);
    assert_eq!(&staged[2112..2176], &t2_bytes);
    assert_eq!(&staged[2176..2240], &t3_bytes);
}

#[test]
fn distinct_pairs_get_distinct_draws() {
    let mut dc = DrawCalls::new(1);
    let u = test_uniforms(2);
    let d1 = test_draw_call(3);
    let d2 = test_draw_call(4);
    let identity = Mat4Bits::identity();
    dc.add(None, &u, &d1, &identity, &identity, &identity);
    dc.add(None, &u, &d2, &identity, &identity, &identity);
    let cmds = dc.draw([6, 7, 8, 9], [10, 11, 12, 13]);
    assert_eq!(instanced_draws(&cmds).len(), 2);
}

#[test]
fn no_submissions_no_instanced_draws() {
    let mut dc = DrawCalls::new(1);
    let cmds = dc.draw([6, 7, 8, 9], [10, 11, 12, 13]);
    assert_eq!(instanced_draws(&cmds).len(), 0);
}

#[test]
fn cleared_batches_issue_no_draws() {
    let mut dc = DrawCalls::new(1);
    let u = test_uniforms(2);
    let d = test_draw_call(3);
    let identity = Mat4Bits::identity();
    dc.add(None, &u, &d, &identity, &identity, &identity);
    dc.clear();
    let cmds = dc.draw([6, 7, 8, 9], [10, 11, 12, 13]);
    assert_eq!(instanced_draws(&cmds).len(), 0);
}

fn test_light(kind: u32, x_bits: u32) -> Light {
    Light {
        color_and_kind: [1.0f32.to_bits(), 0, 0, kind],
        intensity_params: [1.0f32.to_bits(), 0, 0, 0],
        position: [x_bits, 0, 0, 1.0f32.to_bits()],
        direction: [0, 0, 1.0f32.to_bits(), 0],
    }
}

#[test]
fn identical_light_submitted_twice_is_stored_once() {
    let mut dc = DrawCalls::new(1);
    let u = test_uniforms(2);
    let d = test_draw_call(3);
    let identity = Mat4Bits::identity();
    let lights = UniformBlockLights { lights: vec![test_light(1.0f32.to_bits(), 0)] };
    dc.add(Some(&lights), &u, &d, &identity, &identity, &identity);
    assert_eq!(dc.light_count(), 1);
    dc.add(Some(&lights), &u, &d, &identity, &identity, &identity);
    assert_eq!(dc.light_count(), 1);
}

#[test]
fn light_accumulation_caps_at_the_block_size() {
    let mut dc = DrawCalls::new(1);
    let u = test_uniforms(2);
    let d = test_draw_call(3);
    let identity = Mat4Bits::identity();
    for i in 0..40u32 {
        let lights = UniformBlockLights {
            lights: vec![test_light(2.0f32.to_bits(), (i as f32).to_bits())],
        };
        dc.add(Some(&lights), &u, &d, &identity, &identity, &identity);
    }
    assert_eq!(dc.light_count(), MAX_LIGHTS);
}

#[test]
fn zero_kind_entry_ends_the_light_scan() {
    let mut dc = DrawCalls::new(1);
    let u = test_uniforms(2);
    let d = test_draw_call(3);
    let identity = Mat4Bits::identity();
    let lights = UniformBlockLights {
        lights: vec![
            test_light(1.0f32.to_bits(), 0),
            test_light(0, (5.0f32).to_bits()),
            test_light(3.0f32.to_bits(), (9.0f32).to_bits()),
        ],
    };
    dc.add(Some(&lights), &u, &d, &identity, &identity, &identity);
    // The zero-kind sentinel stops the scan: the light after it is not
    // accumulated.
    assert_eq!(dc.light_count(), 1);
}

#[test]
fn clear_forgets_lights() {
    let mut dc = DrawCalls::new(1);
    let u = test_uniforms(2);
    let d = test_draw_call(3);
    let identity = Mat4Bits::identity();
    let lights = UniformBlockLights { lights: vec![test_light(1.0f32.to_bits(), 0)] };
    dc.add(Some(&lights), &u, &d, &identity, &identity, &identity);
    assert_eq!(dc.light_count(), 1);
    dc.clear();
    assert_eq!(dc.light_count(), 0);
    assert_eq!(dc.staged().len(), 0);
}

#[test]
fn light_position_is_carried_by_the_model_transform() {
    let mut dc = DrawCalls::new(1);
    let u = test_uniforms(2);
    let d = test_draw_call(3);
    let model = translation_bits(10.0, 0.0, 0.0);
    let lights = UniformBlockLights { lights: vec![test_light(2.0f32.to_bits(), 0)] };
    // The same light under two different model transforms is two distinct
    // world-space lights.
    dc.add(Some(&lights), &u, &d, &Mat4Bits::identity(), &Mat4Bits::identity(), &Mat4Bits::identity());
    dc.add(Some(&lights), &u, &d, &model, &Mat4Bits::identity(), &Mat4Bits::identity());
    assert_eq!(dc.light_count(), 2);
}
