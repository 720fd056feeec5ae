use rendercore::draw_calls::{DrawCalls, GlCommand};
use rendercore::loader::{load_gltf, LoadError};
use rendercore::mat::Mat4Bits;

fn minimal_scene() -> (String, Vec<(String, Vec<u8>)>) {
    let doc = String::from(
        "{\
         \"scene\": 0,\
         \"scenes\": [{\"nodes\": [0]}],\
         \"nodes\": [{\"name\": \"quad\", \"mesh\": 0}],\
         \"meshes\": [{\"primitives\": [{\"attributes\": {\"POSITION\": 0}, \"indices\": 1, \"material\": 0}]}],\
         \"materials\": [{\"name\": \"flat\"}],\
         \"textures\": [],\
         \"images\": [],\
         \"accessors\": [\
            {\"bufferView\": 0, \"count\": 3, \"type\": \"VEC3\", \"componentType\": 5126},\
            {\"bufferView\": 1, \"count\": 3, \"type\": \"SCALAR\", \"componentType\": 5123}\
         ],\
         \"bufferViews\": [\
            {\"buffer\": 0},\
            {\"buffer\": 0, \"byteOffset\": 36}\
         ],\
         \"buffers\": [{\"uri\": \"quad.bin\", \"byteLength\": 42}]\
        }",
    );
    let resources = vec![(String::from("quad.bin"), vec![0u8; 42])];
    (doc, resources)
}

fn instanced_draws(cmds: &[GlCommand]) -> Vec<GlCommand> {
    cmds.iter()
        .filter(|c| matches!(c, GlCommand::DrawElementsInstanced { .. }))
        .cloned()
        .collect()
}

#[test]
fn one_mesh_drawn_once_is_one_batch_of_one_instance() {
    let (doc, resources) = minimal_scene();
    let (g, plan) = load_gltf(&doc, &resources).unwrap();
    assert_eq!(plan.vaos.len(), 1);
    // Document buffer, index arena, uniform arena.
    assert_eq!(plan.buffers.len(), 3);
    let mut dc = DrawCalls::new(1);
    g.draw(&mut dc, &Mat4Bits::identity());
    let cmds = dc.draw([6, 7, 8, 9], [10, 11, 12, 13]);
    let draws = instanced_draws(&cmds);
    assert_eq!(draws.len(), 1);
    match draws[0] {
        GlCommand::DrawElementsInstanced { instance_count, index_count, .. } => {
            assert_eq!(instance_count, 1);
            assert_eq!(index_count, 3);
        }
        _ => unreachable!(),
    }
}

#[test]
fn one_mesh_drawn_twice_is_one_batch_of_two_instances() {
    let (doc, resources) = minimal_scene();
    let (g, _) = load_gltf(&doc, &resources).unwrap();
    let mut dc = DrawCalls::new(1);
    let shifted = Mat4Bits {
        e: bytemuck::cast(
            glam::Mat4::from_translation(glam::Vec3::new(3.0, 0.0, 0.0)).to_cols_array(),
        ),
    };
    g.draw(&mut dc, &Mat4Bits::identity());
    g.draw(&mut dc, &shifted);
    let cmds = dc.draw([6, 7, 8, 9], [10, 11, 12, 13]);
    let draws = instanced_draws(&cmds);
    assert_eq!(draws.len(), 1);
    match draws[0] {
        GlCommand::DrawElementsInstanced { instance_count, .. } => {
            assert_eq!(instance_count, 2);
        }
        _ => unreachable!(),
    }
}

#[test]
fn text_that_is_not_json_is_rejected() {
    let r = load_gltf("this is no scene", &vec![]);
    assert_eq!(r.err().map(|e| e == LoadError::NotJson), Some(true));
}

#[test]
fn unsupported_required_extension_is_fatal() {
    let r = load_gltf("{\"extensionsRequired\": [\"KHR_materials_unlit\"]}", &vec![]);
    assert_eq!(r.err().map(|e| e == LoadError::UnsupportedExtension), Some(true));
}

#[test]
fn the_lighting_extension_alone_is_supported() {
    let (mut doc, resources) = minimal_scene();
    doc.insert_str(1, "\"extensionsRequired\": [\"KHR_lights_punctual\"],");
    assert!(load_gltf(&doc, &resources).is_ok());
}

#[test]
fn strided_buffer_views_are_rejected() {
    let (doc, resources) = minimal_scene();
    let strided = doc.replace("{\"buffer\": 0},", "{\"buffer\": 0, \"byteStride\": 12},");
    let r = load_gltf(&strided, &resources);
    assert_eq!(r.err().map(|e| e == LoadError::StridedBufferView), Some(true));
}

#[test]
fn buffer_length_mismatch_is_fatal() {
    let (doc, _) = minimal_scene();
    let resources = vec![(String::from("quad.bin"), vec![0u8; 41])];
    let r = load_gltf(&doc, &resources);
    assert_eq!(r.err().map(|e| e == LoadError::BufferLengthMismatch), Some(true));
}

#[test]
fn missing_buffer_resource_is_fatal() {
    let (doc, _) = minimal_scene();
    let r = load_gltf(&doc, &vec![]);
    assert_eq!(r.err().map(|e| e == LoadError::BufferNotFound), Some(true));
}

#[test]
fn node_cycle_is_rejected() {
    let (doc, resources) = minimal_scene();
    let cyclic = doc.replace(
        "\"nodes\": [{\"name\": \"quad\", \"mesh\": 0}],",
        "\"nodes\": [{\"name\": \"a\", \"mesh\": 0, \"children\": [1]}, {\"name\": \"b\", \"children\": [0]}],",
    );
    let r = load_gltf(&cyclic, &resources);
    assert_eq!(r.err().map(|e| e == LoadError::NodeGraphNotForest), Some(true));
}

#[test]
fn bad_index_component_type_is_rejected() {
    let (doc, resources) = minimal_scene();
    let bad = doc.replace("\"componentType\": 5123", "\"componentType\": 5126");
    let r = load_gltf(&bad, &resources);
    assert_eq!(r.err().map(|e| e == LoadError::BadIndexType), Some(true));
}

#[test]
fn parent_before_child_after_renumbering() {
    let (doc, resources) = minimal_scene();
    // A parent listed after its child in the document: the loader
    // renumbers depth-first, so drawing still works.
    let reordered = doc
        .replace(
            "\"nodes\": [{\"name\": \"quad\", \"mesh\": 0}],",
            "\"nodes\": [{\"name\": \"leaf\", \"mesh\": 0}, {\"name\": \"root\", \"children\": [0]}],",
        )
        .replace("\"scenes\": [{\"nodes\": [0]}],", "\"scenes\": [{\"nodes\": [1]}],");
    let (g, _) = load_gltf(&reordered, &resources).unwrap();
    assert_eq!(g.nodes.len(), 2);
    assert_eq!(g.nodes[0].name, "root");
    assert_eq!(g.nodes[1].name, "leaf");
    let mut dc = DrawCalls::new(1);
    g.draw(&mut dc, &Mat4Bits::identity());
    let cmds = dc.draw([6, 7, 8, 9], [10, 11, 12, 13]);
    assert_eq!(instanced_draws(&cmds).len(), 1);
}

#[test]
fn scene_lights_ride_along_with_draws() {
    let (doc, resources) = minimal_scene();
    let lit = doc
        .replace(
            "\"nodes\": [{\"name\": \"quad\", \"mesh\": 0}],",
            "\"nodes\": [{\"name\": \"quad\", \"mesh\": 0, \"extensions\": {\"KHR_lights_punctual\": {\"light\": 0}}}],",
        )
        .replace(
            "\"buffers\":",
            "\"extensions\": {\"KHR_lights_punctual\": {\"lights\": [{\"type\": \"point\", \"intensity\": 2.0}]}}, \"buffers\":",
        );
    let (g, _) = load_gltf(&lit, &resources).unwrap();
    assert_eq!(g.lights.lights.len(), 1);
    let mut dc = DrawCalls::new(1);
    g.draw(&mut dc, &Mat4Bits::identity());
    assert_eq!(dc.light_count(), 1);
    // Drawing the same scene again adds no duplicate light.
    g.draw(&mut dc, &Mat4Bits::identity());
    assert_eq!(dc.light_count(), 1);
}

#[test]
fn bad_light_type_is_fatal() {
    let (doc, resources) = minimal_scene();
    let lit = doc
        .replace(
            "\"nodes\": [{\"name\": \"quad\", \"mesh\": 0}],",
            "\"nodes\": [{\"name\": \"quad\", \"mesh\": 0, \"extensions\": {\"KHR_lights_punctual\": {\"light\": 0}}}],",
        )
        .replace(
            "\"buffers\":",
            "\"extensions\": {\"KHR_lights_punctual\": {\"lights\": [{\"type\": \"area\"}]}}, \"buffers\":",
        );
    let r = load_gltf(&lit, &resources);
    assert_eq!(r.err().map(|e| e == LoadError::BadLightType), Some(true));
}

#[test]
fn animation_channels_are_decoded_from_buffer_bytes() {
    let (doc, _) = minimal_scene();
    // Append a 20-byte animation region: timestamps [0.0, 2.0] then the
    // translations (0,0,0) and (2,0,0) come from a separate accessor range.
    let mut bytes = vec![0u8; 42];
    let mut anim_bytes: Vec<u8> = Vec::new();
    for t in [0.0f32, 2.0] {
        anim_bytes.extend_from_slice(&t.to_le_bytes());
    }
    for v in [0.0f32, 0.0, 0.0, 2.0, 0.0, 0.0] {
        anim_bytes.extend_from_slice(&v.to_le_bytes());
    }
    bytes.extend_from_slice(&anim_bytes);
    let animated = doc
        .replace(
            "\"buffers\": [{\"uri\": \"quad.bin\", \"byteLength\": 42}]",
            "\"buffers\": [{\"uri\": \"quad.bin\", \"byteLength\": 74}]",
        )
        .replace(
            "\"bufferViews\": [",
            "\"animations\": [{\"name\": \"slide\", \"samplers\": [{\"input\": 2, \"output\": 3, \"interpolation\": \"LINEAR\"}], \"channels\": [{\"sampler\": 0, \"target\": {\"node\": 0, \"path\": \"translation\"}}]}], \"bufferViews\": [",
        )
        .replace(
            "{\"buffer\": 0, \"byteOffset\": 36}",
            "{\"buffer\": 0, \"byteOffset\": 36}, {\"buffer\": 0, \"byteOffset\": 42}, {\"buffer\": 0, \"byteOffset\": 50}",
        )
        .replace(
            "{\"bufferView\": 1, \"count\": 3, \"type\": \"SCALAR\", \"componentType\": 5123}",
            "{\"bufferView\": 1, \"count\": 3, \"type\": \"SCALAR\", \"componentType\": 5123}, {\"bufferView\": 2, \"count\": 2, \"type\": \"SCALAR\", \"componentType\": 5126}, {\"bufferView\": 3, \"count\": 2, \"type\": \"VEC3\", \"componentType\": 5126}",
        );
    let resources = vec![(String::from("quad.bin"), bytes)];
    let (g, _) = load_gltf(&animated, &resources).unwrap();
    assert_eq!(g.animations.len(), 1);
    assert_eq!(g.animations[0].name, "slide");
    assert_eq!(g.animations[0].start, 0.0f32.to_bits());
    assert_eq!(g.animations[0].length, 2.0f32.to_bits());
    // Sample the clip at its midpoint and draw with the animated pose.
    let mut transforms = g.get_node_transforms();
    g.animations[0].animate_transforms(&mut transforms, 1.0f32.to_bits());
    let got = glam::Mat4::from_cols_array(&bytemuck::cast(transforms[0].transform.e));
    let expected = glam::Mat4::from_translation(glam::Vec3::new(1.0, 0.0, 0.0));
    assert!((got.to_cols_array()
        .iter()
        .zip(expected.to_cols_array().iter())
        .map(|(a, b)| (a - b).abs())
        .fold(0.0f32, f32::max))
        < 1e-6);
}

#[test]
fn unknown_accessor_element_type_is_rejected() {
    let (doc, resources) = minimal_scene();
    let bad = doc.replace("\"type\": \"SCALAR\"", "\"type\": \"MAT4\"");
    let r = load_gltf(&bad, &resources);
    assert_eq!(r.err().map(|e| e == LoadError::BadAccessorType), Some(true));
}

#[test]
fn missing_required_member_is_rejected() {
    let (doc, resources) = minimal_scene();
    let bad = doc.replace("\"materials\": [{\"name\": \"flat\"}],", "");
    let r = load_gltf(&bad, &resources);
    assert_eq!(r.err().map(|e| e == LoadError::MissingOrWrongField), Some(true));
}

#[test]
fn scene_index_out_of_range_is_rejected() {
    let (doc, resources) = minimal_scene();
    let bad = doc.replace("\"scene\": 0,", "\"scene\": 5,");
    let r = load_gltf(&bad, &resources);
    assert_eq!(r.err().map(|e| e == LoadError::RangeOutOfBounds), Some(true));
}

#[test]
fn unknown_interpolation_is_rejected() {
    let (doc, resources) = animated_scene("LINEAR");
    assert!(load_gltf(&doc, &resources).is_ok());
    let (bad, resources) = animated_scene("CUBIC");
    let r = load_gltf(&bad, &resources);
    assert_eq!(r.err().map(|e| e == LoadError::BadInterpolation), Some(true));
}

#[test]
fn unknown_animation_target_is_rejected() {
    let (doc, resources) = animated_scene("LINEAR");
    let bad = doc.replace("\"path\": \"translation\"", "\"path\": \"weights\"");
    let r = load_gltf(&bad, &resources);
    assert_eq!(r.err().map(|e| e == LoadError::BadAnimationTarget), Some(true));
}

#[test]
fn cubic_channel_with_plain_keyframes_is_rejected() {
    // A cubic-spline channel needs three keyframe values per timestamp;
    // two values for two timestamps do not fit.
    let (bad, resources) = animated_scene("CUBICSPLINE");
    let r = load_gltf(&bad, &resources);
    assert_eq!(r.err().map(|e| e == LoadError::ChannelLengthMismatch), Some(true));
}

#[test]
fn image_used_as_both_color_and_linear_data_is_rejected() {
    let (doc, resources) = minimal_scene();
    let bad = doc
        .replace("\"images\": []", "\"images\": [{\"uri\": \"px.png\"}]")
        .replace("\"textures\": []", "\"textures\": [{\"source\": 0}]")
        .replace(
            "\"materials\": [{\"name\": \"flat\"}],",
            "\"materials\": [{\"name\": \"flat\", \"pbrMetallicRoughness\": {\"baseColorTexture\": {\"index\": 0}}, \"normalTexture\": {\"index\": 0}}],",
        );
    let r = load_gltf(&bad, &resources);
    assert_eq!(r.err().map(|e| e == LoadError::InconsistentColorSpace), Some(true));
}

#[test]
fn undecodable_image_bytes_are_rejected() {
    let (doc, mut resources) = minimal_scene();
    resources.push((String::from("px.png"), vec![1, 2, 3]));
    let bad = doc
        .replace("\"images\": []", "\"images\": [{\"uri\": \"px.png\"}]")
        .replace("\"textures\": []", "\"textures\": [{\"source\": 0}]")
        .replace(
            "\"materials\": [{\"name\": \"flat\"}],",
            "\"materials\": [{\"name\": \"flat\", \"pbrMetallicRoughness\": {\"baseColorTexture\": {\"index\": 0}}}],",
        );
    let r = load_gltf(&bad, &resources);
    assert_eq!(r.err().map(|e| e == LoadError::BadImage), Some(true));
}

#[test]
fn more_than_the_light_capacity_at_load_is_fatal() {
    let (doc, resources) = minimal_scene();
    let mut nodes = String::new();
    for i in 0..33 {
        if i > 0 {
            nodes.push(',');
        }
        nodes.push_str(&format!(
            "{{\"name\": \"n{i}\", \"extensions\": {{\"KHR_lights_punctual\": {{\"light\": 0}}}}}}"
        ));
    }
    let lit = doc
        .replace(
            "\"nodes\": [{\"name\": \"quad\", \"mesh\": 0}],",
            &format!("\"nodes\": [{nodes}],"),
        )
        .replace(
            "\"buffers\":",
            "\"extensions\": {\"KHR_lights_punctual\": {\"lights\": [{\"type\": \"point\"}]}}, \"buffers\":",
        );
    let r = load_gltf(&lit, &resources);
    assert_eq!(r.err().map(|e| e == LoadError::TooManyLights), Some(true));
}

fn animated_scene(interpolation: &str) -> (String, Vec<(String, Vec<u8>)>) {
    let (doc, _) = minimal_scene();
    let mut bytes = vec![0u8; 42];
    for t in [0.0f32, 2.0] {
        bytes.extend_from_slice(&t.to_le_bytes());
    }
    for v in [0.0f32, 0.0, 0.0, 2.0, 0.0, 0.0] {
        bytes.extend_from_slice(&v.to_le_bytes());
    }
    let doc = doc
        .replace(
            "\"buffers\": [{\"uri\": \"quad.bin\", \"byteLength\": 42}]",
            "\"buffers\": [{\"uri\": \"quad.bin\", \"byteLength\": 74}]",
        )
        .replace(
            "\"bufferViews\": [",
            &format!(
                "\"animations\": [{{\"name\": \"slide\", \"samplers\": [{{\"input\": 2, \"output\": 3, \"interpolation\": \"{interpolation}\"}}], \"channels\": [{{\"sampler\": 0, \"target\": {{\"node\": 0, \"path\": \"translation\"}}}}]}}], \"bufferViews\": ["
            ),
        )
        .replace(
            "{\"buffer\": 0, \"byteOffset\": 36}",
            "{\"buffer\": 0, \"byteOffset\": 36}, {\"buffer\": 0, \"byteOffset\": 42}, {\"buffer\": 0, \"byteOffset\": 50}",
        )
        .replace(
            "{\"bufferView\": 1, \"count\": 3, \"type\": \"SCALAR\", \"componentType\": 5123}",
            "{\"bufferView\": 1, \"count\": 3, \"type\": \"SCALAR\", \"componentType\": 5123}, {\"bufferView\": 2, \"count\": 2, \"type\": \"SCALAR\", \"componentType\": 5126}, {\"bufferView\": 3, \"count\": 2, \"type\": \"VEC3\", \"componentType\": 5126}",
        );
    (doc, vec![(String::from("quad.bin"), bytes)])
}

#[test]
fn non_increasing_timestamps_are_rejected_at_load() {
    let (doc, mut resources) = animated_scene("LINEAR");
    // Overwrite the two timestamps with 2.0 then 0.0: not increasing.
    resources[0].1[42..46].copy_from_slice(&2.0f32.to_le_bytes());
    resources[0].1[46..50].copy_from_slice(&0.0f32.to_le_bytes());
    let r = load_gltf(&doc, &resources);
    assert_eq!(
        r.err().map(|e| e == LoadError::NonIncreasingTimestamps),
        Some(true)
    );
}

#[test]
fn clip_bounds_come_from_the_channel_timestamps() {
    let (doc, resources) = animated_scene("LINEAR");
    let (g, _) = load_gltf(&doc, &resources).unwrap();
    assert_eq!(g.animations[0].start, 0.0f32.to_bits());
    assert_eq!(g.animations[0].length, 2.0f32.to_bits());
}

#[test]
fn two_primitives_get_distinct_vaos_and_disjoint_index_ranges() {
    let (doc, resources) = minimal_scene();
    let two = doc.replace(
        "\"primitives\": [{\"attributes\": {\"POSITION\": 0}, \"indices\": 1, \"material\": 0}]",
        "\"primitives\": [{\"attributes\": {\"POSITION\": 0}, \"indices\": 1, \"material\": 0}, {\"attributes\": {\"POSITION\": 0}, \"indices\": 1, \"material\": 0}]",
    );
    let (g, plan) = load_gltf(&two, &resources).unwrap();
    assert_eq!(plan.vaos.len(), 2);
    assert_ne!(plan.vaos[0].vao, plan.vaos[1].vao);
    let dc0 = &g.primitives[0].draw_call;
    let dc1 = &g.primitives[1].draw_call;
    // Both draw through the one consolidated index buffer, at disjoint
    // ranges: three 16-bit indices each.
    assert_eq!(dc0.index_buffer, dc1.index_buffer);
    assert_eq!(dc0.index_byte_offset, 0);
    assert_eq!(dc1.index_byte_offset, 6);
}

#[test]
fn referenced_images_are_decoded_with_a_full_mip_chain() {
    let (doc, mut resources) = minimal_scene();
    // A real 2x2 image, encoded on the spot.
    let img = image::DynamicImage::ImageRgb8(image::RgbImage::new(2, 2));
    let mut png_bytes: Vec<u8> = Vec::new();
    img.write_to(
        &mut std::io::Cursor::new(&mut png_bytes),
        image::ImageFormat::Png,
    )
    .unwrap();
    resources.push((String::from("px.png"), png_bytes));
    let textured = doc
        .replace("\"images\": []", "\"images\": [{\"uri\": \"px.png\"}]")
        .replace("\"textures\": []", "\"textures\": [{\"source\": 0}]")
        .replace(
            "\"materials\": [{\"name\": \"flat\"}],",
            "\"materials\": [{\"name\": \"flat\", \"pbrMetallicRoughness\": {\"baseColorTexture\": {\"index\": 0}}}],",
        );
    let (g, plan) = load_gltf(&textured, &resources).unwrap();
    // The decoded image plus the three flat fallbacks.
    assert_eq!(plan.textures.len(), 4);
    assert_eq!(plan.textures[0].texture, 1);
    // Two mip levels: 2x2 and 1x1, gamma-encoded since it is color data.
    assert_eq!(plan.textures[0].levels.len(), 2);
    assert_eq!(
        (plan.textures[0].levels[0].width, plan.textures[0].levels[0].height),
        (2, 2)
    );
    assert_eq!(
        (plan.textures[0].levels[1].width, plan.textures[0].levels[1].height),
        (1, 1)
    );
    assert_eq!(plan.textures[0].levels[0].bytes.len(), 12);
    assert_eq!(plan.textures[0].levels[1].bytes.len(), 3);
    // The material binds the decoded texture in the base-color unit.
    assert_eq!(g.materials[0].uniforms.textures[0].map(|t| t.1), Some(1));
}
