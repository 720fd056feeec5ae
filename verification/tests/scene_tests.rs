use rendercore::animation::NodeTransform;
use rendercore::draw_calls::{DrawCalls, GlCommand, UniformBlockLights, Uniforms};
use rendercore::font::FontRenderer;
use rendercore::gltf::{Gltf, Material, Mesh, Node, Primitive, Scene};
use rendercore::gpu::{GL_CCW, GL_CW, GL_TRIANGLES, GL_UNSIGNED_SHORT};
use rendercore::json::parse_json;
use rendercore::mat::Mat4Bits;

fn mat_bits(m: glam::Mat4) -> Mat4Bits {
    Mat4Bits { e: bytemuck::cast(m.to_cols_array()) }
}

fn tiny_scene_graph() -> Gltf {
    let draw_call = rendercore::draw_calls::DrawCall {
        vao: 1,
        mode: GL_TRIANGLES,
        index_buffer: 2,
        index_type: GL_UNSIGNED_SHORT,
        index_byte_offset: 0,
        index_count: 3,
        disabled_all_ones_vertex_attribute: None,
        front_face: GL_CCW,
    };
    let uniforms = Uniforms { textures: [None, None, None, None, None], ubos: [None, None] };
    Gltf {
        scene: 0,
        animations: vec![],
        scenes: vec![Scene { node_indices: vec![0] }],
        nodes: vec![
            Node {
                name: String::from("root"),
                transform: Mat4Bits::identity(),
                original_transform: Mat4Bits::identity(),
                mesh_index: Some(0),
                child_node_indices: vec![1],
            },
            Node {
                name: String::from("child"),
                transform: mat_bits(glam::Mat4::from_translation(glam::Vec3::new(0.0, 1.0, 0.0))),
                original_transform: Mat4Bits::identity(),
                mesh_index: Some(0),
                child_node_indices: vec![],
            },
        ],
        meshes: vec![Mesh { primitive_indices: vec![0] }],
        materials: vec![Material { name: String::from("m"), uniforms }],
        primitives: vec![Primitive { draw_call, material_index: 0 }],
        lights: UniformBlockLights { lights: vec![] },
    }
}

fn instanced_counts(cmds: &[GlCommand]) -> Vec<usize> {
    cmds.iter()
        .filter_map(|c| match c {
            GlCommand::DrawElementsInstanced { instance_count, .. } => Some(*instance_count),
            _ => None,
        })
        .collect()
}

#[test]
fn traversal_collects_parent_and_child_into_one_batch() {
    let g = tiny_scene_graph();
    let mut dc = DrawCalls::new(1);
    g.draw(&mut dc, &Mat4Bits::identity());
    let cmds = dc.draw([6, 7, 8, 9], [10, 11, 12, 13]);
    // Both nodes share the one (uniforms, draw call) pair: one instanced
    // draw of two instances.
    assert_eq!(instanced_counts(&cmds), vec![2]);
}

#[test]
fn mirrored_instances_flip_the_front_face() {
    let mut g = tiny_scene_graph();
    g.nodes[1].transform = mat_bits(glam::Mat4::from_scale(glam::Vec3::new(-1.0, 1.0, 1.0)));
    // A flipped winding makes a second, distinct draw-call key.
    let mut dc = DrawCalls::new(1);
    g.draw(&mut dc, &Mat4Bits::identity());
    let cmds = dc.draw([6, 7, 8, 9], [10, 11, 12, 13]);
    assert_eq!(instanced_counts(&cmds), vec![1, 1]);
    let windings: Vec<u32> = cmds
        .iter()
        .filter_map(|c| match c {
            GlCommand::SetFrontFace { mode } => Some(*mode),
            _ => None,
        })
        .collect();
    assert_eq!(windings, vec![GL_CCW, GL_CW]);
}

#[test]
fn node_transforms_carry_names_and_matrices() {
    let g = tiny_scene_graph();
    let transforms = g.get_node_transforms();
    assert_eq!(transforms.len(), 2);
    assert_eq!(transforms[0].name, "root");
    assert_eq!(transforms[1].name, "child");
    assert_eq!(transforms[0].transform, g.nodes[0].transform);
}

#[test]
fn draw_animated_substitutes_supplied_transforms() {
    let g = tiny_scene_graph();
    let substituted = vec![
        NodeTransform {
            name: String::from("root"),
            transform: mat_bits(glam::Mat4::from_translation(glam::Vec3::new(5.0, 0.0, 0.0))),
        },
        NodeTransform { name: String::from("child"), transform: Mat4Bits::identity() },
    ];
    let mut dc = DrawCalls::new(1);
    g.draw_animated(&mut dc, &Mat4Bits::identity(), &substituted);
    let cmds = dc.draw([6, 7, 8, 9], [10, 11, 12, 13]);
    assert_eq!(instanced_counts(&cmds), vec![2]);
    // The first staged instance transform is the substituted root matrix.
    let staged = dc.staged();
    let expected: [u8; 64] =
        bytemuck::cast(glam::Mat4::from_translation(glam::Vec3::new(5.0, 0.0, 0.0)).to_cols_array());
    assert_eq!(&staged[2048..2112], &expected);
}

#[test]
fn copy_lights_from_takes_the_second_buffer_slot() {
    let mut a = tiny_scene_graph();
    let mut b = tiny_scene_graph();
    b.materials[0].uniforms.ubos[1] = Some((1, 42, 64, 2048));
    a.copy_lights_from(&b);
    assert_eq!(a.materials[0].uniforms.ubos[1], Some((1, 42, 64, 2048)));
    assert_eq!(a.materials[0].uniforms.ubos[0], None);
}

#[test]
fn json_model_reads_members_arrays_and_numbers() {
    let doc = parse_json("{\"a\": 3, \"b\": [1.5, true, \"x\"], \"c\": null}").unwrap();
    assert_eq!(doc.member("a").unwrap().as_usize(), Some(3));
    let arr = doc.member("b").unwrap().as_array().unwrap();
    assert_eq!(arr.len(), 3);
    assert_eq!(arr[0].as_f32_bits(), Some(1.5f32.to_bits()));
    assert_eq!(arr[1].as_bool(), Some(true));
    assert_eq!(arr[2].as_string().map(|s| s.as_str()), Some("x"));
    assert!(doc.member("missing").is_none());
    assert!(parse_json("{nope").is_none());
}

#[test]
fn font_renderer_rejects_bytes_that_are_no_font() {
    let r = FontRenderer::new(1, 2, 3, 4, 5, 6, 7, &vec![1, 2, 3, 4]);
    assert!(r.is_none());
}
