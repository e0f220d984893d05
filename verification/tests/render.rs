//! Frame rendering: the recorded draw protocol, its error taxonomy, and
//! render passes.

use glscene::device::DeviceCall;
use glscene::error::RenderError;
use glscene::gl::{AttributeName, BufferTarget, BufferUsage, DrawMode, TypedArrayKind};
use glscene::material::{Color3, DebugMaterial, Material};
use glscene::pass::{Color4, Pass, PassAction};
use glscene::renderer::Renderer;
use glscene::scene::Node;
use glscene::shader::Shader;
use glscene::store::{Accessor, Camera, Mesh, Primitive};

/// A renderer with one triangle under a debug material, its shader
/// installed, and a default camera.
fn triangle_scene() -> (Renderer, glscene::arena::Handle, glscene::arena::Handle) {
    let mut renderer = Renderer::new();
    let buffer = renderer.insert_buffer_bytes(
        BufferTarget::ArrayBuffer,
        BufferUsage::StaticDraw,
        TypedArrayKind::Float32,
        vec![0u8; 36],
    );
    let accessor = renderer.insert_accessor(Accessor {
        buffer,
        count: 3,
        options: glscene::gl::AttributeOptions::new(TypedArrayKind::Float32, 3),
    });
    let material = Material::Debug(DebugMaterial::new(Color3::new(255, 0, 0)));
    let material_handle = renderer.insert_material(material);
    renderer.checkup_shader(
        &material,
        Shader::new(
            42,
            vec![(String::from("position"), 0u32)],
            vec![(String::from("color"), 3u32)],
        ),
    );
    let mesh = renderer.insert_mesh(Mesh {
        primitives: vec![Primitive {
            attributes: vec![(AttributeName::Position, accessor)],
            indices: None,
            material: Some(material_handle),
            count: 3,
        }],
        name: None,
    });
    let root = renderer.scene.get_root_handle();
    let mut node = Node::new(Some(root));
    node.mesh = Some(mesh);
    let node_handle = renderer.scene.insert(node);
    let camera = renderer.insert_camera(Camera::default());
    (renderer, node_handle, camera)
}

#[test]
fn a_frame_records_the_draw_protocol() {
    let (mut renderer, _node, camera) = triangle_scene();
    let root = renderer.scene.get_root_handle();
    renderer.scene.update_matrix_world();
    // Drain the setup calls (extension query, buffer upload): the frame
    // protocol alone is under test.
    renderer.device.take_calls();
    renderer.render_scene(root, camera).expect("frame renders");

    let calls = renderer.device.take_calls();
    let frame: Vec<&DeviceCall> = calls.iter().collect();
    assert!(matches!(frame[0], DeviceCall::UseProgram { program: 42 }));
    assert!(matches!(
        frame[1],
        DeviceCall::SetUniformColor { location: 3, r: 255, g: 0, b: 0 }
    ));
    // Draw parameters, the attribute binding, one enable, the draw.
    assert!(frame.iter().any(|c| matches!(c, DeviceCall::Enable { .. })));
    assert!(frame.iter().any(|c| matches!(
        c,
        DeviceCall::VertexAttribPointer { location: 0, item_size: 3, .. }
    )));
    assert!(frame.iter().any(|c| matches!(
        c,
        DeviceCall::EnableVertexAttribArray { location: 0 }
    )));
    match frame.last().unwrap() {
        DeviceCall::DrawArrays { mode, first, count } => {
            assert_eq!(*mode, DrawMode::Triangles);
            assert_eq!(*first, 0);
            assert_eq!(*count, 3);
        },
        other => panic!("expected a non-indexed draw, got {:?}", other),
    }
}

#[test]
fn missing_shader_aborts_the_frame() {
    let (mut renderer, _node, camera) = triangle_scene();
    // A fresh renderer without the installed shader misses the cache.
    let mut bare = Renderer::new();
    let buffer = bare.insert_buffer_bytes(
        BufferTarget::ArrayBuffer,
        BufferUsage::StaticDraw,
        TypedArrayKind::Float32,
        vec![0u8; 36],
    );
    let accessor = bare.insert_accessor(Accessor {
        buffer,
        count: 3,
        options: glscene::gl::AttributeOptions::new(TypedArrayKind::Float32, 3),
    });
    let material_handle =
        bare.insert_material(Material::Debug(DebugMaterial::new(Color3::new(1, 1, 1))));
    let mesh = bare.insert_mesh(Mesh {
        primitives: vec![Primitive {
            attributes: vec![(AttributeName::Position, accessor)],
            indices: None,
            material: Some(material_handle),
            count: 3,
        }],
        name: None,
    });
    let root = bare.scene.get_root_handle();
    let mut node = Node::new(Some(root));
    node.mesh = Some(mesh);
    bare.scene.insert(node);
    let camera2 = bare.insert_camera(Camera::default());
    assert_eq!(bare.render_scene(root, camera2), Err(RenderError::MissingShader));

    // A dead camera handle aborts with a stale handle.
    let root = renderer.scene.get_root_handle();
    let dead_camera = glscene::arena::Handle { index: camera.index, generation: camera.generation + 1 };
    assert_eq!(renderer.render_scene(root, dead_camera), Err(RenderError::StaleHandle));
    assert_eq!(
        RenderError::MissingShader.describe(),
        String::from("missing shader for material tag"),
    );
}

#[test]
fn a_pass_clears_and_restores() {
    let (mut renderer, _node, camera) = triangle_scene();
    let root = renderer.scene.get_root_handle();
    renderer.scene.update_matrix_world();
    renderer.device.take_calls();

    let target = renderer.bake_render_target(64, 64, glscene::store::Sampler::default(), true);
    renderer.device.take_calls();

    let pass = Pass::new()
        .set_background_color(Color4 { r: 0, g: 0, b: 0, a: 255 })
        .set_render_target_handle(Some(target))
        .set_action(PassAction::RenderScene { root, camera });
    pass.render(&mut renderer).expect("pass renders");

    let calls = renderer.device.take_calls();
    assert!(matches!(calls[0], DeviceCall::BindFramebuffer { framebuffer: Some(_) }));
    assert!(matches!(
        calls[1],
        DeviceCall::ClearColor { r: 0, g: 0, b: 0, a: 255 }
    ));
    assert!(matches!(calls[2], DeviceCall::Clear { color: true, depth: true }));
    assert!(matches!(calls.last().unwrap(), DeviceCall::BindFramebuffer { framebuffer: None }));
}

#[test]
fn baked_render_targets_wire_their_textures() {
    let mut renderer = Renderer::new();
    renderer.device.take_calls();
    let th = renderer.bake_render_target(128, 32, glscene::store::Sampler::default(), true);
    let target = *renderer.targets.get(th).expect("target resolves");
    assert!(renderer.framebuffers.get(target.fb).is_some());
    let color = renderer.textures.get(target.color_texture).expect("color texture");
    assert!(renderer.images.get(color.source).is_some());
    assert!(renderer.samplers.get(color.sampler).is_some());
    let depth = target.depth_texture.expect("depth texture present");
    assert!(renderer.textures.get(depth).is_some());

    let calls = renderer.device.take_calls();
    assert!(matches!(calls[0], DeviceCall::CreateFramebuffer { .. }));
    assert_eq!(calls.len(), 11);
}

#[test]
fn tri_mesh_baking_builds_one_primitive() {
    let mut renderer = Renderer::new();
    let tri = glscene::mesh::TriMeshData {
        positions: vec![0u8; 36],
        vertex_count: 3,
        normals: Some(vec![0u8; 36]),
        uvs: None,
        indices: vec![0, 1, 2],
        index_count: 3,
    };
    let mh = renderer.bake_tri_mesh(&tri, None, Some(String::from("tri")));
    let mesh = renderer.meshes.get(mh).expect("mesh resolves");
    assert_eq!(mesh.primitives.len(), 1);
    let prim = &mesh.primitives[0];
    assert_eq!(prim.attributes.len(), 2);
    assert!(prim.attributes[0].0.matches(&AttributeName::Position));
    assert!(prim.attributes[1].0.matches(&AttributeName::Normal));
    let index_accessor = prim.indices.expect("index accessor");
    assert_eq!(renderer.accessors.get(index_accessor).unwrap().count, 3);
    assert_eq!(prim.count, 3);
}

#[test]
fn a_new_renderer_requires_the_index_extension() {
    let mut renderer = Renderer::new();
    let calls = renderer.device.take_calls();
    assert_eq!(calls.len(), 1);
    match &calls[0] {
        DeviceCall::GetExtension { name } => {
            assert_eq!(name, &String::from("OES_element_index_uint"));
        },
        other => panic!("expected the extension query, got {:?}", other),
    }
}
