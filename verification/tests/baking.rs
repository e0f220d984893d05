//! The import pipeline: the baker round trip and index/vertex buffer
//! classification.

use glscene::baker::{
    AccessorDef, BufferViewDef, GltfDocument, MaterialDef, MeshDef, NodeDef, PrimitiveDef,
    SceneDef, TransformDef,
};
use glscene::device::DeviceCall;
use glscene::error::BakeError;
use glscene::gl::{AttributeName, BufferTarget, TypedArrayKind};
use glscene::mat4::{Quat, Vec3};
use glscene::renderer::Renderer;

fn float3_accessor(view: usize, count: i32) -> AccessorDef {
    AccessorDef {
        view: Some(view),
        sparse: false,
        count,
        component_type: TypedArrayKind::Float32,
        item_size: 3,
        normalized: false,
        offset: 0,
    }
}

fn identity_node(mesh: Option<usize>) -> NodeDef {
    NodeDef {
        transform: TransformDef::Decomposed {
            translation: Vec3::zero(),
            rotation: Quat::identity(),
            scale: Vec3::new(1, 1, 1),
        },
        mesh,
        children: Vec::new(),
        name: None,
    }
}

/// One buffer, one float3 position accessor without indices, one
/// mesh/primitive over it, one node carrying the mesh, one scene listing
/// that node.
fn synthetic_document() -> GltfDocument {
    GltfDocument {
        blob: vec![0u8; 36],
        buffer_views: vec![BufferViewDef { offset: 0, length: 36, stride: 0 }],
        accessors: vec![float3_accessor(0, 3)],
        materials: vec![MaterialDef { name: None }],
        meshes: vec![MeshDef {
            primitives: vec![PrimitiveDef {
                attributes: vec![(AttributeName::Position, 0)],
                indices: None,
                material: Some(0),
            }],
            name: Some(String::from("tri")),
        }],
        nodes: vec![identity_node(Some(0))],
        scenes: vec![SceneDef { nodes: vec![0] }],
    }
}

#[test]
fn baker_round_trip() {
    let mut renderer = Renderer::new();
    let doc = synthetic_document();
    let roots = renderer.bake_gltf(&doc).expect("bake succeeds");
    assert_eq!(roots.len(), 1);

    // The scene root has exactly one child: the baked node.
    let root_node = renderer.scene.get_node(roots[0]).expect("root resolves");
    assert_eq!(root_node.children.len(), 1);
    let child = root_node.children[0];
    let node = renderer.scene.get_node(child).expect("child resolves");
    assert_eq!(node.parent, Some(roots[0]));

    // The child's mesh has one primitive with a Position attribute, no
    // indices, and the accessor's element count as its vertex count.
    let mesh_handle = node.mesh.expect("node carries the mesh");
    let mesh = renderer.meshes.get(mesh_handle).expect("mesh resolves");
    assert_eq!(mesh.primitives.len(), 1);
    let prim = &mesh.primitives[0];
    assert_eq!(prim.attributes.len(), 1);
    assert!(prim.attributes[0].0.matches(&AttributeName::Position));
    assert!(prim.indices.is_none());
    assert_eq!(prim.count, 3);
    assert!(prim.material.is_some());

    // The position accessor resolves and keeps its layout.
    let accessor = renderer.accessors.get(prim.attributes[0].1).expect("accessor resolves");
    assert_eq!(accessor.count, 3);
    assert_eq!(accessor.options.item_size, 3);
    assert!(renderer.buffers.get(accessor.buffer).is_some());
}

/// One accessor used as indices by the primitive and a distinct accessor
/// used as positions: the first backs an element-array buffer, the second
/// a plain array buffer.
#[test]
fn index_and_vertex_buffers_classified() {
    let mut renderer = Renderer::new();
    let doc = GltfDocument {
        blob: vec![1u8; 48],
        buffer_views: vec![
            BufferViewDef { offset: 0, length: 12, stride: 0 },
            BufferViewDef { offset: 12, length: 36, stride: 0 },
        ],
        accessors: vec![
            AccessorDef {
                view: Some(0),
                sparse: false,
                count: 6,
                component_type: TypedArrayKind::Uint16,
                item_size: 1,
                normalized: false,
                offset: 0,
            },
            float3_accessor(1, 3),
        ],
        materials: vec![],
        meshes: vec![MeshDef {
            primitives: vec![PrimitiveDef {
                attributes: vec![(AttributeName::Position, 1)],
                indices: Some(0),
                material: None,
            }],
            name: None,
        }],
        nodes: vec![identity_node(Some(0))],
        scenes: vec![SceneDef { nodes: vec![0] }],
    };
    renderer.bake_gltf(&doc).expect("bake succeeds");

    let calls = renderer.device.take_calls();
    let mut created: Vec<(BufferTarget, usize)> = Vec::new();
    for call in &calls {
        if let DeviceCall::CreateBuffer { target, data, .. } = call {
            created.push((*target, data.len()));
        }
    }
    assert_eq!(created.len(), 2);
    // The index accessor's view came first and is an element-array buffer.
    assert_eq!(created[0].0, BufferTarget::ElementArrayBuffer);
    assert_eq!(created[0].1, 12);
    assert_eq!(created[1].0, BufferTarget::ArrayBuffer);
    assert_eq!(created[1].1, 36);
}

#[test]
fn shared_views_create_one_buffer() {
    let mut renderer = Renderer::new();
    let doc = GltfDocument {
        blob: vec![2u8; 24],
        buffer_views: vec![BufferViewDef { offset: 0, length: 24, stride: 12 }],
        accessors: vec![float3_accessor(0, 2), float3_accessor(0, 2)],
        materials: vec![],
        meshes: vec![],
        nodes: vec![],
        scenes: vec![],
    };
    let handles = renderer.create_gltf_accessors(&doc).expect("accessors bake");
    assert_eq!(handles.len(), 2);
    let a0 = *renderer.accessors.get(handles[0]).unwrap();
    let a1 = *renderer.accessors.get(handles[1]).unwrap();
    assert_eq!(a0.buffer, a1.buffer);
    assert_eq!(a0.options.stride, 12);
    let calls = renderer.device.take_calls();
    let buffers = calls
        .iter()
        .filter(|c| matches!(c, DeviceCall::CreateBuffer { .. }))
        .count();
    assert_eq!(buffers, 1);
}

#[test]
fn sparse_accessors_fail_the_import() {
    let mut renderer = Renderer::new();
    let mut doc = synthetic_document();
    doc.accessors[0].sparse = true;
    assert_eq!(renderer.bake_gltf(&doc), Err(BakeError::UnsupportedSparseAccessor));
}

#[test]
fn matrix_transforms_fail_the_import() {
    let mut renderer = Renderer::new();
    let mut doc = synthetic_document();
    doc.nodes[0].transform = TransformDef::Matrix(glscene::mat4::Mat4::identity());
    assert_eq!(renderer.bake_gltf(&doc), Err(BakeError::UnsupportedMatrixTransform));
}

#[test]
fn bad_references_fail_the_import() {
    let mut renderer = Renderer::new();
    let mut doc = synthetic_document();
    doc.meshes[0].primitives[0].attributes[0].1 = 7;
    assert_eq!(renderer.bake_gltf(&doc), Err(BakeError::BadReference));

    let mut renderer = Renderer::new();
    let mut doc = synthetic_document();
    doc.accessors[0].view = Some(9);
    assert_eq!(renderer.bake_gltf(&doc), Err(BakeError::BadReference));

    let mut renderer = Renderer::new();
    let mut doc = synthetic_document();
    doc.buffer_views[0].length = 99;
    assert_eq!(renderer.bake_gltf(&doc), Err(BakeError::BadReference));

    let mut renderer = Renderer::new();
    let mut doc = synthetic_document();
    doc.scenes[0].nodes = vec![5];
    assert_eq!(renderer.bake_gltf(&doc), Err(BakeError::BadReference));
}

#[test]
fn error_descriptions_name_the_failure() {
    assert_eq!(
        BakeError::UnsupportedSparseAccessor.describe(),
        String::from("unsupported feature: sparse accessor"),
    );
    assert_eq!(
        BakeError::UnsupportedMatrixTransform.describe(),
        String::from("unsupported feature: matrix node transform"),
    );
}
