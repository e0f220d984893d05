//! Triangle-mesh baking for procedurally built geometry: positions,
//! optional normals and UVs, and a unified index list become buffers,
//! accessors and a one-primitive mesh.

use vstd::prelude::*;

use crate::arena::Handle;
use crate::device::DeviceCall;
use crate::gl::{AttributeName, BufferTarget, BufferUsage, TypedArrayKind};
use crate::renderer::{spec_items_bytes, Renderer};
use crate::store::{Mesh, Primitive};

verus! {

/// A triangle mesh as plain data: flattened vertex attributes as raw
/// little-endian floats, and one unified triangle index list (the type
/// carries no split index buffers, which the renderer does not support).
/// The counts are the data's own: `vertex_count` vertices of 12 position
/// bytes (and 12 normal / 8 UV bytes when present), `index_count` entries
/// in `indices`.
#[derive(Debug)]
pub struct TriMeshData {
    /// The flattened positions (three components per vertex), as bytes.
    pub positions: Vec<u8>,
    /// Number of vertices the position data holds.
    pub vertex_count: i32,
    /// Optional flattened normals (three components per vertex), as bytes.
    pub normals: Option<Vec<u8>>,
    /// Optional flattened texture coordinates (two per vertex), as bytes.
    pub uvs: Option<Vec<u8>>,
    /// The unified triangle indices.
    pub indices: Vec<u32>,
    /// Number of indices (three per triangle).
    pub index_count: i32,
}

/// Copies a byte slice into an owned vector.
fn clone_bytes(data: &Vec<u8>) -> (r: Vec<u8>)
    ensures
        r@ == data@,
{
    let mut r: Vec<u8> = Vec::new();
    let mut k: usize = 0;
    while k < data.len()
        invariant
            k <= data@.len(),
            r@ == data@.subrange(0, k as int),
        decreases data@.len() - k,
    {
        r.push(data[k]);
        k = k + 1;
        proof {
            assert(r@ =~= data@.subrange(0, k as int));
        }
    }
    proof {
        assert(data@.subrange(0, data@.len() as int) =~= data@);
    }
    r
}

/// How many vertex-attribute buffers a tri-mesh's optional parts add.
pub open spec fn spec_tri_extra(tri: &TriMeshData) -> int {
    (if tri.normals is Some {
        1int
    } else {
        0int
    }) + (if tri.uvs is Some {
        1int
    } else {
        0int
    })
}

/// The device uploads a tri-mesh bake records, checked position by
/// position against the log: float vertex buffers on the array target, the
/// index list on the element-array target.
pub open spec fn spec_tri_mesh_uploads(
    tri: &TriMeshData,
    old_calls: Seq<DeviceCall>,
    calls: Seq<DeviceCall>,
) -> bool {
    let n0 = old_calls.len() as int;
    let nn: int = if tri.normals is Some {
        1int
    } else {
        0int
    };
    &&& calls.len() == n0 + 2 + spec_tri_extra(tri)
    &&& calls.subrange(0, n0) == old_calls
    &&& calls[n0] is CreateBuffer
    &&& calls[n0]->CreateBuffer_target == BufferTarget::ArrayBuffer
    &&& calls[n0]->CreateBuffer_usage == BufferUsage::StaticDraw
    &&& calls[n0]->CreateBuffer_kind == TypedArrayKind::Float32
    &&& calls[n0]->CreateBuffer_data@ == tri.positions@
    &&& (tri.normals is Some ==> calls[n0 + 1] is CreateBuffer && calls[n0
        + 1]->CreateBuffer_target == BufferTarget::ArrayBuffer && calls[n0
        + 1]->CreateBuffer_kind == TypedArrayKind::Float32 && calls[n0 + 1]->CreateBuffer_data@
        == tri.normals->0@)
    &&& (tri.uvs is Some ==> calls[n0 + 1 + nn] is CreateBuffer && calls[n0 + 1
        + nn]->CreateBuffer_target == BufferTarget::ArrayBuffer && calls[n0 + 1
        + nn]->CreateBuffer_kind == TypedArrayKind::Float32 && calls[n0 + 1
        + nn]->CreateBuffer_data@ == tri.uvs->0@)
    &&& calls.last() is CreateBuffer
    &&& calls.last()->CreateBuffer_target == BufferTarget::ElementArrayBuffer
    &&& calls.last()->CreateBuffer_usage == BufferUsage::StaticDraw
    &&& calls.last()->CreateBuffer_kind == TypedArrayKind::Uint32
    &&& calls.last()->CreateBuffer_data@ == spec_items_bytes(tri.indices@)
}

impl Renderer {
    /// Bakes a triangle mesh's buffers and accessors into one primitive:
    /// the device log gains one array-target upload per present vertex
    /// attribute (positions, then normals, then UVs) and one element-array
    /// upload of the index list, and the primitive maps a Position (plus
    /// Normal/Uv when present) attribute and an index accessor over them;
    /// the primitive's own vertex count is the position count.
    pub fn bake_tri_mesh_geometry(&mut self, tri: &TriMeshData) -> (r: Primitive)
        requires
            old(self).wf(),
            tri.vertex_count >= 0,
            tri.positions@.len() == 12 * tri.vertex_count,
            tri.normals is Some ==> tri.normals->0@.len() == 12 * tri.vertex_count,
            tri.uvs is Some ==> tri.uvs->0@.len() == 8 * tri.vertex_count,
            tri.index_count == tri.indices@.len(),
        ensures
            final(self).wf(),
            spec_tri_mesh_uploads(tri, old(self).device.calls(), final(self).device.calls()),
            final(self).device.attrib_count() == old(self).device.attrib_count(),
            r@.attributes.len() == 1 + spec_tri_extra(tri),
            r@.attributes[0].0 is Position,
            final(self).accessors@.contains_key(r@.attributes[0].1),
            ({
                let acc = final(self).accessors@[r@.attributes[0].1];
                &&& acc.count == tri.vertex_count
                &&& acc.options.component_type == TypedArrayKind::Float32
                &&& acc.options.item_size == 3
                &&& final(self).buffers@.contains_key(acc.buffer)
                &&& final(self).buffers@[acc.buffer] == final(self).device.calls()[
                    old(self).device.calls().len() as int
                ]->CreateBuffer_buffer
            }),
            tri.normals is Some ==> r@.attributes[1].0 is Normal
                && final(self).accessors@.contains_key(r@.attributes[1].1),
            tri.uvs is Some ==> r@.attributes[r@.attributes.len() - 1].0 is Uv
                && final(self).accessors@.contains_key(r@.attributes[r@.attributes.len() - 1].1),
            r@.indices is Some,
            final(self).accessors@.contains_key(r@.indices->0),
            ({
                let acc = final(self).accessors@[r@.indices->0];
                &&& acc.count == tri.index_count
                &&& acc.options.component_type == TypedArrayKind::Uint32
                &&& final(self).buffers@.contains_key(acc.buffer)
                &&& final(self).buffers@[acc.buffer]
                    == final(self).device.calls().last()->CreateBuffer_buffer
            }),
            r@.material is None,
            r@.count == tri.vertex_count,
            final(self).materials == old(self).materials,
            final(self).samplers == old(self).samplers,
            final(self).textures == old(self).textures,
            final(self).images == old(self).images,
            final(self).meshes == old(self).meshes,
            final(self).cameras == old(self).cameras,
            final(self).framebuffers == old(self).framebuffers,
            final(self).targets == old(self).targets,
            final(self).scene == old(self).scene,
            final(self).shaders == old(self).shaders,
    {
        let ghost calls0 = self.device.calls();
        let mut attributes: Vec<(AttributeName, Handle)> = Vec::new();
        let position_accessor = self.bake_buffer_accessor_bytes(
            BufferTarget::ArrayBuffer,
            clone_bytes(&tri.positions),
            TypedArrayKind::Float32,
            3,
            tri.vertex_count,
        );
        attributes.push((AttributeName::Position, position_accessor));
        let ghost n0 = calls0.len() as int;
        let ghost pos_call = self.device.calls().last();
        let ghost pos_acc_val = self.accessors@[position_accessor];
        let ghost pos_buf = pos_acc_val.buffer;
        proof {
            assert(self.buffers@[pos_buf] == pos_call->CreateBuffer_buffer);
            assert(self.device.calls()[n0] == pos_call);
        }
        let ghost norm_call_index = self.device.calls().len() as int;
        if let Some(normals) = &tri.normals {
            let normal_accessor = self.bake_buffer_accessor_bytes(
                BufferTarget::ArrayBuffer,
                clone_bytes(normals),
                TypedArrayKind::Float32,
                3,
                tri.vertex_count,
            );
            attributes.push((AttributeName::Normal, normal_accessor));
            proof {
                assert(self.accessors@[position_accessor] == pos_acc_val);
                assert(self.buffers@[pos_buf] == pos_call->CreateBuffer_buffer);
                assert(self.device.calls()[n0] == pos_call);
                assert(self.device.calls()[norm_call_index] is CreateBuffer);
            }
        }
        let ghost uv_call_index = self.device.calls().len() as int;
        if let Some(uvs) = &tri.uvs {
            let uv_accessor = self.bake_buffer_accessor_bytes(
                BufferTarget::ArrayBuffer,
                clone_bytes(uvs),
                TypedArrayKind::Float32,
                2,
                tri.vertex_count,
            );
            attributes.push((AttributeName::Uv, uv_accessor));
            proof {
                assert(self.accessors@[position_accessor] == pos_acc_val);
                assert(self.buffers@[pos_buf] == pos_call->CreateBuffer_buffer);
                assert(self.device.calls()[n0] == pos_call);
                if tri.normals is Some {
                    assert(self.device.calls()[norm_call_index] is CreateBuffer);
                    assert(self.device.calls()[norm_call_index]->CreateBuffer_data@
                        == tri.normals->0@);
                }
                assert(self.device.calls()[uv_call_index] is CreateBuffer);
            }
        }
        let index_accessor = self.bake_buffer_accessor(
            BufferTarget::ElementArrayBuffer,
            tri.indices.as_slice(),
            1,
            tri.index_count,
        );
        proof {
            assert(self.accessors@[position_accessor] == pos_acc_val);
            assert(self.buffers@[pos_buf] == pos_call->CreateBuffer_buffer);
            let calls = self.device.calls();
            assert(calls.subrange(0, n0) =~= calls0);
            assert(calls[n0] == pos_call);
            if tri.normals is Some {
                assert(norm_call_index == n0 + 1);
                assert(calls[n0 + 1] is CreateBuffer);
                assert(calls[n0 + 1]->CreateBuffer_data@ == tri.normals->0@);
            }
            if tri.uvs is Some {
                assert(uv_call_index == n0 + 1 + (if tri.normals is Some {
                    1int
                } else {
                    0int
                }));
                assert(calls[uv_call_index] is CreateBuffer);
                assert(calls[uv_call_index]->CreateBuffer_data@ == tri.uvs->0@);
            }
            assert(calls.last() is CreateBuffer);
            assert(self.buffers@[self.accessors@[index_accessor].buffer]
                == calls.last()->CreateBuffer_buffer);
        }
        Primitive {
            attributes,
            indices: Some(index_accessor),
            material: None,
            count: tri.vertex_count,
        }
    }

    /// Bakes a triangle mesh: its geometry as one primitive carrying the
    /// given material, wrapped in a mesh under the given name; the device
    /// log gains exactly the geometry's buffer uploads.
    pub fn bake_tri_mesh(
        &mut self,
        tri: &TriMeshData,
        material: Option<Handle>,
        name: Option<String>,
    ) -> (r: Handle)
        requires
            old(self).wf(),
            tri.vertex_count >= 0,
            tri.positions@.len() == 12 * tri.vertex_count,
            tri.normals is Some ==> tri.normals->0@.len() == 12 * tri.vertex_count,
            tri.uvs is Some ==> tri.uvs->0@.len() == 8 * tri.vertex_count,
            tri.index_count == tri.indices@.len(),
        ensures
            final(self).wf(),
            spec_tri_mesh_uploads(tri, old(self).device.calls(), final(self).device.calls()),
            final(self).device.attrib_count() == old(self).device.attrib_count(),
            !old(self).meshes.issued().contains(r),
            final(self).meshes@.contains_key(r),
            final(self).meshes@[r]@.primitives.len() == 1,
            ({
                let prim = final(self).meshes@[r]@.primitives[0]@;
                &&& prim.material == material
                &&& prim.count == tri.vertex_count
                &&& prim.indices is Some
                &&& final(self).accessors@.contains_key(prim.indices->0)
                &&& final(self).accessors@[prim.indices->0].count == tri.index_count
                &&& prim.attributes.len() == 1 + spec_tri_extra(tri)
                &&& prim.attributes[0].0 is Position
                &&& final(self).accessors@.contains_key(prim.attributes[0].1)
                &&& final(self).accessors@[prim.attributes[0].1].count == tri.vertex_count
            }),
            final(self).meshes@[r]@.name == (match name {
                Some(ref s) => Some(s@),
                None => None::<Seq<char>>,
            }),
            final(self).materials == old(self).materials,
            final(self).samplers == old(self).samplers,
            final(self).textures == old(self).textures,
            final(self).images == old(self).images,
            final(self).cameras == old(self).cameras,
            final(self).framebuffers == old(self).framebuffers,
            final(self).targets == old(self).targets,
            final(self).scene == old(self).scene,
            final(self).shaders == old(self).shaders,
    {
        let mut primitive = self.bake_tri_mesh_geometry(tri);
        primitive.material = material;
        let mesh = Mesh { primitives: vec![primitive], name };
        self.meshes.insert(mesh)
    }
}

} // verus!
