//! The import pipeline: bakes an interchange scene description (buffers,
//! typed accessors, materials, meshes, node hierarchy, scene roots) into
//! the renderer's stores, resolving every cross-reference into handles.
//!
//! The import is sequential and fail-fast: each phase validates its part of
//! the document before mutating anything, so an unsupported feature or a
//! bad reference surfaces as an error from that phase. Buffer usage is
//! inferred purely from cross-references: an accessor some primitive names
//! as its index accessor backs an element-array buffer, every other
//! accessor a plain array buffer.

use vstd::prelude::*;

use crate::arena::Handle;
use crate::device::DeviceCall;
use crate::error::BakeError;
use crate::gl::{AttributeName, AttributeOptions, BufferTarget, BufferUsage, TypedArrayKind};
use crate::material::{spec_default_pbr, Material, PbrMaterial};
use crate::mat4::{compose_matrix, spec_compose, Quat, Vec3};
use crate::renderer::Renderer;
use crate::scene::{Node, NodeView};
use crate::store::{Accessor, Mesh, Primitive};

verus! {

/// A byte range (with optional stride) into the document's binary blob.
#[derive(Clone, Copy, Debug, PartialEq, Eq, Structural)]
pub struct BufferViewDef {
    pub offset: usize,
    pub length: usize,
    pub stride: i32,
}

/// A typed view over a buffer view: element count and component layout.
/// `sparse` accessors are unsupported and fail the import.
#[derive(Clone, Copy, Debug, PartialEq, Eq, Structural)]
pub struct AccessorDef {
    pub view: Option<usize>,
    pub sparse: bool,
    pub count: i32,
    pub component_type: TypedArrayKind,
    pub item_size: i32,
    pub normalized: bool,
    pub offset: i32,
}

/// A source material; its parameters beyond the placeholder are ignored.
#[derive(Debug)]
pub struct MaterialDef {
    pub name: Option<String>,
}

/// One drawable unit of a source mesh: semantic-to-accessor references, an
/// optional index-accessor reference, an optional material reference.
#[derive(Debug)]
pub struct PrimitiveDef {
    pub attributes: Vec<(AttributeName, usize)>,
    pub indices: Option<usize>,
    pub material: Option<usize>,
}

/// A source mesh: its primitives, in order, and an optional name.
#[derive(Debug)]
pub struct MeshDef {
    pub primitives: Vec<PrimitiveDef>,
    pub name: Option<String>,
}

/// A source node's transform: decomposed parts, or a raw matrix (which is
/// unsupported and fails the import).
#[derive(Clone, Copy, Debug, PartialEq, Eq, Structural)]
pub enum TransformDef {
    Decomposed { translation: Vec3, rotation: Quat, scale: Vec3 },
    Matrix(crate::mat4::Mat4),
}

/// A source node: transform, optional mesh reference, child references,
/// optional name.
#[derive(Debug)]
pub struct NodeDef {
    pub transform: TransformDef,
    pub mesh: Option<usize>,
    pub children: Vec<usize>,
    pub name: Option<String>,
}

/// A source scene: the indices of its root nodes.
#[derive(Debug)]
pub struct SceneDef {
    pub nodes: Vec<usize>,
}

/// An interchange scene description.
#[derive(Debug)]
pub struct GltfDocument {
    pub blob: Vec<u8>,
    pub buffer_views: Vec<BufferViewDef>,
    pub accessors: Vec<AccessorDef>,
    pub materials: Vec<MaterialDef>,
    pub meshes: Vec<MeshDef>,
    pub nodes: Vec<NodeDef>,
    pub scenes: Vec<SceneDef>,
}

/// Whether some primitive of the document names accessor `i` as its index
/// accessor — the sole criterion for classifying its buffer as an
/// element-array buffer.
pub open spec fn spec_is_index_accessor(doc: &GltfDocument, i: int) -> bool {
    exists|m: int, p: int|
        0 <= m < doc.meshes@.len() && 0 <= p < doc.meshes@[m].primitives@.len()
            && (#[trigger] doc.meshes@[m].primitives@[p].indices) == Some(i as usize)
}

/// The buffer target an accessor's classification selects.
pub open spec fn spec_accessor_target(doc: &GltfDocument, i: int) -> BufferTarget {
    if spec_is_index_accessor(doc, i) {
        BufferTarget::ElementArrayBuffer
    } else {
        BufferTarget::ArrayBuffer
    }
}

/// The first accessor index whose definition uses buffer view `vi`
/// (searching from `from`); `doc.accessors@.len()` when none does.
pub open spec fn spec_first_view_user(doc: &GltfDocument, vi: int, from: int) -> int
    decreases doc.accessors@.len() - from,
{
    if from < 0 || from >= doc.accessors@.len() {
        doc.accessors@.len() as int
    } else if doc.accessors@[from].view == Some(vi as usize) {
        from
    } else {
        spec_first_view_user(doc, vi, from + 1)
    }
}

/// How many of the first `upto` accessors are the first user of their
/// buffer view — each of those, and only those, creates a device buffer.
pub open spec fn spec_first_user_count(doc: &GltfDocument, upto: int) -> int
    decreases upto,
{
    if upto <= 0 {
        0
    } else {
        spec_first_user_count(doc, upto - 1) + (if doc.accessors@[upto - 1].view is Some
            && spec_first_view_user(doc, doc.accessors@[upto - 1].view->0 as int, 0) == upto
            - 1 {
            1int
        } else {
            0int
        })
    }
}

/// What is wrong with one accessor definition, if anything: sparse (or
/// view-less) accessors are unsupported, and its view and byte range must
/// exist.
pub open spec fn spec_accessor_check(doc: &GltfDocument, i: int) -> Option<BakeError> {
    let a = doc.accessors@[i];
    if a.sparse {
        Some(BakeError::UnsupportedSparseAccessor)
    } else {
        match a.view {
            None => Some(BakeError::UnsupportedSparseAccessor),
            Some(vi) => if vi >= doc.buffer_views@.len() {
                Some(BakeError::BadReference)
            } else if doc.buffer_views@[vi as int].offset + doc.buffer_views@[vi as int].length
                > doc.blob@.len() {
                Some(BakeError::BadReference)
            } else {
                None
            },
        }
    }
}

/// The first accessor failure in definition order, if any.
pub open spec fn spec_accessors_outcome(doc: &GltfDocument, from: int) -> Option<BakeError>
    decreases doc.accessors@.len() - from,
{
    if from < 0 || from >= doc.accessors@.len() {
        None
    } else {
        match spec_accessor_check(doc, from) {
            Some(e) => Some(e),
            None => spec_accessors_outcome(doc, from + 1),
        }
    }
}

/// Scans the document's mesh primitives for one that names `acc_index` as
/// its index accessor.
fn classify_accessor(doc: &GltfDocument, acc_index: usize) -> (r: bool)
    ensures
        r == spec_is_index_accessor(doc, acc_index as int),
{
    let mut m: usize = 0;
    while m < doc.meshes.len()
        invariant
            m <= doc.meshes@.len(),
            forall|mm: int, pp: int|
                0 <= mm < m && 0 <= pp < doc.meshes@[mm].primitives@.len()
                    ==> (#[trigger] doc.meshes@[mm].primitives@[pp].indices) != Some(acc_index),
        decreases doc.meshes@.len() - m,
    {
        let mesh = &doc.meshes[m];
        let mut p: usize = 0;
        while p < mesh.primitives.len()
            invariant
                m < doc.meshes@.len(),
                p <= mesh.primitives@.len(),
                mesh.primitives@ == doc.meshes@[m as int].primitives@,
                forall|pp: int|
                    0 <= pp < p ==> (#[trigger] doc.meshes@[m as int].primitives@[pp].indices)
                        != Some(acc_index),
            decreases mesh.primitives@.len() - p,
        {
            let hit = match mesh.primitives[p].indices {
                Some(ii) => ii == acc_index,
                None => false,
            };
            if hit {
                proof {
                    assert(doc.meshes@[m as int].primitives@[p as int].indices == Some(
                        acc_index,
                    ));
                }
                return true;
            }
            p = p + 1;
        }
        m = m + 1;
    }
    proof {
        assert forall|mm: int, pp: int|
            0 <= mm < doc.meshes@.len() && 0 <= pp < doc.meshes@[mm].primitives@.len()
                implies (#[trigger] doc.meshes@[mm].primitives@[pp].indices) != Some(
            acc_index,
        ) by {}
    }
    false
}

/// Copies the byte range `[offset, offset + length)` out of the blob.
fn slice_blob(blob: &Vec<u8>, offset: usize, length: usize) -> (r: Vec<u8>)
    requires
        offset + length <= blob@.len(),
    ensures
        r@ == blob@.subrange(offset as int, offset as int + length as int),
{
    let n = blob.len();
    let mut r: Vec<u8> = Vec::new();
    let mut t: usize = 0;
    while t < length
        invariant
            t <= length,
            n == blob@.len(),
            offset + length <= n,
            r@ == blob@.subrange(offset as int, offset as int + t as int),
        decreases length - t,
    {
        r.push(blob[offset + t]);
        t = t + 1;
        proof {
            assert(r@ =~= blob@.subrange(offset as int, offset as int + t as int));
        }
    }
    r
}


/// The accessor phase's whole result: `handles` maps every source accessor
/// to a stored accessor with the definition's layout over a live buffer;
/// accessors sharing a view share the buffer; the device log grew by
/// exactly one `CreateBuffer` per distinct used view, classified as an
/// element-array target iff some primitive names the creating accessor as
/// its indices, and carrying the view's byte range.
pub open spec fn spec_accessors_baked(
    doc: &GltfDocument,
    accessors: Map<Handle, Accessor>,
    buffers: Map<Handle, u64>,
    old_calls: Seq<DeviceCall>,
    calls: Seq<DeviceCall>,
    handles: Seq<Handle>,
) -> bool {
    &&& handles.len() == doc.accessors@.len()
    &&& calls.len() == old_calls.len() + spec_first_user_count(doc, doc.accessors@.len() as int)
    &&& forall|k: int|
        old_calls.len() <= k < calls.len() ==> (#[trigger] calls[k]) is CreateBuffer
    &&& forall|i: int|
        0 <= i < handles.len() ==> {
            let def = doc.accessors@[i];
            let h = #[trigger] handles[i];
            &&& accessors.contains_key(h)
            &&& accessors[h].count == def.count
            &&& accessors[h].options.component_type == def.component_type
            &&& accessors[h].options.item_size == def.item_size
            &&& accessors[h].options.normalized == def.normalized
            &&& accessors[h].options.stride == doc.buffer_views@[def.view->0 as int].stride
            &&& accessors[h].options.offset == def.offset
            &&& buffers.contains_key(accessors[h].buffer)
        }
    &&& forall|i: int, j: int|
        0 <= i < handles.len() && 0 <= j < handles.len() && doc.accessors@[i].view
            == doc.accessors@[j].view ==> accessors[#[trigger] handles[i]].buffer == accessors[
            #[trigger] handles[j]
        ].buffer
    &&& forall|i: int|
        0 <= i < handles.len() && spec_first_view_user(
            doc,
            doc.accessors@[i].view->0 as int,
            0,
        ) == i ==> exists|k: int|
            old_calls.len() <= k < calls.len() && {
                let c = #[trigger] calls[k];
                let view = doc.buffer_views@[doc.accessors@[i].view->0 as int];
                &&& c is CreateBuffer
                &&& c->CreateBuffer_buffer == buffers[accessors[#[trigger] handles[i]].buffer]
                &&& c->CreateBuffer_target == spec_accessor_target(doc, i)
                &&& c->CreateBuffer_usage == BufferUsage::StaticDraw
                &&& c->CreateBuffer_data@ == doc.blob@.subrange(
                    view.offset as int,
                    view.offset as int + view.length as int,
                )
            }
}

/// The material phase's whole result: one placeholder material per source
/// definition.
pub open spec fn spec_materials_baked(
    doc: &GltfDocument,
    materials: Map<Handle, Material>,
    handles: Seq<Handle>,
) -> bool {
    &&& handles.len() == doc.materials@.len()
    &&& forall|i: int|
        0 <= i < handles.len() ==> materials.contains_key(#[trigger] handles[i])
            && materials[handles[i]] == Material::Pbr(spec_default_pbr())
}

/// The mesh phase's whole result: `handles` maps every source mesh to a
/// stored mesh whose primitives map their semantics through the accessor
/// table, resolve indices and material through the given tables, and draw
/// the Position accessor's element count.
pub open spec fn spec_meshes_baked(
    doc: &GltfDocument,
    meshes: Map<Handle, Mesh>,
    accessors: Map<Handle, Accessor>,
    accessor_handles: Seq<Handle>,
    material_handles: Seq<Handle>,
    handles: Seq<Handle>,
) -> bool {
    &&& handles.len() == doc.meshes@.len()
    &&& forall|m: int|
        0 <= m < handles.len() ==> {
            let def = doc.meshes@[m];
            let h = #[trigger] handles[m];
            &&& meshes.contains_key(h)
            &&& meshes[h]@.name == (match def.name {
                Some(s) => Some(s@),
                None => None::<Seq<char>>,
            })
            &&& meshes[h]@.primitives.len() == def.primitives@.len()
            &&& forall|p: int|
                0 <= p < def.primitives@.len() ==> {
                    let pd = def.primitives@[p];
                    let prim = (#[trigger] meshes[h]@.primitives[p])@;
                    &&& prim.attributes == pd.attributes@.map_values(
                        |pr: (AttributeName, usize)| (pr.0, accessor_handles[pr.1 as int]),
                    )
                    &&& prim.indices == spec_prim_indices(pd.indices, accessor_handles)
                    &&& prim.material == spec_prim_material(pd.material, material_handles)
                    &&& prim.count == spec_prim_count(pd.attributes@, accessor_handles, accessors)
                }
        }
}

/// The node phase's whole result (before scene wiring of the roots):
/// pairwise-distinct handles, one per source node, each bound to a node
/// whose local matrix composes the decomposed transform, whose mesh
/// resolves through the mesh table, and whose parent (once wired) stays a
/// live node; for a document without child lists, the scene map is exactly
/// the insert fold.
pub open spec fn spec_nodes_baked(
    doc: &GltfDocument,
    pre_scene: Map<Handle, NodeView>,
    scene: Map<Handle, NodeView>,
    mesh_handles: Seq<Handle>,
    handles: Seq<Handle>,
) -> bool {
    &&& handles.len() == doc.nodes@.len()
    &&& forall|i: int, j: int|
        0 <= i < handles.len() && 0 <= j < handles.len() && i != j ==> #[trigger] handles[i]
            != #[trigger] handles[j]
    &&& forall|i: int|
        0 <= i < handles.len() ==> {
            let nd = doc.nodes@[i];
            let nv = scene[#[trigger] handles[i]];
            &&& scene.contains_key(handles[i])
            &&& nv.matrix_local == spec_node_local(nd.transform)
            &&& nv.matrix_world == crate::mat4::spec_identity()
            &&& nv.mesh == spec_node_mesh(nd.mesh, mesh_handles)
            &&& nv.visible
            &&& nv.name == (match nd.name {
                Some(ref s) => Some(s@),
                None => None::<Seq<char>>,
            })
            &&& (nv.parent is Some ==> scene.contains_key(nv.parent->0))
        }
    &&& (forall|n: int|
        0 <= n < doc.nodes@.len() ==> (#[trigger] doc.nodes@[n].children@).len() == 0) ==> scene
        == spec_insert_nodes(pre_scene, doc.nodes@, handles, mesh_handles, doc.nodes@.len() as int)
}

/// One complete import, witnessed by the intermediate handle tables and
/// the scene state between node baking and scene wiring.
pub open spec fn spec_bake_witness(
    doc: &GltfDocument,
    pre_scene: Map<Handle, NodeView>,
    old_calls: Seq<DeviceCall>,
    accessors: Map<Handle, Accessor>,
    buffers: Map<Handle, u64>,
    materials: Map<Handle, Material>,
    meshes: Map<Handle, Mesh>,
    scene: Map<Handle, NodeView>,
    calls: Seq<DeviceCall>,
    ah: Seq<Handle>,
    mah: Seq<Handle>,
    meh: Seq<Handle>,
    nh: Seq<Handle>,
    mid_scene: Map<Handle, NodeView>,
    roots: Seq<Handle>,
) -> bool {
    &&& spec_accessors_baked(doc, accessors, buffers, old_calls, calls, ah)
    &&& spec_materials_baked(doc, materials, mah)
    &&& spec_meshes_baked(doc, meshes, accessors, ah, mah, meh)
    &&& spec_nodes_baked(doc, pre_scene, mid_scene, meh, nh)
    &&& roots.len() == doc.scenes@.len()
    &&& forall|i: int, j: int|
        0 <= i < roots.len() && 0 <= j < roots.len() && i != j ==> #[trigger] roots[i]
            != #[trigger] roots[j]
    &&& forall|i: int, k: int|
        0 <= i < roots.len() && 0 <= k < nh.len() ==> #[trigger] roots[i] != #[trigger] nh[k]
    &&& scene == spec_scenes_fold(mid_scene, doc.scenes@, nh, roots, doc.scenes@.len() as int)
}

/// The import's whole result: some intermediate handle tables and mid-wiring
/// scene state tie the final stores, device log and scene to the document,
/// phase by phase, with `roots` the baked scene roots.
pub open spec fn spec_document_baked(
    doc: &GltfDocument,
    pre_scene: Map<Handle, NodeView>,
    old_calls: Seq<DeviceCall>,
    accessors: Map<Handle, Accessor>,
    buffers: Map<Handle, u64>,
    materials: Map<Handle, Material>,
    meshes: Map<Handle, Mesh>,
    scene: Map<Handle, NodeView>,
    calls: Seq<DeviceCall>,
    roots: Seq<Handle>,
) -> bool {
    exists|ah: Seq<Handle>, mah: Seq<Handle>, meh: Seq<Handle>, nh: Seq<Handle>, mid_scene: Map<
        Handle,
        NodeView,
    >|
        #[trigger] spec_bake_witness(
            doc,
            pre_scene,
            old_calls,
            accessors,
            buffers,
            materials,
            meshes,
            scene,
            calls,
            ah,
            mah,
            meh,
            nh,
            mid_scene,
            roots,
        )
}

impl Renderer {
    /// Bakes the document's accessors: for each accessor definition, a
    /// device buffer holding its view's byte range is located or created
    /// (memoized by view index, classified as an index or vertex buffer by
    /// scanning every primitive's index-accessor references), and an
    /// accessor with the definition's layout is stored over it. Fails,
    /// changing nothing, on a sparse or view-less accessor or a byte range
    /// outside the blob.
    pub fn create_gltf_accessors(&mut self, gltf: &GltfDocument) -> (r: Result<
        Vec<Handle>,
        BakeError,
    >)
        requires
            old(self).wf(),
        ensures
            final(self).wf(),
            final(self).materials == old(self).materials,
            final(self).samplers == old(self).samplers,
            final(self).textures == old(self).textures,
            final(self).images == old(self).images,
            final(self).meshes == old(self).meshes,
            final(self).cameras == old(self).cameras,
            final(self).framebuffers == old(self).framebuffers,
            final(self).targets == old(self).targets,
            final(self).scene == old(self).scene,
            final(self).shaders == old(self).shaders,
            r is Ok <==> spec_accessors_outcome(gltf, 0) is None,
            r is Err ==> r == Err::<Vec<Handle>, BakeError>(spec_accessors_outcome(gltf, 0)->0)
                && final(self).accessors == old(self).accessors && final(self).buffers == old(
                self,
            ).buffers && final(self).device == old(self).device,
            ({
                match r {
                    Ok(handles) => {
                        &&& forall|i: int|
                            0 <= i < handles@.len() ==> !old(self).accessors.issued().contains(
                                #[trigger] handles@[i],
                            )
                        &&& forall|i: int, j: int|
                            0 <= i < handles@.len() && 0 <= j < handles@.len() && i != j
                                ==> #[trigger] handles@[i] != #[trigger] handles@[j]
                        &&& spec_accessors_baked(
                            gltf,
                            final(self).accessors@,
                            final(self).buffers@,
                            old(self).device.calls(),
                            final(self).device.calls(),
                            handles@,
                        )
                    },
                    Err(_) => true,
                }
            }),
    {
        // Validation pass: nothing is touched until the whole accessor
        // table is known to be importable.
        let mut v: usize = 0;
        while v < gltf.accessors.len()
            invariant
                old(self).wf(),
                *self == *old(self),
                v <= gltf.accessors@.len(),
                spec_accessors_outcome(gltf, v as int) == spec_accessors_outcome(gltf, 0),
                forall|i: int| 0 <= i < v ==> spec_accessor_check(gltf, i) is None,
            decreases gltf.accessors@.len() - v,
        {
            let def = &gltf.accessors[v];
            if def.sparse {
                return Err(BakeError::UnsupportedSparseAccessor);
            }
            match def.view {
                None => {
                    return Err(BakeError::UnsupportedSparseAccessor);
                },
                Some(vi) => {
                    if vi >= gltf.buffer_views.len() {
                        return Err(BakeError::BadReference);
                    }
                    let view = &gltf.buffer_views[vi];
                    if view.length > gltf.blob.len() || view.offset > gltf.blob.len()
                        - view.length {
                        proof {
                            assert(spec_accessor_check(gltf, v as int) == Some(
                                BakeError::BadReference,
                            ));
                        }
                        return Err(BakeError::BadReference);
                    }
                },
            }
            v = v + 1;
        }
        proof {
            assert(spec_accessors_outcome(gltf, gltf.accessors@.len() as int) is None);
        }

        // Build pass.
        let mut buffer_handles: Vec<Option<Handle>> = Vec::new();
        let mut bh: usize = 0;
        while bh < gltf.buffer_views.len()
            invariant
                bh <= gltf.buffer_views@.len(),
                buffer_handles@.len() == bh,
                forall|k: int| 0 <= k < bh ==> buffer_handles@[k] is None,
            decreases gltf.buffer_views@.len() - bh,
        {
            buffer_handles.push(None);
            bh = bh + 1;
        }
        let nviews = gltf.buffer_views.len();
        let nacc = gltf.accessors.len();
        let ghost base_len = self.device.calls().len();
        let mut handles: Vec<Handle> = Vec::new();
        proof {
            assert forall|vi: int|
                0 <= vi < buffer_handles@.len() implies !(spec_first_view_user(gltf, vi, 0)
                < 0) by {
                lemma_first_view_user_nonneg(gltf, vi, 0);
            }
        }
        let mut i: usize = 0;
        while i < gltf.accessors.len()
            invariant
                self.wf(),
                nviews == gltf.buffer_views@.len(),
                nacc == gltf.accessors@.len(),
                i <= gltf.accessors@.len(),
                handles@.len() == i,
                buffer_handles@.len() == nviews,
                base_len <= self.device.calls().len(),
                self.materials == old(self).materials,
                self.samplers == old(self).samplers,
                self.textures == old(self).textures,
                self.images == old(self).images,
                self.meshes == old(self).meshes,
                self.cameras == old(self).cameras,
                self.framebuffers == old(self).framebuffers,
                self.targets == old(self).targets,
                self.scene == old(self).scene,
                self.shaders == old(self).shaders,
                base_len == old(self).device.calls().len(),
                old(self).accessors.issued().subset_of(self.accessors.issued()),
                forall|k: int|
                    0 <= k < i ==> self.accessors.issued().contains(#[trigger] handles@[k]),
                forall|k: int|
                    0 <= k < i ==> !old(self).accessors.issued().contains(#[trigger] handles@[k]),
                forall|k1: int, k2: int|
                    0 <= k1 < i && 0 <= k2 < i && k1 != k2 ==> #[trigger] handles@[k1]
                        != #[trigger] handles@[k2],
                forall|k: int| 0 <= k < i ==> spec_accessor_check(gltf, k) is None,
                forall|k: int|
                    i <= k < gltf.accessors@.len() ==> spec_accessor_check(gltf, k) is None,
                self.device.calls().len() == base_len + spec_first_user_count(gltf, i as int),
                forall|k: int|
                    base_len <= k < self.device.calls().len() ==> (
                    #[trigger] self.device.calls()[k]) is CreateBuffer,
                // Memoization: a view's slot is filled exactly when an
                // earlier accessor used it, and then holds a live buffer.
                forall|vi: int|
                    0 <= vi < buffer_handles@.len() ==> ((#[trigger] buffer_handles@[vi]) is Some
                        <==> spec_first_view_user(gltf, vi, 0) < i),
                forall|vi: int|
                    0 <= vi < buffer_handles@.len() && buffer_handles@[vi] is Some
                        ==> self.buffers@.contains_key(buffer_handles@[vi]->0),
                // Already-baked accessors.
                forall|k: int|
                    0 <= k < i ==> {
                        let def = gltf.accessors@[k];
                        let h = #[trigger] handles@[k];
                        &&& self.accessors@.contains_key(h)
                        &&& self.accessors@[h].count == def.count
                        &&& self.accessors@[h].options.component_type == def.component_type
                        &&& self.accessors@[h].options.item_size == def.item_size
                        &&& self.accessors@[h].options.normalized == def.normalized
                        &&& self.accessors@[h].options.stride
                            == gltf.buffer_views@[def.view->0 as int].stride
                        &&& self.accessors@[h].options.offset == def.offset
                        &&& self.buffers@.contains_key(self.accessors@[h].buffer)
                        &&& self.accessors@[h].buffer == buffer_handles@[def.view->0 as int]->0
                    },
                forall|k: int|
                    0 <= k < i && spec_first_view_user(
                        gltf,
                        gltf.accessors@[k].view->0 as int,
                        0,
                    ) == k ==> exists|c: int|
                        base_len <= c < self.device.calls().len() && {
                            let call = #[trigger] self.device.calls()[c];
                            let view = gltf.buffer_views@[gltf.accessors@[k].view->0 as int];
                            &&& call is CreateBuffer
                            &&& call->CreateBuffer_buffer == self.buffers@[self.accessors@[
                                handles@[k]
                            ].buffer]
                            &&& call->CreateBuffer_target == spec_accessor_target(gltf, k)
                            &&& call->CreateBuffer_usage == BufferUsage::StaticDraw
                            &&& call->CreateBuffer_data@ == gltf.blob@.subrange(
                                view.offset as int,
                                view.offset as int + view.length as int,
                            )
                        },
            decreases gltf.accessors@.len() - i,
        {
            let def = &gltf.accessors[i];
            let ghost pre_calls = self.device.calls();
            let ghost pre_accessors = self.accessors@;
            let ghost pre_buffers = self.buffers@;
            let ghost pre_slots = buffer_handles@;
            proof {
                assert(spec_accessor_check(gltf, i as int) is None);
            }
            let vi = match def.view {
                Some(vi) => vi,
                None => {
                    proof {
                        assert(false);
                    }
                    0
                },
            };
            let view = gltf.buffer_views[vi];
            let ghost was_memoized = buffer_handles@[vi as int] is Some;
            let buffer_handle = match buffer_handles[vi] {
                Some(h) => {
                    proof {
                        assert(spec_first_view_user(gltf, vi as int, 0) < i);
                        assert(spec_first_user_count(gltf, i as int + 1)
                            == spec_first_user_count(gltf, i as int));
                    }
                    h
                },
                None => {
                    let data = slice_blob(&gltf.blob, view.offset, view.length);
                    let is_index_buffer = classify_accessor(gltf, i);
                    let buffer_target = if is_index_buffer {
                        BufferTarget::ElementArrayBuffer
                    } else {
                        BufferTarget::ArrayBuffer
                    };
                    let ghost call_index = self.device.calls().len() as int;
                    let h = self.insert_buffer_bytes(
                        buffer_target,
                        BufferUsage::StaticDraw,
                        def.component_type,
                        data,
                    );
                    buffer_handles[vi] = Some(h);
                    proof {
                        // This accessor is the view's first user: an
                        // earlier one would have filled the memo slot.
                        assert(spec_first_view_user(gltf, vi as int, 0) >= i);
                        lemma_first_view_user_at(gltf, vi as int, i as int);
                        assert(spec_first_view_user(gltf, vi as int, 0) == i);
                        assert(self.device.calls()[call_index] is CreateBuffer);
                        assert(self.device.calls()[call_index]->CreateBuffer_target
                            == spec_accessor_target(gltf, i as int));
                        assert(spec_first_user_count(gltf, i as int + 1)
                            == spec_first_user_count(gltf, i as int) + 1);
                    }
                    h
                },
            };
            let accessor = Accessor {
                buffer: buffer_handle,
                count: def.count,
                options: AttributeOptions {
                    component_type: def.component_type,
                    item_size: def.item_size,
                    normalized: def.normalized,
                    stride: view.stride,
                    offset: def.offset,
                },
            };
            let ah = self.accessors.insert(accessor);
            handles.push(ah);
            i = i + 1;
            proof {
                // Memoization slots still mirror first use.
                assert forall|vi2: int|
                    0 <= vi2 < buffer_handles@.len() implies ((
                #[trigger] buffer_handles@[vi2]) is Some <==> spec_first_view_user(gltf, vi2, 0)
                    < i) by {
                    if vi2 == vi as int {
                        lemma_first_view_user_le(gltf, vi as int, 0, i as int - 1);
                    } else {
                        assert(vi2 < nviews);
                        assert((vi2 as usize) != vi);
                        lemma_first_view_user_bounds(gltf, vi2, i as int - 1);
                    }
                }
                // Per-accessor facts survive: older entries are untouched
                // (the fresh handle differs from every older one), and the
                // new entry was just inserted.
                assert forall|k: int|
                    0 <= k < i implies {
                    let dk = gltf.accessors@[k];
                    let hk = #[trigger] handles@[k];
                    &&& self.accessors@.contains_key(hk)
                    &&& self.accessors@[hk].count == dk.count
                    &&& self.accessors@[hk].options.component_type == dk.component_type
                    &&& self.accessors@[hk].options.item_size == dk.item_size
                    &&& self.accessors@[hk].options.normalized == dk.normalized
                    &&& self.accessors@[hk].options.stride
                        == gltf.buffer_views@[dk.view->0 as int].stride
                    &&& self.accessors@[hk].options.offset == dk.offset
                    &&& self.buffers@.contains_key(self.accessors@[hk].buffer)
                    &&& self.accessors@[hk].buffer == buffer_handles@[dk.view->0 as int]->0
                } by {
                    if k < i - 1 {
                        assert(pre_accessors.contains_key(handles@[k]));
                        assert(self.accessors@[handles@[k]] == pre_accessors[handles@[k]]);
                        assert(pre_buffers.contains_key(pre_accessors[handles@[k]].buffer));
                        if !was_memoized {
                            if gltf.accessors@[k].view == Some(vi) {
                                lemma_first_view_user_le(gltf, vi as int, 0, k);
                                assert(false);
                            }
                            assert(buffer_handles@ =~= pre_slots.update(
                                vi as int,
                                Some(buffer_handle),
                            ));
                            assert(spec_accessor_check(gltf, k) is None);
                            assert(gltf.accessors@[k].view is Some);
                            assert(gltf.accessors@[k].view->0 != vi);
                            assert(buffer_handles@[gltf.accessors@[k].view->0 as int]
                                == pre_slots[gltf.accessors@[k].view->0 as int]);
                            assert(!pre_buffers.contains_key(buffer_handle));
                            assert(pre_accessors[handles@[k]].buffer != buffer_handle);
                        }
                    } else {
                        assert(handles@[k] == ah);
                        assert(self.accessors@[ah] == accessor);
                    }
                }
                // Older create-calls keep their positions; the fresh
                // accessor's call (when this was a first use) is the one
                // just recorded.
                assert forall|k: int|
                    0 <= k < i && spec_first_view_user(
                        gltf,
                        gltf.accessors@[k].view->0 as int,
                        0,
                    ) == k implies exists|c: int|
                        base_len <= c < self.device.calls().len() && {
                            let call = #[trigger] self.device.calls()[c];
                            let vw = gltf.buffer_views@[gltf.accessors@[k].view->0 as int];
                            &&& call is CreateBuffer
                            &&& call->CreateBuffer_buffer == self.buffers@[self.accessors@[
                                handles@[k]
                            ].buffer]
                            &&& call->CreateBuffer_target == spec_accessor_target(gltf, k)
                            &&& call->CreateBuffer_usage == BufferUsage::StaticDraw
                            &&& call->CreateBuffer_data@ == gltf.blob@.subrange(
                                vw.offset as int,
                                vw.offset as int + vw.length as int,
                            )
                        } by {
                    if k < i - 1 {
                        let c = choose|c: int|
                            base_len <= c < pre_calls.len() && {
                                let call = #[trigger] pre_calls[c];
                                let vw = gltf.buffer_views@[gltf.accessors@[k].view->0 as int];
                                &&& call is CreateBuffer
                                &&& call->CreateBuffer_buffer == pre_buffers[pre_accessors[
                                    handles@[k]
                                ].buffer]
                                &&& call->CreateBuffer_target == spec_accessor_target(gltf, k)
                                &&& call->CreateBuffer_usage == BufferUsage::StaticDraw
                                &&& call->CreateBuffer_data@ == gltf.blob@.subrange(
                                    vw.offset as int,
                                    vw.offset as int + vw.length as int,
                                )
                            };
                        assert(self.device.calls()[c] == pre_calls[c]);
                        assert(pre_accessors.contains_key(handles@[k]));
                        assert(self.accessors@[handles@[k]] == pre_accessors[handles@[k]]);
                        assert(pre_buffers.contains_key(pre_accessors[handles@[k]].buffer));
                        if !was_memoized {
                            assert(!pre_buffers.contains_key(buffer_handle));
                            assert(pre_accessors[handles@[k]].buffer != buffer_handle);
                        }
                        assert(self.buffers@[self.accessors@[handles@[k]].buffer]
                            == pre_buffers[pre_accessors[handles@[k]].buffer]);
                    } else {
                        assert(!was_memoized);
                        assert(self.device.calls()[pre_calls.len() as int] is CreateBuffer);
                    }
                }
            }
        }
        Ok(handles)
    }
}


/// The first attribute reference bound under the Position semantic.
pub open spec fn spec_find_position(attrs: Seq<(AttributeName, usize)>) -> Option<usize>
    decreases attrs.len(),
{
    if attrs.len() == 0 {
        None
    } else if attrs[0].0 is Position {
        Some(attrs[0].1)
    } else {
        spec_find_position(attrs.drop_first())
    }
}

/// Every attribute and index reference of every primitive points into the
/// accessor table.
pub open spec fn spec_mesh_refs_ok(doc: &GltfDocument) -> bool {
    forall|m: int, p: int, t: int|
        0 <= m < doc.meshes@.len() && 0 <= p < doc.meshes@[m].primitives@.len() && 0 <= t
            < doc.meshes@[m].primitives@[p].attributes@.len() ==> (#[trigger] doc.meshes@[
            m
        ].primitives@[p].attributes@[t]).1 < doc.accessors@.len()
}

/// The index-accessor handle a primitive definition resolves to: a
/// reference outside the table is kept as no indices, as the source
/// importer did.
pub open spec fn spec_prim_indices(pd_indices: Option<usize>, ah: Seq<Handle>) -> Option<Handle> {
    match pd_indices {
        Some(ii) => if ii < ah.len() {
            Some(ah[ii as int])
        } else {
            None
        },
        None => None,
    }
}

/// The material handle a primitive definition resolves to; a reference
/// outside the table is kept as no material, as the source importer did.
pub open spec fn spec_prim_material(pd_material: Option<usize>, mh: Seq<Handle>) -> Option<
    Handle,
> {
    match pd_material {
        Some(mi) => if mi < mh.len() {
            Some(mh[mi as int])
        } else {
            None
        },
        None => None,
    }
}

/// The draw count a primitive definition bakes to: the element count of
/// its Position accessor, or zero without one.
pub open spec fn spec_prim_count(
    attrs: Seq<(AttributeName, usize)>,
    ah: Seq<Handle>,
    accessors: Map<Handle, Accessor>,
) -> i32 {
    match spec_find_position(attrs) {
        Some(ai) => accessors[ah[ai as int]].count,
        None => 0,
    }
}

/// A skipped prefix without the Position semantic does not change what the
/// search finds.
proof fn lemma_find_position_skip(attrs: Seq<(AttributeName, usize)>, k: int)
    requires
        0 <= k <= attrs.len(),
        forall|t: int| 0 <= t < k ==> !((#[trigger] attrs[t]).0 is Position),
    ensures
        spec_find_position(attrs) == spec_find_position(attrs.skip(k)),
    decreases k,
{
    if k > 0 {
        assert(!(attrs[0].0 is Position));
        lemma_find_position_skip(attrs.drop_first(), k - 1);
        assert(attrs.drop_first().skip(k - 1) =~= attrs.skip(k));
    } else {
        assert(attrs.skip(0) =~= attrs);
    }
}

/// Rebuilds an owned copy of an attribute semantic name.
fn clone_attribute_name(a: &AttributeName) -> (r: AttributeName)
    ensures
        r == *a,
{
    match a {
        AttributeName::Position => AttributeName::Position,
        AttributeName::Normal => AttributeName::Normal,
        AttributeName::Uv => AttributeName::Uv,
        AttributeName::Custom(s) => AttributeName::Custom(s.clone()),
    }
}

/// Rebuilds an owned copy of an optional name.
fn clone_opt_name(n: &Option<String>) -> (r: Option<String>)
    ensures
        r == *n,
{
    match n {
        Some(s) => Some(s.clone()),
        None => None,
    }
}

impl Renderer {
    /// Bakes the document's materials: one store material per definition,
    /// with the placeholder configuration (the source's parameters are
    /// ignored, as the interchange importer always has).
    pub fn create_gltf_materials(&mut self, gltf: &GltfDocument) -> (handles: Vec<Handle>)
        requires
            old(self).wf(),
        ensures
            final(self).wf(),
            spec_materials_baked(gltf, final(self).materials@, handles@),
            forall|i: int|
                0 <= i < handles@.len() ==> !old(self).materials.issued().contains(
                    #[trigger] handles@[i],
                ),
            forall|i: int, j: int|
                0 <= i < handles@.len() && 0 <= j < handles@.len() && i != j
                    ==> #[trigger] handles@[i] != #[trigger] handles@[j],
            final(self).device == old(self).device,
            final(self).buffers == old(self).buffers,
            final(self).images == old(self).images,
            final(self).accessors == old(self).accessors,
            final(self).samplers == old(self).samplers,
            final(self).textures == old(self).textures,
            final(self).meshes == old(self).meshes,
            final(self).cameras == old(self).cameras,
            final(self).framebuffers == old(self).framebuffers,
            final(self).targets == old(self).targets,
            final(self).scene == old(self).scene,
            final(self).shaders == old(self).shaders,
    {
        let mut handles: Vec<Handle> = Vec::new();
        let mut i: usize = 0;
        while i < gltf.materials.len()
            invariant
                self.wf(),
                i <= gltf.materials@.len(),
                handles@.len() == i,
                old(self).materials.issued().subset_of(self.materials.issued()),
                forall|k: int|
                    0 <= k < i ==> self.materials.issued().contains(#[trigger] handles@[k]),
                forall|k: int|
                    0 <= k < i ==> !old(self).materials.issued().contains(#[trigger] handles@[k]),
                forall|k1: int, k2: int|
                    0 <= k1 < i && 0 <= k2 < i && k1 != k2 ==> #[trigger] handles@[k1]
                        != #[trigger] handles@[k2],
                forall|k: int|
                    0 <= k < i ==> self.materials@.contains_key(#[trigger] handles@[k])
                        && self.materials@[handles@[k]] == Material::Pbr(spec_default_pbr()),
                self.device == old(self).device,
                self.buffers == old(self).buffers,
                self.images == old(self).images,
                self.accessors == old(self).accessors,
                self.samplers == old(self).samplers,
                self.textures == old(self).textures,
                self.meshes == old(self).meshes,
                self.cameras == old(self).cameras,
                self.framebuffers == old(self).framebuffers,
                self.targets == old(self).targets,
                self.scene == old(self).scene,
                self.shaders == old(self).shaders,
            decreases gltf.materials@.len() - i,
        {
            let ghost pre = self.materials@;
            let h = self.materials.insert(Material::Pbr(PbrMaterial::new()));
            handles.push(h);
            i = i + 1;
            proof {
                assert forall|k: int|
                    0 <= k < i implies self.materials@.contains_key(#[trigger] handles@[k])
                    && self.materials@[handles@[k]] == Material::Pbr(spec_default_pbr()) by {
                    if k < i - 1 {
                        assert(pre.contains_key(handles@[k]));
                    }
                }
            }
        }
        handles
    }

    /// Bakes the document's meshes: each primitive's semantics map to the
    /// baked accessor handles, its optional index accessor and material
    /// resolve through the given handle tables, and its draw count is its
    /// Position accessor's element count. Fails, changing nothing, when an
    /// attribute reference points outside the accessor table.
    pub fn create_gltf_meshes(
        &mut self,
        gltf: &GltfDocument,
        accessor_handles: &Vec<Handle>,
        material_handles: &Vec<Handle>,
    ) -> (r: Result<Vec<Handle>, BakeError>)
        requires
            old(self).wf(),
            accessor_handles@.len() == gltf.accessors@.len(),
            forall|k: int|
                0 <= k < accessor_handles@.len() ==> old(self).accessors@.contains_key(
                    #[trigger] accessor_handles@[k],
                ),
        ensures
            final(self).wf(),
            r is Ok <==> spec_mesh_refs_ok(gltf),
            r is Err ==> r == Err::<Vec<Handle>, BakeError>(BakeError::BadReference)
                && final(self).meshes == old(self).meshes,
            ({
                match r {
                    Ok(handles) => {
                        &&& forall|i: int|
                            0 <= i < handles@.len() ==> !old(self).meshes.issued().contains(
                                #[trigger] handles@[i],
                            )
                        &&& forall|i: int, j: int|
                            0 <= i < handles@.len() && 0 <= j < handles@.len() && i != j
                                ==> #[trigger] handles@[i] != #[trigger] handles@[j]
                        &&& spec_meshes_baked(
                            gltf,
                            final(self).meshes@,
                            old(self).accessors@,
                            accessor_handles@,
                            material_handles@,
                            handles@,
                        )
                    },
                    Err(_) => true,
                }
            }),
            final(self).device == old(self).device,
            final(self).buffers == old(self).buffers,
            final(self).images == old(self).images,
            final(self).accessors == old(self).accessors,
            final(self).materials == old(self).materials,
            final(self).samplers == old(self).samplers,
            final(self).textures == old(self).textures,
            final(self).cameras == old(self).cameras,
            final(self).framebuffers == old(self).framebuffers,
            final(self).targets == old(self).targets,
            final(self).scene == old(self).scene,
            final(self).shaders == old(self).shaders,
    {
        // Validation pass.
        let mut vm: usize = 0;
        while vm < gltf.meshes.len()
            invariant
                old(self).wf(),
                *self == *old(self),
                vm <= gltf.meshes@.len(),
                accessor_handles@.len() == gltf.accessors@.len(),
                forall|m: int, p: int, t: int|
                    0 <= m < vm && 0 <= p < gltf.meshes@[m].primitives@.len() && 0 <= t
                        < gltf.meshes@[m].primitives@[p].attributes@.len() ==> (
                    #[trigger] gltf.meshes@[m].primitives@[p].attributes@[t]).1
                        < gltf.accessors@.len(),
            decreases gltf.meshes@.len() - vm,
        {
            let mesh_def = &gltf.meshes[vm];
            let mut vp: usize = 0;
            while vp < mesh_def.primitives.len()
                invariant
                    old(self).wf(),
                    *self == *old(self),
                    vm < gltf.meshes@.len(),
                    vp <= mesh_def.primitives@.len(),
                    mesh_def.primitives@ == gltf.meshes@[vm as int].primitives@,
                    accessor_handles@.len() == gltf.accessors@.len(),
                    forall|p: int, t: int|
                        0 <= p < vp && 0 <= t < gltf.meshes@[vm as int].primitives@[
                            p
                        ].attributes@.len() ==> (#[trigger] gltf.meshes@[vm as int].primitives@[
                            p
                        ].attributes@[t]).1 < gltf.accessors@.len(),
                decreases mesh_def.primitives@.len() - vp,
            {
                let pd = &mesh_def.primitives[vp];
                let mut vt: usize = 0;
                while vt < pd.attributes.len()
                    invariant
                        old(self).wf(),
                        *self == *old(self),
                        vm < gltf.meshes@.len(),
                        vp < gltf.meshes@[vm as int].primitives@.len(),
                        vt <= pd.attributes@.len(),
                        pd.attributes@ == gltf.meshes@[vm as int].primitives@[
                            vp as int
                        ].attributes@,
                        accessor_handles@.len() == gltf.accessors@.len(),
                        forall|t: int|
                            0 <= t < vt ==> (#[trigger] gltf.meshes@[vm as int].primitives@[
                                vp as int
                            ].attributes@[t]).1 < gltf.accessors@.len(),
                    decreases pd.attributes@.len() - vt,
                {
                    if pd.attributes[vt].1 >= accessor_handles.len() {
                        proof {
                            assert(!spec_mesh_refs_ok(gltf));
                        }
                        return Err(BakeError::BadReference);
                    }
                    vt = vt + 1;
                }
                vp = vp + 1;
            }
            vm = vm + 1;
        }

        // Build pass.
        let mut handles: Vec<Handle> = Vec::new();
        let mut m: usize = 0;
        while m < gltf.meshes.len()
            invariant
                self.wf(),
                m <= gltf.meshes@.len(),
                handles@.len() == m,
                old(self).meshes.issued().subset_of(self.meshes.issued()),
                forall|k: int|
                    0 <= k < m ==> self.meshes.issued().contains(#[trigger] handles@[k]),
                forall|k: int|
                    0 <= k < m ==> !old(self).meshes.issued().contains(#[trigger] handles@[k]),
                forall|k1: int, k2: int|
                    0 <= k1 < m && 0 <= k2 < m && k1 != k2 ==> #[trigger] handles@[k1]
                        != #[trigger] handles@[k2],
                spec_mesh_refs_ok(gltf),
                accessor_handles@.len() == gltf.accessors@.len(),
                forall|k: int|
                    0 <= k < accessor_handles@.len() ==> old(self).accessors@.contains_key(
                        #[trigger] accessor_handles@[k],
                    ),
                self.device == old(self).device,
                self.buffers == old(self).buffers,
                self.images == old(self).images,
                self.accessors == old(self).accessors,
                self.materials == old(self).materials,
                self.samplers == old(self).samplers,
                self.textures == old(self).textures,
                self.cameras == old(self).cameras,
                self.framebuffers == old(self).framebuffers,
                self.targets == old(self).targets,
                self.scene == old(self).scene,
                self.shaders == old(self).shaders,
                forall|k: int|
                    0 <= k < m ==> {
                        let def = gltf.meshes@[k];
                        let h = #[trigger] handles@[k];
                        &&& self.meshes@.contains_key(h)
                        &&& self.meshes@[h]@.name == (match def.name {
                            Some(s) => Some(s@),
                            None => None::<Seq<char>>,
                        })
                        &&& self.meshes@[h]@.primitives.len() == def.primitives@.len()
                        &&& forall|p: int|
                            0 <= p < def.primitives@.len() ==> {
                                let pd = def.primitives@[p];
                                let prim = (#[trigger] self.meshes@[h]@.primitives[p])@;
                                &&& prim.attributes == pd.attributes@.map_values(
                                    |pr: (AttributeName, usize)|
                                        (pr.0, accessor_handles@[pr.1 as int]),
                                )
                                &&& prim.indices == spec_prim_indices(
                                    pd.indices,
                                    accessor_handles@,
                                )
                                &&& prim.material == spec_prim_material(
                                    pd.material,
                                    material_handles@,
                                )
                                &&& prim.count == spec_prim_count(
                                    pd.attributes@,
                                    accessor_handles@,
                                    old(self).accessors@,
                                )
                            }
                    },
            decreases gltf.meshes@.len() - m,
        {
            let mesh_def = &gltf.meshes[m];
            let mut primitives: Vec<Primitive> = Vec::new();
            let mut p: usize = 0;
            while p < mesh_def.primitives.len()
                invariant
                    self.wf(),
                    m < gltf.meshes@.len(),
                    p <= mesh_def.primitives@.len(),
                    primitives@.len() == p,
                    mesh_def.primitives@ == gltf.meshes@[m as int].primitives@,
                    spec_mesh_refs_ok(gltf),
                    accessor_handles@.len() == gltf.accessors@.len(),
                    forall|k: int|
                        0 <= k < accessor_handles@.len() ==> self.accessors@.contains_key(
                            #[trigger] accessor_handles@[k],
                        ),
                    forall|pk: int|
                        0 <= pk < p ==> {
                            let pd = gltf.meshes@[m as int].primitives@[pk];
                            let prim = (#[trigger] primitives@[pk])@;
                            &&& prim.attributes == pd.attributes@.map_values(
                                |pr: (AttributeName, usize)|
                                    (pr.0, accessor_handles@[pr.1 as int]),
                            )
                            &&& prim.indices == spec_prim_indices(pd.indices, accessor_handles@)
                            &&& prim.material == spec_prim_material(
                                pd.material,
                                material_handles@,
                            )
                            &&& prim.count == spec_prim_count(
                                pd.attributes@,
                                accessor_handles@,
                                self.accessors@,
                            )
                        },
                decreases mesh_def.primitives@.len() - p,
            {
                let pd = &mesh_def.primitives[p];
                let mut attributes: Vec<(AttributeName, Handle)> = Vec::new();
                let mut t: usize = 0;
                while t < pd.attributes.len()
                    invariant
                        m < gltf.meshes@.len(),
                        p < gltf.meshes@[m as int].primitives@.len(),
                        t <= pd.attributes@.len(),
                        pd.attributes@ == gltf.meshes@[m as int].primitives@[
                            p as int
                        ].attributes@,
                        spec_mesh_refs_ok(gltf),
                        accessor_handles@.len() == gltf.accessors@.len(),
                        attributes@ == pd.attributes@.subrange(0, t as int).map_values(
                            |pr: (AttributeName, usize)|
                                (pr.0, accessor_handles@[pr.1 as int]),
                        ),
                    decreases pd.attributes@.len() - t,
                {
                    let name = clone_attribute_name(&pd.attributes[t].0);
                    let ai = pd.attributes[t].1;
                    proof {
                        assert(gltf.meshes@[m as int].primitives@[p as int].attributes@[
                            t as int
                        ].1 < gltf.accessors@.len());
                    }
                    attributes.push((name, accessor_handles[ai]));
                    t = t + 1;
                    proof {
                        assert(attributes@ =~= pd.attributes@.subrange(0, t as int).map_values(
                            |pr: (AttributeName, usize)|
                                (pr.0, accessor_handles@[pr.1 as int]),
                        ));
                    }
                }
                proof {
                    assert(pd.attributes@.subrange(0, pd.attributes@.len() as int)
                        =~= pd.attributes@);
                }
                let indices = match pd.indices {
                    Some(ii) => if ii < accessor_handles.len() {
                        Some(accessor_handles[ii])
                    } else {
                        None
                    },
                    None => None,
                };
                let material = match pd.material {
                    Some(mi) => if mi < material_handles.len() {
                        Some(material_handles[mi])
                    } else {
                        None
                    },
                    None => None,
                };
                // The draw count comes from the Position accessor.
                let mut count: i32 = 0;
                let mut ft: usize = 0;
                let mut found = false;
                while ft < pd.attributes.len() && !found
                    invariant
                        m < gltf.meshes@.len(),
                        p < gltf.meshes@[m as int].primitives@.len(),
                        ft <= pd.attributes@.len(),
                        pd.attributes@ == gltf.meshes@[m as int].primitives@[
                            p as int
                        ].attributes@,
                        spec_mesh_refs_ok(gltf),
                        accessor_handles@.len() == gltf.accessors@.len(),
                        forall|k: int|
                            0 <= k < accessor_handles@.len() ==> self.accessors@.contains_key(
                                #[trigger] accessor_handles@[k],
                            ),
                        !found ==> forall|tt: int|
                            0 <= tt < ft ==> !((#[trigger] pd.attributes@[tt]).0 is Position),
                        !found ==> count == 0,
                        found ==> spec_find_position(pd.attributes@) is Some && count
                            == spec_prim_count(
                            pd.attributes@,
                            accessor_handles@,
                            self.accessors@,
                        ),
                    decreases pd.attributes@.len() - ft, (if found { 0int } else { 1int }),
                {
                    let is_position = match &pd.attributes[ft].0 {
                        AttributeName::Position => true,
                        _ => false,
                    };
                    if is_position {
                        let ai = pd.attributes[ft].1;
                        proof {
                            assert(gltf.meshes@[m as int].primitives@[p as int].attributes@[
                                ft as int
                            ].1 < gltf.accessors@.len());
                        }
                        let acc = match self.accessors.get(accessor_handles[ai]) {
                            Some(a) => *a,
                            None => {
                                proof {
                                    assert(false);
                                }
                                Accessor {
                                    buffer: Handle { index: 0, generation: 0 },
                                    count: 0,
                                    options: AttributeOptions::new(TypedArrayKind::Float32, 3),
                                }
                            },
                        };
                        count = acc.count;
                        found = true;
                        proof {
                            lemma_find_position_skip(pd.attributes@, ft as int);
                            assert(pd.attributes@.skip(ft as int)[0] == pd.attributes@[
                                ft as int
                            ]);
                            assert(spec_find_position(pd.attributes@) == Some(
                                pd.attributes@[ft as int].1,
                            ));
                        }
                    } else {
                        ft = ft + 1;
                    }
                }
                proof {
                    if !found {
                        lemma_find_position_skip(pd.attributes@, ft as int);
                        assert(spec_find_position(pd.attributes@) is None);
                    }
                }
                primitives.push(Primitive { attributes, indices, material, count });
                p = p + 1;
            }
            let name = clone_opt_name(&mesh_def.name);
            let ghost pre = self.meshes@;
            let h = self.meshes.insert(Mesh { primitives, name });
            handles.push(h);
            m = m + 1;
            proof {
                assert forall|k: int|
                    0 <= k < m - 1 implies self.meshes@.contains_key(#[trigger] handles@[k])
                    && self.meshes@[handles@[k]] == pre[handles@[k]] by {
                    assert(pre.contains_key(handles@[k]));
                }
            }
        }
        Ok(handles)
    }
}


/// Every node transform is in decomposed form.
pub open spec fn spec_transforms_ok(doc: &GltfDocument) -> bool {
    forall|n: int|
        0 <= n < doc.nodes@.len() ==> (#[trigger] doc.nodes@[n].transform) is Decomposed
}

/// Every child reference points into the node table.
pub open spec fn spec_children_ok(doc: &GltfDocument) -> bool {
    forall|n: int, c: int|
        0 <= n < doc.nodes@.len() && 0 <= c < doc.nodes@[n].children@.len() ==> (
        #[trigger] doc.nodes@[n].children@[c]) < doc.nodes@.len()
}

/// Every scene root reference points into the node table.
pub open spec fn spec_scene_refs_ok(doc: &GltfDocument) -> bool {
    forall|s: int, k: int|
        0 <= s < doc.scenes@.len() && 0 <= k < doc.scenes@[s].nodes@.len() ==> (
        #[trigger] doc.scenes@[s].nodes@[k]) < doc.nodes@.len()
}

/// The mesh handle a node definition resolves to; a reference outside the
/// table is kept as no mesh, as the source importer did.
pub open spec fn spec_node_mesh(nd_mesh: Option<usize>, mh: Seq<Handle>) -> Option<Handle> {
    match nd_mesh {
        Some(mi) => if mi < mh.len() {
            Some(mh[mi as int])
        } else {
            None
        },
        None => None,
    }
}

/// The local matrix a node definition bakes to: its decomposed parts
/// composed in the fixed order translation x rotation x scale.
pub open spec fn spec_node_local(t: TransformDef) -> crate::mat4::Mat4 {
    match t {
        TransformDef::Decomposed { translation, rotation, scale } => spec_compose(
            Some(translation),
            Some(rotation),
            Some(scale),
        ),
        TransformDef::Matrix(_) => crate::mat4::spec_identity(),
    }
}

/// The node view a definition bakes to, before any wiring.
pub open spec fn spec_baked_node(nd: &NodeDef, mh: Seq<Handle>) -> NodeView {
    NodeView {
        parent: None,
        children: Seq::empty(),
        matrix_local: spec_node_local(nd.transform),
        matrix_world: crate::mat4::spec_identity(),
        mesh: spec_node_mesh(nd.mesh, mh),
        visible: true,
        name: match nd.name {
            Some(ref s) => Some(s@),
            None => None,
        },
    }
}

/// The scene map after inserting the first `upto` baked nodes.
pub open spec fn spec_insert_nodes(
    m: Map<Handle, NodeView>,
    defs: Seq<NodeDef>,
    handles: Seq<Handle>,
    mh: Seq<Handle>,
    upto: int,
) -> Map<Handle, NodeView>
    decreases upto,
{
    if upto <= 0 {
        m
    } else {
        spec_insert_nodes(m, defs, handles, mh, upto - 1).insert(
            handles[upto - 1],
            spec_baked_node(&defs[upto - 1], mh),
        )
    }
}

/// The inserted-nodes fold reads only the first `upto` handles.
proof fn lemma_insert_nodes_handles_agree(
    m: Map<Handle, NodeView>,
    defs: Seq<NodeDef>,
    h1: Seq<Handle>,
    h2: Seq<Handle>,
    mh: Seq<Handle>,
    upto: int,
)
    requires
        forall|j: int| 0 <= j < upto ==> h1[j] == h2[j],
    ensures
        spec_insert_nodes(m, defs, h1, mh, upto) == spec_insert_nodes(m, defs, h2, mh, upto),
    decreases upto,
{
    if upto > 0 {
        lemma_insert_nodes_handles_agree(m, defs, h1, h2, mh, upto - 1);
    }
}

/// With pairwise-distinct handles, the inserted-nodes map binds each
/// handle to its definition's baked node.
proof fn lemma_insert_nodes_facts(
    m: Map<Handle, NodeView>,
    defs: Seq<NodeDef>,
    handles: Seq<Handle>,
    mh: Seq<Handle>,
    upto: int,
)
    requires
        upto <= defs.len(),
        upto <= handles.len(),
        forall|k1: int, k2: int|
            0 <= k1 < handles.len() && 0 <= k2 < handles.len() && k1 != k2
                ==> #[trigger] handles[k1] != #[trigger] handles[k2],
    ensures
        forall|k: int|
            0 <= k < upto ==> spec_insert_nodes(m, defs, handles, mh, upto).contains_key(
                #[trigger] handles[k],
            ) && spec_insert_nodes(m, defs, handles, mh, upto)[handles[k]] == spec_baked_node(
                &defs[k],
                mh,
            ),
    decreases upto,
{
    if upto > 0 {
        lemma_insert_nodes_facts(m, defs, handles, mh, upto - 1);
    }
}

/// The scene map after attaching the first `upto` listed nodes under one
/// scene root.
pub open spec fn spec_attach_upto(
    m: Map<Handle, NodeView>,
    list: Seq<usize>,
    nh: Seq<Handle>,
    root: Handle,
    upto: int,
) -> Map<Handle, NodeView>
    decreases upto,
{
    if upto <= 0 {
        m
    } else {
        let prev = spec_attach_upto(m, list, nh, root, upto - 1);
        crate::scene::spec_attach(
            crate::scene::spec_detach(prev, nh[list[upto - 1] as int]),
            nh[list[upto - 1] as int],
            root,
        )
    }
}

/// The scenes fold reads only the first `upto` root handles.
proof fn lemma_scenes_fold_roots_agree(
    m: Map<Handle, NodeView>,
    defs: Seq<SceneDef>,
    nh: Seq<Handle>,
    r1: Seq<Handle>,
    r2: Seq<Handle>,
    upto: int,
)
    requires
        forall|j: int| 0 <= j < upto ==> r1[j] == r2[j],
    ensures
        spec_scenes_fold(m, defs, nh, r1, upto) == spec_scenes_fold(m, defs, nh, r2, upto),
    decreases upto,
{
    if upto > 0 {
        lemma_scenes_fold_roots_agree(m, defs, nh, r1, r2, upto - 1);
    }
}

/// The scene map after baking the first `upto` scene definitions: each
/// inserts a fresh root node, then reparents its listed nodes under it.
pub open spec fn spec_scenes_fold(
    m: Map<Handle, NodeView>,
    defs: Seq<SceneDef>,
    nh: Seq<Handle>,
    roots: Seq<Handle>,
    upto: int,
) -> Map<Handle, NodeView>
    decreases upto,
{
    if upto <= 0 {
        m
    } else {
        let prev = spec_scenes_fold(m, defs, nh, roots, upto - 1);
        spec_attach_upto(
            prev.insert(roots[upto - 1], crate::scene::spec_new_node(None)),
            defs[upto - 1].nodes@,
            nh,
            roots[upto - 1],
            defs[upto - 1].nodes@.len() as int,
        )
    }
}

impl Renderer {
    /// Bakes the document's nodes: each definition's decomposed transform
    /// composes into the node's local matrix, its mesh reference resolves
    /// through the given handle table, and after every node exists, the
    /// child references are wired parent by parent. Fails, changing
    /// nothing, on a raw-matrix transform or a child reference outside the
    /// node table.
    #[verifier::rlimit(100)]
    pub fn create_gltf_nodes(&mut self, gltf: &GltfDocument, mesh_handles: &Vec<Handle>) -> (r:
        Result<Vec<Handle>, BakeError>)
        requires
            old(self).wf(),
        ensures
            final(self).wf(),
            r is Ok <==> (spec_transforms_ok(gltf) && spec_children_ok(gltf)),
            r is Err ==> final(self).scene == old(self).scene && r == Err::<
                Vec<Handle>,
                BakeError,
            >(
                if !spec_transforms_ok(gltf) {
                    BakeError::UnsupportedMatrixTransform
                } else {
                    BakeError::BadReference
                },
            ),
            final(self).scene.root() == old(self).scene.root(),
            ({
                match r {
                    Ok(handles) => {
                        &&& forall|i: int|
                            0 <= i < handles@.len() ==> !old(self).scene.issued().contains(
                                #[trigger] handles@[i],
                            )
                        &&& forall|i: int|
                            0 <= i < handles@.len() ==> final(self).scene.issued().contains(
                                #[trigger] handles@[i],
                            )
                        &&& spec_nodes_baked(
                            gltf,
                            old(self).scene@,
                            final(self).scene@,
                            mesh_handles@,
                            handles@,
                        )
                    },
                    Err(_) => true,
                }
            }),
            final(self).device == old(self).device,
            final(self).buffers == old(self).buffers,
            final(self).images == old(self).images,
            final(self).accessors == old(self).accessors,
            final(self).materials == old(self).materials,
            final(self).samplers == old(self).samplers,
            final(self).textures == old(self).textures,
            final(self).meshes == old(self).meshes,
            final(self).cameras == old(self).cameras,
            final(self).framebuffers == old(self).framebuffers,
            final(self).targets == old(self).targets,
            final(self).shaders == old(self).shaders,
    {
        // Validation pass.
        let mut vn: usize = 0;
        while vn < gltf.nodes.len()
            invariant
                old(self).wf(),
                *self == *old(self),
                vn <= gltf.nodes@.len(),
                forall|n: int| 0 <= n < vn ==> (#[trigger] gltf.nodes@[n].transform) is Decomposed,
            decreases gltf.nodes@.len() - vn,
        {
            match gltf.nodes[vn].transform {
                TransformDef::Decomposed { .. } => {},
                TransformDef::Matrix(_) => {
                    return Err(BakeError::UnsupportedMatrixTransform);
                },
            }
            vn = vn + 1;
        }
        let mut vc: usize = 0;
        while vc < gltf.nodes.len()
            invariant
                old(self).wf(),
                *self == *old(self),
                spec_transforms_ok(gltf),
                vc <= gltf.nodes@.len(),
                forall|n: int, c: int|
                    0 <= n < vc && 0 <= c < gltf.nodes@[n].children@.len() ==> (
                    #[trigger] gltf.nodes@[n].children@[c]) < gltf.nodes@.len(),
            decreases gltf.nodes@.len() - vc,
        {
            let nd = &gltf.nodes[vc];
            let mut cc: usize = 0;
            while cc < nd.children.len()
                invariant
                    old(self).wf(),
                    *self == *old(self),
                    spec_transforms_ok(gltf),
                    vc < gltf.nodes@.len(),
                    cc <= nd.children@.len(),
                    nd.children@ == gltf.nodes@[vc as int].children@,
                    forall|c: int|
                        0 <= c < cc ==> (#[trigger] gltf.nodes@[vc as int].children@[c])
                            < gltf.nodes@.len(),
                decreases nd.children@.len() - cc,
            {
                if nd.children[cc] >= gltf.nodes.len() {
                    proof {
                        assert(!spec_children_ok(gltf));
                    }
                    return Err(BakeError::BadReference);
                }
                cc = cc + 1;
            }
            vc = vc + 1;
        }

        // First pass: insert every node, unwired.
        let mut handles: Vec<Handle> = Vec::new();
        let mut i: usize = 0;
        while i < gltf.nodes.len()
            invariant
                self.wf(),
                spec_transforms_ok(gltf),
                spec_children_ok(gltf),
                i <= gltf.nodes@.len(),
                handles@.len() == i,
                self.scene.root() == old(self).scene.root(),
                old(self).scene.issued().subset_of(self.scene.issued()),
                forall|k: int|
                    0 <= k < i ==> self.scene.issued().contains(#[trigger] handles@[k]),
                forall|k: int|
                    0 <= k < i ==> !old(self).scene.issued().contains(#[trigger] handles@[k]),
                forall|k1: int, k2: int|
                    0 <= k1 < i && 0 <= k2 < i && k1 != k2 ==> #[trigger] handles@[k1]
                        != #[trigger] handles@[k2],
                self.scene@ == spec_insert_nodes(
                    old(self).scene@,
                    gltf.nodes@,
                    handles@,
                    mesh_handles@,
                    i as int,
                ),
                self.device == old(self).device,
                self.buffers == old(self).buffers,
                self.images == old(self).images,
                self.accessors == old(self).accessors,
                self.materials == old(self).materials,
                self.samplers == old(self).samplers,
                self.textures == old(self).textures,
                self.meshes == old(self).meshes,
                self.cameras == old(self).cameras,
                self.framebuffers == old(self).framebuffers,
                self.targets == old(self).targets,
                self.shaders == old(self).shaders,
            decreases gltf.nodes@.len() - i,
        {
            let nd = &gltf.nodes[i];
            let mut node = Node::new(None);
            let local = match nd.transform {
                TransformDef::Decomposed { translation, rotation, scale } => compose_matrix(
                    Some(translation),
                    Some(rotation),
                    Some(scale),
                ),
                TransformDef::Matrix(_) => {
                    proof {
                        assert(false);
                    }
                    crate::mat4::Mat4::identity()
                },
            };
            node.matrix_local = local;
            node.mesh = match nd.mesh {
                Some(mi) => if mi < mesh_handles.len() {
                    Some(mesh_handles[mi])
                } else {
                    None
                },
                None => None,
            };
            node.name = clone_opt_name(&nd.name);
            let ghost nodev = node@;
            let ghost pre = self.scene@;
            let ghost pre_issued = self.scene.issued();
            let ghost handles_pre = handles@;
            let h = self.scene.insert(node);
            handles.push(h);
            i = i + 1;
            proof {
                assert(nodev == spec_baked_node(&gltf.nodes@[i - 1], mesh_handles@));
                assert(self.scene@ == pre.insert(h, nodev));
                lemma_insert_nodes_handles_agree(
                    old(self).scene@,
                    gltf.nodes@,
                    handles_pre,
                    handles@,
                    mesh_handles@,
                    i as int - 1,
                );
                assert(pre == spec_insert_nodes(
                    old(self).scene@,
                    gltf.nodes@,
                    handles@,
                    mesh_handles@,
                    i as int - 1,
                ));
                assert(handles@[i as int - 1] == h);
                assert forall|k: int|
                    0 <= k < i - 1 implies #[trigger] handles@[k] != h by {
                    assert(pre_issued.contains(handles@[k]));
                }
                assert(self.scene@ =~= spec_insert_nodes(
                    old(self).scene@,
                    gltf.nodes@,
                    handles@,
                    mesh_handles@,
                    i as int,
                ));
            }
        }
        let ghost after_insert = self.scene@;
        proof {
            lemma_insert_nodes_facts(
                old(self).scene@,
                gltf.nodes@,
                handles@,
                mesh_handles@,
                gltf.nodes@.len() as int,
            );
        }

        // Second pass: wire children under their parents.
        let mut n: usize = 0;
        while n < gltf.nodes.len()
            invariant
                self.wf(),
                spec_children_ok(gltf),
                n <= gltf.nodes@.len(),
                handles@.len() == gltf.nodes@.len(),
                self.scene.root() == old(self).scene.root(),
                forall|k1: int, k2: int|
                    0 <= k1 < handles@.len() && 0 <= k2 < handles@.len() && k1 != k2
                        ==> #[trigger] handles@[k1] != #[trigger] handles@[k2],
                forall|k: int|
                    0 <= k < handles@.len() ==> !old(self).scene.issued().contains(
                        #[trigger] handles@[k],
                    ),
                forall|k: int|
                    0 <= k < handles@.len() ==> self.scene.issued().contains(
                        #[trigger] handles@[k],
                    ),
                forall|k: int|
                    0 <= k < handles@.len() ==> {
                        let nd = gltf.nodes@[k];
                        let nv = self.scene@[#[trigger] handles@[k]];
                        &&& self.scene@.contains_key(handles@[k])
                        &&& nv.matrix_local == spec_node_local(nd.transform)
                        &&& nv.matrix_world == crate::mat4::spec_identity()
                        &&& nv.mesh == spec_node_mesh(nd.mesh, mesh_handles@)
                        &&& nv.visible
                        &&& nv.name == (match nd.name {
                            Some(ref s) => Some(s@),
                            None => None::<Seq<char>>,
                        })
                        &&& (nv.parent is Some ==> self.scene@.contains_key(nv.parent->0))
                    },
                (forall|k: int|
                    0 <= k < gltf.nodes@.len() ==> (
                    #[trigger] gltf.nodes@[k].children@).len() == 0) ==> self.scene@
                    == after_insert,
                after_insert == spec_insert_nodes(
                    old(self).scene@,
                    gltf.nodes@,
                    handles@,
                    mesh_handles@,
                    gltf.nodes@.len() as int,
                ),
                self.device == old(self).device,
                self.buffers == old(self).buffers,
                self.images == old(self).images,
                self.accessors == old(self).accessors,
                self.materials == old(self).materials,
                self.samplers == old(self).samplers,
                self.textures == old(self).textures,
                self.meshes == old(self).meshes,
                self.cameras == old(self).cameras,
                self.framebuffers == old(self).framebuffers,
                self.targets == old(self).targets,
                self.shaders == old(self).shaders,
            decreases gltf.nodes@.len() - n,
        {
            let nd = &gltf.nodes[n];
            let parent_handle = handles[n];
            let mut c: usize = 0;
            while c < nd.children.len()
                invariant
                    self.wf(),
                    spec_children_ok(gltf),
                    n < gltf.nodes@.len(),
                    c <= nd.children@.len(),
                    nd.children@ == gltf.nodes@[n as int].children@,
                    handles@.len() == gltf.nodes@.len(),
                    parent_handle == handles@[n as int],
                    self.scene.root() == old(self).scene.root(),
                    forall|k1: int, k2: int|
                        0 <= k1 < handles@.len() && 0 <= k2 < handles@.len() && k1 != k2
                            ==> #[trigger] handles@[k1] != #[trigger] handles@[k2],
                    forall|k: int|
                        0 <= k < handles@.len() ==> !old(self).scene.issued().contains(
                            #[trigger] handles@[k],
                        ),
                    forall|k: int|
                        0 <= k < handles@.len() ==> self.scene.issued().contains(
                            #[trigger] handles@[k],
                        ),
                    forall|k: int|
                        0 <= k < handles@.len() ==> {
                            let ndk = gltf.nodes@[k];
                            let nv = self.scene@[#[trigger] handles@[k]];
                            &&& self.scene@.contains_key(handles@[k])
                            &&& nv.matrix_local == spec_node_local(ndk.transform)
                            &&& nv.matrix_world == crate::mat4::spec_identity()
                            &&& nv.mesh == spec_node_mesh(ndk.mesh, mesh_handles@)
                            &&& nv.visible
                            &&& nv.name == (match ndk.name {
                                Some(ref s) => Some(s@),
                                None => None::<Seq<char>>,
                            })
                            &&& (nv.parent is Some ==> self.scene@.contains_key(nv.parent->0))
                        },
                    (forall|k: int|
                        0 <= k < gltf.nodes@.len() ==> (
                        #[trigger] gltf.nodes@[k].children@).len() == 0) ==> self.scene@
                        == after_insert,
                    self.device == old(self).device,
                    self.buffers == old(self).buffers,
                    self.images == old(self).images,
                    self.accessors == old(self).accessors,
                    self.materials == old(self).materials,
                    self.samplers == old(self).samplers,
                    self.textures == old(self).textures,
                    self.meshes == old(self).meshes,
                    self.cameras == old(self).cameras,
                    self.framebuffers == old(self).framebuffers,
                    self.targets == old(self).targets,
                    self.shaders == old(self).shaders,
                decreases nd.children@.len() - c,
            {
                let child_index = nd.children[c];
                proof {
                    assert(gltf.nodes@[n as int].children@[c as int] < gltf.nodes@.len());
                }
                let child_handle = handles[child_index];
                let ghost pre = self.scene@;
                self.scene.set_parent(child_handle, parent_handle);
                proof {
                    let detached = crate::scene::spec_detach(pre, child_handle);
                    assert forall|k: int|
                        0 <= k < handles@.len() implies {
                        let ndk = gltf.nodes@[k];
                        let nv = self.scene@[#[trigger] handles@[k]];
                        &&& self.scene@.contains_key(handles@[k])
                        &&& nv.matrix_local == spec_node_local(ndk.transform)
                        &&& nv.matrix_world == crate::mat4::spec_identity()
                        &&& nv.mesh == spec_node_mesh(ndk.mesh, mesh_handles@)
                        &&& nv.visible
                        &&& nv.name == (match ndk.name {
                            Some(ref s) => Some(s@),
                            None => None::<Seq<char>>,
                        })
                        &&& (nv.parent is Some ==> self.scene@.contains_key(nv.parent->0))
                    } by {
                        assert(pre.contains_key(handles@[k]));
                    }
                }
                c = c + 1;
            }
            n = n + 1;
        }
        Ok(handles)
    }

    /// Bakes the document's scenes: for every scene definition a fresh
    /// root node is inserted and every listed node is reparented under it;
    /// the returned handles are the scene roots, in definition order.
    /// Fails, changing nothing, when a scene lists a node outside the node
    /// table.
    pub fn create_gltf_scenes(&mut self, gltf: &GltfDocument, node_handles: &Vec<Handle>) -> (r:
        Result<Vec<Handle>, BakeError>)
        requires
            old(self).wf(),
            node_handles@.len() == gltf.nodes@.len(),
            forall|k: int|
                0 <= k < node_handles@.len() ==> old(self).scene@.contains_key(
                    #[trigger] node_handles@[k],
                ),
            forall|k: int|
                0 <= k < node_handles@.len() ==> ((old(self).scene@[
                    #[trigger] node_handles@[k]
                ].parent) is Some ==> old(self).scene@.contains_key(
                    old(self).scene@[node_handles@[k]].parent->0,
                )),
        ensures
            final(self).wf(),
            final(self).scene.root() == old(self).scene.root(),
            r is Ok <==> spec_scene_refs_ok(gltf),
            r is Err ==> r == Err::<Vec<Handle>, BakeError>(BakeError::BadReference)
                && final(self).scene == old(self).scene,
            ({
                match r {
                    Ok(roots) => {
                        &&& roots@.len() == gltf.scenes@.len()
                        &&& forall|i: int|
                            0 <= i < roots@.len() ==> !old(self).scene.issued().contains(
                                #[trigger] roots@[i],
                            )
                        &&& forall|i: int|
                            0 <= i < roots@.len() ==> final(self).scene.issued().contains(
                                #[trigger] roots@[i],
                            )
                        &&& forall|i: int, j: int|
                            0 <= i < roots@.len() && 0 <= j < roots@.len() && i != j
                                ==> #[trigger] roots@[i] != #[trigger] roots@[j]
                        &&& final(self).scene@ == spec_scenes_fold(
                            old(self).scene@,
                            gltf.scenes@,
                            node_handles@,
                            roots@,
                            gltf.scenes@.len() as int,
                        )
                    },
                    Err(_) => true,
                }
            }),
            final(self).device == old(self).device,
            final(self).buffers == old(self).buffers,
            final(self).images == old(self).images,
            final(self).accessors == old(self).accessors,
            final(self).materials == old(self).materials,
            final(self).samplers == old(self).samplers,
            final(self).textures == old(self).textures,
            final(self).meshes == old(self).meshes,
            final(self).cameras == old(self).cameras,
            final(self).framebuffers == old(self).framebuffers,
            final(self).targets == old(self).targets,
            final(self).shaders == old(self).shaders,
    {
        // Validation pass.
        let mut vs: usize = 0;
        while vs < gltf.scenes.len()
            invariant
                old(self).wf(),
                *self == *old(self),
                vs <= gltf.scenes@.len(),
                node_handles@.len() == gltf.nodes@.len(),
                forall|s: int, k: int|
                    0 <= s < vs && 0 <= k < gltf.scenes@[s].nodes@.len() ==> (
                    #[trigger] gltf.scenes@[s].nodes@[k]) < gltf.nodes@.len(),
            decreases gltf.scenes@.len() - vs,
        {
            let sd = &gltf.scenes[vs];
            let mut vk: usize = 0;
            while vk < sd.nodes.len()
                invariant
                    old(self).wf(),
                    *self == *old(self),
                    vs < gltf.scenes@.len(),
                    vk <= sd.nodes@.len(),
                    sd.nodes@ == gltf.scenes@[vs as int].nodes@,
                    node_handles@.len() == gltf.nodes@.len(),
                    forall|k: int|
                        0 <= k < vk ==> (#[trigger] gltf.scenes@[vs as int].nodes@[k])
                            < gltf.nodes@.len(),
                decreases sd.nodes@.len() - vk,
            {
                if sd.nodes[vk] >= gltf.nodes.len() {
                    proof {
                        assert(!spec_scene_refs_ok(gltf));
                    }
                    return Err(BakeError::BadReference);
                }
                vk = vk + 1;
            }
            vs = vs + 1;
        }

        // Build pass.
        let mut roots: Vec<Handle> = Vec::new();
        let mut s: usize = 0;
        while s < gltf.scenes.len()
            invariant
                self.wf(),
                spec_scene_refs_ok(gltf),
                s <= gltf.scenes@.len(),
                roots@.len() == s,
                node_handles@.len() == gltf.nodes@.len(),
                self.scene.root() == old(self).scene.root(),
                old(self).scene.issued().subset_of(self.scene.issued()),
                forall|i: int|
                    0 <= i < roots@.len() ==> !old(self).scene.issued().contains(
                        #[trigger] roots@[i],
                    ),
                forall|i: int|
                    0 <= i < roots@.len() ==> self.scene.issued().contains(#[trigger] roots@[i]),
                forall|i: int, j: int|
                    0 <= i < roots@.len() && 0 <= j < roots@.len() && i != j ==> #[trigger] roots@[
                        i
                    ] != #[trigger] roots@[j],
                forall|k: int|
                    0 <= k < node_handles@.len() ==> self.scene@.contains_key(
                        #[trigger] node_handles@[k],
                    ),
                forall|k: int|
                    0 <= k < node_handles@.len() ==> ((self.scene@[
                        #[trigger] node_handles@[k]
                    ].parent) is Some ==> self.scene@.contains_key(
                        self.scene@[node_handles@[k]].parent->0,
                    )),
                self.scene@ == spec_scenes_fold(
                    old(self).scene@,
                    gltf.scenes@,
                    node_handles@,
                    roots@,
                    s as int,
                ),
                self.device == old(self).device,
                self.buffers == old(self).buffers,
                self.images == old(self).images,
                self.accessors == old(self).accessors,
                self.materials == old(self).materials,
                self.samplers == old(self).samplers,
                self.textures == old(self).textures,
                self.meshes == old(self).meshes,
                self.cameras == old(self).cameras,
                self.framebuffers == old(self).framebuffers,
                self.targets == old(self).targets,
                self.shaders == old(self).shaders,
            decreases gltf.scenes@.len() - s,
        {
            let sd = &gltf.scenes[s];
            let ghost pre = self.scene@;
            let ghost roots_pre = roots@;
            let scene_root = self.scene.insert(Node::new(None));
            roots.push(scene_root);
            proof {
                assert(self.scene@ == pre.insert(scene_root, crate::scene::spec_new_node(None)));
            }
            let mut k: usize = 0;
            while k < sd.nodes.len()
                invariant
                    self.wf(),
                    spec_scene_refs_ok(gltf),
                    s < gltf.scenes@.len(),
                    k <= sd.nodes@.len(),
                    sd.nodes@ == gltf.scenes@[s as int].nodes@,
                    node_handles@.len() == gltf.nodes@.len(),
                    self.scene.root() == old(self).scene.root(),
                    old(self).scene.issued().subset_of(self.scene.issued()),
                    forall|i: int|
                        0 <= i < roots@.len() ==> !old(self).scene.issued().contains(
                            #[trigger] roots@[i],
                        ),
                    forall|i: int|
                        0 <= i < roots@.len() ==> self.scene.issued().contains(
                            #[trigger] roots@[i],
                        ),
                    forall|i: int, j: int|
                        0 <= i < roots@.len() && 0 <= j < roots@.len() && i != j
                            ==> #[trigger] roots@[i] != #[trigger] roots@[j],
                    forall|kk: int|
                        0 <= kk < node_handles@.len() ==> self.scene@.contains_key(
                            #[trigger] node_handles@[kk],
                        ),
                    forall|kk: int|
                        0 <= kk < node_handles@.len() ==> ((self.scene@[
                            #[trigger] node_handles@[kk]
                        ].parent) is Some ==> self.scene@.contains_key(
                            self.scene@[node_handles@[kk]].parent->0,
                        )),
                    self.scene@.contains_key(scene_root),
                    self.scene@ == spec_attach_upto(
                        pre.insert(scene_root, crate::scene::spec_new_node(None)),
                        sd.nodes@,
                        node_handles@,
                        scene_root,
                        k as int,
                    ),
                    self.device == old(self).device,
                    self.buffers == old(self).buffers,
                    self.images == old(self).images,
                    self.accessors == old(self).accessors,
                    self.materials == old(self).materials,
                    self.samplers == old(self).samplers,
                    self.textures == old(self).textures,
                    self.meshes == old(self).meshes,
                    self.cameras == old(self).cameras,
                    self.framebuffers == old(self).framebuffers,
                    self.targets == old(self).targets,
                    self.shaders == old(self).shaders,
                decreases sd.nodes@.len() - k,
            {
                let node_index = sd.nodes[k];
                proof {
                    assert(gltf.scenes@[s as int].nodes@[k as int] < gltf.nodes@.len());
                }
                let node_handle = node_handles[node_index];
                let ghost mid = self.scene@;
                self.scene.set_parent(node_handle, scene_root);
                k = k + 1;
                proof {
                    assert forall|kk: int|
                        0 <= kk < node_handles@.len() implies self.scene@.contains_key(
                        #[trigger] node_handles@[kk],
                    ) by {
                        assert(mid.contains_key(node_handles@[kk]));
                    }
                }
            }
            s = s + 1;
            proof {
                assert(roots@ =~= roots_pre.push(scene_root));
                lemma_scenes_fold_roots_agree(
                    old(self).scene@,
                    gltf.scenes@,
                    node_handles@,
                    roots_pre,
                    roots@,
                    s as int - 1,
                );
                assert(pre == spec_scenes_fold(
                    old(self).scene@,
                    gltf.scenes@,
                    node_handles@,
                    roots@,
                    s as int - 1,
                ));
                assert(roots@[s as int - 1] == scene_root);
                assert(self.scene@ == spec_scenes_fold(
                    old(self).scene@,
                    gltf.scenes@,
                    node_handles@,
                    roots@,
                    s as int,
                ));
            }
        }
        Ok(roots)
    }

    /// Bakes a whole interchange document: accessors, materials, meshes,
    /// nodes and scenes in that order, returning the scene-root handles.
    /// The import is fail-fast and sequential; the first unsupported
    /// feature or bad reference aborts it with that phase's error.
    pub fn bake_gltf(&mut self, gltf: &GltfDocument) -> (r: Result<Vec<Handle>, BakeError>)
        requires
            old(self).wf(),
        ensures
            final(self).wf(),
            final(self).scene.root() == old(self).scene.root(),
            final(self).samplers == old(self).samplers,
            final(self).textures == old(self).textures,
            final(self).images == old(self).images,
            final(self).cameras == old(self).cameras,
            final(self).framebuffers == old(self).framebuffers,
            final(self).targets == old(self).targets,
            final(self).shaders == old(self).shaders,
            // Every phase validates before mutating, so a failure before
            // the node phase keeps the scene exactly as it was (a
            // scene-reference failure comes after node baking and leaves
            // the baked, unwired nodes behind); an accessor failure keeps
            // everything untouched, and a mesh-reference failure
            // additionally keeps the mesh store.
            (r is Err && !(spec_accessors_outcome(gltf, 0) is None && spec_mesh_refs_ok(gltf)
                && spec_transforms_ok(gltf) && spec_children_ok(gltf))) ==> final(self).scene
                == old(self).scene,
            (r is Err && spec_accessors_outcome(gltf, 0) is Some) ==> final(self).accessors
                == old(self).accessors && final(self).buffers == old(self).buffers
                && final(self).device == old(self).device && final(self).materials == old(
                self,
            ).materials && final(self).meshes == old(self).meshes,
            (r is Err && spec_accessors_outcome(gltf, 0) is None && !spec_mesh_refs_ok(gltf))
                ==> final(self).meshes == old(self).meshes,
            r is Ok <==> (spec_accessors_outcome(gltf, 0) is None && spec_mesh_refs_ok(gltf)
                && spec_transforms_ok(gltf) && spec_children_ok(gltf) && spec_scene_refs_ok(
                gltf,
            )),
            r is Ok ==> r->Ok_0@.len() == gltf.scenes@.len(),
            r is Ok ==> spec_document_baked(
                gltf,
                old(self).scene@,
                old(self).device.calls(),
                final(self).accessors@,
                final(self).buffers@,
                final(self).materials@,
                final(self).meshes@,
                final(self).scene@,
                final(self).device.calls(),
                r->Ok_0@,
            ),
            r is Err ==> r == Err::<Vec<Handle>, BakeError>(
                match spec_accessors_outcome(gltf, 0) {
                    Some(e) => e,
                    None => if !spec_mesh_refs_ok(gltf) {
                        BakeError::BadReference
                    } else if !spec_transforms_ok(gltf) {
                        BakeError::UnsupportedMatrixTransform
                    } else if !spec_children_ok(gltf) {
                        BakeError::BadReference
                    } else {
                        BakeError::BadReference
                    },
                },
            ),
    {
        let ghost scene0 = self.scene@;
        let ghost calls0 = self.device.calls();
        let accessor_handles = match self.create_gltf_accessors(gltf) {
            Ok(h) => h,
            Err(e) => {
                return Err(e);
            },
        };
        let material_handles = self.create_gltf_materials(gltf);
        let mesh_handles = match self.create_gltf_meshes(
            gltf,
            &accessor_handles,
            &material_handles,
        ) {
            Ok(h) => h,
            Err(e) => {
                return Err(e);
            },
        };
        let node_handles = match self.create_gltf_nodes(gltf, &mesh_handles) {
            Ok(h) => h,
            Err(e) => {
                return Err(e);
            },
        };
        let ghost mid_scene = self.scene@;
        let ghost mid_issued = self.scene.issued();
        match self.create_gltf_scenes(gltf, &node_handles) {
            Ok(roots) => {
                proof {
                    // The roots are fresh against the issued set the node
                    // handles came out of, so they alias no baked node.
                    assert forall|i: int, k: int|
                        0 <= i < roots@.len() && 0 <= k < node_handles@.len()
                            implies #[trigger] roots@[i] != #[trigger] node_handles@[k] by {
                        assert(mid_issued.contains(node_handles@[k]));
                        assert(!mid_issued.contains(roots@[i]));
                    }
                    assert(spec_bake_witness(
                        gltf,
                        scene0,
                        calls0,
                        self.accessors@,
                        self.buffers@,
                        self.materials@,
                        self.meshes@,
                        self.scene@,
                        self.device.calls(),
                        accessor_handles@,
                        material_handles@,
                        mesh_handles@,
                        node_handles@,
                        mid_scene,
                        roots@,
                    ));
                }
                Ok(roots)
            },
            Err(e) => Err(e),
        }
    }
}

/// If no accessor before `at` uses view `vi` and accessor `at` does, then
/// `at` is the view's first user.
proof fn lemma_first_view_user_at(doc: &GltfDocument, vi: int, at: int)
    requires
        0 <= at < doc.accessors@.len(),
        doc.accessors@[at].view == Some(vi as usize),
        spec_first_view_user(doc, vi, 0) >= at,
    ensures
        spec_first_view_user(doc, vi, 0) == at,
{
    lemma_first_view_user_le(doc, vi, 0, at);
}

/// A search started earlier finds a user no later than any given user.
proof fn lemma_first_view_user_le(doc: &GltfDocument, vi: int, from: int, user: int)
    requires
        0 <= from <= user < doc.accessors@.len(),
        doc.accessors@[user].view == Some(vi as usize),
    ensures
        spec_first_view_user(doc, vi, from) <= user,
    decreases user - from,
{
    if from < user && doc.accessors@[from].view != Some(vi as usize) {
        lemma_first_view_user_le(doc, vi, from + 1, user);
    }
}

/// A first user below a bound stays below any larger bound; one at or
/// above the old bound that is not the next index stays at or above the
/// new bound.
proof fn lemma_first_view_user_bounds(doc: &GltfDocument, vi: int, i: int)
    requires
        0 <= i < doc.accessors@.len(),
        doc.accessors@[i].view != Some(vi as usize),
    ensures
        spec_first_view_user(doc, vi, 0) != i,
    decreases doc.accessors@.len(),
{
    lemma_first_view_user_misses(doc, vi, 0, i);
}

/// The first-user search never returns an index below its starting point.
proof fn lemma_first_view_user_nonneg(doc: &GltfDocument, vi: int, from: int)
    requires
        0 <= from <= doc.accessors@.len(),
    ensures
        spec_first_view_user(doc, vi, from) >= from,
    decreases doc.accessors@.len() - from,
{
    if from < doc.accessors@.len() && doc.accessors@[from].view != Some(vi as usize) {
        lemma_first_view_user_nonneg(doc, vi, from + 1);
    }
}

/// The first-user search never lands on an index whose accessor uses a
/// different view.
proof fn lemma_first_view_user_misses(doc: &GltfDocument, vi: int, from: int, i: int)
    requires
        0 <= from <= doc.accessors@.len(),
        0 <= i < doc.accessors@.len(),
        doc.accessors@[i].view != Some(vi as usize),
    ensures
        spec_first_view_user(doc, vi, from) != i,
    decreases doc.accessors@.len() - from,
{
    if from < doc.accessors@.len() {
        if doc.accessors@[from].view == Some(vi as usize) {
        } else {
            lemma_first_view_user_misses(doc, vi, from + 1, i);
        }
    }
}

} // verus!
