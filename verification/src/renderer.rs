//! The renderer: one arena per resource kind, the scene graph, the shader
//! cache, and the recording device, with the per-frame draw dispatch.
//!
//! Shader compilation belongs to the host: [`Renderer::shader_request`]
//! says what must be compiled for a material (nothing when its tag is
//! already cached), and [`Renderer::checkup_shader`] installs the link
//! report under the tag — at most one cache entry ever exists per tag.

use vstd::prelude::*;

use crate::arena::{Arena, Handle};
use crate::device::{Device, DeviceCall};
use crate::error::RenderError;
use crate::gl::{
    AttributeOptions, BufferItem, BufferTarget, BufferUsage, DrawMode, Feature, TypedArrayKind,
};
use crate::material::{
    spec_defines, spec_params, spec_setup_calls, spec_setup_valid, spec_shader_kind, spec_tag,
    Material, MaterialParams, ShaderRequest,
};
use crate::mat4::Mat4;
use crate::scene::{Node, NodeView, Scene};
use crate::shader::{Define, Shader};
use crate::store::{
    spec_attr_lookup, Accessor, Camera, Mesh, PrimitiveView, Primitive, RenderTarget, Sampler,
    Texture,
};

verus! {

/// Finds the shader cached under a tag, first match wins.
pub open spec fn spec_cache_get(s: Seq<(Seq<char>, Shader)>, tag: Seq<char>) -> Option<Shader>
    decreases s.len(),
{
    if s.len() == 0 {
        None
    } else if s[0].0 == tag {
        Some(s[0].1)
    } else {
        spec_cache_get(s.drop_first(), tag)
    }
}

/// A prefix of mismatching tags does not change what a cache lookup finds.
proof fn lemma_cache_get_skip(s: Seq<(Seq<char>, Shader)>, tag: Seq<char>, k: int)
    requires
        0 <= k <= s.len(),
        forall|i: int| 0 <= i < k ==> (#[trigger] s[i]).0 != tag,
    ensures
        spec_cache_get(s, tag) == spec_cache_get(s.skip(k), tag),
    decreases k,
{
    if k > 0 {
        assert(s[0].0 != tag);
        lemma_cache_get_skip(s.drop_first(), tag, k - 1);
        assert(s.drop_first().skip(k - 1) =~= s.skip(k));
    } else {
        assert(s.skip(0) =~= s);
    }
}

/// The compiled-shader cache: one entry per material tag.
pub struct ShaderCache {
    entries: Vec<(String, Shader)>,
}

impl ShaderCache {
    /// The cached entries, oldest first, tags unique.
    pub closed spec fn entries(&self) -> Seq<(Seq<char>, Shader)> {
        self.entries@.map_values(|p: (String, Shader)| (p.0@, p.1))
    }

    /// The shader cached under a tag.
    pub open spec fn spec_get(&self, tag: Seq<char>) -> Option<Shader> {
        spec_cache_get(self.entries(), tag)
    }

    /// Tags are unique, and every cached shader is well formed.
    pub closed spec fn wf(&self) -> bool {
        &&& forall|k1: int, k2: int|
            0 <= k1 < self.entries().len() && 0 <= k2 < self.entries().len() && k1 != k2
                ==> (#[trigger] self.entries()[k1]).0 != (#[trigger] self.entries()[k2]).0
        &&& forall|k: int|
            0 <= k < self.entries().len() ==> (#[trigger] self.entries()[k]).1.wf()
    }

    /// An empty cache.
    pub fn new() -> (r: ShaderCache)
        ensures
            r.wf(),
            r.entries() == Seq::<(Seq<char>, Shader)>::empty(),
    {
        let r = ShaderCache { entries: Vec::new() };
        proof {
            assert(r.entries() =~= Seq::<(Seq<char>, Shader)>::empty());
        }
        r
    }

    /// Number of cached entries.
    pub fn len(&self) -> (r: usize)
        ensures
            r == self.entries().len(),
    {
        self.entries.len()
    }

    /// Whether a tag is cached.
    pub fn contains_tag(&self, tag: &String) -> (r: bool)
        ensures
            r == (self.spec_get(tag@) is Some),
    {
        match self.get(tag) {
            Some(_) => true,
            None => false,
        }
    }

    /// The shader cached under a tag, if any.
    pub fn get(&self, tag: &String) -> (r: Option<&Shader>)
        ensures
            match r {
                Some(sh) => self.spec_get(tag@) == Some(*sh),
                None => self.spec_get(tag@) is None,
            },
    {
        let mut k: usize = 0;
        while k < self.entries.len()
            invariant
                k <= self.entries().len(),
                forall|i: int| 0 <= i < k ==> (#[trigger] self.entries()[i]).0 != tag@,
            decreases self.entries().len() - k,
        {
            if self.entries[k].0.eq(tag) {
                proof {
                    lemma_cache_get_skip(self.entries(), tag@, k as int);
                    assert(self.entries().skip(k as int)[0] == self.entries()[k as int]);
                }
                return Some(&self.entries[k].1);
            }
            k = k + 1;
        }
        proof {
            lemma_cache_get_skip(self.entries(), tag@, k as int);
            assert(self.entries().skip(k as int).len() == 0);
        }
        None
    }

    /// Caches a shader under a tag not yet present.
    pub fn insert_new(&mut self, tag: String, shader: Shader)
        requires
            old(self).wf(),
            old(self).spec_get(tag@) is None,
            shader.wf(),
        ensures
            final(self).wf(),
            final(self).entries() == old(self).entries().push((tag@, shader)),
    {
        proof {
            // A tag that lookup misses occurs nowhere in the entries.
            assert forall|k: int|
                0 <= k < self.entries().len() implies (#[trigger] self.entries()[k]).0
                != tag@ by {
                if self.entries()[k].0 == tag@ {
                    lemma_cache_get_skip(self.entries(), tag@, k);
                    assert(self.entries().skip(k)[0] == self.entries()[k]);
                    assert(spec_cache_get(self.entries(), tag@) is Some);
                }
            }
        }
        let ghost before = self.entries();
        self.entries.push((tag, shader));
        proof {
            assert(self.entries() =~= before.push((tag@, shader)));
        }
    }
}

/// The retained-mode renderer: the resource arenas, the scene graph, the
/// shader cache, and the recording device.
pub struct Renderer {
    pub device: Device,
    pub buffers: Arena<u64>,
    pub images: Arena<u64>,
    pub accessors: Arena<Accessor>,
    pub materials: Arena<Material>,
    pub samplers: Arena<Sampler>,
    pub textures: Arena<Texture>,
    pub meshes: Arena<Mesh>,
    pub cameras: Arena<Camera>,
    pub framebuffers: Arena<u64>,
    pub targets: Arena<RenderTarget>,
    pub scene: Scene,
    pub shaders: ShaderCache,
}

impl Renderer {
    /// Internal consistency of every store.
    pub open spec fn wf(&self) -> bool {
        &&& self.buffers.wf()
        &&& self.images.wf()
        &&& self.accessors.wf()
        &&& self.materials.wf()
        &&& self.samplers.wf()
        &&& self.textures.wf()
        &&& self.meshes.wf()
        &&& self.cameras.wf()
        &&& self.framebuffers.wf()
        &&& self.targets.wf()
        &&& self.scene.wf()
        &&& self.shaders.wf()
    }

    /// A renderer with empty stores, a fresh scene (holding its root node),
    /// an empty shader cache, and a device log holding one call: the query
    /// for the unsigned-int-index extension the renderer requires of its
    /// device.
    pub fn new() -> (r: Renderer)
        ensures
            r.wf(),
            r.buffers@ == Map::<Handle, u64>::empty(),
            r.images@ == Map::<Handle, u64>::empty(),
            r.accessors@ == Map::<Handle, Accessor>::empty(),
            r.materials@ == Map::<Handle, Material>::empty(),
            r.samplers@ == Map::<Handle, Sampler>::empty(),
            r.textures@ == Map::<Handle, Texture>::empty(),
            r.meshes@ == Map::<Handle, Mesh>::empty(),
            r.cameras@ == Map::<Handle, Camera>::empty(),
            r.framebuffers@ == Map::<Handle, u64>::empty(),
            r.targets@ == Map::<Handle, RenderTarget>::empty(),
            r.scene@ == Map::<Handle, NodeView>::empty().insert(
                r.scene.root(),
                crate::scene::spec_new_node(None),
            ),
            r.shaders.entries() == Seq::<(Seq<char>, Shader)>::empty(),
            r.device.calls().len() == 1,
            r.device.calls()[0] is GetExtension,
            r.device.calls()[0]->GetExtension_name@ == "OES_element_index_uint"@,
            r.device.attrib_count() == 0,
    {
        let mut device = Device::new();
        device.get_extension(String::from_str("OES_element_index_uint"));
        Renderer {
            device,
            buffers: Arena::new(),
            images: Arena::new(),
            accessors: Arena::new(),
            materials: Arena::new(),
            samplers: Arena::new(),
            textures: Arena::new(),
            meshes: Arena::new(),
            cameras: Arena::new(),
            framebuffers: Arena::new(),
            targets: Arena::new(),
            scene: Scene::new(),
            shaders: ShaderCache::new(),
        }
    }

    /// What the host must compile for this material: `None` when its tag is
    /// already cached, otherwise the shader kind and defines to build.
    pub fn shader_request(&self, material: &Material) -> (r: Option<ShaderRequest>)
        ensures
            r is None <==> self.shaders.spec_get(spec_tag(*material)) is Some,
            match r {
                Some(req) => req.kind == spec_shader_kind(*material)
                    && req.defines@.map_values(|d: Define| d@) == spec_defines(*material),
                None => true,
            },
    {
        let tag = material.get_tag();
        if self.shaders.contains_tag(&tag) {
            None
        } else {
            Some(material.shader_request())
        }
    }

    /// Law: shader-cache idempotence. Installs a compiled program under the
    /// material's tag; when the tag is already cached nothing changes, so
    /// repeated installation for materials sharing a configuration leaves
    /// exactly one entry.
    pub fn checkup_shader(&mut self, material: &Material, shader: Shader) -> (installed: bool)
        requires
            old(self).wf(),
            shader.wf(),
        ensures
            final(self).wf(),
            installed == (old(self).shaders.spec_get(spec_tag(*material)) is None),
            installed ==> final(self).shaders.entries() == old(self).shaders.entries().push(
                (spec_tag(*material), shader),
            ),
            !installed ==> final(self).shaders.entries() == old(self).shaders.entries(),
            final(self).device == old(self).device,
            final(self).buffers == old(self).buffers,
            final(self).images == old(self).images,
            final(self).accessors == old(self).accessors,
            final(self).materials == old(self).materials,
            final(self).samplers == old(self).samplers,
            final(self).textures == old(self).textures,
            final(self).meshes == old(self).meshes,
            final(self).cameras == old(self).cameras,
            final(self).framebuffers == old(self).framebuffers,
            final(self).targets == old(self).targets,
            final(self).scene == old(self).scene,
    {
        let tag = material.get_tag();
        if self.shaders.contains_tag(&tag) {
            false
        } else {
            self.shaders.insert_new(tag, shader);
            true
        }
    }

    /// Inserts a material; its shader is installed separately through
    /// `shader_request` and `checkup_shader`.
    pub fn insert_material(&mut self, material: Material) -> (r: Handle)
        requires
            old(self).wf(),
        ensures
            final(self).wf(),
            !old(self).materials.issued().contains(r),
            !old(self).materials@.contains_key(r),
            final(self).materials@ == old(self).materials@.insert(r, material),
            final(self).materials.issued() == old(self).materials.issued().insert(r),
            final(self).device == old(self).device,
            final(self).buffers == old(self).buffers,
            final(self).images == old(self).images,
            final(self).accessors == old(self).accessors,
            final(self).samplers == old(self).samplers,
            final(self).textures == old(self).textures,
            final(self).meshes == old(self).meshes,
            final(self).cameras == old(self).cameras,
            final(self).framebuffers == old(self).framebuffers,
            final(self).targets == old(self).targets,
            final(self).scene == old(self).scene,
            final(self).shaders == old(self).shaders,
    {
        self.materials.insert(material)
    }

    /// Inserts a node into the scene graph.
    pub fn insert_node(&mut self, node: Node) -> (r: Handle)
        requires
            old(self).wf(),
            node@.parent is Some ==> old(self).scene@.contains_key(node@.parent->0),
        ensures
            final(self).wf(),
            !old(self).scene.issued().contains(r),
            !old(self).scene@.contains_key(r),
            final(self).scene.root() == old(self).scene.root(),
            ({
                let base = old(self).scene@.insert(r, node@);
                final(self).scene@ == if node@.parent is Some {
                    let p = node@.parent->0;
                    base.insert(
                        p,
                        NodeView { children: base[p].children.push(r), ..base[p] },
                    )
                } else {
                    base
                }
            }),
            final(self).device == old(self).device,
            final(self).buffers == old(self).buffers,
            final(self).images == old(self).images,
            final(self).accessors == old(self).accessors,
            final(self).materials == old(self).materials,
            final(self).samplers == old(self).samplers,
            final(self).textures == old(self).textures,
            final(self).meshes == old(self).meshes,
            final(self).cameras == old(self).cameras,
            final(self).framebuffers == old(self).framebuffers,
            final(self).targets == old(self).targets,
            final(self).shaders == old(self).shaders,
    {
        self.scene.insert(node)
    }

    /// Inserts a mesh.
    pub fn insert_mesh(&mut self, mesh: Mesh) -> (r: Handle)
        requires
            old(self).wf(),
        ensures
            final(self).wf(),
            !old(self).meshes.issued().contains(r),
            !old(self).meshes@.contains_key(r),
            final(self).meshes@ == old(self).meshes@.insert(r, mesh),
            final(self).device == old(self).device,
            final(self).buffers == old(self).buffers,
            final(self).images == old(self).images,
            final(self).accessors == old(self).accessors,
            final(self).materials == old(self).materials,
            final(self).samplers == old(self).samplers,
            final(self).textures == old(self).textures,
            final(self).cameras == old(self).cameras,
            final(self).framebuffers == old(self).framebuffers,
            final(self).targets == old(self).targets,
            final(self).scene == old(self).scene,
            final(self).shaders == old(self).shaders,
    {
        self.meshes.insert(mesh)
    }

    /// Inserts an accessor.
    pub fn insert_accessor(&mut self, accessor: Accessor) -> (r: Handle)
        requires
            old(self).wf(),
        ensures
            final(self).wf(),
            !old(self).accessors.issued().contains(r),
            !old(self).accessors@.contains_key(r),
            final(self).accessors@ == old(self).accessors@.insert(r, accessor),
            final(self).device == old(self).device,
            final(self).buffers == old(self).buffers,
            final(self).images == old(self).images,
            final(self).materials == old(self).materials,
            final(self).samplers == old(self).samplers,
            final(self).textures == old(self).textures,
            final(self).meshes == old(self).meshes,
            final(self).cameras == old(self).cameras,
            final(self).framebuffers == old(self).framebuffers,
            final(self).targets == old(self).targets,
            final(self).scene == old(self).scene,
            final(self).shaders == old(self).shaders,
    {
        self.accessors.insert(accessor)
    }

    /// Inserts a device image identifier.
    pub fn insert_image(&mut self, image: u64) -> (r: Handle)
        requires
            old(self).wf(),
        ensures
            final(self).wf(),
            !old(self).images.issued().contains(r),
            !old(self).images@.contains_key(r),
            final(self).images@ == old(self).images@.insert(r, image),
            final(self).device == old(self).device,
            final(self).buffers == old(self).buffers,
            final(self).accessors == old(self).accessors,
            final(self).materials == old(self).materials,
            final(self).samplers == old(self).samplers,
            final(self).textures == old(self).textures,
            final(self).meshes == old(self).meshes,
            final(self).cameras == old(self).cameras,
            final(self).framebuffers == old(self).framebuffers,
            final(self).targets == old(self).targets,
            final(self).scene == old(self).scene,
            final(self).shaders == old(self).shaders,
    {
        self.images.insert(image)
    }

    /// Inserts a sampler.
    pub fn insert_sampler(&mut self, sampler: Sampler) -> (r: Handle)
        requires
            old(self).wf(),
        ensures
            final(self).wf(),
            !old(self).samplers.issued().contains(r),
            !old(self).samplers@.contains_key(r),
            final(self).samplers@ == old(self).samplers@.insert(r, sampler),
            final(self).device == old(self).device,
            final(self).buffers == old(self).buffers,
            final(self).images == old(self).images,
            final(self).accessors == old(self).accessors,
            final(self).materials == old(self).materials,
            final(self).textures == old(self).textures,
            final(self).meshes == old(self).meshes,
            final(self).cameras == old(self).cameras,
            final(self).framebuffers == old(self).framebuffers,
            final(self).targets == old(self).targets,
            final(self).scene == old(self).scene,
            final(self).shaders == old(self).shaders,
    {
        self.samplers.insert(sampler)
    }

    /// Inserts a texture (source image plus sampler).
    pub fn insert_texture(&mut self, texture: Texture) -> (r: Handle)
        requires
            old(self).wf(),
        ensures
            final(self).wf(),
            !old(self).textures.issued().contains(r),
            !old(self).textures@.contains_key(r),
            final(self).textures@ == old(self).textures@.insert(r, texture),
            final(self).device == old(self).device,
            final(self).buffers == old(self).buffers,
            final(self).images == old(self).images,
            final(self).accessors == old(self).accessors,
            final(self).materials == old(self).materials,
            final(self).samplers == old(self).samplers,
            final(self).meshes == old(self).meshes,
            final(self).cameras == old(self).cameras,
            final(self).framebuffers == old(self).framebuffers,
            final(self).targets == old(self).targets,
            final(self).scene == old(self).scene,
            final(self).shaders == old(self).shaders,
    {
        self.textures.insert(texture)
    }

    /// Inserts a camera.
    pub fn insert_camera(&mut self, camera: Camera) -> (r: Handle)
        requires
            old(self).wf(),
        ensures
            final(self).wf(),
            !old(self).cameras.issued().contains(r),
            !old(self).cameras@.contains_key(r),
            final(self).cameras@ == old(self).cameras@.insert(r, camera),
            final(self).device == old(self).device,
            final(self).buffers == old(self).buffers,
            final(self).images == old(self).images,
            final(self).accessors == old(self).accessors,
            final(self).materials == old(self).materials,
            final(self).samplers == old(self).samplers,
            final(self).textures == old(self).textures,
            final(self).meshes == old(self).meshes,
            final(self).framebuffers == old(self).framebuffers,
            final(self).targets == old(self).targets,
            final(self).scene == old(self).scene,
            final(self).shaders == old(self).shaders,
    {
        self.cameras.insert(camera)
    }

    /// Inserts a device framebuffer identifier.
    pub fn insert_framebuffer(&mut self, framebuffer: u64) -> (r: Handle)
        requires
            old(self).wf(),
        ensures
            final(self).wf(),
            !old(self).framebuffers.issued().contains(r),
            !old(self).framebuffers@.contains_key(r),
            final(self).framebuffers@ == old(self).framebuffers@.insert(r, framebuffer),
            final(self).device == old(self).device,
            final(self).buffers == old(self).buffers,
            final(self).images == old(self).images,
            final(self).accessors == old(self).accessors,
            final(self).materials == old(self).materials,
            final(self).samplers == old(self).samplers,
            final(self).textures == old(self).textures,
            final(self).meshes == old(self).meshes,
            final(self).cameras == old(self).cameras,
            final(self).targets == old(self).targets,
            final(self).scene == old(self).scene,
            final(self).shaders == old(self).shaders,
    {
        self.framebuffers.insert(framebuffer)
    }

    /// Inserts a render target.
    pub fn insert_render_target(&mut self, target: RenderTarget) -> (r: Handle)
        requires
            old(self).wf(),
        ensures
            final(self).wf(),
            !old(self).targets.issued().contains(r),
            !old(self).targets@.contains_key(r),
            final(self).targets@ == old(self).targets@.insert(r, target),
            final(self).device == old(self).device,
            final(self).buffers == old(self).buffers,
            final(self).images == old(self).images,
            final(self).accessors == old(self).accessors,
            final(self).materials == old(self).materials,
            final(self).samplers == old(self).samplers,
            final(self).textures == old(self).textures,
            final(self).meshes == old(self).meshes,
            final(self).cameras == old(self).cameras,
            final(self).framebuffers == old(self).framebuffers,
            final(self).scene == old(self).scene,
            final(self).shaders == old(self).shaders,
    {
        self.targets.insert(target)
    }

    /// Creates a device buffer holding the little-endian bytes of `data`
    /// and stores its identifier.
    pub fn insert_buffer<T: BufferItem>(
        &mut self,
        target: BufferTarget,
        usage: BufferUsage,
        data: &[T],
    ) -> (r: Handle)
        requires
            old(self).wf(),
        ensures
            final(self).wf(),
            !old(self).buffers.issued().contains(r),
            !old(self).buffers@.contains_key(r),
            final(self).buffers@ == old(self).buffers@.insert(
                r,
                old(self).device.next_buffer_id(),
            ),
            final(self).device.calls().len() == old(self).device.calls().len() + 1,
            final(self).device.calls().drop_last() == old(self).device.calls(),
            ({
                let c = final(self).device.calls().last();
                &&& c is CreateBuffer
                &&& c->CreateBuffer_buffer == old(self).device.next_buffer_id()
                &&& c->CreateBuffer_target == target
                &&& c->CreateBuffer_usage == usage
                &&& c->CreateBuffer_kind == T::spec_kind()
                &&& c->CreateBuffer_data@ == spec_items_bytes(data@)
            }),
            final(self).device.attrib_count() == old(self).device.attrib_count(),
            final(self).images == old(self).images,
            final(self).accessors == old(self).accessors,
            final(self).materials == old(self).materials,
            final(self).samplers == old(self).samplers,
            final(self).textures == old(self).textures,
            final(self).meshes == old(self).meshes,
            final(self).cameras == old(self).cameras,
            final(self).framebuffers == old(self).framebuffers,
            final(self).targets == old(self).targets,
            final(self).scene == old(self).scene,
            final(self).shaders == old(self).shaders,
    {
        let bytes = items_to_bytes(data);
        let id = self.device.create_buffer(target, usage, T::array_kind(), bytes);
        self.buffers.insert(id)
    }

    /// Creates a device buffer from raw bytes and stores its identifier.
    pub fn insert_buffer_bytes(
        &mut self,
        target: BufferTarget,
        usage: BufferUsage,
        kind: TypedArrayKind,
        data: Vec<u8>,
    ) -> (r: Handle)
        requires
            old(self).wf(),
        ensures
            final(self).wf(),
            !old(self).buffers.issued().contains(r),
            !old(self).buffers@.contains_key(r),
            final(self).buffers@ == old(self).buffers@.insert(
                r,
                old(self).device.next_buffer_id(),
            ),
            final(self).device.calls() == old(self).device.calls().push(
                DeviceCall::CreateBuffer {
                    buffer: old(self).device.next_buffer_id(),
                    target,
                    usage,
                    kind,
                    data,
                },
            ),
            final(self).device.attrib_count() == old(self).device.attrib_count(),
            final(self).images == old(self).images,
            final(self).accessors == old(self).accessors,
            final(self).materials == old(self).materials,
            final(self).samplers == old(self).samplers,
            final(self).textures == old(self).textures,
            final(self).meshes == old(self).meshes,
            final(self).cameras == old(self).cameras,
            final(self).framebuffers == old(self).framebuffers,
            final(self).targets == old(self).targets,
            final(self).scene == old(self).scene,
            final(self).shaders == old(self).shaders,
    {
        let id = self.device.create_buffer(target, usage, kind, data);
        self.buffers.insert(id)
    }

    /// Creates a device buffer plus a tightly packed accessor over it.
    pub fn bake_buffer_accessor<T: BufferItem>(
        &mut self,
        target: BufferTarget,
        data: &[T],
        item_size: i32,
        count: i32,
    ) -> (r: Handle)
        requires
            old(self).wf(),
        ensures
            final(self).wf(),
            !old(self).accessors.issued().contains(r),
            !old(self).accessors@.contains_key(r),
            ({
                let acc = final(self).accessors@[r];
                &&& final(self).accessors@ == old(self).accessors@.insert(r, acc)
                &&& !old(self).accessors@.contains_key(r)
                &&& final(self).buffers@ == old(self).buffers@.insert(
                    acc.buffer,
                    old(self).device.next_buffer_id(),
                )
                &&& !old(self).buffers@.contains_key(acc.buffer)
                &&& acc.count == count
                &&& acc.options.component_type == T::spec_kind()
                &&& acc.options.item_size == item_size
                &&& !acc.options.normalized
                &&& acc.options.stride == 0
                &&& acc.options.offset == 0
                &&& final(self).buffers@.contains_key(acc.buffer)
                &&& final(self).buffers@[acc.buffer] == old(self).device.next_buffer_id()
            }),
            final(self).device.calls().len() == old(self).device.calls().len() + 1,
            final(self).device.calls().drop_last() == old(self).device.calls(),
            ({
                let c = final(self).device.calls().last();
                &&& c is CreateBuffer
                &&& c->CreateBuffer_buffer == old(self).device.next_buffer_id()
                &&& c->CreateBuffer_target == target
                &&& c->CreateBuffer_usage == BufferUsage::StaticDraw
                &&& c->CreateBuffer_kind == T::spec_kind()
                &&& c->CreateBuffer_data@ == spec_items_bytes(data@)
            }),
            final(self).device.attrib_count() == old(self).device.attrib_count(),
            final(self).images == old(self).images,
            final(self).materials == old(self).materials,
            final(self).samplers == old(self).samplers,
            final(self).textures == old(self).textures,
            final(self).meshes == old(self).meshes,
            final(self).cameras == old(self).cameras,
            final(self).framebuffers == old(self).framebuffers,
            final(self).targets == old(self).targets,
            final(self).scene == old(self).scene,
            final(self).shaders == old(self).shaders,
    {
        let buffer = self.insert_buffer(target, BufferUsage::StaticDraw, data);
        let attribute_options = AttributeOptions::new(T::array_kind(), item_size);
        let accessor = Accessor { buffer, count, options: attribute_options };
        self.accessors.insert(accessor)
    }

    /// Creates a device buffer from raw bytes (interpreted by the device
    /// under the given scalar kind) plus an accessor of that kind over it.
    pub fn bake_buffer_accessor_bytes(
        &mut self,
        target: BufferTarget,
        data: Vec<u8>,
        kind: TypedArrayKind,
        item_size: i32,
        count: i32,
    ) -> (r: Handle)
        requires
            old(self).wf(),
        ensures
            final(self).wf(),
            !old(self).accessors.issued().contains(r),
            ({
                let acc = final(self).accessors@[r];
                &&& final(self).accessors@ == old(self).accessors@.insert(r, acc)
                &&& !old(self).accessors@.contains_key(r)
                &&& final(self).buffers@ == old(self).buffers@.insert(
                    acc.buffer,
                    old(self).device.next_buffer_id(),
                )
                &&& !old(self).buffers@.contains_key(acc.buffer)
                &&& acc.count == count
                &&& acc.options.component_type == kind
                &&& acc.options.item_size == item_size
                &&& !acc.options.normalized
                &&& acc.options.stride == 0
                &&& acc.options.offset == 0
                &&& final(self).buffers@.contains_key(acc.buffer)
            }),
            final(self).device.calls() == old(self).device.calls().push(
                DeviceCall::CreateBuffer {
                    buffer: old(self).device.next_buffer_id(),
                    target,
                    usage: BufferUsage::StaticDraw,
                    kind,
                    data,
                },
            ),
            final(self).device.attrib_count() == old(self).device.attrib_count(),
            final(self).images == old(self).images,
            final(self).materials == old(self).materials,
            final(self).samplers == old(self).samplers,
            final(self).textures == old(self).textures,
            final(self).meshes == old(self).meshes,
            final(self).cameras == old(self).cameras,
            final(self).framebuffers == old(self).framebuffers,
            final(self).targets == old(self).targets,
            final(self).scene == old(self).scene,
            final(self).shaders == old(self).shaders,
    {
        let buffer = self.insert_buffer_bytes(target, BufferUsage::StaticDraw, kind, data);
        let attribute_options = AttributeOptions::new(kind, item_size);
        let accessor = Accessor { buffer, count, options: attribute_options };
        self.accessors.insert(accessor)
    }

    /// Replaces a camera's view or projection matrix (or both). A dead
    /// camera handle is a programmer error and is excluded.
    pub fn update_camera(&mut self, handle: Handle, view: Option<Mat4>, projection: Option<Mat4>)
        requires
            old(self).wf(),
            old(self).cameras@.contains_key(handle),
        ensures
            final(self).wf(),
            final(self).cameras@ == old(self).cameras@.insert(
                handle,
                Camera {
                    view: match view {
                        Some(v) => v,
                        None => old(self).cameras@[handle].view,
                    },
                    projection: match projection {
                        Some(p) => p,
                        None => old(self).cameras@[handle].projection,
                    },
                },
            ),
            final(self).device == old(self).device,
            final(self).buffers == old(self).buffers,
            final(self).images == old(self).images,
            final(self).accessors == old(self).accessors,
            final(self).materials == old(self).materials,
            final(self).samplers == old(self).samplers,
            final(self).textures == old(self).textures,
            final(self).meshes == old(self).meshes,
            final(self).framebuffers == old(self).framebuffers,
            final(self).targets == old(self).targets,
            final(self).scene == old(self).scene,
            final(self).shaders == old(self).shaders,
    {
        let current = match self.cameras.get(handle) {
            Some(c) => *c,
            None => {
                proof {
                    assert(false);
                }
                Camera::default()
            },
        };
        let updated = Camera {
            view: match view {
                Some(v) => v,
                None => current.view,
            },
            projection: match projection {
                Some(p) => p,
                None => current.projection,
            },
        };
        self.cameras.update(handle, updated);
    }
}

/// The three capability calls a material's draw parameters apply.
pub open spec fn spec_params_calls(mp: MaterialParams) -> Seq<DeviceCall> {
    seq![
        if mp.cull_face {
            DeviceCall::Enable { feature: Feature::CullFace }
        } else {
            DeviceCall::Disable { feature: Feature::CullFace }
        },
        if mp.depth_test {
            DeviceCall::Enable { feature: Feature::DepthTest }
        } else {
            DeviceCall::Disable { feature: Feature::DepthTest }
        },
        DeviceCall::SetDepthFunc { func: mp.depth_func },
    ]
}

/// The calls binding one shader attribute: nothing when the primitive does
/// not carry the semantic, else the accessor's buffer bind and its layout
/// at the shader's location.
pub open spec fn spec_bind_one(
    entry: (Seq<char>, u32),
    prim: PrimitiveView,
    accessors: Map<Handle, Accessor>,
    buffers: Map<Handle, u64>,
) -> Seq<DeviceCall> {
    match spec_attr_lookup(prim.attributes, entry.0) {
        Some(ah) => seq![
            DeviceCall::BindBuffer {
                target: BufferTarget::ArrayBuffer,
                buffer: Some(buffers[accessors[ah].buffer]),
            },
            DeviceCall::VertexAttribPointer {
                location: entry.1,
                item_size: accessors[ah].options.item_size,
                kind: accessors[ah].options.component_type,
                normalized: accessors[ah].options.normalized,
                stride: accessors[ah].options.stride,
                offset: accessors[ah].options.offset,
            },
        ],
        None => Seq::empty(),
    }
}

/// The attribute-binding calls of a draw, walking the shader's attribute
/// map in link-report order.
pub open spec fn spec_bind_calls(
    sattrs: Seq<(Seq<char>, u32)>,
    prim: PrimitiveView,
    accessors: Map<Handle, Accessor>,
    buffers: Map<Handle, u64>,
) -> Seq<DeviceCall>
    decreases sattrs.len(),
{
    if sattrs.len() == 0 {
        Seq::empty()
    } else {
        spec_bind_calls(sattrs.drop_last(), prim, accessors, buffers) + spec_bind_one(
            sattrs.last(),
            prim,
            accessors,
            buffers,
        )
    }
}

/// Every accessor a shader's attributes match on the primitive is live,
/// and so is its buffer.
pub open spec fn spec_attrs_valid(
    sattrs: Seq<(Seq<char>, u32)>,
    prim: PrimitiveView,
    accessors: Map<Handle, Accessor>,
    buffers: Map<Handle, u64>,
) -> bool {
    forall|i: int|
        0 <= i < sattrs.len() ==> match spec_attr_lookup(
            prim.attributes,
            (#[trigger] sattrs[i]).0,
        ) {
            Some(ah) => accessors.contains_key(ah) && buffers.contains_key(accessors[ah].buffer),
            None => true,
        }
}

/// The primitive's index accessor (if any) is live, and so is its buffer.
pub open spec fn spec_indices_valid(
    prim: PrimitiveView,
    accessors: Map<Handle, Accessor>,
    buffers: Map<Handle, u64>,
) -> bool {
    match prim.indices {
        Some(h) => accessors.contains_key(h) && buffers.contains_key(accessors[h].buffer),
        None => true,
    }
}

/// The draw submission: an indexed draw through the index accessor when one
/// is set, else a non-indexed draw of the primitive's own vertex count.
pub open spec fn spec_index_calls(
    prim: PrimitiveView,
    accessors: Map<Handle, Accessor>,
    buffers: Map<Handle, u64>,
    mode: DrawMode,
) -> Seq<DeviceCall> {
    match prim.indices {
        Some(h) => seq![
            DeviceCall::BindBuffer {
                target: BufferTarget::ElementArrayBuffer,
                buffer: Some(buffers[accessors[h].buffer]),
            },
            DeviceCall::DrawElements {
                mode,
                count: accessors[h].count,
                kind: accessors[h].options.component_type,
                offset: 0,
            },
        ],
        None => seq![DeviceCall::DrawArrays { mode, first: 0, count: prim.count }],
    }
}

/// Whether one draw of a primitive under a material can run without a
/// stale handle: its textures, matched attribute accessors, buffers and
/// index accessor all resolve.
pub open spec fn spec_draw_valid(
    m: Material,
    sh: Shader,
    prim: PrimitiveView,
    accessors: Map<Handle, Accessor>,
    buffers: Map<Handle, u64>,
    textures: Map<Handle, Texture>,
    images: Map<Handle, u64>,
    samplers: Map<Handle, Sampler>,
) -> bool {
    &&& spec_setup_valid(m, textures, images, samplers)
    &&& spec_attrs_valid(sh.attributes(), prim, accessors, buffers)
    &&& spec_indices_valid(prim, accessors, buffers)
}

/// The exact calls of one primitive draw: bind the program, set up the
/// material's uniforms and textures, apply its draw parameters, bind the
/// attributes, adjust the enabled-attribute count, and submit.
pub open spec fn spec_draw_calls(
    m: Material,
    sh: Shader,
    prim: PrimitiveView,
    world: Mat4,
    camera: Camera,
    accessors: Map<Handle, Accessor>,
    buffers: Map<Handle, u64>,
    textures: Map<Handle, Texture>,
    images: Map<Handle, u64>,
    samplers: Map<Handle, Sampler>,
    attrib_in: u32,
) -> Seq<DeviceCall> {
    seq![DeviceCall::UseProgram { program: sh.spec_program() }] + spec_setup_calls(
        m,
        sh.uniforms(),
        world,
        camera,
        textures,
        images,
        samplers,
    ) + spec_params_calls(spec_params(m)) + spec_bind_calls(
        sh.attributes(),
        prim,
        accessors,
        buffers,
    ) + crate::device::spec_attrib_delta(attrib_in, sh.attributes().len() as u32)
        + spec_index_calls(prim, accessors, buffers, spec_params(m).draw_mode)
}

/// A found cache entry is one of the cache's entries (so it inherits their
/// well-formedness).
proof fn lemma_cache_get_found(s: Seq<(Seq<char>, Shader)>, tag: Seq<char>)
    requires
        spec_cache_get(s, tag) is Some,
    ensures
        exists|k: int|
            0 <= k < s.len() && (#[trigger] s[k]).0 == tag && s[k].1 == spec_cache_get(s, tag)->0,
    decreases s.len(),
{
    if s.len() > 0 {
        if s[0].0 == tag {
            assert(s[0].0 == tag && s[0].1 == spec_cache_get(s, tag)->0);
        } else {
            lemma_cache_get_found(s.drop_first(), tag);
            let k = choose|k: int|
                0 <= k < s.drop_first().len() && (#[trigger] s.drop_first()[k]).0 == tag
                    && s.drop_first()[k].1 == spec_cache_get(s.drop_first(), tag)->0;
            assert(s[k + 1].0 == tag && s[k + 1].1 == spec_cache_get(s, tag)->0);
        }
    }
}

/// A sequence is a prefix of itself extended by anything.
pub(crate) proof fn lemma_prefix_extend<T>(a: Seq<T>, b: Seq<T>)
    ensures
        a.is_prefix_of(a + b),
{
    assert(a =~= (a + b).subrange(0, a.len() as int));
}

/// Every sequence is a prefix of itself.
pub(crate) proof fn lemma_prefix_refl<T>(a: Seq<T>)
    ensures
        a.is_prefix_of(a),
{
    assert(a =~= a.subrange(0, a.len() as int));
}

/// Being a prefix is transitive.
pub(crate) proof fn lemma_prefix_trans<T>(a: Seq<T>, b: Seq<T>, c: Seq<T>)
    requires
        a.is_prefix_of(b),
        b.is_prefix_of(c),
    ensures
        a.is_prefix_of(c),
{
    assert(a =~= c.subrange(0, a.len() as int));
}

/// Walks the shader's attribute map in order and records, for each
/// semantic the primitive carries, the accessor's buffer bind and layout.
/// Fails with `StaleHandle` when a matched accessor or its buffer no longer
/// resolves, leaving the calls already recorded in place.
fn bind_attributes(
    device: &mut Device,
    shader: &Shader,
    primitive: &Primitive,
    accessors: &Arena<Accessor>,
    buffers: &Arena<u64>,
) -> (r: Result<(), RenderError>)
    ensures
        final(device).attrib_count() == old(device).attrib_count(),
        match r {
            Ok(()) => spec_attrs_valid(shader.attributes(), primitive@, accessors@, buffers@)
                && final(device).calls() == old(device).calls() + spec_bind_calls(
                shader.attributes(),
                primitive@,
                accessors@,
                buffers@,
            ),
            Err(e) => e == RenderError::StaleHandle && !spec_attrs_valid(
                shader.attributes(),
                primitive@,
                accessors@,
                buffers@,
            ) && old(device).calls().is_prefix_of(final(device).calls()),
        },
{
    let ghost base = device.calls();
    let ghost sattrs = shader.attributes();
    let total = shader.attribute_count();
    let mut i: usize = 0;
    while i < total
        invariant
            total == sattrs.len(),
            i <= total,
            sattrs == shader.attributes(),
            base == old(device).calls(),
            device.attrib_count() == old(device).attrib_count(),
            device.calls() == base + spec_bind_calls(
                sattrs.take(i as int),
                primitive@,
                accessors@,
                buffers@,
            ),
            forall|j: int|
                0 <= j < i ==> match spec_attr_lookup(
                    primitive@.attributes,
                    (#[trigger] sattrs[j]).0,
                ) {
                    Some(ah) => accessors@.contains_key(ah) && buffers@.contains_key(
                        accessors@[ah].buffer,
                    ),
                    None => true,
                },
        decreases total - i,
    {
        let name = shader.attribute_name_at(i);
        let location = shader.attribute_location_at(i);
        let found = crate::store::attr_lookup(&primitive.attributes, name);
        proof {
            assert(sattrs.take(i as int + 1).drop_last() =~= sattrs.take(i as int));
            assert(sattrs.take(i as int + 1).last() == sattrs[i as int]);
        }
        match found {
            Some(accessor_handle) => {
                let accessor = match accessors.get(accessor_handle) {
                    Some(a) => *a,
                    None => {
                        proof {
                            assert(spec_attr_lookup(primitive@.attributes, sattrs[i as int].0)
                                == Some(accessor_handle));
                            assert(!accessors@.contains_key(accessor_handle));
                            assert(!spec_attrs_valid(sattrs, primitive@, accessors@, buffers@));
                            lemma_prefix_extend(
                                base,
                                spec_bind_calls(
                                    sattrs.take(i as int),
                                    primitive@,
                                    accessors@,
                                    buffers@,
                                ),
                            );
                        }
                        return Err(RenderError::StaleHandle);
                    },
                };
                let buffer = match buffers.get(accessor.buffer) {
                    Some(b) => *b,
                    None => {
                        proof {
                            assert(spec_attr_lookup(primitive@.attributes, sattrs[i as int].0)
                                == Some(accessor_handle));
                            assert(accessors@[accessor_handle] == accessor);
                            assert(!buffers@.contains_key(accessor.buffer));
                            assert(!spec_attrs_valid(sattrs, primitive@, accessors@, buffers@));
                            lemma_prefix_extend(
                                base,
                                spec_bind_calls(
                                    sattrs.take(i as int),
                                    primitive@,
                                    accessors@,
                                    buffers@,
                                ),
                            );
                        }
                        return Err(RenderError::StaleHandle);
                    },
                };
                device.bind_buffer(BufferTarget::ArrayBuffer, Some(buffer));
                shader.bind_attribute_at(device, location, &accessor.options);
                proof {
                    assert(device.calls() =~= base + spec_bind_calls(
                        sattrs.take(i as int + 1),
                        primitive@,
                        accessors@,
                        buffers@,
                    ));
                }
            },
            None => {
                proof {
                    assert(device.calls() =~= base + spec_bind_calls(
                        sattrs.take(i as int + 1),
                        primitive@,
                        accessors@,
                        buffers@,
                    ));
                }
            },
        }
        i = i + 1;
    }
    proof {
        assert(sattrs.take(total as int) =~= sattrs);
    }
    Ok(())
}

/// Records the draw submission: an indexed draw through the primitive's
/// index accessor when one is set, else a non-indexed draw of its vertex
/// count. Fails with `StaleHandle`, recording nothing, when the index
/// accessor or its buffer no longer resolves.
fn submit_draw(
    device: &mut Device,
    primitive: &Primitive,
    accessors: &Arena<Accessor>,
    buffers: &Arena<u64>,
    mode: DrawMode,
) -> (r: Result<(), RenderError>)
    ensures
        final(device).attrib_count() == old(device).attrib_count(),
        match r {
            Ok(()) => spec_indices_valid(primitive@, accessors@, buffers@) && final(device).calls()
                == old(device).calls() + spec_index_calls(
                primitive@,
                accessors@,
                buffers@,
                mode,
            ),
            Err(e) => e == RenderError::StaleHandle && !spec_indices_valid(
                primitive@,
                accessors@,
                buffers@,
            ) && final(device).calls() == old(device).calls(),
        },
{
    let ghost base = device.calls();
    match primitive.indices {
        Some(index_handle) => {
            let accessor = match accessors.get(index_handle) {
                Some(a) => *a,
                None => {
                    return Err(RenderError::StaleHandle);
                },
            };
            let buffer = match buffers.get(accessor.buffer) {
                Some(b) => *b,
                None => {
                    return Err(RenderError::StaleHandle);
                },
            };
            device.bind_buffer(BufferTarget::ElementArrayBuffer, Some(buffer));
            device.draw_elements(mode, accessor.count, accessor.options.component_type, 0);
            proof {
                assert(device.calls() =~= base + spec_index_calls(
                    primitive@,
                    accessors@,
                    buffers@,
                    mode,
                ));
            }
        },
        None => {
            device.draw_arrays(mode, 0, primitive.count);
            proof {
                assert(device.calls() =~= base + spec_index_calls(
                    primitive@,
                    accessors@,
                    buffers@,
                    mode,
                ));
            }
        },
    }
    Ok(())
}

/// Dispatches one (node, primitive) draw: resolves the material's cached
/// shader, records the program bind, material setup, draw parameters,
/// attribute bindings, attribute-count delta and the draw submission.
/// Fails with `MissingShader` (recording nothing) when the material's tag
/// has no cached program, and with `StaleHandle` when a referenced
/// texture, accessor or buffer no longer resolves — the frame is then
/// abandoned part-way, never resumed.
fn dispatch_draw(
    device: &mut Device,
    shaders: &ShaderCache,
    accessors: &Arena<Accessor>,
    buffers: &Arena<u64>,
    textures: &Arena<Texture>,
    images: &Arena<u64>,
    samplers: &Arena<Sampler>,
    primitive: &Primitive,
    material: &Material,
    node: &Node,
    camera: &Camera,
) -> (r: Result<(), RenderError>)
    requires
        shaders.wf(),
    ensures
        ({
            let cached = shaders.spec_get(spec_tag(*material));
            match r {
                Ok(()) => cached is Some && spec_draw_valid(
                    *material,
                    cached->0,
                    primitive@,
                    accessors@,
                    buffers@,
                    textures@,
                    images@,
                    samplers@,
                ) && final(device).calls() == old(device).calls() + spec_draw_calls(
                    *material,
                    cached->0,
                    primitive@,
                    node@.matrix_world,
                    *camera,
                    accessors@,
                    buffers@,
                    textures@,
                    images@,
                    samplers@,
                    old(device).attrib_count(),
                ) && final(device).attrib_count() == cached->0.attributes().len() as u32,
                Err(e) => (e == RenderError::MissingShader && cached is None && *final(device)
                    == *old(device)) || (e == RenderError::StaleHandle && cached is Some
                    && !spec_draw_valid(
                    *material,
                    cached->0,
                    primitive@,
                    accessors@,
                    buffers@,
                    textures@,
                    images@,
                    samplers@,
                ) && old(device).calls().is_prefix_of(final(device).calls())),
            }
        }),
{
    let tag = material.get_tag();
    let shader = match shaders.get(&tag) {
        Some(sh) => sh,
        None => {
            return Err(RenderError::MissingShader);
        },
    };
    let ghost sh = shaders.spec_get(spec_tag(*material))->0;
    proof {
        lemma_cache_get_found(shaders.entries(), spec_tag(*material));
        assert(sh.wf());
    }
    let ghost base = device.calls();
    shader.bind(device);
    let setup = material.setup_shader(device, shader, node, camera, textures, images, samplers);
    let ghost prog_calls = seq![DeviceCall::UseProgram { program: sh.spec_program() }];
    if let Err(e) = setup {
        proof {
            assert(device.calls() =~= base + prog_calls);
            lemma_prefix_extend(base, prog_calls);
        }
        return Err(e);
    }
    let ghost setup_calls = spec_setup_calls(
        *material,
        sh.uniforms(),
        node@.matrix_world,
        *camera,
        textures@,
        images@,
        samplers@,
    );
    proof {
        assert(device.calls() =~= base + (prog_calls + setup_calls));
    }
    let ghost q1 = prog_calls + setup_calls;

    let mp = material.params();
    device.set(Feature::CullFace, mp.cull_face);
    device.set(Feature::DepthTest, mp.depth_test);
    device.set_depth_func(mp.depth_func);
    proof {
        assert(device.calls() =~= (base + q1) + spec_params_calls(spec_params(*material)));
        assert((base + q1) + spec_params_calls(spec_params(*material)) =~= base + (q1
            + spec_params_calls(spec_params(*material))));
    }
    let ghost q2 = q1 + spec_params_calls(spec_params(*material));

    let bound = bind_attributes(device, shader, primitive, accessors, buffers);
    if let Err(e) = bound {
        proof {
            lemma_prefix_extend(base, q2);
            let mid = base + q2;
            assert(mid.is_prefix_of(device.calls()));
            assert(base.is_prefix_of(device.calls()));
        }
        return Err(e);
    }
    let ghost bindc = spec_bind_calls(sh.attributes(), primitive@, accessors@, buffers@);
    proof {
        assert(device.calls() =~= base + (q2 + bindc));
    }
    let ghost q3 = q2 + bindc;

    let total = shader.attribute_count();
    device.switch_attributes(total as u32);
    proof {
        assert(device.calls() =~= base + (q3 + crate::device::spec_attrib_delta(
            old(device).attrib_count(),
            sh.attributes().len() as u32,
        )));
    }
    let ghost q4 = q3 + crate::device::spec_attrib_delta(
        old(device).attrib_count(),
        sh.attributes().len() as u32,
    );

    let submitted = submit_draw(device, primitive, accessors, buffers, mp.draw_mode);
    if let Err(e) = submitted {
        proof {
            lemma_prefix_extend(base, q4);
        }
        return Err(e);
    }
    proof {
        assert(device.calls() =~= base + (q4 + spec_index_calls(
            primitive@,
            accessors@,
            buffers@,
            spec_params(*material).draw_mode,
        )));
        assert(spec_draw_calls(
            *material,
            sh,
            primitive@,
            node@.matrix_world,
            *camera,
            accessors@,
            buffers@,
            textures@,
            images@,
            samplers@,
            old(device).attrib_count(),
        ) == q4 + spec_index_calls(
            primitive@,
            accessors@,
            buffers@,
            spec_params(*material).draw_mode,
        ));
    }
    Ok(())
}

impl Renderer {
    /// Dispatches one (node, primitive) draw against this renderer's
    /// stores; see [`dispatch_draw`] for the protocol it records.
    pub fn draw_call(
        &mut self,
        primitive: &Primitive,
        material: &Material,
        node: &Node,
        camera: &Camera,
    ) -> (r: Result<(), RenderError>)
        requires
            old(self).wf(),
        ensures
            final(self).wf(),
            final(self).buffers == old(self).buffers,
            final(self).images == old(self).images,
            final(self).accessors == old(self).accessors,
            final(self).materials == old(self).materials,
            final(self).samplers == old(self).samplers,
            final(self).textures == old(self).textures,
            final(self).meshes == old(self).meshes,
            final(self).cameras == old(self).cameras,
            final(self).framebuffers == old(self).framebuffers,
            final(self).targets == old(self).targets,
            final(self).scene == old(self).scene,
            final(self).shaders == old(self).shaders,
            ({
                let cached = old(self).shaders.spec_get(spec_tag(*material));
                match r {
                    Ok(()) => cached is Some && spec_draw_valid(
                        *material,
                        cached->0,
                        primitive@,
                        old(self).accessors@,
                        old(self).buffers@,
                        old(self).textures@,
                        old(self).images@,
                        old(self).samplers@,
                    ) && final(self).device.calls() == old(self).device.calls()
                        + spec_draw_calls(
                        *material,
                        cached->0,
                        primitive@,
                        node@.matrix_world,
                        *camera,
                        old(self).accessors@,
                        old(self).buffers@,
                        old(self).textures@,
                        old(self).images@,
                        old(self).samplers@,
                        old(self).device.attrib_count(),
                    ) && final(self).device.attrib_count() == cached->0.attributes().len() as u32,
                    Err(e) => (e == RenderError::MissingShader && cached is None
                        && final(self).device == old(self).device) || (e
                        == RenderError::StaleHandle && cached is Some && !spec_draw_valid(
                        *material,
                        cached->0,
                        primitive@,
                        old(self).accessors@,
                        old(self).buffers@,
                        old(self).textures@,
                        old(self).images@,
                        old(self).samplers@,
                    ) && old(self).device.calls().is_prefix_of(final(self).device.calls())),
                }
            }),
    {
        dispatch_draw(
            &mut self.device,
            &self.shaders,
            &self.accessors,
            &self.buffers,
            &self.textures,
            &self.images,
            &self.samplers,
            primitive,
            material,
            node,
            camera,
        )
    }
}

/// The first failure a primitive list would hit during draw dispatch, in
/// order: a stale material handle, a missing cached shader, or a stale
/// texture/accessor/buffer reference; `None` when every draw can run.
/// Primitives without a material are skipped.
pub open spec fn spec_prims_outcome(
    prims: Seq<Primitive>,
    entries: Seq<(Seq<char>, Shader)>,
    materials: Map<Handle, Material>,
    accessors: Map<Handle, Accessor>,
    buffers: Map<Handle, u64>,
    textures: Map<Handle, Texture>,
    images: Map<Handle, u64>,
    samplers: Map<Handle, Sampler>,
) -> Option<RenderError>
    decreases prims.len(),
{
    if prims.len() == 0 {
        None
    } else {
        let p = prims[0]@;
        let rest = prims.drop_first();
        match p.material {
            Some(mh) => if !materials.contains_key(mh) {
                Some(RenderError::StaleHandle)
            } else {
                let m = materials[mh];
                match spec_cache_get(entries, spec_tag(m)) {
                    None => Some(RenderError::MissingShader),
                    Some(sh) => if !spec_draw_valid(
                        m,
                        sh,
                        p,
                        accessors,
                        buffers,
                        textures,
                        images,
                        samplers,
                    ) {
                        Some(RenderError::StaleHandle)
                    } else {
                        spec_prims_outcome(
                            rest,
                            entries,
                            materials,
                            accessors,
                            buffers,
                            textures,
                            images,
                            samplers,
                        )
                    },
                }
            },
            None => spec_prims_outcome(
                rest,
                entries,
                materials,
                accessors,
                buffers,
                textures,
                images,
                samplers,
            ),
        }
    }
}

/// The calls a primitive list records and the enabled-attribute count it
/// leaves, threading that count draw by draw (meaningful when the list's
/// outcome is `None`).
pub open spec fn spec_prims_render(
    prims: Seq<Primitive>,
    world: Mat4,
    camera: Camera,
    entries: Seq<(Seq<char>, Shader)>,
    materials: Map<Handle, Material>,
    accessors: Map<Handle, Accessor>,
    buffers: Map<Handle, u64>,
    textures: Map<Handle, Texture>,
    images: Map<Handle, u64>,
    samplers: Map<Handle, Sampler>,
    attrib_in: u32,
) -> (Seq<DeviceCall>, u32)
    decreases prims.len(),
{
    if prims.len() == 0 {
        (Seq::empty(), attrib_in)
    } else {
        let p = prims[0]@;
        let rest = prims.drop_first();
        match p.material {
            Some(mh) => {
                let m = materials[mh];
                match spec_cache_get(entries, spec_tag(m)) {
                    Some(sh) => {
                        let calls = spec_draw_calls(
                            m,
                            sh,
                            p,
                            world,
                            camera,
                            accessors,
                            buffers,
                            textures,
                            images,
                            samplers,
                            attrib_in,
                        );
                        let next = spec_prims_render(
                            rest,
                            world,
                            camera,
                            entries,
                            materials,
                            accessors,
                            buffers,
                            textures,
                            images,
                            samplers,
                            sh.attributes().len() as u32,
                        );
                        (calls + next.0, next.1)
                    },
                    None => spec_prims_render(
                        rest,
                        world,
                        camera,
                        entries,
                        materials,
                        accessors,
                        buffers,
                        textures,
                        images,
                        samplers,
                        attrib_in,
                    ),
                }
            },
            None => spec_prims_render(
                rest,
                world,
                camera,
                entries,
                materials,
                accessors,
                buffers,
                textures,
                images,
                samplers,
                attrib_in,
            ),
        }
    }
}

/// The first failure a frame over the collected items would hit: a stale
/// mesh handle, or the first primitive failure of an item's mesh; `None`
/// when the whole frame can run.
pub open spec fn spec_items_outcome(
    items: Seq<Handle>,
    nodes: Map<Handle, NodeView>,
    meshes: Map<Handle, Mesh>,
    entries: Seq<(Seq<char>, Shader)>,
    materials: Map<Handle, Material>,
    accessors: Map<Handle, Accessor>,
    buffers: Map<Handle, u64>,
    textures: Map<Handle, Texture>,
    images: Map<Handle, u64>,
    samplers: Map<Handle, Sampler>,
) -> Option<RenderError>
    decreases items.len(),
{
    if items.len() == 0 {
        None
    } else {
        let h = items[0];
        let rest = items.drop_first();
        if nodes.contains_key(h) && nodes[h].mesh is Some {
            let mh = nodes[h].mesh->0;
            if !meshes.contains_key(mh) {
                Some(RenderError::StaleHandle)
            } else {
                match spec_prims_outcome(
                    meshes[mh]@.primitives,
                    entries,
                    materials,
                    accessors,
                    buffers,
                    textures,
                    images,
                    samplers,
                ) {
                    Some(e) => Some(e),
                    None => spec_items_outcome(
                        rest,
                        nodes,
                        meshes,
                        entries,
                        materials,
                        accessors,
                        buffers,
                        textures,
                        images,
                        samplers,
                    ),
                }
            }
        } else {
            spec_items_outcome(
                rest,
                nodes,
                meshes,
                entries,
                materials,
                accessors,
                buffers,
                textures,
                images,
                samplers,
            )
        }
    }
}

/// The calls a frame over the collected items records and the
/// enabled-attribute count it leaves: item by item, each item's mesh draws
/// its primitives under the item's world matrix.
pub open spec fn spec_items_render(
    items: Seq<Handle>,
    nodes: Map<Handle, NodeView>,
    meshes: Map<Handle, Mesh>,
    camera: Camera,
    entries: Seq<(Seq<char>, Shader)>,
    materials: Map<Handle, Material>,
    accessors: Map<Handle, Accessor>,
    buffers: Map<Handle, u64>,
    textures: Map<Handle, Texture>,
    images: Map<Handle, u64>,
    samplers: Map<Handle, Sampler>,
    attrib_in: u32,
) -> (Seq<DeviceCall>, u32)
    decreases items.len(),
{
    if items.len() == 0 {
        (Seq::empty(), attrib_in)
    } else {
        let h = items[0];
        let rest = items.drop_first();
        if nodes.contains_key(h) && nodes[h].mesh is Some && meshes.contains_key(
            nodes[h].mesh->0,
        ) {
            let mesh = meshes[nodes[h].mesh->0];
            let one = spec_prims_render(
                mesh@.primitives,
                nodes[h].matrix_world,
                camera,
                entries,
                materials,
                accessors,
                buffers,
                textures,
                images,
                samplers,
                attrib_in,
            );
            let next = spec_items_render(
                rest,
                nodes,
                meshes,
                camera,
                entries,
                materials,
                accessors,
                buffers,
                textures,
                images,
                samplers,
                one.1,
            );
            (one.0 + next.0, next.1)
        } else {
            spec_items_render(
                rest,
                nodes,
                meshes,
                camera,
                entries,
                materials,
                accessors,
                buffers,
                textures,
                images,
                samplers,
                attrib_in,
            )
        }
    }
}

/// Draws one mesh's primitives under a world matrix, in order; see
/// [`spec_prims_render`] and [`spec_prims_outcome`] for what is recorded
/// and when it fails.
fn render_mesh(
    device: &mut Device,
    shaders: &ShaderCache,
    materials: &Arena<Material>,
    accessors: &Arena<Accessor>,
    buffers: &Arena<u64>,
    textures: &Arena<Texture>,
    images: &Arena<u64>,
    samplers: &Arena<Sampler>,
    mesh: &Mesh,
    node: &Node,
    camera: &Camera,
) -> (r: Result<(), RenderError>)
    requires
        shaders.wf(),
    ensures
        ({
            let outcome = spec_prims_outcome(
                mesh@.primitives,
                shaders.entries(),
                materials@,
                accessors@,
                buffers@,
                textures@,
                images@,
                samplers@,
            );
            let folded = spec_prims_render(
                mesh@.primitives,
                node@.matrix_world,
                *camera,
                shaders.entries(),
                materials@,
                accessors@,
                buffers@,
                textures@,
                images@,
                samplers@,
                old(device).attrib_count(),
            );
            match r {
                Ok(()) => outcome is None && final(device).calls() == old(device).calls()
                    + folded.0 && final(device).attrib_count() == folded.1,
                Err(e) => outcome == Some(e) && old(device).calls().is_prefix_of(
                    final(device).calls(),
                ),
            }
        }),
{
    let ghost base = device.calls();
    let ghost entries = shaders.entries();
    let ghost prims = mesh@.primitives;
    let ghost world = node@.matrix_world;
    let ghost a0 = device.attrib_count();
    proof {
        assert(prims.skip(0) =~= prims);
        lemma_prefix_refl(base);
    }
    let mut j: usize = 0;
    while j < mesh.primitives.len()
        invariant
            shaders.wf(),
            prims == mesh@.primitives,
            entries == shaders.entries(),
            world == node@.matrix_world,
            j <= prims.len(),
            base == old(device).calls(),
            a0 == old(device).attrib_count(),
            base.is_prefix_of(device.calls()),
            spec_prims_outcome(
                prims.skip(j as int),
                entries,
                materials@,
                accessors@,
                buffers@,
                textures@,
                images@,
                samplers@,
            ) == spec_prims_outcome(
                prims,
                entries,
                materials@,
                accessors@,
                buffers@,
                textures@,
                images@,
                samplers@,
            ),
            ({
                let folded = spec_prims_render(
                    prims,
                    world,
                    *camera,
                    entries,
                    materials@,
                    accessors@,
                    buffers@,
                    textures@,
                    images@,
                    samplers@,
                    a0,
                );
                let remaining = spec_prims_render(
                    prims.skip(j as int),
                    world,
                    *camera,
                    entries,
                    materials@,
                    accessors@,
                    buffers@,
                    textures@,
                    images@,
                    samplers@,
                    device.attrib_count(),
                );
                base + folded.0 == device.calls() + remaining.0 && folded.1 == remaining.1
            }),
        decreases prims.len() - j,
    {
        let ghost rem_pre = prims.skip(j as int);
        let ghost calls_pre = device.calls();
        let ghost attrib_pre = device.attrib_count();
        proof {
            assert(rem_pre[0] == prims[j as int]);
            assert(rem_pre.drop_first() =~= prims.skip(j as int + 1));
        }
        let primitive = &mesh.primitives[j];
        match primitive.material {
            Some(material_handle) => {
                let material = match materials.get(material_handle) {
                    Some(m) => *m,
                    None => {
                        proof {
                            assert(spec_prims_outcome(
                                rem_pre,
                                entries,
                                materials@,
                                accessors@,
                                buffers@,
                                textures@,
                                images@,
                                samplers@,
                            ) == Some(RenderError::StaleHandle));
                        }
                        return Err(RenderError::StaleHandle);
                    },
                };
                let drawn = dispatch_draw(
                    device,
                    shaders,
                    accessors,
                    buffers,
                    textures,
                    images,
                    samplers,
                    primitive,
                    &material,
                    node,
                    camera,
                );
                match drawn {
                    Ok(()) => {
                        proof {
                            let sh = spec_cache_get(entries, spec_tag(material))->0;
                            let one = spec_draw_calls(
                                material,
                                sh,
                                prims[j as int]@,
                                world,
                                *camera,
                                accessors@,
                                buffers@,
                                textures@,
                                images@,
                                samplers@,
                                attrib_pre,
                            );
                            let next = spec_prims_render(
                                prims.skip(j as int + 1),
                                world,
                                *camera,
                                entries,
                                materials@,
                                accessors@,
                                buffers@,
                                textures@,
                                images@,
                                samplers@,
                                sh.attributes().len() as u32,
                            );
                            assert(spec_prims_render(
                                rem_pre,
                                world,
                                *camera,
                                entries,
                                materials@,
                                accessors@,
                                buffers@,
                                textures@,
                                images@,
                                samplers@,
                                attrib_pre,
                            ).0 == one + next.0);
                            assert((calls_pre + one) + next.0 =~= calls_pre + (one + next.0));
                            lemma_prefix_extend(calls_pre, one);
                            lemma_prefix_trans(base, calls_pre, device.calls());
                        }
                    },
                    Err(e) => {
                        proof {
                            lemma_prefix_trans(base, calls_pre, device.calls());
                            assert(spec_prims_outcome(
                                rem_pre,
                                entries,
                                materials@,
                                accessors@,
                                buffers@,
                                textures@,
                                images@,
                                samplers@,
                            ) == Some(e));
                        }
                        return Err(e);
                    },
                }
            },
            None => {},
        }
        j = j + 1;
    }
    proof {
        assert(prims.skip(prims.len() as int) =~= Seq::<Primitive>::empty());
        let folded = spec_prims_render(
            prims,
            world,
            *camera,
            entries,
            materials@,
            accessors@,
            buffers@,
            textures@,
            images@,
            samplers@,
            a0,
        );
        assert(base + folded.0 =~= device.calls() + Seq::<DeviceCall>::empty());
        assert(device.calls() + Seq::<DeviceCall>::empty() =~= device.calls());
    }
    Ok(())
}

impl Renderer {
    /// Renders the scene from `root_handle` under `camera_handle`: collects
    /// the visible mesh-carrying nodes depth-first, then draws each node's
    /// mesh primitives in order, recording the whole frame's device calls.
    /// A dead camera handle, or the first dead reference hit while drawing,
    /// aborts the frame with `StaleHandle` (or `MissingShader` when a
    /// material's program was never installed); nothing more of the frame
    /// is attempted.
    pub fn render_scene(&mut self, root_handle: Handle, camera_handle: Handle) -> (r: Result<
        (),
        RenderError,
    >)
        requires
            old(self).wf(),
        ensures
            final(self).wf(),
            final(self).buffers == old(self).buffers,
            final(self).images == old(self).images,
            final(self).accessors == old(self).accessors,
            final(self).materials == old(self).materials,
            final(self).samplers == old(self).samplers,
            final(self).textures == old(self).textures,
            final(self).meshes == old(self).meshes,
            final(self).cameras == old(self).cameras,
            final(self).framebuffers == old(self).framebuffers,
            final(self).targets == old(self).targets,
            final(self).scene == old(self).scene,
            final(self).shaders == old(self).shaders,
            ({
                let items = crate::scene::spec_collect_visible(
                    old(self).scene@,
                    old(self).scene.slot_count(),
                    seq![root_handle],
                    Set::empty(),
                );
                if !old(self).cameras@.contains_key(camera_handle) {
                    r == Err::<(), RenderError>(RenderError::StaleHandle) && final(self).device
                        == old(self).device
                } else {
                    let camera = old(self).cameras@[camera_handle];
                    let outcome = spec_items_outcome(
                        items,
                        old(self).scene@,
                        old(self).meshes@,
                        old(self).shaders.entries(),
                        old(self).materials@,
                        old(self).accessors@,
                        old(self).buffers@,
                        old(self).textures@,
                        old(self).images@,
                        old(self).samplers@,
                    );
                    let folded = spec_items_render(
                        items,
                        old(self).scene@,
                        old(self).meshes@,
                        camera,
                        old(self).shaders.entries(),
                        old(self).materials@,
                        old(self).accessors@,
                        old(self).buffers@,
                        old(self).textures@,
                        old(self).images@,
                        old(self).samplers@,
                        old(self).device.attrib_count(),
                    );
                    match outcome {
                        None => r is Ok && final(self).device.calls() == old(self).device.calls()
                            + folded.0 && final(self).device.attrib_count() == folded.1,
                        Some(e) => r == Err::<(), RenderError>(e) && old(
                            self,
                        ).device.calls().is_prefix_of(final(self).device.calls()),
                    }
                }
            }),
    {
        let visible = self.scene.collect_visible_sub_items(root_handle);
        let camera = match self.cameras.get(camera_handle) {
            Some(c) => *c,
            None => {
                return Err(RenderError::StaleHandle);
            },
        };
        let ghost items = visible@;
        let ghost nodes0 = self.scene@;
        let ghost entries = self.shaders.entries();
        let ghost base = self.device.calls();
        let ghost a0 = self.device.attrib_count();
        proof {
            crate::scene::lemma_collect_visible_members(
                nodes0,
                old(self).scene.slot_count(),
                seq![root_handle],
                Set::empty(),
            );
            assert(items.skip(0) =~= items);
            lemma_prefix_refl(base);
        }
        let mut i: usize = 0;
        while i < visible.len()
            invariant
                self.wf(),
                self.buffers == old(self).buffers,
                self.images == old(self).images,
                self.accessors == old(self).accessors,
                self.materials == old(self).materials,
                self.samplers == old(self).samplers,
                self.textures == old(self).textures,
                self.meshes == old(self).meshes,
                self.cameras == old(self).cameras,
                self.framebuffers == old(self).framebuffers,
                self.targets == old(self).targets,
                self.scene == old(self).scene,
                self.shaders == old(self).shaders,
                visible@ == items,
                items == crate::scene::spec_collect_visible(
                    old(self).scene@,
                    old(self).scene.slot_count(),
                    seq![root_handle],
                    Set::empty(),
                ),
                old(self).cameras@.contains_key(camera_handle),
                camera == old(self).cameras@[camera_handle],
                nodes0 == old(self).scene@,
                entries == old(self).shaders.entries(),
                base == old(self).device.calls(),
                a0 == old(self).device.attrib_count(),
                i <= items.len(),
                base.is_prefix_of(self.device.calls()),
                forall|k: int|
                    0 <= k < items.len() ==> {
                        let h = #[trigger] items[k];
                        nodes0.contains_key(h) && nodes0[h].mesh is Some && nodes0[h].visible
                    },
                spec_items_outcome(
                    items.skip(i as int),
                    nodes0,
                    self.meshes@,
                    entries,
                    self.materials@,
                    self.accessors@,
                    self.buffers@,
                    self.textures@,
                    self.images@,
                    self.samplers@,
                ) == spec_items_outcome(
                    items,
                    nodes0,
                    self.meshes@,
                    entries,
                    self.materials@,
                    self.accessors@,
                    self.buffers@,
                    self.textures@,
                    self.images@,
                    self.samplers@,
                ),
                ({
                    let folded = spec_items_render(
                        items,
                        nodes0,
                        self.meshes@,
                        camera,
                        entries,
                        self.materials@,
                        self.accessors@,
                        self.buffers@,
                        self.textures@,
                        self.images@,
                        self.samplers@,
                        a0,
                    );
                    let remaining = spec_items_render(
                        items.skip(i as int),
                        nodes0,
                        self.meshes@,
                        camera,
                        entries,
                        self.materials@,
                        self.accessors@,
                        self.buffers@,
                        self.textures@,
                        self.images@,
                        self.samplers@,
                        self.device.attrib_count(),
                    );
                    base + folded.0 == self.device.calls() + remaining.0 && folded.1
                        == remaining.1
                }),
            decreases items.len() - i,
        {
            let ghost rem_pre = items.skip(i as int);
            let ghost calls_pre = self.device.calls();
            let ghost attrib_pre = self.device.attrib_count();
            proof {
                assert(rem_pre[0] == items[i as int]);
                assert(rem_pre.drop_first() =~= items.skip(i as int + 1));
                assert(nodes0.contains_key(items[i as int]) && nodes0[items[i as int]].mesh
                    is Some);
            }
            let handle = visible[i];
            let node = match self.scene.get_node(handle) {
                Some(n) => n,
                None => {
                    proof {
                        assert(false);
                    }
                    return Err(RenderError::StaleHandle);
                },
            };
            let mesh_handle = match node.mesh {
                Some(mh) => mh,
                None => {
                    proof {
                        assert(false);
                    }
                    return Err(RenderError::StaleHandle);
                },
            };
            let mesh = match self.meshes.get(mesh_handle) {
                Some(m) => m,
                None => {
                    proof {
                        assert(spec_items_outcome(
                            rem_pre,
                            nodes0,
                            self.meshes@,
                            entries,
                            self.materials@,
                            self.accessors@,
                            self.buffers@,
                            self.textures@,
                            self.images@,
                            self.samplers@,
                        ) == Some(RenderError::StaleHandle));
                    }
                    return Err(RenderError::StaleHandle);
                },
            };
            let drawn = render_mesh(
                &mut self.device,
                &self.shaders,
                &self.materials,
                &self.accessors,
                &self.buffers,
                &self.textures,
                &self.images,
                &self.samplers,
                mesh,
                node,
                &camera,
            );
            match drawn {
                Ok(()) => {
                    proof {
                        let one = spec_prims_render(
                            self.meshes@[mesh_handle]@.primitives,
                            nodes0[items[i as int]].matrix_world,
                            camera,
                            entries,
                            self.materials@,
                            self.accessors@,
                            self.buffers@,
                            self.textures@,
                            self.images@,
                            self.samplers@,
                            attrib_pre,
                        );
                        let next = spec_items_render(
                            items.skip(i as int + 1),
                            nodes0,
                            self.meshes@,
                            camera,
                            entries,
                            self.materials@,
                            self.accessors@,
                            self.buffers@,
                            self.textures@,
                            self.images@,
                            self.samplers@,
                            one.1,
                        );
                        assert(node@ == nodes0[items[i as int]]);
                        assert(spec_items_render(
                            rem_pre,
                            nodes0,
                            self.meshes@,
                            camera,
                            entries,
                            self.materials@,
                            self.accessors@,
                            self.buffers@,
                            self.textures@,
                            self.images@,
                            self.samplers@,
                            attrib_pre,
                        ).0 == one.0 + next.0);
                        assert((calls_pre + one.0) + next.0 =~= calls_pre + (one.0 + next.0));
                        lemma_prefix_extend(calls_pre, one.0);
                        lemma_prefix_trans(base, calls_pre, self.device.calls());
                    }
                },
                Err(e) => {
                    proof {
                        lemma_prefix_trans(base, calls_pre, self.device.calls());
                        assert(node@ == nodes0[items[i as int]]);
                        assert(spec_items_outcome(
                            rem_pre,
                            nodes0,
                            self.meshes@,
                            entries,
                            self.materials@,
                            self.accessors@,
                            self.buffers@,
                            self.textures@,
                            self.images@,
                            self.samplers@,
                        ) == Some(e));
                    }
                    return Err(e);
                },
            }
            i = i + 1;
        }
        proof {
            assert(items.skip(items.len() as int) =~= Seq::<Handle>::empty());
            let folded = spec_items_render(
                items,
                nodes0,
                self.meshes@,
                camera,
                entries,
                self.materials@,
                self.accessors@,
                self.buffers@,
                self.textures@,
                self.images@,
                self.samplers@,
                a0,
            );
            assert(base + folded.0 =~= self.device.calls() + Seq::<DeviceCall>::empty());
            assert(self.device.calls() + Seq::<DeviceCall>::empty() =~= self.device.calls());
        }
        Ok(())
    }
}

/// The little-endian byte image of a scalar sequence, item after item.
pub open spec fn spec_items_bytes<T: BufferItem>(s: Seq<T>) -> Seq<u8>
    decreases s.len(),
{
    if s.len() == 0 {
        Seq::empty()
    } else {
        spec_items_bytes(s.drop_last()) + s.last().spec_le_bytes()
    }
}

/// Packs a scalar slice into its little-endian byte image.
fn items_to_bytes<T: BufferItem>(data: &[T]) -> (r: Vec<u8>)
    ensures
        r@ == spec_items_bytes(data@),
{
    let mut r: Vec<u8> = Vec::new();
    let mut k: usize = 0;
    while k < data.len()
        invariant
            k <= data@.len(),
            r@ == spec_items_bytes(data@.subrange(0, k as int)),
        decreases data@.len() - k,
    {
        let mut piece = data[k].to_le_bytes();
        r.append(&mut piece);
        k = k + 1;
        proof {
            assert(data@.subrange(0, k as int).drop_last() =~= data@.subrange(0, k as int - 1));
            assert(data@.subrange(0, k as int).last() == data@[k as int - 1]);
        }
    }
    proof {
        assert(data@.subrange(0, data@.len() as int) =~= data@);
    }
    r
}

} // verus!
