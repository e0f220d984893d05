//! Texture baking: uploads recorded for the device, and the
//! image + sampler + texture triple stored per baked texture.

use vstd::prelude::*;

use crate::arena::Handle;
use crate::device::DeviceCall;
use crate::gl::{TextureFormat, TextureKind, TypedArrayKind};
use crate::renderer::Renderer;
use crate::store::{Sampler, Texture};

verus! {

/// Raw pixel data with its dimensions, as the host loaded it.
#[derive(Debug)]
pub struct ImageData {
    pub width: i32,
    pub height: i32,
    pub pixels: Vec<u8>,
}

/// The upload calls of one cube-map face list, face after face.
pub open spec fn spec_face_calls(
    faces: Seq<(TextureKind, ImageData)>,
    format: TextureFormat,
) -> Seq<DeviceCall>
    decreases faces.len(),
{
    if faces.len() == 0 {
        Seq::empty()
    } else {
        spec_face_calls(faces.drop_last(), format) + seq![
            DeviceCall::TextureData {
                kind: faces.last().0,
                level: 0,
                internal_format: format,
                width: faces.last().1.width,
                height: faces.last().1.height,
                format,
                component: TypedArrayKind::Uint8,
                data: faces.last().1.pixels,
            },
        ]
    }
}

impl Renderer {
    /// Stores a device image identifier together with a sampler and wraps
    /// both in a texture. All three handles are fresh; the texture's
    /// source and sampler fields resolve to the given values.
    pub fn compose_texture(&mut self, image: u64, sampler: Sampler) -> (r: Handle)
        requires
            old(self).wf(),
        ensures
            final(self).wf(),
            !old(self).textures.issued().contains(r),
            final(self).textures@.contains_key(r),
            !old(self).textures@.contains_key(r),
            ({
                let t = final(self).textures@[r];
                &&& final(self).textures@ == old(self).textures@.insert(r, t)
                &&& final(self).images@ == old(self).images@.insert(t.source, image)
                &&& !old(self).images@.contains_key(t.source)
                &&& final(self).samplers@ == old(self).samplers@.insert(t.sampler, sampler)
                &&& !old(self).samplers@.contains_key(t.sampler)
            }),
            final(self).device == old(self).device,
            final(self).buffers == old(self).buffers,
            final(self).accessors == old(self).accessors,
            final(self).materials == old(self).materials,
            final(self).meshes == old(self).meshes,
            final(self).cameras == old(self).cameras,
            final(self).framebuffers == old(self).framebuffers,
            final(self).targets == old(self).targets,
            final(self).scene == old(self).scene,
            final(self).shaders == old(self).shaders,
    {
        let image_handle = self.images.insert(image);
        let sampler_handle = self.samplers.insert(sampler);
        let texture = Texture { source: image_handle, sampler: sampler_handle };
        self.textures.insert(texture)
    }

    /// Bakes a two-dimensional texture: creates a device texture, records
    /// the pixel upload and mipmap generation, and stores the composed
    /// image + sampler + texture triple.
    pub fn bake_2d_texture(
        &mut self,
        format: TextureFormat,
        sampler: Sampler,
        image: ImageData,
    ) -> (r: Handle)
        requires
            old(self).wf(),
        ensures
            final(self).wf(),
            final(self).device.calls() == old(self).device.calls() + seq![
                DeviceCall::CreateTexture { texture: old(self).device.next_texture_id() },
                DeviceCall::BindTexture {
                    kind: TextureKind::Texture2d,
                    texture: Some(old(self).device.next_texture_id()),
                },
                DeviceCall::TextureData {
                    kind: TextureKind::Texture2d,
                    level: 0,
                    internal_format: format,
                    width: image.width,
                    height: image.height,
                    format,
                    component: TypedArrayKind::Uint8,
                    data: image.pixels,
                },
                DeviceCall::GenerateMipmap { kind: TextureKind::Texture2d },
                DeviceCall::BindTexture { kind: TextureKind::Texture2d, texture: None },
            ],
            final(self).device.attrib_count() == old(self).device.attrib_count(),
            !old(self).textures.issued().contains(r),
            final(self).textures@.contains_key(r),
            ({
                let t = final(self).textures@[r];
                &&& final(self).images@[t.source] == old(self).device.next_texture_id()
                &&& final(self).samplers@[t.sampler] == sampler
                &&& final(self).samplers@.contains_key(t.sampler)
                &&& final(self).images@.contains_key(t.source)
            }),
            final(self).buffers == old(self).buffers,
            final(self).accessors == old(self).accessors,
            final(self).materials == old(self).materials,
            final(self).meshes == old(self).meshes,
            final(self).cameras == old(self).cameras,
            final(self).framebuffers == old(self).framebuffers,
            final(self).targets == old(self).targets,
            final(self).scene == old(self).scene,
            final(self).shaders == old(self).shaders,
    {
        let ghost base = self.device.calls();
        let width = image.width;
        let height = image.height;
        let texture_id = self.device.create_texture();
        self.device.bind_texture(TextureKind::Texture2d, Some(texture_id));
        self.device.texture_data(
            TextureKind::Texture2d,
            0,
            format,
            width,
            height,
            format,
            TypedArrayKind::Uint8,
            image.pixels,
        );
        self.device.generate_mipmap(TextureKind::Texture2d);
        self.device.bind_texture(TextureKind::Texture2d, None);
        proof {
            assert(self.device.calls() =~= base + seq![
                DeviceCall::CreateTexture { texture: old(self).device.next_texture_id() },
                DeviceCall::BindTexture {
                    kind: TextureKind::Texture2d,
                    texture: Some(old(self).device.next_texture_id()),
                },
                DeviceCall::TextureData {
                    kind: TextureKind::Texture2d,
                    level: 0,
                    internal_format: format,
                    width,
                    height,
                    format,
                    component: TypedArrayKind::Uint8,
                    data: image.pixels,
                },
                DeviceCall::GenerateMipmap { kind: TextureKind::Texture2d },
                DeviceCall::BindTexture { kind: TextureKind::Texture2d, texture: None },
            ]);
        }
        self.compose_texture(texture_id, sampler)
    }

    /// Bakes a cube-map texture from its six (or fewer) face images:
    /// creates one device texture, records each face's upload in list
    /// order, and stores the composed triple.
    pub fn bake_cube_map_texture(
        &mut self,
        format: TextureFormat,
        sampler: Sampler,
        faces: Vec<(TextureKind, ImageData)>,
    ) -> (r: Handle)
        requires
            old(self).wf(),
        ensures
            final(self).wf(),
            final(self).device.calls() == old(self).device.calls() + seq![
                DeviceCall::CreateTexture { texture: old(self).device.next_texture_id() },
                DeviceCall::BindTexture {
                    kind: TextureKind::CubeMap,
                    texture: Some(old(self).device.next_texture_id()),
                },
            ] + spec_face_calls(faces@, format) + seq![
                DeviceCall::GenerateMipmap { kind: TextureKind::CubeMap },
                DeviceCall::BindTexture { kind: TextureKind::CubeMap, texture: None },
            ],
            final(self).device.attrib_count() == old(self).device.attrib_count(),
            !old(self).textures.issued().contains(r),
            final(self).textures@.contains_key(r),
            ({
                let t = final(self).textures@[r];
                &&& final(self).images@[t.source] == old(self).device.next_texture_id()
                &&& final(self).samplers@[t.sampler] == sampler
                &&& final(self).samplers@.contains_key(t.sampler)
                &&& final(self).images@.contains_key(t.source)
            }),
            final(self).buffers == old(self).buffers,
            final(self).accessors == old(self).accessors,
            final(self).materials == old(self).materials,
            final(self).meshes == old(self).meshes,
            final(self).cameras == old(self).cameras,
            final(self).framebuffers == old(self).framebuffers,
            final(self).targets == old(self).targets,
            final(self).scene == old(self).scene,
            final(self).shaders == old(self).shaders,
    {
        let total = faces.len();
        let ghost faces0 = faces@;
        let texture_id = self.device.create_texture();
        self.device.bind_texture(TextureKind::CubeMap, Some(texture_id));
        let ghost mid = self.device.calls();
        let mut remaining = faces;
        let mut k: usize = 0;
        while remaining.len() > 0
            invariant
                self.wf(),
                total == faces0.len(),
                k <= total,
                k + remaining@.len() == faces0.len(),
                remaining@ == faces0.skip(k as int),
                self.device.calls() == mid + spec_face_calls(faces0.take(k as int), format),
                self.device.attrib_count() == old(self).device.attrib_count(),
                self.buffers == old(self).buffers,
                self.images == old(self).images,
                self.accessors == old(self).accessors,
                self.materials == old(self).materials,
                self.samplers == old(self).samplers,
                self.textures == old(self).textures,
                self.meshes == old(self).meshes,
                self.cameras == old(self).cameras,
                self.framebuffers == old(self).framebuffers,
                self.targets == old(self).targets,
                self.scene == old(self).scene,
                self.shaders == old(self).shaders,
            decreases remaining@.len(),
        {
            let face = remaining.remove(0);
            proof {
                assert(faces0.skip(k as int)[0] == faces0[k as int]);
                assert(faces0.skip(k as int).drop_first() =~= faces0.skip(k as int + 1));
            }
            let kind = face.0;
            let image = face.1;
            let width = image.width;
            let height = image.height;
            self.device.texture_data(
                kind,
                0,
                format,
                width,
                height,
                format,
                TypedArrayKind::Uint8,
                image.pixels,
            );
            k = k + 1;
            proof {
                assert(faces0.take(k as int).drop_last() =~= faces0.take(k as int - 1));
                assert(faces0.take(k as int).last() == faces0[k as int - 1]);
                assert(self.device.calls() =~= mid + spec_face_calls(
                    faces0.take(k as int),
                    format,
                ));
            }
        }
        proof {
            assert(faces0.take(faces0.len() as int) =~= faces0);
        }
        self.device.generate_mipmap(TextureKind::CubeMap);
        self.device.bind_texture(TextureKind::CubeMap, None);
        proof {
            assert(self.device.calls() =~= old(self).device.calls() + seq![
                DeviceCall::CreateTexture { texture: old(self).device.next_texture_id() },
                DeviceCall::BindTexture {
                    kind: TextureKind::CubeMap,
                    texture: Some(old(self).device.next_texture_id()),
                },
            ] + spec_face_calls(faces0, format) + seq![
                DeviceCall::GenerateMipmap { kind: TextureKind::CubeMap },
                DeviceCall::BindTexture { kind: TextureKind::CubeMap, texture: None },
            ]);
        }
        self.compose_texture(texture_id, sampler)
    }
}

} // verus!
