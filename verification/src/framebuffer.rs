//! Render-target baking: a framebuffer with a color texture and an
//! optional depth texture, created through the device protocol.

use vstd::prelude::*;

use crate::arena::Handle;
use crate::device::DeviceCall;
use crate::gl::{FramebufferAttachment, TexParam, TextureFormat, TextureKind, TypedArrayKind};
use crate::renderer::Renderer;
use crate::store::{RenderTarget, Sampler};

verus! {

/// The sampler a render target's depth texture gets: nearest filtering,
/// clamped wrapping.
pub open spec fn spec_depth_sampler() -> Sampler {
    Sampler {
        mag_filter: TexParam::Nearest,
        min_filter: TexParam::Nearest,
        wrap_s: TexParam::ClampToEdge,
        wrap_t: TexParam::ClampToEdge,
    }
}

impl Renderer {
    /// Bakes a render target: creates a framebuffer and a color texture of
    /// the given size, attaches them (plus a depth texture when asked),
    /// restores the default framebuffer, and stores the framebuffer, the
    /// composed color (and depth) textures and the target referencing them
    /// all. The device log grows by exactly the creation and attachment
    /// calls; whether the framebuffer is complete is the host's to check
    /// when it replays them.
    pub fn bake_render_target(
        &mut self,
        width: i32,
        height: i32,
        sampler: Sampler,
        depth: bool,
    ) -> (r: Handle)
        requires
            old(self).wf(),
        ensures
            final(self).wf(),
            !old(self).targets.issued().contains(r),
            final(self).targets@.contains_key(r),
            ({
                let tv = final(self).targets@[r];
                &&& final(self).targets@ == old(self).targets@.insert(r, tv)
                &&& final(self).framebuffers@.contains_key(tv.fb)
                &&& final(self).framebuffers@[tv.fb] == old(self).device.next_framebuffer_id()
                &&& !old(self).framebuffers@.contains_key(tv.fb)
                &&& final(self).textures@.contains_key(tv.color_texture)
                &&& final(self).images@[final(self).textures@[tv.color_texture].source] == old(
                    self,
                ).device.next_texture_id()
                &&& final(self).samplers@[final(self).textures@[tv.color_texture].sampler]
                    == sampler
                &&& (tv.depth_texture is Some <==> depth)
                &&& (depth ==> final(self).textures@.contains_key(tv.depth_texture->0)
                    && final(self).samplers@[final(self).textures@[
                    tv.depth_texture->0
                ].sampler] == spec_depth_sampler())
            }),
            ({
                let n0 = old(self).device.calls().len() as int;
                let calls = final(self).device.calls();
                let fb_id = old(self).device.next_framebuffer_id();
                let color_id = old(self).device.next_texture_id();
                &&& calls.len() == n0 + (if depth {
                    11int
                } else {
                    7int
                })
                &&& calls.subrange(0, n0) == old(self).device.calls()
                &&& calls[n0] == DeviceCall::CreateFramebuffer { framebuffer: fb_id }
                &&& calls[n0 + 1] == DeviceCall::CreateTexture { texture: color_id }
                &&& calls[n0 + 2] == DeviceCall::BindFramebuffer { framebuffer: Some(fb_id) }
                &&& calls[n0 + 3] == DeviceCall::BindTexture {
                    kind: TextureKind::Texture2d,
                    texture: Some(color_id),
                }
                &&& calls[n0 + 4] is TextureData
                &&& calls[n0 + 4]->TextureData_internal_format == TextureFormat::RGBA
                &&& calls[n0 + 4]->TextureData_width == width
                &&& calls[n0 + 4]->TextureData_height == height
                &&& calls[n0 + 4]->TextureData_data@ == Seq::<u8>::empty()
                &&& calls[n0 + 5] == DeviceCall::FramebufferTexture2d {
                    attachment: FramebufferAttachment::ColorAttachment0,
                    texture: Some(color_id),
                }
                &&& calls.last() == DeviceCall::BindFramebuffer { framebuffer: None }
            }),
            final(self).device.attrib_count() == old(self).device.attrib_count(),
            final(self).buffers == old(self).buffers,
            final(self).accessors == old(self).accessors,
            final(self).materials == old(self).materials,
            final(self).meshes == old(self).meshes,
            final(self).cameras == old(self).cameras,
            final(self).scene == old(self).scene,
            final(self).shaders == old(self).shaders,
    {
        let fb_id = self.device.create_framebuffer();
        let color_id = self.device.create_texture();
        self.device.bind_framebuffer(Some(fb_id));
        self.device.bind_texture(TextureKind::Texture2d, Some(color_id));
        let empty_color: Vec<u8> = Vec::new();
        self.device.texture_data(
            TextureKind::Texture2d,
            0,
            TextureFormat::RGBA,
            width,
            height,
            TextureFormat::RGBA,
            TypedArrayKind::Uint8,
            empty_color,
        );
        self.device.framebuffer_texture_2d(
            FramebufferAttachment::ColorAttachment0,
            Some(color_id),
        );
        let depth_id_option = if depth {
            let depth_id = self.device.create_texture();
            self.device.bind_texture(TextureKind::Texture2d, Some(depth_id));
            let empty_depth: Vec<u8> = Vec::new();
            self.device.texture_data(
                TextureKind::Texture2d,
                0,
                TextureFormat::Depth,
                width,
                height,
                TextureFormat::Depth,
                TypedArrayKind::Uint16,
                empty_depth,
            );
            self.device.framebuffer_texture_2d(
                FramebufferAttachment::DepthAttachment,
                Some(depth_id),
            );
            Some(depth_id)
        } else {
            None
        };
        self.device.bind_framebuffer(None);

        let fb_handle = self.insert_framebuffer(fb_id);
        let color_texture_handle = self.compose_texture(color_id, sampler);
        let ghost ct = self.textures@[color_texture_handle];
        let depth_texture_handle = match depth_id_option {
            Some(depth_id) => Some(
                self.compose_texture(
                    depth_id,
                    Sampler {
                        wrap_s: TexParam::ClampToEdge,
                        wrap_t: TexParam::ClampToEdge,
                        min_filter: TexParam::Nearest,
                        mag_filter: TexParam::Nearest,
                    },
                ),
            ),
            None => None,
        };
        proof {
            // The color texture's triple survives the depth compose: its
            // handles were live before, while the depth compose only adds
            // fresh ones.
            assert(self.textures@[color_texture_handle] == ct);
            assert(self.images@[ct.source] == color_id);
            assert(self.samplers@[ct.sampler] == sampler);
        }
        let target_handle = self.insert_render_target(
            RenderTarget {
                fb: fb_handle,
                color_texture: color_texture_handle,
                depth_texture: depth_texture_handle,
            },
        );
        target_handle
    }
}

} // verus!
