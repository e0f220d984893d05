//! The device-binding protocol.
//!
//! The renderer never talks to a graphics device directly: it records every
//! device call, in order, in a [`Device`] log that the host replays against
//! its real context. Resource-creating calls allocate identifiers here, so
//! baking and drawing run to completion without waiting on the device; a
//! creation the real device refuses surfaces when the host replays the log.
//!
//! The device tracks how many leading vertex-attribute slots are enabled
//! and, on a change, emits exactly the enable or disable calls for the
//! difference, never a full re-issue.

use vstd::prelude::*;

use crate::gl::{
    BufferTarget, BufferUsage, DepthFunc, DrawMode, Feature, FramebufferAttachment, TexParam,
    TexParamName, TextureFormat, TextureKind, TypedArrayKind,
};
use crate::mat4::Mat4;

verus! {

/// One recorded device call.
#[derive(Debug)]
pub enum DeviceCall {
    /// A required device extension, queried once at renderer creation; the
    /// host must fail renderer setup when its context lacks it.
    GetExtension { name: String },
    Viewport { x: i32, y: i32, width: i32, height: i32 },
    ClearColor { r: u8, g: u8, b: u8, a: u8 },
    Clear { color: bool, depth: bool },
    CreateBuffer {
        buffer: u64,
        target: BufferTarget,
        usage: BufferUsage,
        kind: TypedArrayKind,
        data: Vec<u8>,
    },
    BindBuffer { target: BufferTarget, buffer: Option<u64> },
    CreateTexture { texture: u64 },
    ActiveTexture { unit: u32 },
    BindTexture { kind: TextureKind, texture: Option<u64> },
    TexParameter { kind: TextureKind, name: TexParamName, param: TexParam },
    TextureData {
        kind: TextureKind,
        level: i32,
        internal_format: TextureFormat,
        width: i32,
        height: i32,
        format: TextureFormat,
        component: TypedArrayKind,
        data: Vec<u8>,
    },
    GenerateMipmap { kind: TextureKind },
    CreateFramebuffer { framebuffer: u64 },
    BindFramebuffer { framebuffer: Option<u64> },
    FramebufferTexture2d { attachment: FramebufferAttachment, texture: Option<u64> },
    Enable { feature: Feature },
    Disable { feature: Feature },
    SetDepthFunc { func: DepthFunc },
    UseProgram { program: u64 },
    SetUniformInt { location: u32, v: i32 },
    SetUniformVec2 { location: u32, x: i64, y: i64 },
    SetUniformColor { location: u32, r: u8, g: u8, b: u8 },
    SetUniformMat4 { location: u32, m: Mat4 },
    /// The host uploads the inverse-transpose of the upper 3x3 of `m`
    /// (the correct normal matrix under non-uniform scale).
    SetUniformMat3NormalOf { location: u32, m: Mat4 },
    /// The host uploads the inverse of `m`.
    SetUniformMat4InverseOf { location: u32, m: Mat4 },
    EnableVertexAttribArray { location: u32 },
    DisableVertexAttribArray { location: u32 },
    VertexAttribPointer {
        location: u32,
        item_size: i32,
        kind: TypedArrayKind,
        normalized: bool,
        stride: i32,
        offset: i32,
    },
    DrawArrays { mode: DrawMode, first: i32, count: i32 },
    DrawElements { mode: DrawMode, count: i32, kind: TypedArrayKind, offset: i32 },
}

/// The exact calls a change of the enabled-attribute count emits: enables
/// for the slots gained, or disables for the slots lost.
pub open spec fn spec_attrib_delta(current: u32, amount: u32) -> Seq<DeviceCall> {
    if current < amount {
        Seq::new(
            (amount - current) as nat,
            |i: int| DeviceCall::EnableVertexAttribArray { location: (current + i) as u32 },
        )
    } else {
        Seq::new(
            (current - amount) as nat,
            |i: int| DeviceCall::DisableVertexAttribArray { location: (amount + i) as u32 },
        )
    }
}

/// The recording device: the call log, the identifier counters, and the
/// count of currently enabled vertex-attribute slots.
#[derive(Debug)]
pub struct Device {
    calls: Vec<DeviceCall>,
    next_buffer: u64,
    next_texture: u64,
    next_framebuffer: u64,
    attrib_amount: u32,
}

impl Device {
    /// The calls recorded so far, oldest first.
    pub closed spec fn calls(&self) -> Seq<DeviceCall> {
        self.calls@
    }

    /// How many leading vertex-attribute slots are currently enabled.
    pub closed spec fn attrib_count(&self) -> u32 {
        self.attrib_amount
    }

    /// A fresh device: empty log, no attribute slot enabled.
    pub fn new() -> (r: Device)
        ensures
            r.calls() == Seq::<DeviceCall>::empty(),
            r.attrib_count() == 0,
    {
        Device { calls: Vec::new(), next_buffer: 0, next_texture: 0, next_framebuffer: 0, attrib_amount: 0 }
    }

    /// Hands the recorded log to the host and clears it.
    pub fn take_calls(&mut self) -> (r: Vec<DeviceCall>)
        ensures
            r@ == old(self).calls(),
            final(self).calls() == Seq::<DeviceCall>::empty(),
            final(self).attrib_count() == old(self).attrib_count(),
            final(self).next_buffer_id() == old(self).next_buffer_id(),
            final(self).next_texture_id() == old(self).next_texture_id(),
            final(self).next_framebuffer_id() == old(self).next_framebuffer_id(),
    {
        let mut out: Vec<DeviceCall> = Vec::new();
        core::mem::swap(&mut out, &mut self.calls);
        out
    }

    /// Records the query for a required device extension.
    pub fn get_extension(&mut self, name: String)
        ensures
            final(self).calls() == old(self).calls().push(DeviceCall::GetExtension { name }),
            final(self).attrib_count() == old(self).attrib_count(),
            final(self).next_buffer_id() == old(self).next_buffer_id(),
            final(self).next_texture_id() == old(self).next_texture_id(),
            final(self).next_framebuffer_id() == old(self).next_framebuffer_id(),
    {
        self.calls.push(DeviceCall::GetExtension { name });
    }

    pub fn viewport(&mut self, x: i32, y: i32, width: i32, height: i32)
        ensures
            final(self).calls() == old(self).calls().push(
                DeviceCall::Viewport { x, y, width, height },
            ),
            final(self).attrib_count() == old(self).attrib_count(),
            final(self).next_buffer_id() == old(self).next_buffer_id(),
            final(self).next_texture_id() == old(self).next_texture_id(),
            final(self).next_framebuffer_id() == old(self).next_framebuffer_id(),
    {
        self.calls.push(DeviceCall::Viewport { x, y, width, height });
    }

    pub fn clear_color(&mut self, r: u8, g: u8, b: u8, a: u8)
        ensures
            final(self).calls() == old(self).calls().push(DeviceCall::ClearColor { r, g, b, a }),
            final(self).attrib_count() == old(self).attrib_count(),
            final(self).next_buffer_id() == old(self).next_buffer_id(),
            final(self).next_texture_id() == old(self).next_texture_id(),
            final(self).next_framebuffer_id() == old(self).next_framebuffer_id(),
    {
        self.calls.push(DeviceCall::ClearColor { r, g, b, a });
    }

    pub fn clear(&mut self, color: bool, depth: bool)
        ensures
            final(self).calls() == old(self).calls().push(DeviceCall::Clear { color, depth }),
            final(self).attrib_count() == old(self).attrib_count(),
            final(self).next_buffer_id() == old(self).next_buffer_id(),
            final(self).next_texture_id() == old(self).next_texture_id(),
            final(self).next_framebuffer_id() == old(self).next_framebuffer_id(),
    {
        self.calls.push(DeviceCall::Clear { color, depth });
    }

    /// Allocates a buffer identifier and records the upload of `data`.
    pub fn create_buffer(
        &mut self,
        target: BufferTarget,
        usage: BufferUsage,
        kind: TypedArrayKind,
        data: Vec<u8>,
    ) -> (r: u64)
        ensures
            r == old(self).next_buffer_id(),
            final(self).calls() == old(self).calls().push(
                DeviceCall::CreateBuffer { buffer: r, target, usage, kind, data },
            ),
            final(self).attrib_count() == old(self).attrib_count(),
            final(self).next_texture_id() == old(self).next_texture_id(),
            final(self).next_framebuffer_id() == old(self).next_framebuffer_id(),
    {
        let id = self.next_buffer;
        self.next_buffer = self.next_buffer.wrapping_add(1);
        self.calls.push(DeviceCall::CreateBuffer { buffer: id, target, usage, kind, data });
        id
    }

    /// The identifier the next created buffer will get.
    pub closed spec fn next_buffer_id(&self) -> u64 {
        self.next_buffer
    }

    /// The identifier the next created texture will get.
    pub closed spec fn next_texture_id(&self) -> u64 {
        self.next_texture
    }

    /// The identifier the next created framebuffer will get.
    pub closed spec fn next_framebuffer_id(&self) -> u64 {
        self.next_framebuffer
    }

    pub fn bind_buffer(&mut self, target: BufferTarget, buffer: Option<u64>)
        ensures
            final(self).calls() == old(self).calls().push(
                DeviceCall::BindBuffer { target, buffer },
            ),
            final(self).attrib_count() == old(self).attrib_count(),
            final(self).next_buffer_id() == old(self).next_buffer_id(),
            final(self).next_texture_id() == old(self).next_texture_id(),
            final(self).next_framebuffer_id() == old(self).next_framebuffer_id(),
    {
        self.calls.push(DeviceCall::BindBuffer { target, buffer });
    }

    /// Allocates a texture identifier and records its creation.
    pub fn create_texture(&mut self) -> (r: u64)
        ensures
            r == old(self).next_texture_id(),
            final(self).calls() == old(self).calls().push(DeviceCall::CreateTexture { texture: r }),
            final(self).attrib_count() == old(self).attrib_count(),
            final(self).next_buffer_id() == old(self).next_buffer_id(),
            final(self).next_framebuffer_id() == old(self).next_framebuffer_id(),
    {
        let id = self.next_texture;
        self.next_texture = self.next_texture.wrapping_add(1);
        self.calls.push(DeviceCall::CreateTexture { texture: id });
        id
    }

    pub fn active_texture(&mut self, unit: u32)
        ensures
            final(self).calls() == old(self).calls().push(DeviceCall::ActiveTexture { unit }),
            final(self).attrib_count() == old(self).attrib_count(),
            final(self).next_buffer_id() == old(self).next_buffer_id(),
            final(self).next_texture_id() == old(self).next_texture_id(),
            final(self).next_framebuffer_id() == old(self).next_framebuffer_id(),
    {
        self.calls.push(DeviceCall::ActiveTexture { unit });
    }

    pub fn bind_texture(&mut self, kind: TextureKind, texture: Option<u64>)
        ensures
            final(self).calls() == old(self).calls().push(
                DeviceCall::BindTexture { kind, texture },
            ),
            final(self).attrib_count() == old(self).attrib_count(),
            final(self).next_buffer_id() == old(self).next_buffer_id(),
            final(self).next_texture_id() == old(self).next_texture_id(),
            final(self).next_framebuffer_id() == old(self).next_framebuffer_id(),
    {
        self.calls.push(DeviceCall::BindTexture { kind, texture });
    }

    pub fn texture_parameter(&mut self, kind: TextureKind, name: TexParamName, param: TexParam)
        ensures
            final(self).calls() == old(self).calls().push(
                DeviceCall::TexParameter { kind, name, param },
            ),
            final(self).attrib_count() == old(self).attrib_count(),
            final(self).next_buffer_id() == old(self).next_buffer_id(),
            final(self).next_texture_id() == old(self).next_texture_id(),
            final(self).next_framebuffer_id() == old(self).next_framebuffer_id(),
    {
        self.calls.push(DeviceCall::TexParameter { kind, name, param });
    }

    /// Records a texture upload of raw bytes with the given layout.
    pub fn texture_data(
        &mut self,
        kind: TextureKind,
        level: i32,
        internal_format: TextureFormat,
        width: i32,
        height: i32,
        format: TextureFormat,
        component: TypedArrayKind,
        data: Vec<u8>,
    )
        ensures
            final(self).calls() == old(self).calls().push(
                DeviceCall::TextureData {
                    kind,
                    level,
                    internal_format,
                    width,
                    height,
                    format,
                    component,
                    data,
                },
            ),
            final(self).attrib_count() == old(self).attrib_count(),
            final(self).next_buffer_id() == old(self).next_buffer_id(),
            final(self).next_texture_id() == old(self).next_texture_id(),
            final(self).next_framebuffer_id() == old(self).next_framebuffer_id(),
    {
        self.calls.push(
            DeviceCall::TextureData {
                kind,
                level,
                internal_format,
                width,
                height,
                format,
                component,
                data,
            },
        );
    }

    pub fn generate_mipmap(&mut self, kind: TextureKind)
        ensures
            final(self).calls() == old(self).calls().push(DeviceCall::GenerateMipmap { kind }),
            final(self).attrib_count() == old(self).attrib_count(),
            final(self).next_buffer_id() == old(self).next_buffer_id(),
            final(self).next_texture_id() == old(self).next_texture_id(),
            final(self).next_framebuffer_id() == old(self).next_framebuffer_id(),
    {
        self.calls.push(DeviceCall::GenerateMipmap { kind });
    }

    /// Allocates a framebuffer identifier and records its creation.
    pub fn create_framebuffer(&mut self) -> (r: u64)
        ensures
            r == old(self).next_framebuffer_id(),
            final(self).calls() == old(self).calls().push(
                DeviceCall::CreateFramebuffer { framebuffer: r },
            ),
            final(self).attrib_count() == old(self).attrib_count(),
            final(self).next_buffer_id() == old(self).next_buffer_id(),
            final(self).next_texture_id() == old(self).next_texture_id(),
    {
        let id = self.next_framebuffer;
        self.next_framebuffer = self.next_framebuffer.wrapping_add(1);
        self.calls.push(DeviceCall::CreateFramebuffer { framebuffer: id });
        id
    }

    pub fn bind_framebuffer(&mut self, framebuffer: Option<u64>)
        ensures
            final(self).calls() == old(self).calls().push(
                DeviceCall::BindFramebuffer { framebuffer },
            ),
            final(self).attrib_count() == old(self).attrib_count(),
            final(self).next_buffer_id() == old(self).next_buffer_id(),
            final(self).next_texture_id() == old(self).next_texture_id(),
            final(self).next_framebuffer_id() == old(self).next_framebuffer_id(),
    {
        self.calls.push(DeviceCall::BindFramebuffer { framebuffer });
    }

    pub fn framebuffer_texture_2d(
        &mut self,
        attachment: FramebufferAttachment,
        texture: Option<u64>,
    )
        ensures
            final(self).calls() == old(self).calls().push(
                DeviceCall::FramebufferTexture2d { attachment, texture },
            ),
            final(self).attrib_count() == old(self).attrib_count(),
            final(self).next_buffer_id() == old(self).next_buffer_id(),
            final(self).next_texture_id() == old(self).next_texture_id(),
            final(self).next_framebuffer_id() == old(self).next_framebuffer_id(),
    {
        self.calls.push(DeviceCall::FramebufferTexture2d { attachment, texture });
    }

    pub fn enable(&mut self, feature: Feature)
        ensures
            final(self).calls() == old(self).calls().push(DeviceCall::Enable { feature }),
            final(self).attrib_count() == old(self).attrib_count(),
            final(self).next_buffer_id() == old(self).next_buffer_id(),
            final(self).next_texture_id() == old(self).next_texture_id(),
            final(self).next_framebuffer_id() == old(self).next_framebuffer_id(),
    {
        self.calls.push(DeviceCall::Enable { feature });
    }

    pub fn disable(&mut self, feature: Feature)
        ensures
            final(self).calls() == old(self).calls().push(DeviceCall::Disable { feature }),
            final(self).attrib_count() == old(self).attrib_count(),
            final(self).next_buffer_id() == old(self).next_buffer_id(),
            final(self).next_texture_id() == old(self).next_texture_id(),
            final(self).next_framebuffer_id() == old(self).next_framebuffer_id(),
    {
        self.calls.push(DeviceCall::Disable { feature });
    }

    /// Enables or disables a capability, as the flag says.
    pub fn set(&mut self, feature: Feature, enabled: bool)
        ensures
            final(self).calls() == old(self).calls().push(
                if enabled {
                    DeviceCall::Enable { feature }
                } else {
                    DeviceCall::Disable { feature }
                },
            ),
            final(self).attrib_count() == old(self).attrib_count(),
            final(self).next_buffer_id() == old(self).next_buffer_id(),
            final(self).next_texture_id() == old(self).next_texture_id(),
            final(self).next_framebuffer_id() == old(self).next_framebuffer_id(),
    {
        if enabled {
            self.enable(feature);
        } else {
            self.disable(feature);
        }
    }

    pub fn set_depth_func(&mut self, func: DepthFunc)
        ensures
            final(self).calls() == old(self).calls().push(DeviceCall::SetDepthFunc { func }),
            final(self).attrib_count() == old(self).attrib_count(),
            final(self).next_buffer_id() == old(self).next_buffer_id(),
            final(self).next_texture_id() == old(self).next_texture_id(),
            final(self).next_framebuffer_id() == old(self).next_framebuffer_id(),
    {
        self.calls.push(DeviceCall::SetDepthFunc { func });
    }

    pub fn use_program(&mut self, program: u64)
        ensures
            final(self).calls() == old(self).calls().push(DeviceCall::UseProgram { program }),
            final(self).attrib_count() == old(self).attrib_count(),
            final(self).next_buffer_id() == old(self).next_buffer_id(),
            final(self).next_texture_id() == old(self).next_texture_id(),
            final(self).next_framebuffer_id() == old(self).next_framebuffer_id(),
    {
        self.calls.push(DeviceCall::UseProgram { program });
    }

    pub fn push_call(&mut self, call: DeviceCall)
        ensures
            final(self).calls() == old(self).calls().push(call),
            final(self).attrib_count() == old(self).attrib_count(),
            final(self).next_buffer_id() == old(self).next_buffer_id(),
            final(self).next_texture_id() == old(self).next_texture_id(),
            final(self).next_framebuffer_id() == old(self).next_framebuffer_id(),
    {
        self.calls.push(call);
    }

    /// Law: attribute-count delta. Brings the number of enabled leading
    /// vertex-attribute slots to `amount`, recording exactly the enable
    /// calls for the slots gained or the disable calls for the slots lost —
    /// an unchanged count records nothing, and no slot is ever re-issued.
    pub fn switch_attributes(&mut self, amount: u32)
        ensures
            final(self).attrib_count() == amount,
            final(self).next_buffer_id() == old(self).next_buffer_id(),
            final(self).next_texture_id() == old(self).next_texture_id(),
            final(self).next_framebuffer_id() == old(self).next_framebuffer_id(),
            final(self).calls() == old(self).calls() + spec_attrib_delta(
                old(self).attrib_count(),
                amount,
            ),
    {
        let current = self.attrib_amount;
        if current < amount {
            let mut location = current;
            while location < amount
                invariant
                    current <= location <= amount,
                    self.attrib_amount == current,
                    self.next_buffer == old(self).next_buffer_id(),
                    self.next_texture == old(self).next_texture_id(),
                    self.next_framebuffer == old(self).next_framebuffer_id(),
                    self.calls@ == old(self).calls() + Seq::new(
                        (location - current) as nat,
                        |i: int| DeviceCall::EnableVertexAttribArray {
                            location: (current + i) as u32,
                        },
                    ),
                decreases amount - location,
            {
                self.calls.push(DeviceCall::EnableVertexAttribArray { location });
                location = location + 1;
                proof {
                    assert(self.calls@ =~= old(self).calls() + Seq::new(
                        (location - current) as nat,
                        |i: int| DeviceCall::EnableVertexAttribArray {
                            location: (current + i) as u32,
                        },
                    ));
                }
            }
        } else {
            let mut location = amount;
            while location < current
                invariant
                    amount <= location <= current,
                    self.attrib_amount == current,
                    self.next_buffer == old(self).next_buffer_id(),
                    self.next_texture == old(self).next_texture_id(),
                    self.next_framebuffer == old(self).next_framebuffer_id(),
                    self.calls@ == old(self).calls() + Seq::new(
                        (location - amount) as nat,
                        |i: int| DeviceCall::DisableVertexAttribArray {
                            location: (amount + i) as u32,
                        },
                    ),
                decreases current - location,
            {
                self.calls.push(DeviceCall::DisableVertexAttribArray { location });
                location = location + 1;
                proof {
                    assert(self.calls@ =~= old(self).calls() + Seq::new(
                        (location - amount) as nat,
                        |i: int| DeviceCall::DisableVertexAttribArray {
                            location: (amount + i) as u32,
                        },
                    ));
                }
            }
        }
        self.attrib_amount = amount;
        proof {
            assert(self.calls@ =~= old(self).calls() + spec_attrib_delta(
                old(self).attrib_count(),
                amount,
            ));
        }
    }

    pub fn draw_arrays(&mut self, mode: DrawMode, first: i32, count: i32)
        ensures
            final(self).calls() == old(self).calls().push(
                DeviceCall::DrawArrays { mode, first, count },
            ),
            final(self).attrib_count() == old(self).attrib_count(),
            final(self).next_buffer_id() == old(self).next_buffer_id(),
            final(self).next_texture_id() == old(self).next_texture_id(),
            final(self).next_framebuffer_id() == old(self).next_framebuffer_id(),
    {
        self.calls.push(DeviceCall::DrawArrays { mode, first, count });
    }

    pub fn draw_elements(&mut self, mode: DrawMode, count: i32, kind: TypedArrayKind, offset: i32)
        ensures
            final(self).calls() == old(self).calls().push(
                DeviceCall::DrawElements { mode, count, kind, offset },
            ),
            final(self).attrib_count() == old(self).attrib_count(),
            final(self).next_buffer_id() == old(self).next_buffer_id(),
            final(self).next_texture_id() == old(self).next_texture_id(),
            final(self).next_framebuffer_id() == old(self).next_framebuffer_id(),
    {
        self.calls.push(DeviceCall::DrawElements { mode, count, kind, offset });
    }
}

} // verus!
