//! Resource value types held in the renderer's arenas.

use vstd::prelude::*;

use crate::arena::Handle;
use crate::device::{Device, DeviceCall};
use crate::gl::{AttributeName, AttributeOptions, TexParam, TexParamName, TextureKind};
use crate::mat4::{spec_identity, Mat4};

verus! {

/// A typed view over a device buffer: the buffer handle, the element
/// count, and the component layout.
#[derive(Clone, Copy, Debug, PartialEq, Eq, Structural)]
pub struct Accessor {
    pub buffer: Handle,
    pub count: i32,
    pub options: AttributeOptions,
}

/// One drawable unit of a mesh: named attribute accessors, an optional
/// index accessor, an optional material, and its own vertex count (used
/// when no index accessor is set).
#[derive(Debug)]
pub struct Primitive {
    pub attributes: Vec<(AttributeName, Handle)>,
    pub indices: Option<Handle>,
    pub material: Option<Handle>,
    pub count: i32,
}

/// The mathematical image of a [`Primitive`].
pub struct PrimitiveView {
    pub attributes: Seq<(AttributeName, Handle)>,
    pub indices: Option<Handle>,
    pub material: Option<Handle>,
    pub count: i32,
}

impl View for Primitive {
    type V = PrimitiveView;

    open spec fn view(&self) -> PrimitiveView {
        PrimitiveView {
            attributes: self.attributes@,
            indices: self.indices,
            material: self.material,
            count: self.count,
        }
    }
}

/// The accessor bound under a semantic name, first match wins.
pub open spec fn spec_attr_lookup(
    attrs: Seq<(AttributeName, Handle)>,
    name: Seq<char>,
) -> Option<Handle>
    decreases attrs.len(),
{
    if attrs.len() == 0 {
        None
    } else if spec_attr_name_chars(attrs[0].0) == name {
        Some(attrs[0].1)
    } else {
        spec_attr_lookup(attrs.drop_first(), name)
    }
}

/// The character name of an attribute semantic, as shader sources spell it.
pub open spec fn spec_attr_name_chars(a: AttributeName) -> Seq<char> {
    match a {
        AttributeName::Position => "position"@,
        AttributeName::Normal => "normal"@,
        AttributeName::Uv => "uv"@,
        AttributeName::Custom(s) => s@,
    }
}

/// A prefix of mismatches does not change what an attribute lookup finds.
pub proof fn lemma_attr_lookup_skip(attrs: Seq<(AttributeName, Handle)>, name: Seq<char>, k: int)
    requires
        0 <= k <= attrs.len(),
        forall|i: int|
            0 <= i < k ==> spec_attr_name_chars((#[trigger] attrs[i]).0) != name,
    ensures
        spec_attr_lookup(attrs, name) == spec_attr_lookup(attrs.skip(k), name),
    decreases k,
{
    if k > 0 {
        assert(spec_attr_name_chars(attrs[0].0) != name);
        lemma_attr_lookup_skip(attrs.drop_first(), name, k - 1);
        assert(attrs.drop_first().skip(k - 1) =~= attrs.skip(k));
    } else {
        assert(attrs.skip(0) =~= attrs);
    }
}

/// Finds the accessor a primitive binds under the given semantic name.
pub fn attr_lookup(attrs: &Vec<(AttributeName, Handle)>, name: &String) -> (r: Option<Handle>)
    ensures
        r == spec_attr_lookup(attrs@, name@),
{
    proof {
        reveal_strlit("position");
        reveal_strlit("normal");
        reveal_strlit("uv");
    }
    let position: String = String::from_str("position");
    let normal: String = String::from_str("normal");
    let uv: String = String::from_str("uv");
    let mut k: usize = 0;
    while k < attrs.len()
        invariant
            k <= attrs@.len(),
            position@ == "position"@,
            normal@ == "normal"@,
            uv@ == "uv"@,
            forall|i: int|
                0 <= i < k ==> spec_attr_name_chars((#[trigger] attrs@[i]).0) != name@,
        decreases attrs@.len() - k,
    {
        let hit = match &attrs[k].0 {
            AttributeName::Position => position.eq(name),
            AttributeName::Normal => normal.eq(name),
            AttributeName::Uv => uv.eq(name),
            AttributeName::Custom(s) => s.eq(name),
        };
        if hit {
            proof {
                lemma_attr_lookup_skip(attrs@, name@, k as int);
                assert(attrs@.skip(k as int)[0] == attrs@[k as int]);
            }
            return Some(attrs[k].1);
        }
        k = k + 1;
    }
    proof {
        lemma_attr_lookup_skip(attrs@, name@, k as int);
        assert(attrs@.skip(k as int).len() == 0);
    }
    None
}

/// An ordered sequence of primitives with an optional name.
#[derive(Debug)]
pub struct Mesh {
    pub primitives: Vec<Primitive>,
    pub name: Option<String>,
}

/// The mathematical image of a [`Mesh`].
pub struct MeshView {
    pub primitives: Seq<Primitive>,
    pub name: Option<Seq<char>>,
}

impl View for Mesh {
    type V = MeshView;

    open spec fn view(&self) -> MeshView {
        MeshView {
            primitives: self.primitives@,
            name: match self.name {
                Some(ref s) => Some(s@),
                None => None,
            },
        }
    }
}

/// Sampling parameters: wrap modes and filters. A plain value; the device
/// state it describes belongs to the device-binding layer.
#[derive(Clone, Copy, Debug, PartialEq, Eq, Structural)]
pub struct Sampler {
    pub mag_filter: TexParam,
    pub min_filter: TexParam,
    pub wrap_s: TexParam,
    pub wrap_t: TexParam,
}

impl Default for Sampler {
    fn default() -> (r: Self)
        ensures
            r == spec_default_sampler(),
    {
        Sampler {
            wrap_s: TexParam::ClampToEdge,
            wrap_t: TexParam::ClampToEdge,
            min_filter: TexParam::LinearMipMapLinear,
            mag_filter: TexParam::Linear,
        }
    }
}

pub open spec fn spec_default_sampler() -> Sampler {
    Sampler {
        mag_filter: TexParam::Linear,
        min_filter: TexParam::LinearMipMapLinear,
        wrap_s: TexParam::ClampToEdge,
        wrap_t: TexParam::ClampToEdge,
    }
}

/// The four parameter calls a sampler applies to the bound texture, in the
/// fixed order min filter, mag filter, wrap-s, wrap-t.
pub open spec fn spec_sampler_calls(kind: TextureKind, s: Sampler) -> Seq<DeviceCall> {
    seq![
        DeviceCall::TexParameter { kind, name: TexParamName::TextureMinFilter, param: s.min_filter },
        DeviceCall::TexParameter { kind, name: TexParamName::TextureMagFilter, param: s.mag_filter },
        DeviceCall::TexParameter { kind, name: TexParamName::TextureWrapS, param: s.wrap_s },
        DeviceCall::TexParameter { kind, name: TexParamName::TextureWrapT, param: s.wrap_t },
    ]
}

impl Sampler {
    /// Records the sampler's four texture-parameter calls for the texture
    /// currently bound at `kind`.
    pub fn set_params(&self, kind: TextureKind, device: &mut Device)
        ensures
            final(device).calls() == old(device).calls() + spec_sampler_calls(kind, *self),
            final(device).attrib_count() == old(device).attrib_count(),
    {
        device.texture_parameter(kind, TexParamName::TextureMinFilter, self.min_filter);
        device.texture_parameter(kind, TexParamName::TextureMagFilter, self.mag_filter);
        device.texture_parameter(kind, TexParamName::TextureWrapS, self.wrap_s);
        device.texture_parameter(kind, TexParamName::TextureWrapT, self.wrap_t);
        proof {
            assert(final(device).calls() =~= old(device).calls() + spec_sampler_calls(
                kind,
                *self,
            ));
        }
    }
}

/// A texture: a source image handle plus a sampler handle.
#[derive(Clone, Copy, Debug, PartialEq, Eq, Structural)]
pub struct Texture {
    pub source: Handle,
    pub sampler: Handle,
}

/// A camera: its view and projection matrices, both identity by default.
#[derive(Clone, Copy, Debug, PartialEq, Eq, Structural)]
pub struct Camera {
    pub view: Mat4,
    pub projection: Mat4,
}

impl Default for Camera {
    fn default() -> (r: Self)
        ensures
            r.view == spec_identity(),
            r.projection == spec_identity(),
    {
        Camera { view: Mat4::identity(), projection: Mat4::identity() }
    }
}

impl Camera {
    pub fn new(view: Mat4, projection: Mat4) -> (r: Self)
        ensures
            r == (Camera { view, projection }),
    {
        Camera { view, projection }
    }
}

/// A render target: a framebuffer handle, its color texture, and an
/// optional depth texture.
#[derive(Clone, Copy, Debug, PartialEq, Eq, Structural)]
pub struct RenderTarget {
    pub fb: Handle,
    pub color_texture: Handle,
    pub depth_texture: Option<Handle>,
}

} // verus!
