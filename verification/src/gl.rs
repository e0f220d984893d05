//! Device-level constants and small value types shared by the renderer.
//!
//! Every enum here mirrors one family of GL constants; `as_u32` returns the
//! numeric value the device protocol uses on the wire. The exact values are
//! fixed by the GL specification and pinned down in the contracts.

use vstd::prelude::*;

verus! {

/// Which buffer of the default framebuffer a clear call touches.
#[derive(Clone, Copy, Debug, PartialEq, Eq, Structural)]
pub enum Cleaning {
    Color,
    Depth,
}

pub open spec fn spec_cleaning_u32(c: Cleaning) -> u32 {
    match c {
        Cleaning::Color => 0x4000,
        Cleaning::Depth => 0x0100,
    }
}

impl Cleaning {
    pub fn as_u32(&self) -> (r: u32)
        ensures
            r == spec_cleaning_u32(*self),
    {
        match self {
            Self::Color => 0x4000,
            Self::Depth => 0x0100,
        }
    }
}

/// Binding target of a device buffer: vertex data or element indices.
#[derive(Clone, Copy, Debug, PartialEq, Eq, Structural)]
pub enum BufferTarget {
    ArrayBuffer,
    ElementArrayBuffer,
}

pub open spec fn spec_buffer_target_u32(t: BufferTarget) -> u32 {
    match t {
        BufferTarget::ArrayBuffer => 0x8892,
        BufferTarget::ElementArrayBuffer => 0x8893,
    }
}

impl BufferTarget {
    pub fn as_u32(&self) -> (r: u32)
        ensures
            r == spec_buffer_target_u32(*self),
    {
        match self {
            Self::ArrayBuffer => 0x8892,
            Self::ElementArrayBuffer => 0x8893,
        }
    }
}

/// Indexed binding targets for uniform and transform-feedback buffers.
#[derive(Clone, Copy, Debug, PartialEq, Eq, Structural)]
pub enum BufferBaseTarget {
    TransformFeedbackBuffer,
    UniformBuffer,
}

pub open spec fn spec_buffer_base_target_u32(t: BufferBaseTarget) -> u32 {
    match t {
        BufferBaseTarget::TransformFeedbackBuffer => 0x8C8B,
        BufferBaseTarget::UniformBuffer => 0x8A11,
    }
}

impl BufferBaseTarget {
    pub fn as_u32(&self) -> (r: u32)
        ensures
            r == spec_buffer_base_target_u32(*self),
    {
        match self {
            Self::TransformFeedbackBuffer => 0x8C8B,
            Self::UniformBuffer => 0x8A11,
        }
    }
}

/// Expected update pattern of a device buffer.
#[derive(Clone, Copy, Debug, PartialEq, Eq, Structural)]
pub enum BufferUsage {
    StaticDraw,
    DynamicDraw,
    StreamDraw,
}

pub open spec fn spec_buffer_usage_u32(u: BufferUsage) -> u32 {
    match u {
        BufferUsage::StaticDraw => 0x88E4,
        BufferUsage::DynamicDraw => 0x88E8,
        BufferUsage::StreamDraw => 0x88E0,
    }
}

impl BufferUsage {
    pub fn as_u32(&self) -> (r: u32)
        ensures
            r == spec_buffer_usage_u32(*self),
    {
        match self {
            Self::StaticDraw => 0x88E4,
            Self::DynamicDraw => 0x88E8,
            Self::StreamDraw => 0x88E0,
        }
    }
}

/// Primitive topology of a draw call.
#[derive(Clone, Copy, Debug, PartialEq, Eq, Structural)]
pub enum DrawMode {
    Triangles,
    Lines,
}

pub open spec fn spec_draw_mode_u32(m: DrawMode) -> u32 {
    match m {
        DrawMode::Triangles => 0x0004,
        DrawMode::Lines => 0x0001,
    }
}

impl DrawMode {
    pub fn as_u32(&self) -> (r: u32)
        ensures
            r == spec_draw_mode_u32(*self),
    {
        match self {
            Self::Triangles => 0x0004,
            Self::Lines => 0x0001,
        }
    }
}

/// Device capabilities toggled per draw.
#[derive(Clone, Copy, Debug, PartialEq, Eq, Structural)]
pub enum Feature {
    CullFace,
    DepthTest,
}

pub open spec fn spec_feature_u32(f: Feature) -> u32 {
    match f {
        Feature::CullFace => 0x0B44,
        Feature::DepthTest => 0x0B71,
    }
}

impl Feature {
    pub fn as_u32(&self) -> (r: u32)
        ensures
            r == spec_feature_u32(*self),
    {
        match self {
            Self::CullFace => 0x0B44,
            Self::DepthTest => 0x0B71,
        }
    }
}

/// Depth comparison applied while depth testing.
#[derive(Clone, Copy, Debug, PartialEq, Eq, Structural)]
pub enum DepthFunc {
    Less,
    Lequal,
}

pub open spec fn spec_depth_func_u32(f: DepthFunc) -> u32 {
    match f {
        DepthFunc::Less => 0x0201,
        DepthFunc::Lequal => 0x0203,
    }
}

impl DepthFunc {
    pub fn as_u32(&self) -> (r: u32)
        ensures
            r == spec_depth_func_u32(*self),
    {
        match self {
            Self::Less => 0x0201,
            Self::Lequal => 0x0203,
        }
    }
}

/// Texture binding points, including the six cube-map faces.
#[derive(Clone, Copy, Debug, PartialEq, Eq, Structural)]
pub enum TextureKind {
    Texture2d,
    CubeMap,
    CubeMapPX,
    CubeMapNX,
    CubeMapPY,
    CubeMapNY,
    CubeMapPZ,
    CubeMapNZ,
}

pub open spec fn spec_texture_kind_u32(k: TextureKind) -> u32 {
    match k {
        TextureKind::Texture2d => 0x0DE1,
        TextureKind::CubeMap => 0x8513,
        TextureKind::CubeMapPX => 0x8515,
        TextureKind::CubeMapNX => 0x8516,
        TextureKind::CubeMapPY => 0x8517,
        TextureKind::CubeMapNY => 0x8518,
        TextureKind::CubeMapPZ => 0x8519,
        TextureKind::CubeMapNZ => 0x851A,
    }
}

impl TextureKind {
    pub fn as_u32(&self) -> (r: u32)
        ensures
            r == spec_texture_kind_u32(*self),
    {
        match self {
            Self::Texture2d => 0x0DE1,
            Self::CubeMap => 0x8513,
            Self::CubeMapPX => 0x8515,
            Self::CubeMapNX => 0x8516,
            Self::CubeMapPY => 0x8517,
            Self::CubeMapNY => 0x8518,
            Self::CubeMapPZ => 0x8519,
            Self::CubeMapNZ => 0x851A,
        }
    }
}

/// Sampler parameter names.
#[derive(Clone, Copy, Debug, PartialEq, Eq, Structural)]
pub enum TexParamName {
    TextureMinFilter,
    TextureMagFilter,
    TextureWrapS,
    TextureWrapT,
}

pub open spec fn spec_tex_param_name_u32(n: TexParamName) -> u32 {
    match n {
        TexParamName::TextureMinFilter => 0x2801,
        TexParamName::TextureMagFilter => 0x2800,
        TexParamName::TextureWrapS => 0x2802,
        TexParamName::TextureWrapT => 0x2803,
    }
}

impl TexParamName {
    pub fn as_u32(&self) -> (r: u32)
        ensures
            r == spec_tex_param_name_u32(*self),
    {
        match self {
            Self::TextureMinFilter => 0x2801,
            Self::TextureMagFilter => 0x2800,
            Self::TextureWrapS => 0x2802,
            Self::TextureWrapT => 0x2803,
        }
    }
}

/// Sampler parameter values: filters and wrap modes.
#[derive(Clone, Copy, Debug, PartialEq, Eq, Structural)]
pub enum TexParam {
    Linear,
    Nearest,
    NearestMipMapNearest,
    LinearMipMapNearest,
    NearestMimMapLinear,
    LinearMipMapLinear,
    ClampToEdge,
}

pub open spec fn spec_tex_param_u32(p: TexParam) -> u32 {
    match p {
        TexParam::Linear => 0x2601,
        TexParam::Nearest => 0x2600,
        TexParam::NearestMipMapNearest => 0x2700,
        TexParam::LinearMipMapNearest => 0x2701,
        TexParam::NearestMimMapLinear => 0x2702,
        TexParam::LinearMipMapLinear => 0x2703,
        TexParam::ClampToEdge => 0x812F,
    }
}

impl TexParam {
    pub fn as_u32(&self) -> (r: u32)
        ensures
            r == spec_tex_param_u32(*self),
    {
        match self {
            Self::Linear => 0x2601,
            Self::Nearest => 0x2600,
            Self::NearestMipMapNearest => 0x2700,
            Self::LinearMipMapNearest => 0x2701,
            Self::NearestMimMapLinear => 0x2702,
            Self::LinearMipMapLinear => 0x2703,
            Self::ClampToEdge => 0x812F,
        }
    }
}

/// Pixel formats for texture uploads and render targets.
#[derive(Clone, Copy, Debug, PartialEq, Eq, Structural)]
pub enum TextureFormat {
    RGBA,
    RGB,
    Depth,
}

pub open spec fn spec_texture_format_u32(f: TextureFormat) -> u32 {
    match f {
        TextureFormat::RGBA => 0x1908,
        TextureFormat::RGB => 0x1907,
        TextureFormat::Depth => 0x1902,
    }
}

impl TextureFormat {
    pub fn as_u32(&self) -> (r: u32)
        ensures
            r == spec_texture_format_u32(*self),
    {
        match self {
            Self::RGBA => 0x1908,
            Self::RGB => 0x1907,
            Self::Depth => 0x1902,
        }
    }
}

/// Attachment points of a framebuffer.
#[derive(Clone, Copy, Debug, PartialEq, Eq, Structural)]
pub enum FramebufferAttachment {
    ColorAttachment0,
    DepthAttachment,
}

pub open spec fn spec_framebuffer_attachment_u32(a: FramebufferAttachment) -> u32 {
    match a {
        FramebufferAttachment::ColorAttachment0 => 0x8CE0,
        FramebufferAttachment::DepthAttachment => 0x8D00,
    }
}

impl FramebufferAttachment {
    pub fn as_u32(&self) -> (r: u32)
        ensures
            r == spec_framebuffer_attachment_u32(*self),
    {
        match self {
            Self::ColorAttachment0 => 0x8CE0,
            Self::DepthAttachment => 0x8D00,
        }
    }
}

/// Scalar layout of one component in a typed buffer view.
#[derive(Clone, Copy, Debug, PartialEq, Eq, Structural)]
pub enum TypedArrayKind {
    Uint8,
    Int8,
    Int16,
    Uint16,
    Uint32,
    Float32,
}

pub open spec fn spec_typed_array_kind_u32(k: TypedArrayKind) -> u32 {
    match k {
        TypedArrayKind::Uint8 => 0x1401,
        TypedArrayKind::Int8 => 0x1400,
        TypedArrayKind::Int16 => 0x1402,
        TypedArrayKind::Uint16 => 0x1403,
        TypedArrayKind::Uint32 => 0x1405,
        TypedArrayKind::Float32 => 0x1406,
    }
}

impl TypedArrayKind {
    pub fn as_u32(&self) -> (r: u32)
        ensures
            r == spec_typed_array_kind_u32(*self),
    {
        match self {
            Self::Uint8 => 0x1401,
            Self::Int8 => 0x1400,
            Self::Int16 => 0x1402,
            Self::Uint16 => 0x1403,
            Self::Uint32 => 0x1405,
            Self::Float32 => 0x1406,
        }
    }
}

impl Default for TypedArrayKind {
    fn default() -> (r: Self)
        ensures
            r == TypedArrayKind::Float32,
    {
        Self::Float32
    }
}

/// Scalar type of one vertex-attribute component, as a shader sees it.
#[derive(Clone, Copy, Debug, PartialEq, Eq, Structural)]
pub enum ComponentType {
    Byte,
    UnsignedByte,
    Short,
    UnsignedShort,
    UnsignedInt,
    Float,
}

pub open spec fn spec_component_type_u32(c: ComponentType) -> u32 {
    match c {
        ComponentType::Byte => 0x1400,
        ComponentType::UnsignedByte => 0x1401,
        ComponentType::Short => 0x1402,
        ComponentType::UnsignedShort => 0x1403,
        ComponentType::UnsignedInt => 0x1405,
        ComponentType::Float => 0x1406,
    }
}

impl ComponentType {
    pub fn as_u32(&self) -> (r: u32)
        ensures
            r == spec_component_type_u32(*self),
    {
        match self {
            Self::Byte => 0x1400,
            Self::UnsignedByte => 0x1401,
            Self::Short => 0x1402,
            Self::UnsignedShort => 0x1403,
            Self::UnsignedInt => 0x1405,
            Self::Float => 0x1406,
        }
    }
}

impl Default for ComponentType {
    fn default() -> (r: Self)
        ensures
            r == ComponentType::Float,
    {
        Self::Float
    }
}

/// Byte size of `T`, as the device protocol reports it.
pub fn size_u32<T>() -> (r: u32)
    requires
        vstd::layout::size_of::<T>() <= u32::MAX,
    ensures
        r == vstd::layout::size_of::<T>(),
{
    core::mem::size_of::<T>() as u32
}

/// Scalar types that may be packed into a device buffer.
///
/// `array_kind` names the typed-array layout of the scalar; `to_le_bytes`
/// is its little-endian wire encoding, whose length equals the size that
/// `array_kind` implies.
pub trait BufferItem: Sized {
    spec fn spec_kind() -> TypedArrayKind;

    spec fn spec_le_bytes(self) -> Seq<u8>;

    fn array_kind() -> (r: TypedArrayKind)
        ensures
            r == Self::spec_kind(),
    ;

    fn to_le_bytes(&self) -> (r: Vec<u8>)
        ensures
            r@ == self.spec_le_bytes(),
            r@.len() == spec_kind_byte_size(Self::spec_kind()),
    ;
}

/// Byte width of one scalar of the given kind.
pub open spec fn spec_kind_byte_size(k: TypedArrayKind) -> nat {
    match k {
        TypedArrayKind::Uint8 => 1,
        TypedArrayKind::Int8 => 1,
        TypedArrayKind::Int16 => 2,
        TypedArrayKind::Uint16 => 2,
        TypedArrayKind::Uint32 => 4,
        TypedArrayKind::Float32 => 4,
    }
}

impl BufferItem for u8 {
    open spec fn spec_kind() -> TypedArrayKind {
        TypedArrayKind::Uint8
    }

    open spec fn spec_le_bytes(self) -> Seq<u8> {
        seq![self]
    }

    fn array_kind() -> (r: TypedArrayKind) {
        TypedArrayKind::Uint8
    }

    fn to_le_bytes(&self) -> (r: Vec<u8>) {
        let mut v: Vec<u8> = Vec::new();
        v.push(*self);
        assert(v@ =~= self.spec_le_bytes());
        v
    }
}

impl BufferItem for u16 {
    open spec fn spec_kind() -> TypedArrayKind {
        TypedArrayKind::Uint16
    }

    open spec fn spec_le_bytes(self) -> Seq<u8> {
        seq![(self & 0xFF) as u8, ((self >> 8) & 0xFF) as u8]
    }

    fn array_kind() -> (r: TypedArrayKind) {
        TypedArrayKind::Uint16
    }

    fn to_le_bytes(&self) -> (r: Vec<u8>) {
        let mut v: Vec<u8> = Vec::new();
        v.push((*self & 0xFF) as u8);
        v.push((*self >> 8 & 0xFF) as u8);
        assert(v@ =~= self.spec_le_bytes());
        v
    }
}

impl BufferItem for u32 {
    open spec fn spec_kind() -> TypedArrayKind {
        TypedArrayKind::Uint32
    }

    open spec fn spec_le_bytes(self) -> Seq<u8> {
        seq![
            (self & 0xFF) as u8,
            ((self >> 8) & 0xFF) as u8,
            ((self >> 16) & 0xFF) as u8,
            ((self >> 24) & 0xFF) as u8,
        ]
    }

    fn array_kind() -> (r: TypedArrayKind) {
        TypedArrayKind::Uint32
    }

    fn to_le_bytes(&self) -> (r: Vec<u8>) {
        let mut v: Vec<u8> = Vec::new();
        v.push((*self & 0xFF) as u8);
        v.push((*self >> 8 & 0xFF) as u8);
        v.push((*self >> 16 & 0xFF) as u8);
        v.push((*self >> 24 & 0xFF) as u8);
        assert(v@ =~= self.spec_le_bytes());
        v
    }
}

/// Names a vertex attribute: the three standard semantics, or an extension
/// semantic carried by name.
#[derive(Clone, Debug)]
pub enum AttributeName {
    Position,
    Normal,
    Uv,
    Custom(String),
}

impl AttributeName {
    /// Spec-level equality: same variant, and for `Custom` the same name.
    pub open spec fn spec_eq(self, other: AttributeName) -> bool {
        match (self, other) {
            (AttributeName::Position, AttributeName::Position) => true,
            (AttributeName::Normal, AttributeName::Normal) => true,
            (AttributeName::Uv, AttributeName::Uv) => true,
            (AttributeName::Custom(a), AttributeName::Custom(b)) => a@ == b@,
            _ => false,
        }
    }

    /// Tests two names for equality; `Custom` names compare by contents.
    pub fn matches(&self, other: &AttributeName) -> (r: bool)
        ensures
            r == self.spec_eq(*other),
    {
        match (self, other) {
            (AttributeName::Position, AttributeName::Position) => true,
            (AttributeName::Normal, AttributeName::Normal) => true,
            (AttributeName::Uv, AttributeName::Uv) => true,
            (AttributeName::Custom(a), AttributeName::Custom(b)) => a.eq(b),
            _ => false,
        }
    }

    /// Parses one of the three standard semantic names.
    ///
    /// Any other name is a programmer error in the caller and is excluded
    /// here rather than handled.
    pub fn from_string(name: &str) -> (r: Self)
        requires
            name@ == "position"@ || name@ == "normal"@ || name@ == "uv"@,
        ensures
            name@ == "position"@ ==> r == AttributeName::Position,
            name@ == "normal"@ ==> r == AttributeName::Normal,
            name@ == "uv"@ ==> r == AttributeName::Uv,
    {
        proof {
            reveal_strlit("position");
            reveal_strlit("normal");
            reveal_strlit("uv");
            assert("position"@.len() == 8);
            assert("normal"@.len() == 6);
            assert("uv"@.len() == 2);
        }
        let p: String = String::from_str("position");
        let n: String = String::from_str("normal");
        let owned: String = String::from_str(name);
        if owned.eq(&p) {
            assert(name@ == "position"@);
            AttributeName::Position
        } else if owned.eq(&n) {
            assert(name@ == "normal"@);
            AttributeName::Normal
        } else {
            assert(name@ == "uv"@);
            AttributeName::Uv
        }
    }
}

/// How one vertex attribute reads its accessor: component scalar type,
/// components per element, normalization, stride and byte offset.
#[derive(Clone, Copy, Debug, PartialEq, Eq, Structural)]
pub struct AttributeOptions {
    pub component_type: TypedArrayKind,
    pub item_size: i32,
    pub normalized: bool,
    pub stride: i32,
    pub offset: i32,
}

impl AttributeOptions {
    /// A tightly packed, unnormalized attribute of the given scalar type
    /// and arity.
    pub fn new(component_type: TypedArrayKind, item_size: i32) -> (r: AttributeOptions)
        ensures
            r.component_type == component_type,
            r.item_size == item_size,
            !r.normalized,
            r.stride == 0,
            r.offset == 0,
    {
        AttributeOptions { component_type, item_size, normalized: false, stride: 0, offset: 0 }
    }
}

impl Default for AttributeOptions {
    fn default() -> (r: Self)
        ensures
            r == (AttributeOptions {
                component_type: TypedArrayKind::Float32,
                item_size: 0,
                normalized: false,
                stride: 0,
                offset: 0,
            }),
    {
        AttributeOptions {
            component_type: TypedArrayKind::Float32,
            item_size: 0,
            normalized: false,
            stride: 0,
            offset: 0,
        }
    }
}

} // verus!
