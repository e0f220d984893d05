//! The material system: polymorphic material behavior over the capability
//! set identity tag, shader-source selection, uniform binding, and draw
//! parameters.
//!
//! A material's tag is a pure function of its configuration — which
//! optional maps are bound — so materials needing different shader
//! permutations never collide in the shader cache and materials needing the
//! same permutation share one compiled program.

use vstd::prelude::*;

use crate::arena::{Arena, Handle};
use crate::device::{Device, DeviceCall};
use crate::error::RenderError;
use crate::gl::{DepthFunc, DrawMode, TextureKind};
use crate::mat4::{Mat4, Vec2};
use crate::scene::Node;
use crate::shader::{spec_lookup, Define, Shader};
use crate::store::{spec_sampler_calls, Camera, Sampler, Texture};

verus! {

/// An 8-bit-per-channel color.
#[derive(Clone, Copy, Debug, PartialEq, Eq, Structural)]
pub struct Color3 {
    pub r: u8,
    pub g: u8,
    pub b: u8,
}

impl Color3 {
    pub fn new(r: u8, g: u8, b: u8) -> (c: Color3)
        ensures
            c == (Color3 { r, g, b }),
    {
        Color3 { r, g, b }
    }
}

/// Draw parameters a material reports; the pipeline applies them right
/// before the primitive's draw call.
#[derive(Clone, Copy, Debug, PartialEq, Eq, Structural)]
pub struct MaterialParams {
    pub cull_face: bool,
    pub depth_test: bool,
    pub depth_func: DepthFunc,
    pub draw_mode: DrawMode,
}

/// Which built-in shader source pair a material's program compiles from.
#[derive(Clone, Copy, Debug, PartialEq, Eq, Structural)]
pub enum ShaderKind {
    Pbr,
    Skybox,
    Debug,
}

/// What the host must compile for a material: the source pair and its
/// preprocessor defines.
#[derive(Debug)]
pub struct ShaderRequest {
    pub kind: ShaderKind,
    pub defines: Vec<Define>,
}

/// The physically-based-like material: a base color, an optional color
/// map, an optional debugging environment map, and UV tiling.
#[derive(Clone, Copy, Debug, PartialEq, Eq, Structural)]
pub struct PbrMaterial {
    pub color: Color3,
    pub color_map: Option<Handle>,
    pub debug_cube_map: Option<Handle>,
    pub uv_repeating: Vec2,
    pub cull_face: bool,
    pub depth_test: bool,
    pub draw_mode: DrawMode,
}

impl PbrMaterial {
    /// The default configuration: black, no maps, unit tiling, culling and
    /// depth testing on, triangles.
    pub fn new() -> (r: PbrMaterial)
        ensures
            r == spec_default_pbr(),
    {
        PbrMaterial {
            color: Color3 { r: 0, g: 0, b: 0 },
            cull_face: true,
            depth_test: true,
            draw_mode: DrawMode::Triangles,
            color_map: None,
            debug_cube_map: None,
            uv_repeating: Vec2 { x: 1, y: 1 },
        }
    }

    pub fn set_color(self, color: Color3) -> (r: Self)
        ensures
            r == (PbrMaterial { color, ..self }),
    {
        PbrMaterial { color, ..self }
    }

    pub fn set_cull_face(self, cull_face: bool) -> (r: Self)
        ensures
            r == (PbrMaterial { cull_face, ..self }),
    {
        PbrMaterial { cull_face, ..self }
    }

    pub fn set_depth_test(self, depth_test: bool) -> (r: Self)
        ensures
            r == (PbrMaterial { depth_test, ..self }),
    {
        PbrMaterial { depth_test, ..self }
    }

    pub fn set_draw_mode(self, draw_mode: DrawMode) -> (r: Self)
        ensures
            r == (PbrMaterial { draw_mode, ..self }),
    {
        PbrMaterial { draw_mode, ..self }
    }

    pub fn set_color_map(self, color_map: Option<Handle>) -> (r: Self)
        ensures
            r == (PbrMaterial { color_map, ..self }),
    {
        PbrMaterial { color_map, ..self }
    }

    pub fn set_debug_cube_map(self, debug_cube_map: Option<Handle>) -> (r: Self)
        ensures
            r == (PbrMaterial { debug_cube_map, ..self }),
    {
        PbrMaterial { debug_cube_map, ..self }
    }

    pub fn set_uv_repeating(self, uv_repeating: Vec2) -> (r: Self)
        ensures
            r == (PbrMaterial { uv_repeating, ..self }),
    {
        PbrMaterial { uv_repeating, ..self }
    }
}

pub open spec fn spec_default_pbr() -> PbrMaterial {
    PbrMaterial {
        color: Color3 { r: 0u8, g: 0u8, b: 0u8 },
        color_map: None,
        debug_cube_map: None,
        uv_repeating: Vec2 { x: 1i64, y: 1i64 },
        cull_face: true,
        depth_test: true,
        draw_mode: DrawMode::Triangles,
    }
}

/// The skybox material: one cube-map texture.
#[derive(Clone, Copy, Debug, PartialEq, Eq, Structural)]
pub struct SkyboxMaterial {
    pub skybox: Handle,
}

impl SkyboxMaterial {
    pub fn new(skybox: Handle) -> (r: SkyboxMaterial)
        ensures
            r == (SkyboxMaterial { skybox }),
    {
        SkyboxMaterial { skybox }
    }
}

/// The debugging material: a flat color.
#[derive(Clone, Copy, Debug, PartialEq, Eq, Structural)]
pub struct DebugMaterial {
    pub color: Color3,
}

impl DebugMaterial {
    pub fn new(color: Color3) -> (r: DebugMaterial)
        ensures
            r == (DebugMaterial { color }),
    {
        DebugMaterial { color }
    }
}

/// A material: one of the concrete variants.
#[derive(Clone, Copy, Debug, PartialEq, Eq, Structural)]
pub enum Material {
    Pbr(PbrMaterial),
    Skybox(SkyboxMaterial),
    Debug(DebugMaterial),
}

/// A material's identity tag: a pure function of the variant and of which
/// optional maps its configuration binds.
pub open spec fn spec_tag(m: Material) -> Seq<char> {
    match m {
        Material::Pbr(p) => "pbr"@ + (if p.color_map is Some {
            ":color_map"@
        } else {
            Seq::empty()
        }) + (if p.debug_cube_map is Some {
            ":debug_cube_map"@
        } else {
            Seq::empty()
        }),
        Material::Skybox(_) => "skybox"@,
        Material::Debug(_) => "debug"@,
    }
}

/// The defines a material's shader request carries, one per bound optional
/// map.
pub open spec fn spec_defines(m: Material) -> Seq<crate::shader::DefineView> {
    match m {
        Material::Pbr(p) => (if p.color_map is Some {
            seq![crate::shader::DefineView { name: "USE_COLOR_MAP"@, value: None }]
        } else {
            Seq::empty()
        }) + (if p.debug_cube_map is Some {
            seq![crate::shader::DefineView { name: "USE_DEBUG_CUBE_MAP"@, value: None }]
        } else {
            Seq::empty()
        }),
        Material::Skybox(_) => Seq::empty(),
        Material::Debug(_) => Seq::empty(),
    }
}

/// The shader kind a material compiles from.
pub open spec fn spec_shader_kind(m: Material) -> ShaderKind {
    match m {
        Material::Pbr(_) => ShaderKind::Pbr,
        Material::Skybox(_) => ShaderKind::Skybox,
        Material::Debug(_) => ShaderKind::Debug,
    }
}

/// The draw parameters a material reports.
pub open spec fn spec_params(m: Material) -> MaterialParams {
    match m {
        Material::Pbr(p) => MaterialParams {
            cull_face: p.cull_face,
            depth_test: p.depth_test,
            depth_func: DepthFunc::Less,
            draw_mode: p.draw_mode,
        },
        Material::Skybox(_) => MaterialParams {
            cull_face: true,
            depth_test: true,
            depth_func: DepthFunc::Lequal,
            draw_mode: DrawMode::Triangles,
        },
        Material::Debug(_) => MaterialParams {
            cull_face: true,
            depth_test: true,
            depth_func: DepthFunc::Less,
            draw_mode: DrawMode::Triangles,
        },
    }
}

/// The uniform call under `name`, or nothing when the program does not
/// expose that name.
pub open spec fn spec_opt_uniform(
    us: Seq<(Seq<char>, u32)>,
    name: Seq<char>,
    f: spec_fn(u32) -> DeviceCall,
) -> Seq<DeviceCall> {
    match spec_lookup(us, name) {
        Some(l) => seq![f(l)],
        None => Seq::empty(),
    }
}

/// The image identifier and sampler a texture handle resolves to, through
/// the texture, image and sampler stores.
pub open spec fn spec_resolve_texture(
    textures: Map<Handle, Texture>,
    images: Map<Handle, u64>,
    samplers: Map<Handle, Sampler>,
    h: Handle,
) -> Option<(u64, Sampler)> {
    if textures.contains_key(h) && images.contains_key(textures[h].source)
        && samplers.contains_key(textures[h].sampler) {
        Some((images[textures[h].source], samplers[textures[h].sampler]))
    } else {
        None
    }
}

/// The calls that bind one resolved texture at a unit: activate the unit,
/// bind the image, apply the sampler, and point the sampler uniform at the
/// unit.
pub open spec fn spec_bind_texture_calls(
    us: Seq<(Seq<char>, u32)>,
    image: u64,
    sampler: Sampler,
    kind: TextureKind,
    name: Seq<char>,
    unit: u32,
) -> Seq<DeviceCall> {
    seq![
        DeviceCall::ActiveTexture { unit },
        DeviceCall::BindTexture { kind, texture: Some(image) },
    ] + spec_sampler_calls(kind, sampler) + spec_opt_uniform(
        us,
        name,
        |l: u32| DeviceCall::SetUniformInt { location: l, v: unit as i32 },
    )
}

/// The calls of one optional map slot: nothing when the slot is empty.
pub open spec fn spec_opt_map_calls(
    us: Seq<(Seq<char>, u32)>,
    resolved: Option<(u64, Sampler)>,
    kind: TextureKind,
    name: Seq<char>,
    unit: u32,
) -> Seq<DeviceCall> {
    match resolved {
        Some(r) => spec_bind_texture_calls(us, r.0, r.1, kind, name, unit),
        None => Seq::empty(),
    }
}

/// Whether every texture a material references resolves through the three
/// stores.
pub open spec fn spec_setup_valid(
    m: Material,
    textures: Map<Handle, Texture>,
    images: Map<Handle, u64>,
    samplers: Map<Handle, Sampler>,
) -> bool {
    match m {
        Material::Pbr(p) => {
            &&& p.color_map is Some ==> spec_resolve_texture(
                textures,
                images,
                samplers,
                p.color_map->0,
            ) is Some
            &&& p.debug_cube_map is Some ==> spec_resolve_texture(
                textures,
                images,
                samplers,
                p.debug_cube_map->0,
            ) is Some
        },
        Material::Skybox(s) => spec_resolve_texture(textures, images, samplers, s.skybox) is Some,
        Material::Debug(_) => true,
    }
}

/// The camera view with its translation column cleared, as a skybox wants
/// it.
pub open spec fn spec_view_no_translation(m: Mat4) -> Mat4 {
    Mat4 { m03: 0i64, m13: 0i64, m23: 0i64, ..m }
}

/// The optional color-uniform call of a PBR or debug material.
pub open spec fn spec_color_call(us: Seq<(Seq<char>, u32)>, c: Color3) -> Seq<DeviceCall> {
    spec_opt_uniform(
        us,
        "color"@,
        |l: u32| DeviceCall::SetUniformColor { location: l, r: c.r, g: c.g, b: c.b },
    )
}

/// The optional UV-tiling uniform call of a PBR material.
pub open spec fn spec_uv_call(us: Seq<(Seq<char>, u32)>, uv: Vec2) -> Seq<DeviceCall> {
    spec_opt_uniform(
        us,
        "uvRepeating"@,
        |l: u32| DeviceCall::SetUniformVec2 { location: l, x: uv.x, y: uv.y },
    )
}

/// The optional projection-matrix uniform call.
pub open spec fn spec_projection_call(us: Seq<(Seq<char>, u32)>, m: Mat4) -> Seq<DeviceCall> {
    spec_opt_uniform(
        us,
        "projectionMatrix"@,
        |l: u32| DeviceCall::SetUniformMat4 { location: l, m },
    )
}

/// The optional view-matrix uniform call.
pub open spec fn spec_view_call(us: Seq<(Seq<char>, u32)>, m: Mat4) -> Seq<DeviceCall> {
    spec_opt_uniform(us, "viewMatrix"@, |l: u32| DeviceCall::SetUniformMat4 { location: l, m })
}

/// The optional model-matrix uniform call.
pub open spec fn spec_model_call(us: Seq<(Seq<char>, u32)>, m: Mat4) -> Seq<DeviceCall> {
    spec_opt_uniform(us, "modelMatrix"@, |l: u32| DeviceCall::SetUniformMat4 { location: l, m })
}

/// The optional normal-matrix uniform call (inverse-transpose of the world
/// matrix's upper 3x3, computed by the host).
pub open spec fn spec_normal_call(us: Seq<(Seq<char>, u32)>, m: Mat4) -> Seq<DeviceCall> {
    spec_opt_uniform(
        us,
        "normalMatrix"@,
        |l: u32| DeviceCall::SetUniformMat3NormalOf { location: l, m },
    )
}

/// The optional inverse view-direction-projection uniform call of a skybox.
pub open spec fn spec_vdp_call(us: Seq<(Seq<char>, u32)>, camera: Camera) -> Seq<DeviceCall> {
    spec_opt_uniform(
        us,
        "viewDirectionProjectionInverse"@,
        |l: u32| DeviceCall::SetUniformMat4InverseOf {
            location: l,
            m: crate::mat4::spec_mul(camera.projection, spec_view_no_translation(camera.view)),
        },
    )
}

/// How a PBR material's color-map slot resolves.
pub open spec fn spec_color_map_slot(
    p: PbrMaterial,
    textures: Map<Handle, Texture>,
    images: Map<Handle, u64>,
    samplers: Map<Handle, Sampler>,
) -> Option<(u64, Sampler)> {
    match p.color_map {
        Some(h) => spec_resolve_texture(textures, images, samplers, h),
        None => None,
    }
}

/// How a PBR material's debug-cube-map slot resolves.
pub open spec fn spec_cube_map_slot(
    p: PbrMaterial,
    textures: Map<Handle, Texture>,
    images: Map<Handle, u64>,
    samplers: Map<Handle, Sampler>,
) -> Option<(u64, Sampler)> {
    match p.debug_cube_map {
        Some(h) => spec_resolve_texture(textures, images, samplers, h),
        None => None,
    }
}

/// The six scalar/matrix uniform calls of a PBR draw, in their fixed
/// order.
pub open spec fn spec_pbr_uniform_calls(
    us: Seq<(Seq<char>, u32)>,
    p: PbrMaterial,
    world: Mat4,
    camera: Camera,
) -> Seq<DeviceCall> {
    spec_color_call(us, p.color) + spec_uv_call(us, p.uv_repeating) + spec_projection_call(
        us,
        camera.projection,
    ) + spec_view_call(us, camera.view) + spec_model_call(us, world) + spec_normal_call(us, world)
}

/// The exact uniform and texture calls a material's shader setup records,
/// for a node with world matrix `world` under `camera`, given how its map
/// slots resolve.
pub open spec fn spec_setup_calls(
    m: Material,
    us: Seq<(Seq<char>, u32)>,
    world: Mat4,
    camera: Camera,
    textures: Map<Handle, Texture>,
    images: Map<Handle, u64>,
    samplers: Map<Handle, Sampler>,
) -> Seq<DeviceCall> {
    match m {
        Material::Pbr(p) => spec_pbr_uniform_calls(us, p, world, camera) + spec_opt_map_calls(
            us,
            spec_color_map_slot(p, textures, images, samplers),
            TextureKind::Texture2d,
            "colorMap"@,
            0,
        ) + spec_opt_map_calls(
            us,
            spec_cube_map_slot(p, textures, images, samplers),
            TextureKind::CubeMap,
            "debugCubeMap"@,
            1,
        ),
        Material::Skybox(s) => spec_vdp_call(us, camera) + spec_opt_map_calls(
            us,
            spec_resolve_texture(textures, images, samplers, s.skybox),
            TextureKind::CubeMap,
            "skybox"@,
            0,
        ),
        Material::Debug(d) => spec_color_call(us, d.color),
    }
}

/// Resolves one texture handle through the three stores.
fn resolve_texture(
    textures: &Arena<Texture>,
    images: &Arena<u64>,
    samplers: &Arena<Sampler>,
    h: Handle,
) -> (r: Option<(u64, Sampler)>)
    ensures
        r == spec_resolve_texture(textures@, images@, samplers@, h),
{
    match textures.get(h) {
        Some(t) => match images.get(t.source) {
            Some(image) => match samplers.get(t.sampler) {
                Some(s) => Some((*image, *s)),
                None => None,
            },
            None => None,
        },
        None => None,
    }
}

/// Records the calls binding one resolved texture at a unit.
fn emit_texture_binding(
    device: &mut Device,
    shader: &Shader,
    image: u64,
    sampler: &Sampler,
    kind: TextureKind,
    name: &str,
    unit: u32,
)
    requires
        unit <= 0x7FFF_FFFF,
    ensures
        final(device).calls() == old(device).calls() + spec_bind_texture_calls(
            shader.uniforms(),
            image,
            *sampler,
            kind,
            name@,
            unit,
        ),
        final(device).attrib_count() == old(device).attrib_count(),
{
    device.active_texture(unit);
    device.bind_texture(kind, Some(image));
    sampler.set_params(kind, device);
    shader.set_integer(device, name, unit as i32);
    proof {
        assert(final(device).calls() =~= old(device).calls() + spec_bind_texture_calls(
            shader.uniforms(),
            image,
            *sampler,
            kind,
            name@,
            unit,
        ));
    }
}

impl Material {
    /// The identity tag of this material's configuration.
    pub fn get_tag(&self) -> (r: String)
        ensures
            r@ == spec_tag(*self),
    {
        match self {
            Material::Pbr(p) => {
                let mut tag = String::from_str("pbr");
                if p.color_map.is_some() {
                    tag.append(":color_map");
                }
                if p.debug_cube_map.is_some() {
                    tag.append(":debug_cube_map");
                }
                proof {
                    assert(tag@ =~= spec_tag(*self));
                }
                tag
            },
            Material::Skybox(_) => String::from_str("skybox"),
            Material::Debug(_) => String::from_str("debug"),
        }
    }

    /// What the host must compile for this material: the source kind and
    /// one define per bound optional map.
    pub fn shader_request(&self) -> (r: ShaderRequest)
        ensures
            r.kind == spec_shader_kind(*self),
            r.defines@.map_values(|d: Define| d@) == spec_defines(*self),
    {
        match self {
            Material::Pbr(p) => {
                let mut defines: Vec<Define> = Vec::new();
                if p.color_map.is_some() {
                    defines.push(Define::def("USE_COLOR_MAP"));
                }
                if p.debug_cube_map.is_some() {
                    defines.push(Define::def("USE_DEBUG_CUBE_MAP"));
                }
                proof {
                    assert(defines@.map_values(|d: Define| d@) =~= spec_defines(*self));
                }
                ShaderRequest { kind: ShaderKind::Pbr, defines }
            },
            Material::Skybox(_) => {
                let defines: Vec<Define> = Vec::new();
                proof {
                    assert(defines@.map_values(|d: Define| d@) =~= spec_defines(*self));
                }
                ShaderRequest { kind: ShaderKind::Skybox, defines }
            },
            Material::Debug(_) => {
                let defines: Vec<Define> = Vec::new();
                proof {
                    assert(defines@.map_values(|d: Define| d@) =~= spec_defines(*self));
                }
                ShaderRequest { kind: ShaderKind::Debug, defines }
            },
        }
    }

    /// The draw parameters of this material.
    pub fn params(&self) -> (r: MaterialParams)
        ensures
            r == spec_params(*self),
    {
        match self {
            Material::Pbr(p) => MaterialParams {
                cull_face: p.cull_face,
                depth_test: p.depth_test,
                depth_func: DepthFunc::Less,
                draw_mode: p.draw_mode,
            },
            Material::Skybox(_) => MaterialParams {
                cull_face: true,
                depth_test: true,
                depth_func: DepthFunc::Lequal,
                draw_mode: DrawMode::Triangles,
            },
            Material::Debug(_) => MaterialParams {
                cull_face: true,
                depth_test: true,
                depth_func: DepthFunc::Less,
                draw_mode: DrawMode::Triangles,
            },
        }
    }

    /// Records every uniform and texture binding this material needs for
    /// one draw of `node` under `camera`. When some referenced texture no
    /// longer resolves, fails with `StaleHandle` and records nothing.
    pub fn setup_shader(
        &self,
        device: &mut Device,
        shader: &Shader,
        node: &Node,
        camera: &Camera,
        textures: &Arena<Texture>,
        images: &Arena<u64>,
        samplers: &Arena<Sampler>,
    ) -> (r: Result<(), RenderError>)
        ensures
            r is Ok <==> spec_setup_valid(*self, textures@, images@, samplers@),
            r is Err ==> r == Err::<(), RenderError>(RenderError::StaleHandle)
                && final(device).calls() == old(device).calls(),
            r is Ok ==> final(device).calls() == old(device).calls() + spec_setup_calls(
                *self,
                shader.uniforms(),
                node@.matrix_world,
                *camera,
                textures@,
                images@,
                samplers@,
            ),
            final(device).attrib_count() == old(device).attrib_count(),
    {
        match self {
            Material::Pbr(p) => setup_pbr_shader(
                p,
                device,
                shader,
                node,
                camera,
                textures,
                images,
                samplers,
            ),
            Material::Skybox(s) => setup_skybox_shader(
                s,
                device,
                shader,
                node,
                camera,
                textures,
                images,
                samplers,
            ),
            Material::Debug(d) => setup_debug_shader(
                d,
                device,
                shader,
                node,
                camera,
                textures,
                images,
                samplers,
            ),
        }
    }
}


/// Records the six scalar/matrix uniform calls of a PBR draw.
#[verifier::rlimit(100)]
fn emit_pbr_uniforms(
    p: &PbrMaterial,
    device: &mut Device,
    shader: &Shader,
    node: &Node,
    camera: &Camera,
)
    ensures
        final(device).calls() == old(device).calls() + spec_pbr_uniform_calls(
            shader.uniforms(),
            *p,
            node@.matrix_world,
            *camera,
        ),
        final(device).attrib_count() == old(device).attrib_count(),
{
    let ghost us = shader.uniforms();
    let ghost world = node@.matrix_world;
    let ghost base = device.calls();
    let ghost p1 = spec_color_call(us, p.color);
    let ghost p2 = spec_uv_call(us, p.uv_repeating);
    let ghost p3 = spec_projection_call(us, camera.projection);
    let ghost p4 = spec_view_call(us, camera.view);
    let ghost p5 = spec_model_call(us, world);
    let ghost p6 = spec_normal_call(us, world);
    shader.set_color(device, "color", p.color.r, p.color.g, p.color.b);
    proof {
        assert(device.calls() =~= base + p1);
    }
    let ghost q1 = p1;
    shader.set_vector2(device, "uvRepeating", p.uv_repeating.x, p.uv_repeating.y);
    proof {
        assert(device.calls() =~= (base + q1) + p2);
        assert((base + q1) + p2 =~= base + (q1 + p2));
    }
    let ghost q2 = q1 + p2;
    shader.set_matrix4(device, "projectionMatrix", &camera.projection);
    proof {
        assert(device.calls() =~= (base + q2) + p3);
        assert((base + q2) + p3 =~= base + (q2 + p3));
    }
    let ghost q3 = q2 + p3;
    shader.set_matrix4(device, "viewMatrix", &camera.view);
    proof {
        assert(device.calls() =~= (base + q3) + p4);
        assert((base + q3) + p4 =~= base + (q3 + p4));
    }
    let ghost q4 = q3 + p4;
    shader.set_matrix4(device, "modelMatrix", &node.matrix_world);
    proof {
        assert(device.calls() =~= (base + q4) + p5);
        assert((base + q4) + p5 =~= base + (q4 + p5));
    }
    let ghost q5 = q4 + p5;
    shader.set_normal_matrix(device, "normalMatrix", &node.matrix_world);
    proof {
        assert(device.calls() =~= (base + q5) + p6);
        assert((base + q5) + p6 =~= base + (q5 + p6));
        assert(spec_pbr_uniform_calls(us, *p, world, *camera) == q5 + p6);
    }
}

/// The PBR arm of shader setup; see [`Material::setup_shader`].
#[verifier::rlimit(100)]
fn setup_pbr_shader(
    p: &PbrMaterial,
    device: &mut Device,
    shader: &Shader,
    node: &Node,
    camera: &Camera,
    textures: &Arena<Texture>,
    images: &Arena<u64>,
    samplers: &Arena<Sampler>,
) -> (r: Result<(), RenderError>)
    ensures
        r is Ok <==> spec_setup_valid(Material::Pbr(*p), textures@, images@, samplers@),
        r is Err ==> r == Err::<(), RenderError>(RenderError::StaleHandle)
            && final(device).calls() == old(device).calls(),
        r is Ok ==> final(device).calls() == old(device).calls() + spec_setup_calls(
            Material::Pbr(*p),
            shader.uniforms(),
            node@.matrix_world,
            *camera,
            textures@,
            images@,
            samplers@,
        ),
        final(device).attrib_count() == old(device).attrib_count(),
{
    let cm = match p.color_map {
        Some(h) => match resolve_texture(textures, images, samplers, h) {
            Some(r) => Some(r),
            None => {
                return Err(RenderError::StaleHandle);
            },
        },
        None => None,
    };
    let dcm = match p.debug_cube_map {
        Some(h) => match resolve_texture(textures, images, samplers, h) {
            Some(r) => Some(r),
            None => {
                return Err(RenderError::StaleHandle);
            },
        },
        None => None,
    };
    let ghost us = shader.uniforms();
    let ghost world = node@.matrix_world;
    let ghost base = device.calls();
    let ghost q1 = spec_pbr_uniform_calls(us, *p, world, *camera);
    let ghost p7 = spec_opt_map_calls(
        us,
        spec_color_map_slot(*p, textures@, images@, samplers@),
        TextureKind::Texture2d,
        "colorMap"@,
        0,
    );
    let ghost p8 = spec_opt_map_calls(
        us,
        spec_cube_map_slot(*p, textures@, images@, samplers@),
        TextureKind::CubeMap,
        "debugCubeMap"@,
        1,
    );
    proof {
        assert(cm == spec_color_map_slot(*p, textures@, images@, samplers@));
        assert(dcm == spec_cube_map_slot(*p, textures@, images@, samplers@));
    }
    emit_pbr_uniforms(p, device, shader, node, camera);
    if let Some(rcm) = &cm {
        emit_texture_binding(device, shader, rcm.0, &rcm.1, TextureKind::Texture2d, "colorMap", 0);
    }
    proof {
        assert(device.calls() =~= (base + q1) + p7);
        assert((base + q1) + p7 =~= base + (q1 + p7));
    }
    let ghost q2 = q1 + p7;
    if let Some(rdcm) = &dcm {
        emit_texture_binding(
            device,
            shader,
            rdcm.0,
            &rdcm.1,
            TextureKind::CubeMap,
            "debugCubeMap",
            1,
        );
    }
    proof {
        assert(device.calls() =~= (base + q2) + p8);
        assert((base + q2) + p8 =~= base + (q2 + p8));
        let total = spec_setup_calls(
            Material::Pbr(*p),
            us,
            world,
            *camera,
            textures@,
            images@,
            samplers@,
        );
        assert(total == q2 + p8);
    }
    Ok(())
}

/// The skybox arm of shader setup; see [`Material::setup_shader`].
#[verifier::rlimit(100)]
fn setup_skybox_shader(
    s: &SkyboxMaterial,
    device: &mut Device,
    shader: &Shader,
    node: &Node,
    camera: &Camera,
    textures: &Arena<Texture>,
    images: &Arena<u64>,
    samplers: &Arena<Sampler>,
) -> (r: Result<(), RenderError>)
    ensures
        r is Ok <==> spec_setup_valid(Material::Skybox(*s), textures@, images@, samplers@),
        r is Err ==> r == Err::<(), RenderError>(RenderError::StaleHandle)
            && final(device).calls() == old(device).calls(),
        r is Ok ==> final(device).calls() == old(device).calls() + spec_setup_calls(
            Material::Skybox(*s),
            shader.uniforms(),
            node@.matrix_world,
            *camera,
            textures@,
            images@,
            samplers@,
        ),
        final(device).attrib_count() == old(device).attrib_count(),
{
    let resolved = match resolve_texture(textures, images, samplers, s.skybox) {
        Some(r) => r,
        None => {
            return Err(RenderError::StaleHandle);
        },
    };
    let ghost us = shader.uniforms();
    let ghost base = device.calls();
    let ghost p1 = spec_vdp_call(us, *camera);
    let ghost p2 = spec_opt_map_calls(
        us,
        spec_resolve_texture(textures@, images@, samplers@, s.skybox),
        TextureKind::CubeMap,
        "skybox"@,
        0,
    );
    let mut view_no_translation = camera.view;
    view_no_translation.m03 = 0;
    view_no_translation.m13 = 0;
    view_no_translation.m23 = 0;
    proof {
        assert(view_no_translation == spec_view_no_translation(camera.view));
    }
    let vdp = camera.projection.mul(&view_no_translation);
    shader.set_matrix4_inverse(device, "viewDirectionProjectionInverse", &vdp);
    proof {
        assert(device.calls() =~= base + p1);
    }
    emit_texture_binding(device, shader, resolved.0, &resolved.1, TextureKind::CubeMap, "skybox", 0);
    proof {
        assert(device.calls() =~= (base + p1) + p2);
        assert((base + p1) + p2 =~= base + (p1 + p2));
        let total = spec_setup_calls(
            Material::Skybox(*s),
            us,
            node@.matrix_world,
            *camera,
            textures@,
            images@,
            samplers@,
        );
        assert(total == p1 + p2);
    }
    Ok(())
}

/// The debug arm of shader setup; see [`Material::setup_shader`].
fn setup_debug_shader(
    d: &DebugMaterial,
    device: &mut Device,
    shader: &Shader,
    node: &Node,
    camera: &Camera,
    textures: &Arena<Texture>,
    images: &Arena<u64>,
    samplers: &Arena<Sampler>,
) -> (r: Result<(), RenderError>)
    ensures
        r is Ok <==> spec_setup_valid(Material::Debug(*d), textures@, images@, samplers@),
        r is Err ==> r == Err::<(), RenderError>(RenderError::StaleHandle)
            && final(device).calls() == old(device).calls(),
        r is Ok ==> final(device).calls() == old(device).calls() + spec_setup_calls(
            Material::Debug(*d),
            shader.uniforms(),
            node@.matrix_world,
            *camera,
            textures@,
            images@,
            samplers@,
        ),
        final(device).attrib_count() == old(device).attrib_count(),
{
    let ghost us = shader.uniforms();
    let ghost base = device.calls();
    shader.set_color(device, "color", d.color.r, d.color.g, d.color.b);
    proof {
        assert(device.calls() =~= base + spec_color_call(us, d.color));
    }
    Ok(())
}

/// Law: materials with the same bound-map configuration share a tag, and
/// materials differing in any optional-map slot have distinct tags — so the
/// shader cache can neither split one permutation nor merge two.
pub proof fn lemma_pbr_tag_injective(p1: PbrMaterial, p2: PbrMaterial)
    ensures
        spec_tag(Material::Pbr(p1)) == spec_tag(Material::Pbr(p2)) <==> ((p1.color_map is Some
            <==> p2.color_map is Some) && (p1.debug_cube_map is Some
            <==> p2.debug_cube_map is Some)),
{
    reveal_strlit("pbr");
    reveal_strlit(":color_map");
    reveal_strlit(":debug_cube_map");
    assert("pbr"@.len() == 3);
    assert(":color_map"@.len() == 10);
    assert(":debug_cube_map"@.len() == 15);
    let t1 = spec_tag(Material::Pbr(p1));
    let t2 = spec_tag(Material::Pbr(p2));
    assert(t1.len() == 3 + (if p1.color_map is Some { 10int } else { 0int }) + (
        if p1.debug_cube_map is Some { 15int } else { 0int }
    ));
    assert(t2.len() == 3 + (if p2.color_map is Some { 10int } else { 0int }) + (
        if p2.debug_cube_map is Some { 15int } else { 0int }
    ));
    if (p1.color_map is Some <==> p2.color_map is Some) && (p1.debug_cube_map is Some
        <==> p2.debug_cube_map is Some) {
        assert(t1 =~= t2);
    } else {
        assert(t1.len() != t2.len());
    }
}

/// Law: the three material variants never share a tag.
pub proof fn lemma_variant_tags_distinct(m1: Material, m2: Material)
    requires
        spec_tag(m1) == spec_tag(m2),
    ensures
        m1 is Pbr <==> m2 is Pbr,
        m1 is Skybox <==> m2 is Skybox,
        m1 is Debug <==> m2 is Debug,
{
    reveal_strlit("pbr");
    reveal_strlit(":color_map");
    reveal_strlit(":debug_cube_map");
    reveal_strlit("skybox");
    reveal_strlit("debug");
    assert(spec_tag(m1).len() == spec_tag(m2).len());
    assert("skybox"@.len() == 6);
    assert("debug"@.len() == 5);
    if m1 is Skybox && m2 is Debug {
        assert(false);
    }
    if m1 is Debug && m2 is Skybox {
        assert(false);
    }
    if m1 is Pbr && m2 is Skybox {
        assert(spec_tag(m2)[0] == 's');
        assert(spec_tag(m1)[0] == 'p');
    }
    if m1 is Pbr && m2 is Debug {
        assert(spec_tag(m2)[0] == 'd');
        assert(spec_tag(m1)[0] == 'p');
    }
    if m2 is Pbr && m1 is Skybox {
        assert(spec_tag(m1)[0] == 's');
        assert(spec_tag(m2)[0] == 'p');
    }
    if m2 is Pbr && m1 is Debug {
        assert(spec_tag(m1)[0] == 'd');
        assert(spec_tag(m2)[0] == 'p');
    }
}

} // verus!
