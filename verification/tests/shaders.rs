//! Shader cache idempotence and the shader-source text utilities.

use glscene::material::{Color3, Material, PbrMaterial, ShaderKind};
use glscene::renderer::Renderer;
use glscene::gl::AttributeName;
use glscene::shader::{add_header, add_row_numbers, annotate_compile_error, Define, Shader};

fn dummy_shader(program: u64) -> Shader {
    Shader::new(
        program,
        vec![(String::from("position"), 0u32)],
        vec![(String::from("color"), 0u32)],
    )
}

#[test]
fn identical_configurations_share_one_entry() {
    let mut renderer = Renderer::new();
    let m1 = Material::Pbr(PbrMaterial::new());
    let m2 = Material::Pbr(PbrMaterial::new().set_color(Color3::new(9, 9, 9)));

    // The color does not enter the tag: both need the same permutation.
    assert_eq!(m1.get_tag(), m2.get_tag());

    assert!(renderer.shader_request(&m1).is_some());
    assert!(renderer.checkup_shader(&m1, dummy_shader(1)));
    assert!(renderer.shader_request(&m1).is_none());
    assert!(renderer.shader_request(&m2).is_none());
    // A second installation for the same tag changes nothing.
    assert!(!renderer.checkup_shader(&m2, dummy_shader(2)));
    assert_eq!(renderer.shaders.len(), 1);
}

#[test]
fn differing_configurations_get_two_entries() {
    let mut renderer = Renderer::new();
    let dummy_map = renderer.insert_image(1);
    let plain = Material::Pbr(PbrMaterial::new());
    let mapped = Material::Pbr(PbrMaterial::new().set_color_map(Some(dummy_map)));

    assert_ne!(plain.get_tag(), mapped.get_tag());
    assert_eq!(plain.get_tag(), String::from("pbr"));
    assert_eq!(mapped.get_tag(), String::from("pbr:color_map"));

    assert!(renderer.checkup_shader(&plain, dummy_shader(1)));
    assert!(renderer.checkup_shader(&mapped, dummy_shader(2)));
    assert_eq!(renderer.shaders.len(), 2);
}

#[test]
fn variant_tags_are_distinct() {
    let mut renderer = Renderer::new();
    let cube = renderer.insert_image(1);
    let pbr = Material::Pbr(PbrMaterial::new());
    let skybox = Material::Skybox(glscene::material::SkyboxMaterial::new(cube));
    let debug = Material::Debug(glscene::material::DebugMaterial::new(Color3::new(1, 2, 3)));
    assert_eq!(skybox.get_tag(), String::from("skybox"));
    assert_eq!(debug.get_tag(), String::from("debug"));
    assert_ne!(pbr.get_tag(), skybox.get_tag());
    assert_ne!(pbr.get_tag(), debug.get_tag());
    assert_ne!(skybox.get_tag(), debug.get_tag());
}

#[test]
fn shader_requests_carry_defines() {
    let mut renderer = Renderer::new();
    let map = renderer.insert_image(1);
    let m = Material::Pbr(
        PbrMaterial::new().set_color_map(Some(map)).set_debug_cube_map(Some(map)),
    );
    let req = renderer.shader_request(&m).expect("not cached yet");
    assert!(matches!(req.kind, ShaderKind::Pbr));
    assert_eq!(req.defines.len(), 2);
    assert_eq!(req.defines[0].as_string(), String::from("#define USE_COLOR_MAP"));
    assert_eq!(req.defines[1].as_string(), String::from("#define USE_DEBUG_CUBE_MAP"));
}

#[test]
fn define_renders_values() {
    assert_eq!(Define::def("A").as_string(), String::from("#define A"));
    assert_eq!(Define::new("B", Some("2")).as_string(), String::from("#define B 2"));
    assert_eq!(Define::integer("LEVEL", 42).as_string(), String::from("#define LEVEL 42"));
    assert_eq!(Define::integer("NEG", -7).as_string(), String::from("#define NEG -7"));
    assert_eq!(Define::integer("ZERO", 0).as_string(), String::from("#define ZERO 0"));
    assert_eq!(
        Define::integer("MIN", i32::MIN).as_string(),
        String::from("#define MIN -2147483648"),
    );
}

#[test]
fn header_prepends_precision_and_defines() {
    let src = "void main() {}";
    assert_eq!(add_header(src, &[], false), String::from("void main() {}"));
    assert_eq!(
        add_header(src, &[], true),
        String::from("precision highp float;\n\nvoid main() {}"),
    );
    let defines = vec![Define::def("X"), Define::integer("Y", 3)];
    assert_eq!(
        add_header(src, &defines, false),
        String::from("#define X\n#define Y 3\n\nvoid main() {}"),
    );
}

#[test]
fn row_numbers_annotate_each_line() {
    assert_eq!(add_row_numbers("a\nbb\nccc"), String::from("1  a\n2  bb\n3  ccc\n"));
    assert_eq!(add_row_numbers(""), String::from("1  \n"));
    assert_eq!(add_row_numbers("x\n"), String::from("1  x\n2  \n"));
}

#[test]
fn attribute_names_parse() {
    assert!(AttributeName::from_string("position").matches(&AttributeName::Position));
    assert!(AttributeName::from_string("normal").matches(&AttributeName::Normal));
    assert!(AttributeName::from_string("uv").matches(&AttributeName::Uv));
    assert!(
        !AttributeName::Custom(String::from("weights")).matches(&AttributeName::Position)
    );
}

#[test]
fn compile_errors_carry_numbered_source() {
    assert_eq!(
        annotate_compile_error("bad token", "void main() {\n}"),
        String::from("\nbad token\n\n1  void main() {\n2  }\n\n"),
    );
}
