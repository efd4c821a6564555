use gl_render::error::Error;
use gl_render::protocol::{LoadError, ShaderKind};

#[test]
fn suffix_of_each_stage() {
    assert_eq!(ShaderKind::Vertex.suffix(), ".vert");
    assert_eq!(ShaderKind::Fragment.suffix(), ".frag");
}

#[test]
fn stage_is_told_by_the_suffix() {
    assert_eq!(ShaderKind::of_name("shaders/triangle.vert"), Some(ShaderKind::Vertex));
    assert_eq!(ShaderKind::of_name("shaders/triangle.frag"), Some(ShaderKind::Fragment));
    assert_eq!(ShaderKind::of_name(".vert"), Some(ShaderKind::Vertex));
    assert_eq!(ShaderKind::of_name(".frag"), Some(ShaderKind::Fragment));
}

#[test]
fn last_suffix_decides() {
    assert_eq!(ShaderKind::of_name("a.vert.frag"), Some(ShaderKind::Fragment));
    assert_eq!(ShaderKind::of_name("a.frag.vert"), Some(ShaderKind::Vertex));
}

#[test]
fn no_stage_without_a_known_suffix() {
    assert_eq!(ShaderKind::of_name("shaders/triangle.glsl"), None);
    assert_eq!(ShaderKind::of_name("shaders/triangle"), None);
    assert_eq!(ShaderKind::of_name(""), None);
    assert_eq!(ShaderKind::of_name("vert"), None);
    assert_eq!(ShaderKind::of_name("a.vert "), None);
    assert_eq!(ShaderKind::of_name("a.VERT"), None);
    assert_eq!(ShaderKind::of_name("a.frag.glsl"), None);
}

#[test]
fn suffix_is_compared_by_characters() {
    assert_eq!(ShaderKind::of_name("\u{e9}clair.frag"), Some(ShaderKind::Fragment));
    assert_eq!(ShaderKind::of_name("shader.fra\u{261}"), None);
}

#[test]
fn stage_name_round_trips() {
    for kind in [ShaderKind::Vertex, ShaderKind::Fragment] {
        let name = format!("{}{}", "shaders/triangle", kind.suffix());
        assert_eq!(ShaderKind::of_name(&name), Some(kind));
    }
}

#[test]
fn unknown_shader_type_is_described() {
    let error = Error::UnknownShaderType {
        name: "triangle.glsl".to_string(),
        message: "failed to recognize shader extension".to_string(),
    };
    assert_eq!(error.describe(), "Unknown shader type for resource triangle.glsl");
}

#[test]
fn load_error_is_described() {
    let error = Error::ResourceLoadError {
        name: "triangle.vert".to_string(),
        inner: LoadError { reason: "no such file".to_string() },
    };
    assert_eq!(error.describe(), "Failed to load resource triangle.vert");
}

#[test]
fn compile_error_is_described() {
    let error = Error::CompileError {
        name: "triangle.frag".to_string(),
        message: "0:1: syntax error".to_string(),
    };
    assert_eq!(error.describe(), "Failed to compile shader triangle.frag: 0:1: syntax error");
}

#[test]
fn link_error_is_described() {
    let error =
        Error::LinkError { name: "shaders/triangle".to_string(), message: String::new() };
    assert_eq!(error.describe(), "Failed to link program shaders/triangle: ");
}

#[test]
fn code_of_each_stage_is_the_one_of_the_bindings() {
    assert_eq!(ShaderKind::Vertex.code(), 0x8B31);
    assert_eq!(ShaderKind::Fragment.code(), 0x8B30);
    assert_eq!(ShaderKind::Vertex.code(), gl::VERTEX_SHADER);
    assert_eq!(ShaderKind::Fragment.code(), gl::FRAGMENT_SHADER);
}

#[test]
fn label_of_each_stage() {
    assert_eq!(ShaderKind::Vertex.label(), "vertex");
    assert_eq!(ShaderKind::Fragment.label(), "fragment");
    assert_ne!(ShaderKind::Vertex.label(), ShaderKind::Fragment.label());
}
