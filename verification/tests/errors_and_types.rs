//! Error paths of program creation, and the scalar-type tables.

use limelight::shadow_gpu::{LinkAttribute, LinkOutcome, ShaderOutcome};
use limelight::state::blending::{BlendEquation, BlendFunction, BlendingFactorDest, BlendingFactorSrc};
use limelight::types::{DataType, GlSizedDataType, SizedDataType};
use limelight::shadow_gpu::uniforms::UniformValue;
use limelight::{Color, DrawMode, GpuError, Program, Renderer};

fn good_shader() -> ShaderOutcome {
    ShaderOutcome {
        compiled: true,
        info_log: String::new(),
    }
}

fn bad_shader(log: &str) -> ShaderOutcome {
    ShaderOutcome {
        compiled: false,
        info_log: log.to_string(),
    }
}

fn empty_link() -> LinkOutcome {
    LinkOutcome {
        linked: true,
        info_log: String::new(),
        attributes: Vec::new(),
    }
}

#[test]
fn failed_vertex_compile_reports_its_diagnostic() {
    let mut renderer = Renderer::new();
    let mut program = Program::new("vs", "fs", DrawMode::Triangles);
    let err = program
        .bind(
            &mut renderer.gpu,
            &bad_shader("syntax error at line 3"),
            &good_shader(),
            &empty_link(),
            &Vec::new(),
        )
        .unwrap_err();
    match err {
        GpuError::ShaderCompileError(m) => assert_eq!(m, "syntax error at line 3"),
        other => panic!("unexpected error {:?}", other),
    }
    assert!(!program.is_bound());
}

#[test]
fn failed_link_reports_its_diagnostic() {
    let mut renderer = Renderer::new();
    let mut program = Program::new("vs", "fs", DrawMode::Triangles);
    let link = LinkOutcome {
        linked: false,
        info_log: "unresolved varying".to_string(),
        attributes: Vec::new(),
    };
    let err = program
        .bind(
            &mut renderer.gpu,
            &good_shader(),
            &good_shader(),
            &link,
            &Vec::new(),
        )
        .unwrap_err();
    assert!(matches!(err, GpuError::ShaderLinkError(m) if m == "unresolved varying"));
}

#[test]
fn attribute_arrays_fail_fast() {
    let mut renderer = Renderer::new();
    let mut program = Program::new("vs", "fs", DrawMode::Triangles);
    let link = LinkOutcome {
        linked: true,
        info_log: String::new(),
        attributes: vec![LinkAttribute {
            name: "weights".to_string(),
            location: 0,
            gl_type: 0x8B50,
            size: 4, // an array of four slots
        }],
    };
    let err = program
        .bind(
            &mut renderer.gpu,
            &good_shader(),
            &good_shader(),
            &link,
            &Vec::new(),
        )
        .unwrap_err();
    assert!(matches!(err, GpuError::ShaderLinkError(_)));
    assert!(!program.is_bound());
}

#[test]
fn unknown_uniform_name_fails_with_that_name() {
    let mut renderer = Renderer::new();
    let program = Program::new("vs", "fs", DrawMode::Triangles);
    let mut program = program
        .with_uniform("u_missing", UniformValue::Int(1))
        .unwrap();
    let err = program
        .bind(
            &mut renderer.gpu,
            &good_shader(),
            &good_shader(),
            &empty_link(),
            &Vec::new(), // the device reports no location for the name
        )
        .unwrap_err();
    assert!(matches!(err, GpuError::UnknownUniformError(m) if m == "u_missing"));
}

#[test]
fn duplicate_uniform_attachment_is_refused() {
    let program = Program::new("vs", "fs", DrawMode::Triangles);
    let program = program
        .with_uniform("u_color", UniformValue::Float(0.25f32.to_bits()))
        .unwrap();
    let err = program
        .with_uniform("u_color", UniformValue::Float(0.5f32.to_bits()))
        .unwrap_err();
    assert!(matches!(err, GpuError::DuplicateUniformError(m) if m == "u_color"));
}

#[test]
fn scalar_type_sizes_and_codes() {
    assert_eq!(DataType::Byte.size(), 1);
    assert_eq!(DataType::UnsignedShort.size(), 2);
    assert_eq!(DataType::Float.size(), 4);
    assert_eq!(DataType::Float.gl_code(), 0x1406);
    assert_eq!(DataType::from_gl_code(0x1403), Some(DataType::UnsignedShort));
    assert_eq!(DataType::from_gl_code(0xFFFF), None);

    let vec3 = SizedDataType::new(DataType::Float, 3);
    assert_eq!(vec3.byte_size(), 12);
    assert_eq!(vec3.size(), 3);
    assert_eq!(vec3.data_type(), DataType::Float);

    let rgba = SizedDataType::new(DataType::UnsignedByte, 4);
    assert_eq!(rgba.byte_size(), 4);
}

#[test]
fn reflected_type_table_round_trips() {
    assert_eq!(
        GlSizedDataType::from_gl_code(0x8B51),
        Some(GlSizedDataType::FloatVec3)
    );
    let vec3 = GlSizedDataType::FloatVec3.as_sized_type();
    assert_eq!(vec3.data_type(), DataType::Float);
    assert_eq!(vec3.size(), 3);
    assert!(!GlSizedDataType::Sampler2D.supported());
    assert!(GlSizedDataType::Int.supported());
}

#[test]
fn device_error_codes_are_judged_by_value() {
    let renderer = Renderer::new();
    assert!(renderer.gpu.get_error(0).is_ok());
    let err = renderer.gpu.get_error(0x0502).unwrap_err();
    assert!(matches!(err, GpuError::DeviceError(0x0502)));
}

#[test]
fn packed_color_layout() {
    let c = Color::from_rgba(0x11, 0x22, 0x33, 0xFF);
    assert_eq!(c.0, 0xFF332211);
    assert_eq!(Color::from_rgba(1, 0, 0, 0).0, 1);
}

#[test]
fn blending_defaults_match_the_device_defaults() {
    let f = BlendFunction::default();
    assert_eq!(f.source_factor, BlendingFactorSrc::One);
    assert_eq!(f.dst_factor, BlendingFactorDest::Zero);
    assert_eq!(f.equation, BlendEquation::Add);
    assert_eq!(BlendEquation::Add.gl_code(), 0x8006);
    assert_eq!(BlendingFactorSrc::SrcAlpha.gl_code(), 0x0302);
    assert_eq!(BlendingFactorDest::OneMinusSrcAlpha.gl_code(), 0x0303);
}
