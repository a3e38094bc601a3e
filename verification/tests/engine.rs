//! Scenario tests for the state shadow: allocation, growth, layout
//! caching, uniform diffing and idempotent rebinds.

use limelight::attribute::AttributeBinding;
use limelight::buffer::types::BufferUsageHint;
use limelight::buffer::{BufferLike, DummyBuffer};
use limelight::shadow_gpu::buffer::{BindResult, BufferHandle};
use limelight::shadow_gpu::commands::GpuCommand;
use limelight::shadow_gpu::uniforms::UniformValue;
use limelight::shadow_gpu::{LinkAttribute, LinkOutcome, ShaderOutcome};
use limelight::types::DataType;
use limelight::{DrawMode, Program, Renderer};

fn is_mutating(c: &GpuCommand) -> bool {
    !matches!(
        c,
        GpuCommand::BindBuffer { .. }
            | GpuCommand::BindVertexArray { .. }
            | GpuCommand::DrawArrays { .. }
            | GpuCommand::DrawArraysInstanced { .. }
    )
}

fn allocations(cmds: &[GpuCommand]) -> usize {
    cmds.iter()
        .filter(|c| matches!(c, GpuCommand::BufferData { .. }))
        .count()
}

fn vao_creations(cmds: &[GpuCommand]) -> usize {
    cmds.iter()
        .filter(|c| matches!(c, GpuCommand::CreateVertexArray { .. }))
        .count()
}

fn uniform_uploads(cmds: &[GpuCommand]) -> usize {
    cmds.iter()
        .filter(|c| matches!(c, GpuCommand::SetUniform { .. }))
        .count()
}

fn pointer_calls(cmds: &[GpuCommand]) -> usize {
    cmds.iter()
        .filter(|c| {
            matches!(
                c,
                GpuCommand::VertexAttribPointer { .. } | GpuCommand::VertexAttribIPointer { .. }
            )
        })
        .count()
}

fn vec2_bytes(points: &[(f32, f32)]) -> Vec<u8> {
    let mut out = Vec::new();
    for (x, y) in points {
        out.extend_from_slice(&x.to_le_bytes());
        out.extend_from_slice(&y.to_le_bytes());
    }
    out
}

/// A program reflecting one `position: vec2` attribute, bound against
/// synthetic device answers.
fn bound_position_program(renderer: &mut Renderer) -> Program {
    let mut program = Program::new("vertex source", "fragment source", DrawMode::Triangles);
    let vertex = ShaderOutcome {
        compiled: true,
        info_log: String::new(),
    };
    let fragment = ShaderOutcome {
        compiled: true,
        info_log: String::new(),
    };
    let link = LinkOutcome {
        linked: true,
        info_log: String::new(),
        attributes: vec![LinkAttribute {
            name: "position".to_string(),
            location: 0,
            gl_type: 0x8B50, // vec2 of floats
            size: 1,
        }],
    };
    let locations: Vec<(String, Option<u32>)> = Vec::new();
    program
        .bind(&mut renderer.gpu, &vertex, &fragment, &link, &locations)
        .expect("binding against clean answers succeeds");
    assert!(program.is_bound());
    program
}

fn position_descriptors() -> Vec<AttributeBinding> {
    vec![AttributeBinding::new("position", DataType::Float, 2)]
}

#[test]
fn first_draw_allocates_then_redraw_is_free() {
    let mut renderer = Renderer::new();
    let program = bound_position_program(&mut renderer);
    let buffer = BufferHandle::new(
        &mut renderer.gpu,
        BufferUsageHint::StaticDraw,
        position_descriptors(),
    );
    buffer.set_data(
        &mut renderer.gpu,
        vec2_bytes(&[(-0.5, -0.5), (0.5, -0.5), (0.5, 0.5)]),
        3,
    );

    let first = renderer.render(&program, &buffer);
    assert_eq!(allocations(&first), 1);
    assert_eq!(vao_creations(&first), 1);
    assert_eq!(
        first.last(),
        Some(&GpuCommand::DrawArrays {
            mode: DrawMode::Triangles,
            first: 0,
            count: 3
        })
    );

    let second = renderer.render(&program, &buffer);
    assert_eq!(allocations(&second), 0);
    assert_eq!(vao_creations(&second), 0);
    assert!(second[..second.len() - 1].iter().all(|c| !is_mutating(c)));
    assert_eq!(
        second.last(),
        Some(&GpuCommand::DrawArrays {
            mode: DrawMode::Triangles,
            first: 0,
            count: 3
        })
    );
}

#[test]
fn standalone_bind_allocates_then_rebinds() {
    let mut renderer = Renderer::new();
    let buffer = BufferHandle::new(
        &mut renderer.gpu,
        BufferUsageHint::StaticDraw,
        position_descriptors(),
    );
    buffer.set_data(&mut renderer.gpu, vec2_bytes(&[(0.0, 0.0), (1.0, 1.0)]), 2);
    assert_eq!(buffer.len(&renderer.gpu), 2);

    let (first, cmds) = buffer.bind(&mut renderer.gpu);
    assert_eq!(first, BindResult::BoundNew);
    assert_eq!(allocations(&cmds), 1);

    let (second, cmds) = buffer.bind(&mut renderer.gpu);
    assert_eq!(second, BindResult::BoundExisting);
    assert_eq!(allocations(&cmds), 0);
    assert!(cmds.iter().all(|c| !is_mutating(c)));
}

#[test]
fn growth_reallocates_exactly_once() {
    let mut renderer = Renderer::new();
    let program = bound_position_program(&mut renderer);
    let buffer = BufferHandle::new(
        &mut renderer.gpu,
        BufferUsageHint::DynamicDraw,
        position_descriptors(),
    );

    let three: Vec<(f32, f32)> = (0..3).map(|i| (i as f32, 0.0)).collect();
    let ten: Vec<(f32, f32)> = (0..10).map(|i| (i as f32, 1.0)).collect();

    buffer.set_data(&mut renderer.gpu, vec2_bytes(&three), 3);
    let first = renderer.render(&program, &buffer);
    assert_eq!(allocations(&first), 1);

    // same size again: a sub-range update, no reallocation
    buffer.set_data(&mut renderer.gpu, vec2_bytes(&three), 3);
    let same = renderer.render(&program, &buffer);
    assert_eq!(allocations(&same), 0);

    // growth: exactly one reallocation, same layout object
    buffer.set_data(&mut renderer.gpu, vec2_bytes(&ten), 10);
    let grown = renderer.render(&program, &buffer);
    assert_eq!(allocations(&grown), 1);
    assert_eq!(vao_creations(&grown), 0);
    assert!(pointer_calls(&grown) > 0);
    assert_eq!(
        grown.last(),
        Some(&GpuCommand::DrawArrays {
            mode: DrawMode::Triangles,
            first: 0,
            count: 10
        })
    );

    // shrink back under the grown capacity: no reallocation again
    buffer.set_data(&mut renderer.gpu, vec2_bytes(&three), 3);
    let shrunk = renderer.render(&program, &buffer);
    assert_eq!(allocations(&shrunk), 0);
}

#[test]
fn distinct_buffer_instance_gets_a_distinct_layout() {
    let mut renderer = Renderer::new();
    let program = bound_position_program(&mut renderer);
    let data = vec2_bytes(&[(0.0, 0.0), (1.0, 0.0), (0.0, 1.0)]);

    let first_buffer = BufferHandle::new(
        &mut renderer.gpu,
        BufferUsageHint::StaticDraw,
        position_descriptors(),
    );
    first_buffer.set_data(&mut renderer.gpu, data.clone(), 3);
    let first = renderer.render(&program, &first_buffer);
    assert_eq!(vao_creations(&first), 1);

    // identical bytes in a different buffer object: a new signature
    let second_buffer = BufferHandle::new(
        &mut renderer.gpu,
        BufferUsageHint::StaticDraw,
        position_descriptors(),
    );
    second_buffer.set_data(&mut renderer.gpu, data, 3);
    let second = renderer.render(&program, &second_buffer);
    assert_eq!(vao_creations(&second), 1);

    // while the first buffer keeps its cached layout
    let third = renderer.render(&program, &first_buffer);
    assert_eq!(vao_creations(&third), 0);
}

#[test]
fn attribute_matching_drops_unreflected_fields() {
    let descriptors = vec![
        AttributeBinding::new("position", DataType::Float, 2),
        AttributeBinding::new("color", DataType::UnsignedByte, 4),
    ];
    let mut renderer = Renderer::new();
    let program = bound_position_program(&mut renderer);
    let attributes = program.bound().attributes();
    let bindings = limelight::renderer::plan_buffer_bindings(&descriptors, attributes, 0);
    assert_eq!(bindings.len(), 1);
    assert_eq!(bindings[0].location, 0);
    assert_eq!(bindings[0].kind.data_type(), DataType::Float);
    assert_eq!(bindings[0].kind.size(), 2);
    assert_eq!(bindings[0].stride, 12);
    assert_eq!(bindings[0].offset, 0);
    assert_eq!(bindings[0].divisor, 0);
}

fn bound_uniform_program(renderer: &mut Renderer) -> Program {
    let program = Program::new("vertex source", "fragment source", DrawMode::Triangles);
    let mut program = program
        .with_uniform("u_scale", UniformValue::Float(1.0f32.to_bits()))
        .expect("fresh name");
    let vertex = ShaderOutcome {
        compiled: true,
        info_log: String::new(),
    };
    let fragment = ShaderOutcome {
        compiled: true,
        info_log: String::new(),
    };
    let link = LinkOutcome {
        linked: true,
        info_log: String::new(),
        attributes: vec![LinkAttribute {
            name: "position".to_string(),
            location: 0,
            gl_type: 0x8B50,
            size: 1,
        }],
    };
    let locations = vec![("u_scale".to_string(), Some(7u32))];
    program
        .bind(&mut renderer.gpu, &vertex, &fragment, &link, &locations)
        .expect("binding succeeds");
    program
}

#[test]
fn uniform_upload_happens_only_on_change() {
    let mut renderer = Renderer::new();
    let mut program = bound_uniform_program(&mut renderer);
    let buffer = BufferHandle::new(
        &mut renderer.gpu,
        BufferUsageHint::StaticDraw,
        position_descriptors(),
    );
    buffer.set_data(&mut renderer.gpu, vec2_bytes(&[(0.0, 0.0)]), 1);

    let first = renderer.render(&program, &buffer);
    assert_eq!(uniform_uploads(&first), 1);

    // writing the same value back does not re-upload
    program
        .set_uniform("u_scale", UniformValue::Float(1.0f32.to_bits()))
        .expect("known name");
    let same = renderer.render(&program, &buffer);
    assert_eq!(uniform_uploads(&same), 0);
    assert!(same[..same.len() - 1].iter().all(|c| !is_mutating(c)));

    // a new value costs exactly one upload
    program
        .set_uniform("u_scale", UniformValue::Float(2.0f32.to_bits()))
        .expect("known name");
    let changed = renderer.render(&program, &buffer);
    assert_eq!(uniform_uploads(&changed), 1);
}

#[test]
fn dummy_buffer_draws_without_attributes() {
    let mut renderer = Renderer::new();
    let program = bound_position_program(&mut renderer);
    let dummy = DummyBuffer::new(6);
    assert_eq!(dummy.len(&renderer.gpu), 6);
    let cmds = renderer.render(&program, &dummy);
    assert_eq!(allocations(&cmds), 0);
    assert_eq!(
        cmds.last(),
        Some(&GpuCommand::DrawArrays {
            mode: DrawMode::Triangles,
            first: 0,
            count: 6
        })
    );
}

#[test]
fn instanced_draw_carries_both_buffers() {
    let mut renderer = Renderer::new();
    let program = bound_position_program(&mut renderer);
    let vertices = BufferHandle::new(
        &mut renderer.gpu,
        BufferUsageHint::StaticDraw,
        position_descriptors(),
    );
    vertices.set_data(
        &mut renderer.gpu,
        vec2_bytes(&[(0.0, 0.0), (1.0, 0.0), (0.0, 1.0), (1.0, 1.0)]),
        4,
    );
    let instances = BufferHandle::new(
        &mut renderer.gpu,
        BufferUsageHint::DynamicDraw,
        vec![AttributeBinding::new("offset", DataType::Float, 2)],
    );
    instances.set_data(&mut renderer.gpu, vec2_bytes(&[(0.5, 0.5), (2.0, 2.0)]), 2);

    let cmds = renderer.render_instanced(&program, &vertices, &instances);
    assert_eq!(
        cmds.last(),
        Some(&GpuCommand::DrawArraysInstanced {
            mode: DrawMode::Triangles,
            first: 0,
            count: 4,
            instance_count: 2
        })
    );
}
