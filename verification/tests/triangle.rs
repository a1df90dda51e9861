use bevy_3ds::command::{BufferTable, GpuCommand, Primitive};
use bevy_3ds::error::{Citro3dError, RenderError};
use bevy_3ds::frame::GpuDevice;
use bevy_3ds::gpu_buffer::{LinearBuffer, LinearPool};
use bevy_3ds::pass::{PassStage, RenderPass, Target, VboBuffer};
use bevy_3ds::pipeline::{AttrInfo, Format, Register, VertexAttribute, VertexAttrs};
use bevy_3ds::shader::{Entrypoint, PicaShader};

fn position_only() -> VertexAttrs {
    VertexAttrs::new(&[VertexAttribute {
        register: Register::new(0).unwrap(),
        format: Format::Float,
        count: 3,
    }])
    .unwrap()
}

fn other_layout() -> VertexAttrs {
    VertexAttrs::new(&[VertexAttribute {
        register: Register::new(0).unwrap(),
        format: Format::Float,
        count: 2,
    }])
    .unwrap()
}

const TRIANGLE: [[u32; 3]; 3] = [
    [0, 0, 0],
    [0x3f80_0000, 0, 0],
    [0, 0x3f80_0000, 0],
];

#[test]
fn single_triangle_is_recorded_in_order() {
    let mut pool = LinearPool::new(1 << 20);
    let vertices = LinearBuffer::new(&mut pool, &TRIANGLE).unwrap();
    let buffer = vertices.handle();
    let shader = PicaShader::new(7, vec![Ok(()); 1], vec![]);
    let layout = position_only();
    let screen = Target { index: 1, width: 240, height: 400 };

    let mut gpu = GpuDevice::new();
    let frame = gpu.start_new_frame().unwrap();
    let mut pass = RenderPass::new(&gpu, frame).unwrap();
    assert_eq!(pass.stage(), PassStage::Idle);
    pass.clear_render_target(&screen, 0x0000_00ff, 0);
    pass.select_render_target(&screen);
    assert_eq!(pass.stage(), PassStage::TargetSelected);
    pass.set_vertex_shader(&shader, 0).unwrap();
    assert_eq!(pass.stage(), PassStage::ShaderBound);
    pass.set_attr_info(&layout);
    assert_eq!(pass.stage(), PassStage::ReadyToDraw);
    let mut registry = VboBuffer::new(&mut pass);
    let slice = registry.add(&mut pass, &vertices, &layout).unwrap();
    assert_eq!(slice.len(), 3);
    pass.draw(Primitive::Triangles, slice, &registry, &pool).unwrap();
    let record = gpu.end_frame(pass.finish()).unwrap();

    let info = AttrInfo { permutation: 0, formats: 11, count: 1 };
    let table = BufferTable { registry: 0, generation: 0 };
    assert_eq!(
        record,
        vec![
            GpuCommand::FrameBegin,
            GpuCommand::ClearTarget { target: 1, colour: 0x0000_00ff, depth: 0 },
            GpuCommand::SelectTarget { target: 1 },
            GpuCommand::BindProgram { entry: Entrypoint { library: 7, index: 0 } },
            GpuCommand::SetAttrInfo { layout: info },
            GpuCommand::RegisterBuffer {
                table,
                place: 0,
                buffer,
                stride: 12,
                count: 3,
                layout: info,
            },
            GpuCommand::DrawArrays { primitive: Primitive::Triangles, table, first: 0, count: 3 },
            GpuCommand::FrameEnd,
        ]
    );

    let named: Vec<&GpuCommand> = record
        .iter()
        .filter(|c| {
            matches!(
                c,
                GpuCommand::FrameBegin
                    | GpuCommand::ClearTarget { .. }
                    | GpuCommand::BindProgram { .. }
                    | GpuCommand::RegisterBuffer { .. }
                    | GpuCommand::DrawArrays { .. }
                    | GpuCommand::FrameEnd
            )
        })
        .collect();
    assert_eq!(named.len(), 6);
    assert!(matches!(named[0], GpuCommand::FrameBegin));
    assert!(matches!(named[1], GpuCommand::ClearTarget { .. }));
    assert!(matches!(named[2], GpuCommand::BindProgram { entry } if entry.index == 0));
    assert!(matches!(named[3], GpuCommand::RegisterBuffer { count: 3, .. }));
    assert!(matches!(
        named[4],
        GpuCommand::DrawArrays { primitive: Primitive::Triangles, count: 3, .. }
    ));
    assert!(matches!(named[5], GpuCommand::FrameEnd));
}

#[test]
fn draw_is_refused_until_the_pass_is_ready() {
    let mut pool = LinearPool::new(1 << 20);
    let vertices = LinearBuffer::new(&mut pool, &TRIANGLE).unwrap();
    let shader = PicaShader::new(7, vec![Ok(()); 1], vec![]);
    let layout = position_only();
    let screen = Target { index: 0, width: 240, height: 320 };

    let mut gpu = GpuDevice::new();
    let frame = gpu.start_new_frame().unwrap();
    let mut pass = RenderPass::new(&gpu, frame).unwrap();

    let mut registry = VboBuffer::new(&mut pass);
    let slice = registry.add(&mut pass, &vertices, &layout).unwrap();
    assert_eq!(
        pass.draw(Primitive::Triangles, slice, &registry, &pool),
        Err(RenderError::NoRenderTarget)
    );
    pass.select_render_target(&screen);
    let slice = registry.add(&mut pass, &vertices, &layout).unwrap();
    assert_eq!(
        pass.draw(Primitive::Triangles, slice, &registry, &pool),
        Err(RenderError::NoShaderBound)
    );
    pass.set_vertex_shader(&shader, 0).unwrap();
    let slice = registry.add(&mut pass, &vertices, &layout).unwrap();
    assert_eq!(
        pass.draw(Primitive::Triangles, slice, &registry, &pool),
        Err(RenderError::NoAttributeLayout)
    );
    let record = gpu.end_frame(pass.finish()).unwrap();
    let buffer = vertices.handle();
    let info = AttrInfo { permutation: 0, formats: 11, count: 1 };
    let table = BufferTable { registry: 0, generation: 0 };
    let entered = |place: usize| GpuCommand::RegisterBuffer {
        table,
        place,
        buffer,
        stride: 12,
        count: 3,
        layout: info,
    };
    assert_eq!(
        record,
        vec![
            GpuCommand::FrameBegin,
            entered(0),
            GpuCommand::SelectTarget { target: 0 },
            entered(1),
            GpuCommand::BindProgram { entry: Entrypoint { library: 7, index: 0 } },
            entered(2),
            GpuCommand::FrameEnd,
        ]
    );
}

#[test]
fn missing_entry_point_is_reported_and_changes_nothing() {
    let shader = PicaShader::new(3, vec![Ok(()); 2], vec![]);
    let mut gpu = GpuDevice::new();
    let frame = gpu.start_new_frame().unwrap();
    let mut pass = RenderPass::new(&gpu, frame).unwrap();
    assert_eq!(
        pass.set_vertex_shader(&shader, 2),
        Err(RenderError::InvalidEntryPoint { index: 2 })
    );
    assert_eq!(pass.set_vertex_shader(&shader, 1), Ok(()));
    let record = gpu.end_frame(pass.finish()).unwrap();
    assert_eq!(
        record,
        vec![
            GpuCommand::FrameBegin,
            GpuCommand::BindProgram { entry: Entrypoint { library: 3, index: 1 } },
            GpuCommand::FrameEnd,
        ]
    );
}

fn ready_pass(gpu: &mut GpuDevice, layout: &VertexAttrs) -> RenderPass {
    let shader = PicaShader::new(7, vec![Ok(()); 1], vec![]);
    let frame = gpu.start_new_frame().unwrap();
    let mut pass = RenderPass::new(gpu, frame).unwrap();
    pass.select_render_target(&Target { index: 0, width: 240, height: 320 });
    pass.set_vertex_shader(&shader, 0).unwrap();
    pass.set_attr_info(layout);
    pass
}

#[test]
fn handle_to_a_released_buffer_is_stale() {
    let mut pool = LinearPool::new(1 << 20);
    let vertices = LinearBuffer::new(&mut pool, &TRIANGLE).unwrap();
    let id = vertices.handle();
    let layout = position_only();
    let mut gpu = GpuDevice::new();
    let mut pass = ready_pass(&mut gpu, &layout);
    let mut registry = VboBuffer::new(&mut pass);
    let slice = registry.add(&mut pass, &vertices, &layout).unwrap();
    assert!(pool.is_live(id));
    pool.release(vertices);
    assert!(!pool.is_live(id));
    assert_eq!(pool.used(), 0);
    assert_eq!(
        pass.draw(Primitive::Triangles, slice, &registry, &pool),
        Err(RenderError::StaleHandle)
    );
    let record = gpu.end_frame(pass.finish()).unwrap();
    assert!(!record.iter().any(|c| matches!(c, GpuCommand::DrawArrays { .. })));
    assert_eq!(
        record.iter().filter(|c| matches!(c, GpuCommand::RegisterBuffer { .. })).count(),
        1
    );
}

#[test]
fn handle_is_stale_after_its_registry_was_reset() {
    let mut pool = LinearPool::new(1 << 20);
    let vertices = LinearBuffer::new(&mut pool, &TRIANGLE).unwrap();
    let layout = position_only();
    let mut gpu = GpuDevice::new();
    let mut pass = ready_pass(&mut gpu, &layout);
    let mut registry = VboBuffer::new(&mut pass);
    let slice = registry.add(&mut pass, &vertices, &layout).unwrap();
    registry.reset();
    assert_eq!(registry.len(), 0);
    let again = registry.add(&mut pass, &vertices, &layout).unwrap();
    assert_eq!(
        pass.draw(Primitive::Triangles, slice, &registry, &pool),
        Err(RenderError::StaleHandle)
    );
    assert_eq!(pass.draw(Primitive::Triangles, again, &registry, &pool), Ok(()));
}

#[test]
fn handle_is_stale_in_the_next_frame() {
    let mut pool = LinearPool::new(1 << 20);
    let vertices = LinearBuffer::new(&mut pool, &TRIANGLE).unwrap();
    let layout = position_only();
    let mut gpu = GpuDevice::new();
    let mut pass = ready_pass(&mut gpu, &layout);
    let mut registry = VboBuffer::new(&mut pass);
    let slice = registry.add(&mut pass, &vertices, &layout).unwrap();
    gpu.end_frame(pass.finish()).unwrap();
    let mut next = ready_pass(&mut gpu, &layout);
    assert_eq!(
        next.draw(Primitive::Triangles, slice, &registry, &pool),
        Err(RenderError::StaleHandle)
    );
}

#[test]
fn handle_of_another_registry_is_stale() {
    let mut pool = LinearPool::new(1 << 20);
    let vertices = LinearBuffer::new(&mut pool, &TRIANGLE).unwrap();
    let layout = position_only();
    let mut gpu = GpuDevice::new();
    let mut pass = ready_pass(&mut gpu, &layout);
    let mut registry = VboBuffer::new(&mut pass);
    let empty = VboBuffer::new(&mut pass);
    let slice = registry.add(&mut pass, &vertices, &layout).unwrap();
    assert_eq!(
        pass.draw(Primitive::Triangles, slice, &empty, &pool),
        Err(RenderError::StaleHandle)
    );
}

#[test]
fn other_layout_than_registered_is_a_mismatch() {
    let mut pool = LinearPool::new(1 << 20);
    let vertices = LinearBuffer::new(&mut pool, &TRIANGLE).unwrap();
    let registered = position_only();
    let mut gpu = GpuDevice::new();
    let mut pass = ready_pass(&mut gpu, &registered);
    let mut registry = VboBuffer::new(&mut pass);
    let slice = registry.add(&mut pass, &vertices, &registered).unwrap();
    pass.set_attr_info(&other_layout());
    assert_eq!(
        pass.draw(Primitive::Triangles, slice, &registry, &pool),
        Err(RenderError::AttributeMismatch)
    );
    let slice = registry.add(&mut pass, &vertices, &registered).unwrap();
    pass.set_attr_info(&registered);
    assert_eq!(pass.draw(Primitive::Triangles, slice, &registry, &pool), Ok(()));
}

#[test]
fn registry_holds_twelve_buffers() {
    let mut pool = LinearPool::new(1 << 20);
    let vertices = LinearBuffer::new(&mut pool, &TRIANGLE).unwrap();
    let layout = position_only();
    let mut gpu = GpuDevice::new();
    let mut pass = ready_pass(&mut gpu, &layout);
    let mut registry = VboBuffer::new(&mut pass);
    for _ in 0..12 {
        assert!(registry.add(&mut pass, &vertices, &layout).is_ok());
    }
    assert!(matches!(
        registry.add(&mut pass, &vertices, &layout),
        Err(RenderError::Citro3d(Citro3dError::TooManyBuffers))
    ));
    assert_eq!(registry.len(), 12);
}

#[test]
fn indexed_draw_names_the_index_buffer() {
    let mut pool = LinearPool::new(1 << 20);
    let vertices = LinearBuffer::new(&mut pool, &TRIANGLE).unwrap();
    let indices = LinearBuffer::new(&mut pool, &[0u16, 2, 1]).unwrap();
    let layout = position_only();
    let mut gpu = GpuDevice::new();
    let mut pass = ready_pass(&mut gpu, &layout);
    let mut registry = VboBuffer::new(&mut pass);
    let slice = registry.add(&mut pass, &vertices, &layout).unwrap();
    assert_eq!(
        pass.draw_indexed(Primitive::Triangles, &slice, &registry, &indices, &pool),
        Ok(())
    );
    let index_id = indices.handle();
    pool.release(indices);
    let gone = LinearBuffer::new(&mut pool, &[0u16, 1, 2]).unwrap();
    assert!(gone.handle() != index_id);
    let record = gpu.end_frame(pass.finish()).unwrap();
    assert_eq!(
        record[record.len() - 2],
        GpuCommand::DrawElements {
            primitive: Primitive::Triangles,
            table: BufferTable { registry: 0, generation: 0 },
            indices: index_id,
            count: 3,
        }
    );
}

#[test]
fn bytes_are_registered_by_stride() {
    let mut pool = LinearPool::new(1 << 20);
    let bytes = LinearBuffer::with_size(&mut pool, 36, 0u8).unwrap();
    let layout = position_only();
    let mut gpu = GpuDevice::new();
    let mut pass = ready_pass(&mut gpu, &layout);
    let mut registry = VboBuffer::new(&mut pass);
    let slice = registry.add_bytes(&mut pass, &bytes, &layout, 12).unwrap();
    assert_eq!(slice.len(), 3);
    assert!(matches!(
        registry.add_bytes(&mut pass, &bytes, &layout, 0),
        Err(RenderError::Citro3d(Citro3dError::InvalidSize))
    ));
}

#[test]
fn adding_a_buffer_records_its_registration() {
    let mut pool = LinearPool::new(1 << 20);
    let first = LinearBuffer::new(&mut pool, &TRIANGLE).unwrap();
    let second = LinearBuffer::new(&mut pool, &TRIANGLE[..2]).unwrap();
    let layout = position_only();
    let mut gpu = GpuDevice::new();
    let frame = gpu.start_new_frame().unwrap();
    let mut pass = RenderPass::new(&gpu, frame).unwrap();
    let mut registry = VboBuffer::new(&mut pass);
    let mut other = VboBuffer::new(&mut pass);
    registry.add(&mut pass, &first, &layout).unwrap();
    registry.add(&mut pass, &second, &layout).unwrap();
    other.add(&mut pass, &second, &layout).unwrap();
    registry.reset();
    registry.add(&mut pass, &first, &layout).unwrap();
    let record = gpu.end_frame(pass.finish()).unwrap();
    let info = AttrInfo { permutation: 0, formats: 11, count: 1 };
    let entered = |registry: u64, generation: u64, place: usize, buffer: u64, count: usize| {
        GpuCommand::RegisterBuffer {
            table: BufferTable { registry, generation },
            place,
            buffer,
            stride: 12,
            count,
            layout: info,
        }
    };
    assert_eq!(
        record,
        vec![
            GpuCommand::FrameBegin,
            entered(0, 0, 0, first.handle(), 3),
            entered(0, 0, 1, second.handle(), 2),
            entered(1, 0, 0, second.handle(), 2),
            entered(0, 1, 0, first.handle(), 3),
            GpuCommand::FrameEnd,
        ]
    );
}

#[test]
fn draw_records_the_draw_call_alone() {
    let mut pool = LinearPool::new(1 << 20);
    let first = LinearBuffer::new(&mut pool, &TRIANGLE).unwrap();
    let second = LinearBuffer::new(&mut pool, &TRIANGLE).unwrap();
    let layout = position_only();
    let mut gpu = GpuDevice::new();
    let mut pass = ready_pass(&mut gpu, &layout);
    let mut registry = VboBuffer::new(&mut pass);
    let _ = registry.add(&mut pass, &first, &layout).unwrap();
    let slice = registry.add(&mut pass, &second, &layout).unwrap();
    pass.draw(Primitive::Triangles, slice, &registry, &pool).unwrap();
    let record = gpu.end_frame(pass.finish()).unwrap();
    assert_eq!(record.len(), 8);
    assert!(matches!(record[4], GpuCommand::RegisterBuffer { place: 0, .. }));
    assert!(matches!(record[5], GpuCommand::RegisterBuffer { place: 1, .. }));
    assert_eq!(record[7], GpuCommand::FrameEnd);
    assert_eq!(
        record[6],
        GpuCommand::DrawArrays {
            primitive: Primitive::Triangles,
            table: BufferTable { registry: 0, generation: 0 },
            first: 1,
            count: 3,
        }
    );
}

#[test]
fn refused_program_is_the_error_and_binds_nothing() {
    let shader = PicaShader::new(
        3,
        vec![Ok(()), Err(Citro3dError::System(-7)), Err(Citro3dError::InvalidSize)],
        vec![],
    );
    let mut gpu = GpuDevice::new();
    let frame = gpu.start_new_frame().unwrap();
    let mut pass = RenderPass::new(&gpu, frame).unwrap();
    assert_eq!(pass.set_vertex_shader(&shader, 0), Ok(()));
    assert_eq!(
        pass.set_vertex_shader(&shader, 1),
        Err(RenderError::Citro3d(Citro3dError::System(-7)))
    );
    assert_eq!(
        pass.set_vertex_shader(&shader, 2),
        Err(RenderError::Citro3d(Citro3dError::InvalidSize))
    );
    assert_eq!(pass.stage(), PassStage::Idle);
    let entry = Entrypoint { library: 9, index: 4 };
    assert_eq!(
        pass.bind_program(entry, Err(Citro3dError::NotFound)),
        Err(RenderError::Citro3d(Citro3dError::NotFound))
    );
    assert_eq!(pass.bind_program(entry, Ok(())), Ok(()));
    let record = gpu.end_frame(pass.finish()).unwrap();
    assert_eq!(
        record,
        vec![
            GpuCommand::FrameBegin,
            GpuCommand::BindProgram { entry: Entrypoint { library: 3, index: 0 } },
            GpuCommand::BindProgram { entry },
            GpuCommand::FrameEnd,
        ]
    );
}
