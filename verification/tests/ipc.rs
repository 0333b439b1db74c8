use nx::ipc::server::{
    emit_response, measure_response, parse_parameters, parse_request, RequestCommandParameter,
    ResponseCommandParameter, ServerContext,
};
use nx::ipc::sf::{CommandMetadata, Parameter, ParameterKind, ServiceName, VersionInterval, find_command};
use nx::ipc::{
    Alignment, BufferAttribute, BufferDescriptor, CommandContext, CommandIn, CommandOut,
    CommandProtocol, DataWalker, HandleMode, ObjectInfo,
};
use nx::result::ResultCode;

fn context_with(in_params: CommandIn) -> ServerContext {
    ServerContext::new(
        CommandContext::new_server(ObjectInfo::from_handle(1), in_params),
        DataWalker::new(),
        None,
        Vec::new(),
    )
}

fn pod_bytes(parameter: &Parameter) -> Vec<u8> {
    match parameter {
        Parameter::Pod { bytes, .. } => bytes.clone(),
        _ => panic!("not plain data"),
    }
}

const OUT_POINTER: BufferAttribute = BufferAttribute {
    input: false,
    output: true,
    map_alias: false,
    pointer: true,
    fixed_size: false,
    auto_select: false,
};

const IN_MAP_ALIAS: BufferAttribute = BufferAttribute {
    input: true,
    output: false,
    map_alias: true,
    pointer: false,
    fixed_size: false,
    auto_select: false,
};

#[test]
fn object_info_constructors() {
    let none = ObjectInfo::new();
    assert_eq!(none.handle, 0);
    assert!(!none.is_valid());
    assert!(!none.is_domain());
    assert!(none.uses_cmif_protocol());
    let session = ObjectInfo::from_handle(5);
    assert!(session.is_valid());
    assert!(session.owns_handle);
    assert!(!session.is_domain());
    let object = ObjectInfo::from_domain_object_id(5, 3);
    assert!(object.is_domain());
    assert!(!object.owns_handle);
    assert_eq!(object.domain_object_id, 3);
    let tipc = ObjectInfo { protocol: CommandProtocol::Tipc, ..session };
    assert!(!tipc.uses_cmif_protocol());
}

#[test]
fn service_name_emptiness() {
    assert!(ServiceName::empty().is_empty());
    assert!(!ServiceName { value: 0x3a6d73 }.is_empty());
}

#[test]
fn walker_advances_by_aligned_steps() {
    let mut walker = DataWalker::new();
    walker.advance(1, Alignment::One);
    assert_eq!(walker.get_offset(), 1);
    walker.advance(4, Alignment::Four);
    assert_eq!(walker.get_offset(), 8);
    walker.advance(2, Alignment::Two);
    assert_eq!(walker.get_offset(), 10);
    walker.advance(8, Alignment::Eight);
    assert_eq!(walker.get_offset(), 24);
    walker.reset();
    assert_eq!(walker.get_offset(), 0);
}

#[test]
fn walker_reads_at_the_aligned_place() {
    let data: Vec<u8> = (0u8..16).collect();
    let mut walker = DataWalker::new();
    assert_eq!(walker.advance_get(&data, 1, Alignment::One), Some(vec![0]));
    assert_eq!(walker.advance_get(&data, 4, Alignment::Four), Some(vec![4, 5, 6, 7]));
    assert_eq!(walker.advance_get(&data, 8, Alignment::Eight), Some(vec![8, 9, 10, 11, 12, 13, 14, 15]));
    assert_eq!(walker.get_offset(), 16);
    // past the end: nothing is read and the walker stays
    assert_eq!(walker.advance_get(&data, 1, Alignment::One), None);
    assert_eq!(walker.get_offset(), 16);
}

#[test]
fn walker_writes_at_the_aligned_place() {
    let mut data = vec![0u8; 12];
    let mut walker = DataWalker::new();
    walker.advance_set(&mut data, &vec![0xaa], Alignment::One);
    walker.advance_set(&mut data, &vec![1, 2, 3, 4], Alignment::Four);
    walker.advance_set(&mut data, &vec![5, 6], Alignment::Two);
    assert_eq!(walker.get_offset(), 10);
    assert_eq!(data, vec![0xaa, 0, 0, 0, 1, 2, 3, 4, 5, 6, 0, 0]);
}

#[test]
fn two_pass_sizing_measures_what_is_written() {
    let outputs = vec![
        Parameter::Pod { bytes: vec![1], align: Alignment::One },
        Parameter::Handle { mode: HandleMode::Copy, handle: 9 },
        Parameter::Pod { bytes: vec![2, 3, 4, 5, 6, 7, 8, 9], align: Alignment::Eight },
        Parameter::Pod { bytes: vec![10, 11], align: Alignment::Two },
    ];
    let size = measure_response(&outputs).unwrap();
    assert_eq!(size, 18);
    let mut measuring = DataWalker::new();
    measuring.advance(1, Alignment::One);
    measuring.advance(8, Alignment::Eight);
    measuring.advance(2, Alignment::Two);
    assert_eq!(measuring.get_offset(), size);
    let mut data = vec![0u8; size];
    let written = emit_response(&mut data, &outputs);
    assert_eq!(written, size);
    assert_eq!(data, vec![1, 0, 0, 0, 0, 0, 0, 0, 2, 3, 4, 5, 6, 7, 8, 9, 10, 11]);
}

#[test]
fn measure_of_nothing_is_zero() {
    assert_eq!(measure_response(&Vec::new()), Ok(0));
}

#[test]
fn response_larger_than_a_message_is_refused() {
    let outputs = vec![Parameter::Pod { bytes: vec![0; 0x101], align: Alignment::One }];
    assert_eq!(measure_response(&outputs), Err(ResultCode::InvalidHeaderSize));
    let outputs = vec![
        Parameter::Pod { bytes: vec![0; 0xfd], align: Alignment::One },
        Parameter::Pod { bytes: vec![0; 4], align: Alignment::Four },
    ];
    assert_eq!(measure_response(&outputs), Err(ResultCode::InvalidHeaderSize));
    let outputs = vec![Parameter::Pod { bytes: vec![0; 0x100], align: Alignment::One }];
    assert_eq!(measure_response(&outputs), Ok(0x100));
}

#[test]
fn pop_handle_takes_handles_in_order_by_mode() {
    let mut in_params = CommandIn::empty();
    in_params.copy_handles = vec![1, 2];
    in_params.move_handles = vec![3];
    assert_eq!(in_params.pop_handle(HandleMode::Copy), Ok(1));
    assert_eq!(in_params.pop_handle(HandleMode::Move), Ok(3));
    assert_eq!(in_params.pop_handle(HandleMode::Copy), Ok(2));
    assert_eq!(in_params.pop_handle(HandleMode::Copy), Err(ResultCode::InvalidHeaderSize));
    assert_eq!(in_params.pop_handle(HandleMode::Move), Err(ResultCode::InvalidHeaderSize));
}

#[test]
fn command_out_collects_in_order() {
    let mut out = CommandOut::empty();
    out.push_handle(HandleMode::Move, 4);
    out.push_handle(HandleMode::Copy, 5);
    out.push_handle(HandleMode::Move, 6);
    out.push_domain_object(2);
    assert_eq!(out.move_handles, vec![4, 6]);
    assert_eq!(out.copy_handles, vec![5]);
    assert_eq!(out.objects, vec![2]);
}

#[test]
fn parse_plain_data() {
    let mut in_params = CommandIn::empty();
    in_params.data = vec![7, 0, 0, 0, 1, 2, 3, 4];
    let mut ctx = context_with(in_params);
    let first = parse_request(&mut ctx, ParameterKind::Pod { size: 1, align: Alignment::One }).unwrap();
    assert_eq!(pod_bytes(&first), vec![7]);
    let second = parse_request(&mut ctx, ParameterKind::Pod { size: 4, align: Alignment::Four }).unwrap();
    assert_eq!(pod_bytes(&second), vec![1, 2, 3, 4]);
    let third = parse_request(&mut ctx, ParameterKind::Pod { size: 1, align: Alignment::One });
    assert_eq!(third.err(), Some(ResultCode::InvalidHeaderSize));
}

#[test]
fn parse_buffer_carries_out_pointer_buffers_back() {
    let mut in_params = CommandIn::empty();
    in_params.buffers = vec![
        BufferDescriptor { address: 0x1000, size: 0x20, attribute: OUT_POINTER },
        BufferDescriptor { address: 0x2000, size: 0x40, attribute: IN_MAP_ALIAS },
    ];
    let mut ctx = context_with(in_params);
    let first = parse_request(&mut ctx, ParameterKind::Buffer { attribute: OUT_POINTER }).unwrap();
    match first {
        Parameter::Buffer { descriptor } => {
            assert_eq!(descriptor.address, 0x1000);
            assert_eq!(descriptor.size, 0x20);
        }
        _ => panic!("not a buffer"),
    }
    assert_eq!(ctx.ctx.out_params.buffers.len(), 1);
    let back = ctx.ctx.out_params.buffers[0];
    assert_eq!(back.address, 0x1000);
    assert_eq!(back.size, 0x20);
    assert!(back.attribute.input && back.attribute.pointer && !back.attribute.output);
    let second = parse_request(&mut ctx, ParameterKind::Buffer { attribute: IN_MAP_ALIAS }).unwrap();
    assert!(matches!(second, Parameter::Buffer { descriptor } if descriptor.address == 0x2000));
    assert_eq!(ctx.ctx.out_params.buffers.len(), 1);
    let third = parse_request(&mut ctx, ParameterKind::Buffer { attribute: IN_MAP_ALIAS });
    assert_eq!(third.err(), Some(ResultCode::InvalidHeaderSize));
}

#[test]
fn parse_handle() {
    let mut in_params = CommandIn::empty();
    in_params.move_handles = vec![11];
    let mut ctx = context_with(in_params);
    let handle = parse_request(&mut ctx, ParameterKind::Handle { mode: HandleMode::Move }).unwrap();
    assert!(matches!(handle, Parameter::Handle { mode: HandleMode::Move, handle: 11 }));
    let none = parse_request(&mut ctx, ParameterKind::Handle { mode: HandleMode::Copy });
    assert_eq!(none.err(), Some(ResultCode::InvalidHeaderSize));
}

#[test]
fn parse_process_id_needs_the_kernel_to_vouch() {
    let mut in_params = CommandIn::empty();
    in_params.data = vec![0; 8];
    in_params.process_id = 0x51;
    let mut ctx = context_with(in_params);
    let refused = parse_request(&mut ctx, ParameterKind::ProcessId);
    assert_eq!(refused.err(), Some(ResultCode::UnsupportedOperation));

    let mut in_params = CommandIn::empty();
    in_params.data = vec![0xff; 8];
    in_params.process_id = 0x51;
    in_params.send_process_id = true;
    let mut ctx = context_with(in_params);
    let taken = parse_request(&mut ctx, ParameterKind::ProcessId).unwrap();
    assert!(matches!(taken, Parameter::ProcessId { process_id: 0x51 }));
    // the eight bytes that stand for it in the raw data were passed over
    assert_eq!(ctx.raw_data_walker.get_offset(), 8);
}

#[test]
fn parse_session_object_is_unsupported() {
    let mut ctx = context_with(CommandIn::empty());
    let refused = parse_request(&mut ctx, ParameterKind::Session);
    assert_eq!(refused.err(), Some(ResultCode::UnsupportedOperation));
}

#[test]
fn parse_parameters_in_order() {
    let mut in_params = CommandIn::empty();
    in_params.data = vec![1, 0, 2, 0];
    in_params.copy_handles = vec![8];
    let mut ctx = context_with(in_params);
    let kinds = vec![
        ParameterKind::Pod { size: 2, align: Alignment::Two },
        ParameterKind::Handle { mode: HandleMode::Copy },
        ParameterKind::Pod { size: 2, align: Alignment::Two },
    ];
    let taken = parse_parameters(&mut ctx, &kinds).unwrap();
    assert_eq!(taken.len(), 3);
    assert_eq!(pod_bytes(&taken[0]), vec![1, 0]);
    assert!(matches!(taken[1], Parameter::Handle { mode: HandleMode::Copy, handle: 8 }));
    assert_eq!(pod_bytes(&taken[2]), vec![2, 0]);
}

#[test]
fn parse_parameters_refuses_oversized_raw_data() {
    let mut in_params = CommandIn::empty();
    in_params.data = vec![0; 0x101];
    let mut ctx = context_with(in_params);
    assert_eq!(
        parse_parameters(&mut ctx, &Vec::new()).err(),
        Some(ResultCode::InvalidHeaderSize)
    );
}

#[test]
fn commands_outside_their_versions_are_invisible() {
    let table = vec![
        CommandMetadata::new(1, VersionInterval { min: 0, max: 4 }, Vec::new()),
        CommandMetadata::new(1, VersionInterval { min: 5, max: 9 }, Vec::new()),
        CommandMetadata::new(2, VersionInterval::all(), Vec::new()),
    ];
    assert_eq!(find_command(&table, 1, 0), Some(0));
    assert_eq!(find_command(&table, 1, 4), Some(0));
    assert_eq!(find_command(&table, 1, 5), Some(1));
    assert_eq!(find_command(&table, 1, 9), Some(1));
    assert_eq!(find_command(&table, 1, 10), None);
    assert_eq!(find_command(&table, 2, u32::MAX), Some(2));
    assert_eq!(find_command(&table, 3, 0), None);
    assert!(VersionInterval::all().contains(0));
    assert!(table[0].matches(1, 3));
    assert!(!table[0].matches(2, 3));
}

#[test]
fn parameter_kind_takes_its_parameter_from_the_request() {
    let mut in_params = CommandIn::empty();
    in_params.data = vec![9, 8, 7, 6];
    in_params.copy_handles = vec![5];
    let mut ctx = context_with(in_params);
    let word = ParameterKind::Pod { size: 4, align: Alignment::Four }.after_request_read(&mut ctx).unwrap();
    assert_eq!(pod_bytes(&word), vec![9, 8, 7, 6]);
    let handle = ParameterKind::Handle { mode: HandleMode::Copy }.after_request_read(&mut ctx).unwrap();
    assert!(matches!(handle, Parameter::Handle { mode: HandleMode::Copy, handle: 5 }));
    assert_eq!(
        ParameterKind::Session.after_request_read(&mut ctx).err(),
        Some(ResultCode::UnsupportedOperation)
    );
}

#[test]
fn parameter_writes_itself_into_the_raw_data() {
    let mut data = vec![0u8; 8];
    let mut walker = DataWalker::new();
    let byte = Parameter::Pod { bytes: vec![1], align: Alignment::One };
    let word = Parameter::Pod { bytes: vec![2, 3, 4, 5], align: Alignment::Four };
    let handle = Parameter::Handle { mode: HandleMode::Move, handle: 3 };
    assert_eq!(Parameter::after_response_write(&byte, &mut data, &mut walker), Ok(()));
    assert_eq!(Parameter::after_response_write(&handle, &mut data, &mut walker), Ok(()));
    assert_eq!(walker.get_offset(), 1);
    assert_eq!(Parameter::after_response_write(&word, &mut data, &mut walker), Ok(()));
    assert_eq!(walker.get_offset(), 8);
    assert_eq!(data, vec![1, 0, 0, 0, 2, 3, 4, 5]);
    // no room left: nothing is written and the walker stays
    assert_eq!(
        Parameter::after_response_write(&byte, &mut data, &mut walker),
        Err(ResultCode::InvalidHeaderSize)
    );
    assert_eq!(walker.get_offset(), 8);
    assert_eq!(data, vec![1, 0, 0, 0, 2, 3, 4, 5]);
}

#[test]
fn empty_context_addresses_nothing_and_carries_nothing() {
    let ctx = CommandContext::empty();
    assert_eq!(ctx.object_info, ObjectInfo::new());
    assert!(!ctx.in_params.send_process_id);
    assert_eq!(ctx.in_params.process_id, 0);
    assert!(ctx.in_params.data.is_empty());
    assert!(ctx.in_params.copy_handles.is_empty());
    assert!(ctx.in_params.move_handles.is_empty());
    assert!(ctx.in_params.buffers.is_empty());
    assert!(ctx.out_params.data.is_empty());
    assert_eq!(ctx.out_params.data_size, 0);
    assert!(ctx.out_params.copy_handles.is_empty());
    assert!(ctx.out_params.move_handles.is_empty());
    assert!(ctx.out_params.objects.is_empty());
    assert!(ctx.out_params.buffers.is_empty());
}
