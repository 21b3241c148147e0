use lib::{
    BraidError, BufferBinding, BufferData, BufferLayout, BufferSlot, BufferSpec, CompiledPlan,
    ElementKind, JobPacket, KernelKind, KernelSpec, PlanBuilder, StageSpec, StaticBuffer,
};

fn slot(raw: u16) -> BufferSlot {
    BufferSlot::new(raw)
}

fn invalid_spec_message(err: &BraidError) -> String {
    match err {
        BraidError::InvalidSpec(msg) => msg.clone(),
        other => panic!("expected InvalidSpec, got {:?}", other),
    }
}

fn kernel_using(slots: &[u16]) -> KernelSpec {
    let bindings: Vec<BufferBinding> = slots.iter().map(|s| BufferBinding::read(slot(*s))).collect();
    KernelSpec::empty(KernelKind::new(1)).with_bindings(bindings)
}

fn sample_builder() -> PlanBuilder<u8> {
    let mut builder = CompiledPlan::builder(7u8);
    builder
        .buffer(BufferSpec::per_query_scalar(slot(1), ElementKind::U32))
        .buffer(BufferSpec::per_query_vector(slot(2), ElementKind::F32, 3))
        .buffer(BufferSpec::dynamic(slot(3), ElementKind::U64))
        .static_buffer(StaticBuffer::new(slot(3), BufferData::U64(vec![1, 2, 3, 4])))
        .stage(StageSpec::single(kernel_using(&[1, 2])))
        .stage(StageSpec::single(kernel_using(&[3])));
    builder
}

#[test]
fn valid_plan_passes_validation() {
    let plan = sample_builder().build();
    assert!(plan.validate().is_ok());
    assert_eq!(plan.planner_meta, 7);
    assert_eq!(plan.pipeline.buffers.len(), 3);
    assert_eq!(plan.pipeline.stages.len(), 2);
    assert_eq!(plan.static_buffers.len(), 1);
}

#[test]
fn empty_plan_is_valid() {
    let plan = PlanBuilder::new(()).build();
    assert!(plan.validate().is_ok());
    assert!(PlanBuilder::new(()).build_checked().is_ok());
}

#[test]
fn build_checked_returns_the_built_plan() {
    let plan = sample_builder().build_checked().expect("valid plan");
    assert_eq!(plan.pipeline.buffers[1], BufferSpec::per_query_vector(slot(2), ElementKind::F32, 3));
    assert_eq!(plan.planner_meta, 7);
}

#[test]
fn duplicate_buffer_slot_is_rejected() {
    let mut builder = sample_builder();
    builder.buffer(BufferSpec::dynamic(slot(2), ElementKind::U32));
    let plan = builder.build();
    let err = plan.validate().unwrap_err();
    assert_eq!(invalid_spec_message(&err), "duplicate buffer slot 2 in pipeline");
    assert_eq!(err.display_string(), "invalid spec: duplicate buffer slot 2 in pipeline");
}

#[test]
fn build_checked_reports_validation_error() {
    let mut builder = sample_builder();
    builder.buffer(BufferSpec::dynamic(slot(1), ElementKind::U32));
    let err = builder.build_checked().unwrap_err();
    assert_eq!(invalid_spec_message(&err), "duplicate buffer slot 1 in pipeline");
}

#[test]
fn duplicate_static_buffer_is_rejected() {
    let mut builder = sample_builder();
    builder.static_buffer(StaticBuffer::new(slot(3), BufferData::U64(vec![9])));
    let err = builder.build().validate().unwrap_err();
    assert_eq!(invalid_spec_message(&err), "duplicate static buffer slot 3");
}

#[test]
fn undeclared_static_buffer_is_rejected() {
    let mut builder = sample_builder();
    builder.static_buffer(StaticBuffer::new(slot(9), BufferData::U32(vec![])));
    let err = builder.build().validate().unwrap_err();
    assert_eq!(invalid_spec_message(&err), "static buffer slot 9 is not declared in pipeline");
}

#[test]
fn static_buffer_of_wrong_kind_is_rejected() {
    let mut builder = sample_builder();
    builder.static_buffer(StaticBuffer::new(slot(1), BufferData::U64(vec![5])));
    let err = builder.build().validate().unwrap_err();
    assert_eq!(invalid_spec_message(&err), "static buffer slot 1 has wrong element kind");
}

#[test]
fn undeclared_binding_is_rejected_with_its_position() {
    let mut builder = sample_builder();
    let stage = StageSpec { kernels: vec![kernel_using(&[1]), kernel_using(&[2, 7, 8])] };
    builder.stage(stage);
    let err = builder.build().validate().unwrap_err();
    assert_eq!(
        invalid_spec_message(&err),
        "stage 2 kernel 1 references undeclared buffer slot 7"
    );
}

#[test]
fn duplicate_declaration_is_reported_before_static_problems() {
    let mut builder = sample_builder();
    builder
        .static_buffer(StaticBuffer::new(slot(40), BufferData::U32(vec![])))
        .buffer(BufferSpec::dynamic(slot(3), ElementKind::U64));
    let err = builder.build().validate().unwrap_err();
    assert_eq!(invalid_spec_message(&err), "duplicate buffer slot 3 in pipeline");
}

#[test]
fn static_problems_are_reported_before_binding_problems() {
    let mut builder = sample_builder();
    builder
        .stage(StageSpec::single(kernel_using(&[99])))
        .static_buffer(StaticBuffer::new(slot(41), BufferData::U32(vec![])));
    let err = builder.build().validate().unwrap_err();
    assert_eq!(invalid_spec_message(&err), "static buffer slot 41 is not declared in pipeline");
}

fn packet_for(query_count: usize) -> JobPacket {
    let mut packet = JobPacket::default();
    packet.set_query_count(query_count);
    packet
}

#[test]
fn fitting_packet_is_accepted() {
    let plan = sample_builder().build();
    let mut packet = packet_for(2);
    packet.ensure_u32(slot(1), 2);
    packet.ensure_f32(slot(2), 6);
    packet.ensure_u64(slot(3), 17);
    assert!(plan.validate_packet(&packet).is_ok());
}

#[test]
fn vector_layout_expects_query_count_times_width() {
    let plan = sample_builder().build();
    let mut packet = packet_for(4);
    packet.ensure_f32(slot(2), 11);
    let err = plan.validate_packet(&packet).unwrap_err();
    assert_eq!(
        invalid_spec_message(&err),
        "buffer slot 2 has length 11 but declared layout expects 12"
    );
}

#[test]
fn scalar_layout_length_mismatch_is_rejected() {
    let plan = sample_builder().build();
    let mut packet = packet_for(2);
    packet.ensure_u32(slot(1), 3);
    let err = plan.validate_packet(&packet).unwrap_err();
    assert_eq!(
        invalid_spec_message(&err),
        "buffer slot 1 has length 3 but declared layout expects 2"
    );
}

#[test]
fn packet_buffer_of_wrong_kind_is_rejected() {
    let plan = sample_builder().build();
    let mut packet = packet_for(2);
    packet.ensure_u64(slot(1), 2);
    match plan.validate_packet(&packet) {
        Err(BraidError::InvalidBufferType { slot: s, expected }) => {
            assert_eq!(s, slot(1));
            assert_eq!(expected, ElementKind::U32);
        },
        other => panic!("unexpected {:?}", other),
    }
}

#[test]
fn empty_undeclared_packet_buffer_is_ignored() {
    let plan = sample_builder().build();
    let mut packet = packet_for(1);
    packet.ensure_u32(slot(50), 0);
    assert!(plan.validate_packet(&packet).is_ok());
}

#[test]
fn non_empty_undeclared_packet_buffer_is_rejected() {
    let plan = sample_builder().build();
    let mut packet = packet_for(1);
    packet.ensure_u32(slot(50), 1);
    let err = plan.validate_packet(&packet).unwrap_err();
    assert_eq!(invalid_spec_message(&err), "packet contains undeclared buffer slot 50");
}

#[test]
fn layout_length_overflow_is_rejected() {
    let mut builder = CompiledPlan::builder(());
    builder.buffer(BufferSpec::per_query_vector(slot(4), ElementKind::U32, usize::MAX));
    let plan = builder.build();
    let mut packet = packet_for(2);
    packet.ensure_u32(slot(4), 1);
    let err = plan.validate_packet(&packet).unwrap_err();
    assert_eq!(invalid_spec_message(&err), "buffer slot 4 length overflow for declared layout");
}

#[test]
fn dynamic_layout_accepts_any_length() {
    let mut builder = CompiledPlan::builder(());
    builder.buffer(BufferSpec::new(slot(6), ElementKind::U64, BufferLayout::Dynamic));
    let plan = builder.build();
    let mut packet = packet_for(3);
    packet.ensure_u64(slot(6), 1000);
    assert!(plan.validate_packet(&packet).is_ok());
}

#[test]
fn packet_against_plan_with_duplicate_declaration_is_rejected() {
    let mut builder = sample_builder();
    builder.buffer(BufferSpec::dynamic(slot(1), ElementKind::U32));
    let plan = builder.build();
    let packet = packet_for(0);
    let err = plan.validate_packet(&packet).unwrap_err();
    assert_eq!(invalid_spec_message(&err), "duplicate buffer slot 1 in pipeline");
}

#[test]
fn cleared_packet_still_fits() {
    let plan = sample_builder().build();
    let mut packet = packet_for(2);
    packet.ensure_u32(slot(1), 2);
    packet.ensure_f32(slot(2), 6);
    assert!(plan.validate_packet(&packet).is_ok());
    packet.clear_for_reuse();
    assert!(plan.validate_packet(&packet).is_ok());
}

#[test]
fn loading_static_buffers_makes_them_readable() {
    let plan = sample_builder().build();
    let mut packet = packet_for(2);
    for buffer in &plan.static_buffers {
        packet.load_static_buffer(buffer.slot, &buffer.data);
    }
    assert_eq!(packet.u64(slot(3)).unwrap(), &[1, 2, 3, 4]);
}
