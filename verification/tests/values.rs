use lib::{
    BraidError, BufferAccess, BufferBinding, BufferData, BufferLayout, BufferSlot, BufferSpec,
    CancelFlag, DispatchHint, ElementKind, JobStatus, KernelKind, KernelSpec, PipelineShape,
    StageSpec, StaticBuffer,
};

#[test]
fn slot_round_trips() {
    let s = BufferSlot::new(65535);
    assert_eq!(s.raw(), 65535);
    let from: BufferSlot = 12u16.into();
    assert_eq!(from, BufferSlot::new(12));
    let back: u16 = from.into();
    assert_eq!(back, 12);
    assert_eq!(BufferSlot::default().raw(), 0);
    assert_eq!(s.display_string(), "65535");
    assert!(BufferSlot::new(1) < BufferSlot::new(2));
}

#[test]
fn kernel_kind_round_trips() {
    let k = KernelKind::new(4_000_000_000);
    assert_eq!(k.raw(), 4_000_000_000);
    let from: KernelKind = 3u32.into();
    let back: u32 = from.into();
    assert_eq!(back, 3);
    assert_eq!(KernelKind::default().raw(), 0);
    assert_eq!(k.display_string(), "4000000000");
    assert_eq!(KernelKind::new(0).display_string(), "0");
}

#[test]
fn buffer_spec_helpers() {
    let s = BufferSlot::new(1);
    assert_eq!(BufferSpec::per_query_scalar(s, ElementKind::U32).layout, BufferLayout::PerQueryScalar);
    assert_eq!(
        BufferSpec::per_query_vector(s, ElementKind::F32, 4).layout,
        BufferLayout::PerQueryVector { width: 4 }
    );
    let d = BufferSpec::dynamic(s, ElementKind::U64);
    assert_eq!(d, BufferSpec::new(s, ElementKind::U64, BufferLayout::Dynamic));
}

#[test]
fn binding_helpers() {
    let s = BufferSlot::new(2);
    assert_eq!(BufferBinding::read(s).access, BufferAccess::Read);
    assert_eq!(BufferBinding::write(s).access, BufferAccess::Write);
    assert_eq!(BufferBinding::read_write(s).access, BufferAccess::ReadWrite);
    assert_eq!(BufferBinding::new(s, BufferAccess::Read), BufferBinding::read(s));
}

#[test]
fn kernel_spec_builders() {
    let k = KernelSpec::new(KernelKind::new(5), vec![1, 2, 3]);
    assert_eq!(k.payload.as_slice(), &[1, 2, 3]);
    assert!(k.bindings.is_empty());
    assert_eq!(k.dispatch, DispatchHint::WholeBatch);
    let s = BufferSlot::new(1);
    let k = k
        .with_bindings(vec![BufferBinding::read(s)])
        .with_bindings(vec![BufferBinding::write(s)])
        .with_dispatch(DispatchHint::Serial);
    assert_eq!(k.bindings, vec![BufferBinding::read(s), BufferBinding::write(s)]);
    assert_eq!(k.dispatch, DispatchHint::Serial);
    assert_eq!(k.kind_id, KernelKind::new(5));
    assert!(KernelSpec::empty(KernelKind::new(1)).payload.is_empty());
}

#[test]
fn stage_and_shape_defaults() {
    assert!(StageSpec::default().kernels.is_empty());
    let shape = PipelineShape::default();
    assert!(shape.buffers.is_empty() && shape.stages.is_empty());
    let stage = StageSpec::single(KernelSpec::empty(KernelKind::new(9)));
    assert_eq!(stage.kernels.len(), 1);
}

#[test]
fn buffer_data_kind_len_clear() {
    let mut d = BufferData::F32(vec![0, 1]);
    assert_eq!(d.kind(), ElementKind::F32);
    assert_eq!(d.len(), 2);
    d.clear();
    assert_eq!(d.len(), 0);
    assert_eq!(d.kind(), ElementKind::F32);
    assert_eq!(BufferData::U64(vec![3]).kind(), ElementKind::U64);
    let b = StaticBuffer::new(BufferSlot::new(3), BufferData::U32(vec![4, 5]));
    assert_eq!(b.slot, BufferSlot::new(3));
    assert_eq!(b.data.len(), 2);
}

#[test]
fn error_display_strings() {
    let s = BufferSlot::new(7);
    assert_eq!(BraidError::Cancelled.display_string(), "job cancelled");
    assert_eq!(BraidError::UnknownJob.display_string(), "unknown job");
    assert_eq!(BraidError::ExecutorShutdown.display_string(), "executor is shut down");
    assert_eq!(
        BraidError::BackendRejectedKernel(KernelKind::new(12)).display_string(),
        "backend rejected kernel kind 12"
    );
    assert_eq!(BraidError::MissingBuffer(s).display_string(), "missing buffer at slot 7");
    assert_eq!(
        BraidError::InvalidBufferType { slot: s, expected: ElementKind::F32 }.display_string(),
        "invalid buffer type at slot 7 expected F32"
    );
    assert_eq!(
        BraidError::DuplicateId { kind: "node", id: "a".to_string() }.display_string(),
        "duplicate node id 'a'"
    );
    assert_eq!(
        BraidError::MissingReference {
            kind: "node",
            id: "a".to_string(),
            reference: "b".to_string()
        }
        .display_string(),
        "node 'a' references missing 'b'"
    );
    assert_eq!(
        BraidError::EmptyScope { kind: "graph", id: "g".to_string() }.display_string(),
        "graph 'g' has empty scope"
    );
    assert_eq!(BraidError::InvalidSpec("x".to_string()).display_string(), "invalid spec: x");
    assert_eq!(BraidError::Message("plain".to_string()).display_string(), "plain");
    assert_eq!(BraidError::poisoned("stack").display_string(), "shared state 'stack' was poisoned");
}

#[test]
fn error_conversions() {
    assert!(matches!(BraidError::from("text"), BraidError::Message(m) if m == "text"));
    assert!(matches!(BraidError::from("owned".to_string()), BraidError::Message(m) if m == "owned"));
    assert!(matches!(BraidError::poisoned("p"), BraidError::Poisoned("p")));
}

#[test]
fn cancel_flag_is_shared_between_clones() {
    let flag = CancelFlag::default();
    assert!(!flag.is_cancelled());
    let other = flag.clone();
    other.cancel();
    assert!(flag.is_cancelled());
    flag.cancel();
    assert!(other.is_cancelled());
}

#[test]
fn job_status_compares() {
    assert_eq!(JobStatus::Queued, JobStatus::Queued);
    assert_ne!(JobStatus::Running, JobStatus::Completed);
    assert_ne!(JobStatus::Failed, JobStatus::Cancelled);
}
