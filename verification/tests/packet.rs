use lib::{BraidError, BufferData, BufferSlot, ElementKind, JobPacket};

fn slot(raw: u16) -> BufferSlot {
    BufferSlot::new(raw)
}

#[test]
fn new_packet_is_empty() {
    let packet = JobPacket::default();
    assert_eq!(packet.query_count(), 0);
    assert!(packet.buffer_descriptors().is_empty());
}

#[test]
fn query_count_is_stored() {
    let mut packet = JobPacket::default();
    packet.set_query_count(12);
    assert_eq!(packet.query_count(), 12);
}

#[test]
fn ensure_u32_creates_zeroed_buffer() {
    let mut packet = JobPacket::default();
    let vals = packet.ensure_u32(slot(3), 4);
    assert_eq!(vals, &vec![0, 0, 0, 0]);
    vals[1] = 9;
    assert_eq!(packet.u32(slot(3)).unwrap(), &[0, 9, 0, 0]);
}

#[test]
fn ensure_u32_resizes_keeping_prefix() {
    let mut packet = JobPacket::default();
    packet.ensure_u32(slot(3), 3).copy_from_slice(&[5, 6, 7]);
    assert_eq!(packet.ensure_u32(slot(3), 2), &vec![5, 6]);
    assert_eq!(packet.ensure_u32(slot(3), 4), &vec![5, 6, 0, 0]);
    assert_eq!(packet.buffer_descriptors().len(), 1);
}

#[test]
fn ensuring_another_kind_replaces_contents() {
    let mut packet = JobPacket::default();
    packet.ensure_u32(slot(1), 2).copy_from_slice(&[8, 8]);
    assert_eq!(packet.ensure_u64(slot(1), 3), &vec![0u64, 0, 0]);
    assert_eq!(packet.buffer_descriptors(), vec![(slot(1), ElementKind::U64, 3)]);
    assert!(matches!(
        packet.u32(slot(1)),
        Err(BraidError::InvalidBufferType { expected: ElementKind::U32, .. })
    ));
}

#[test]
fn ensure_f32_starts_at_zero_bits() {
    let mut packet = JobPacket::default();
    let bits = packet.ensure_f32(slot(2), 2);
    assert_eq!(bits, &vec![0.0f32.to_bits(), 0.0f32.to_bits()]);
    bits[0] = 1.5f32.to_bits();
    assert_eq!(f32::from_bits(packet.f32_bits(slot(2)).unwrap()[0]), 1.5);
}

#[test]
fn missing_slot_gives_missing_buffer() {
    let packet = JobPacket::default();
    match packet.u64(slot(4)) {
        Err(BraidError::MissingBuffer(s)) => assert_eq!(s, slot(4)),
        other => panic!("unexpected {:?}", other),
    }
}

#[test]
fn wrong_kind_gives_invalid_buffer_type() {
    let mut packet = JobPacket::default();
    packet.ensure_u64(slot(4), 1);
    match packet.f32_bits(slot(4)) {
        Err(BraidError::InvalidBufferType { slot: s, expected }) => {
            assert_eq!(s, slot(4));
            assert_eq!(expected, ElementKind::F32);
        },
        other => panic!("unexpected {:?}", other),
    }
}

#[test]
fn u32_mut_writes_through() {
    let mut packet = JobPacket::default();
    packet.ensure_u32(slot(1), 2);
    packet.u32_mut(slot(1)).unwrap()[1] = 44;
    assert_eq!(packet.u32(slot(1)).unwrap(), &[0, 44]);
}

#[test]
fn f32_mut_writes_through() {
    let mut packet = JobPacket::default();
    packet.ensure_f32(slot(1), 1);
    packet.f32_mut(slot(1)).unwrap()[0] = 2.25f32.to_bits();
    assert_eq!(packet.f32_bits(slot(1)).unwrap(), &[2.25f32.to_bits()]);
    assert!(matches!(packet.u32_mut(slot(1)), Err(BraidError::InvalidBufferType { .. })));
}

#[test]
fn load_static_buffer_copies_data() {
    let mut packet = JobPacket::default();
    packet.ensure_u32(slot(5), 9);
    packet.load_static_buffer(slot(5), &BufferData::U32(vec![1, 2, 3]));
    packet.load_static_buffer(slot(6), &BufferData::F32(vec![3.0f32.to_bits()]));
    assert_eq!(packet.u32(slot(5)).unwrap(), &[1, 2, 3]);
    assert_eq!(packet.f32_bits(slot(6)).unwrap(), &[3.0f32.to_bits()]);
    assert_eq!(packet.buffer_descriptors().len(), 2);
}

#[test]
fn writing_one_slot_leaves_others_alone() {
    let mut packet = JobPacket::default();
    packet.load_static_buffer(slot(1), &BufferData::U64(vec![10, 20]));
    packet.load_static_buffer(slot(2), &BufferData::U32(vec![7]));
    packet.ensure_u32(slot(2), 5);
    assert_eq!(packet.u64(slot(1)).unwrap(), &[10, 20]);
}

#[test]
fn descriptors_follow_insertion_order() {
    let mut packet = JobPacket::default();
    packet.ensure_u64(slot(9), 2);
    packet.ensure_u32(slot(1), 3);
    packet.ensure_f32(slot(5), 0);
    packet.ensure_u64(slot(9), 4);
    assert_eq!(
        packet.buffer_descriptors(),
        vec![
            (slot(9), ElementKind::U64, 4),
            (slot(1), ElementKind::U32, 3),
            (slot(5), ElementKind::F32, 0),
        ]
    );
}

#[test]
fn clear_for_reuse_empties_but_keeps_slots() {
    let mut packet = JobPacket::default();
    packet.set_query_count(3);
    packet.ensure_u64(slot(9), 2);
    packet.ensure_f32(slot(1), 3);
    packet.clear_for_reuse();
    assert_eq!(packet.query_count(), 0);
    assert_eq!(
        packet.buffer_descriptors(),
        vec![(slot(9), ElementKind::U64, 0), (slot(1), ElementKind::F32, 0)]
    );
}

#[test]
fn f32_buffer_positions_in_request_order() {
    let mut packet = JobPacket::default();
    packet.ensure_f32(slot(1), 1);
    packet.ensure_u32(slot(2), 1);
    packet.ensure_f32(slot(3), 1);
    assert_eq!(packet.f32_buffer_positions(&[slot(3), slot(1)]).unwrap(), vec![2, 0]);
    assert_eq!(packet.f32_buffer_positions(&[]).unwrap(), Vec::<usize>::new());
}

#[test]
fn f32_request_errors() {
    let mut packet = JobPacket::default();
    packet.ensure_f32(slot(1), 1);
    packet.ensure_u32(slot(2), 1);
    match packet.f32_buffer_positions(&[slot(1), slot(1)]) {
        Err(BraidError::Message(m)) => assert_eq!(m, "duplicate f32 buffer slot request"),
        other => panic!("unexpected {:?}", other),
    }
    assert!(matches!(
        packet.f32_buffer_positions(&[slot(1), slot(7)]),
        Err(BraidError::MissingBuffer(_))
    ));
    assert!(matches!(
        packet.f32_buffer_positions(&[slot(2), slot(7)]),
        Err(BraidError::InvalidBufferType { expected: ElementKind::F32, .. })
    ));
}

#[test]
fn exchange_f32_swaps_contents() {
    let mut packet = JobPacket::default();
    packet.load_static_buffer(slot(1), &BufferData::F32(vec![1, 2]));
    let mut outside = vec![7, 8, 9];
    packet.exchange_f32(slot(1), &mut outside).unwrap();
    assert_eq!(outside, vec![1, 2]);
    assert_eq!(packet.f32_bits(slot(1)).unwrap(), &[7, 8, 9]);
    assert!(packet.exchange_f32(slot(2), &mut outside).is_err());
    assert_eq!(outside, vec![1, 2]);
}
