use packet_record::{
    get_packet_len, Packet, PacketError, RecordLayout, HEADER_ALIGN, HEADER_SIZE, MAX_ELEMENTS,
};

#[test]
fn created_record_reports_its_length() {
    for length in [0u16, 1, 7, 1000, 65535] {
        let p = Packet::new(length).expect("layout is valid for every length");
        assert_eq!(p.len(), length);
        assert_eq!(p.data().len(), length as usize);
        assert!(p.data().iter().all(|&v| v == 0));
    }
}

#[test]
fn scenario_empty_record() {
    let p = Packet::new(0).unwrap();
    assert_eq!(p.len(), 0);
    assert!(p.is_empty());
    assert_eq!(p.data(), &[] as &[i32]);
    assert_eq!(p.get(3), None);
}

#[test]
fn scenario_ten_elements_sub_views() {
    let p = Packet::try_from(&[1, 2, 3, 4, 5, 6, 7, 8, 9, 10][..]).unwrap();
    assert_eq!(p.len(), 10);
    assert_eq!(p.index_range(0..5), &[1, 2, 3, 4, 5]);
    assert_eq!(p.index_range_from(5), &[6, 7, 8, 9, 10]);
    assert_eq!(p.index_range(2..7), &[3, 4, 5, 6, 7]);
}

#[test]
fn scenario_repeated_value() {
    let p = Packet::from_elem(42, 5).unwrap();
    assert_eq!(p.data(), &[42, 42, 42, 42, 42]);
    assert_eq!(p.get(3), Some(&42));
    assert_eq!(*p.index(3), 42);
}

#[test]
fn empty_constructor_has_no_elements() {
    let p = Packet::empty();
    assert_eq!(p.len(), 0);
    assert!(p.is_empty());
    assert_eq!(p.to_vec(), Vec::<i32>::new());
}

#[test]
fn round_trip_at_largest_size() {
    let source: Vec<i32> = (0..MAX_ELEMENTS as i32).map(|v| v * 3 - 7).collect();
    let p = Packet::try_from(&source[..]).unwrap();
    assert_eq!(p.len() as usize, MAX_ELEMENTS);
    assert_eq!(p.data(), &source[..]);
}

#[test]
fn sequence_too_long_is_capacity_overflow() {
    let source = vec![1i32; MAX_ELEMENTS + 1];
    assert_eq!(Packet::try_from(&source[..]).err(), Some(PacketError::CapacityOverflow));
    assert_eq!(Packet::from_elem(9, MAX_ELEMENTS + 1).err(), Some(PacketError::CapacityOverflow));
}

#[test]
fn repeated_value_at_largest_size() {
    let p = Packet::from_elem(-1, MAX_ELEMENTS).unwrap();
    assert_eq!(p.len() as usize, MAX_ELEMENTS);
    assert_eq!(*p.index(MAX_ELEMENTS - 1), -1);
}

#[test]
fn get_is_bounded_by_length() {
    let p = Packet::try_from(&[5, 6][..]).unwrap();
    assert_eq!(p.get(0), Some(&5));
    assert_eq!(p.get(1), Some(&6));
    assert_eq!(p.get(2), None);
    assert_eq!(p.get(usize::MAX), None);
}

#[test]
fn empty_inclusive_range() {
    let p = Packet::try_from(&[1, 2, 3][..]).unwrap();
    assert_eq!(p.index_range_inclusive(3, 2), &[] as &[i32]);
    assert_eq!(p.index_range_from(3), &[] as &[i32]);
    assert_eq!(p.index_range_to(0), &[] as &[i32]);
}

#[test]
fn layout_is_header_plus_elements() {
    let p = Packet::new(10).unwrap();
    let l = p.layout();
    assert_eq!(l.size, HEADER_SIZE + 40);
    assert_eq!(l.align, HEADER_ALIGN);
    assert_eq!(RecordLayout::for_length(10), Some(l));
    assert_eq!(p.release(), RecordLayout { size: 44, align: 4 });
}

#[test]
fn layout_validation() {
    assert_eq!(RecordLayout::from_size_align(8, 0), None);
    assert_eq!(RecordLayout::from_size_align(8, 3), None);
    assert_eq!(RecordLayout::from_size_align(8, 8), Some(RecordLayout { size: 8, align: 8 }));
    assert_eq!(RecordLayout::from_size_align(isize::MAX as usize, 1).map(|l| l.size), Some(isize::MAX as usize));
    assert_eq!(RecordLayout::from_size_align(isize::MAX as usize, 2), None);
    assert_eq!(RecordLayout::from_size_align(isize::MAX as usize - 3, 4).map(|l| l.align), Some(4));
    assert_eq!(RecordLayout::from_size_align(0, 1usize << 63).map(|l| l.size), Some(0));
    assert_eq!(RecordLayout::from_size_align(1, 1usize << 63), None);
}

#[test]
fn block_access() {
    let mut p = Packet::try_from(&[4, 5, 6][..]).unwrap();
    assert_eq!(get_packet_len(p.as_ptr()), 3);
    assert_eq!(p.as_ptr().header_length(), 3);
    p.as_mut_ptr().set(1, 50);
    assert_eq!(p.data(), &[4, 50, 6]);
    p.data_mut()[2] = 60;
    assert_eq!(p.to_vec(), vec![4, 50, 60]);
}

#[test]
fn iteration_follows_order() {
    let p = Packet::try_from(&[3, 1, 2][..]).unwrap();
    let seen: Vec<i32> = p.iter().copied().collect();
    assert_eq!(seen, vec![3, 1, 2]);
    let again: Vec<i32> = p.iter().copied().collect();
    assert_eq!(again, seen);
}

#[test]
fn display_form() {
    let p = Packet::try_from(&[1, -2, 30][..]).unwrap();
    assert_eq!(p.to_string(), "Packet(length: 3, data: [1, -2, 30])");
    assert_eq!(Packet::new(0).unwrap().to_string(), "Packet(length: 0, data: [])");
    let q = Packet::try_from(&[i32::MIN, i32::MAX, 0][..]).unwrap();
    assert_eq!(q.to_string(), "Packet(length: 3, data: [-2147483648, 2147483647, 0])");
}

#[test]
fn debug_form() {
    let p = Packet::try_from(&[7, 8][..]).unwrap();
    assert_eq!(p.debug_string(), "Packet { length: 2, data: [7, 8] }");
    assert_eq!(Packet::empty().debug_string(), "Packet { length: 0, data: [] }");
    let long = Packet::from_elem(1, 12).unwrap();
    assert!(long.debug_string().starts_with("Packet { length: 12, data: [1, 1,"));
}
