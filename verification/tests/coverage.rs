use reims_vgpu::coverage::{
    byte_spans, covered_spans, overlap_bytes, power_of_two, total_bytes, GuestPageFootprint,
};

#[test]
fn interlock_diagnostic_compares_physical_bytes_across_page_geometries() {
    let a = byte_spans(&[0x4000], 16384).unwrap();
    let b = byte_spans(&[0x5000], 4096).unwrap();
    assert_eq!(overlap_bytes(&a, &b), Some(4096));
    assert_eq!(overlap_bytes(&b, &a), Some(4096));
    let adjacent = byte_spans(&[0x8000], 4096).unwrap();
    assert_eq!(overlap_bytes(&a, &adjacent), Some(0));
}

#[test]
fn interlock_diagnostic_merges_repeated_and_scattered_pages_without_losing_overlap() {
    let a = byte_spans(&[0xc000, 0x4000, 0x4000], 16384).unwrap();
    let b = byte_spans(&[0xd000, 0x5000, 0xc000], 4096).unwrap();
    assert_eq!(overlap_bytes(&a, &b), Some(12288));
    assert_eq!(a, vec![(0x4000, 0x8000), (0xc000, 0x10000)]);
}

#[test]
fn interlock_diagnostic_incomplete_or_overflowing_coverage_never_proves_disjoint() {
    for (pages, size) in [
        (vec![], 4096),
        (vec![0x5000], 16384),
        (vec![0x4000], 0),
        (vec![0x4000], 6000),
        (vec![u64::MAX - 4095], 4096),
    ] {
        assert!(byte_spans(&pages, size).is_none());
    }
}

#[test]
fn adjacent_pages_in_any_order_become_one_span() {
    // The pages come out sorted and merged, so the list is not the one given.
    assert_eq!(
        byte_spans(&[0x3000, 0x1000, 0x2000], 4096),
        Some(vec![(0x1000, 0x4000)])
    );
    assert_eq!(total_bytes(&[(0x1000, 0x4000), (0x8000, 0x9000)]), 0x4000);
    // Spans that touch, repeat or come out of order are summed as they are.
    assert_eq!(total_bytes(&[(0x8000, 0x9000), (0, 0x1000), (0, 0x1000), (5, 5)]), 0x3000);
}

#[test]
fn overlap_of_lists_that_are_no_spans_is_refused_when_it_does_not_fit() {
    let whole = [(0, u64::MAX), (0, u64::MAX), (0, u64::MAX)];
    assert_eq!(overlap_bytes(&whole, &[(0, 1)]), Some(1));
    assert_eq!(overlap_bytes(&[(0, u64::MAX)], &[(0, u64::MAX)]), Some(u64::MAX));
}

#[test]
fn a_footprint_proves_only_distinct_pages_that_reach_its_minimum() {
    let footprint = |pages: Vec<u64>| GuestPageFootprint { pages, page_size: 4096 };
    assert_eq!(
        covered_spans(&footprint(vec![0x1000, 0x2000]), 8192),
        Some(vec![(0x1000, 0x3000)])
    );
    assert!(covered_spans(&footprint(vec![0x1000, 0x2000]), 8193).is_none());
    assert!(covered_spans(&footprint(vec![0x1000, 0x2000]), 0).is_none());
    assert!(covered_spans(&footprint(vec![0x1000, 0x1000]), 4096).is_none());
}

#[test]
fn powers_of_two_are_recognized() {
    for n in [1u64, 2, 4096, 1 << 63] {
        assert!(power_of_two(n));
    }
    for n in [0u64, 3, 6000, u64::MAX] {
        assert!(!power_of_two(n));
    }
}
