use simd_detect::hist::{Histogram, sat_add_u64};

#[test]
fn counts_start_at_zero() {
    let h = Histogram::new();
    assert!(h.is_empty());
    assert_eq!(h.count(7), 0);
    assert_eq!(h.total(), 0);
}

#[test]
fn bump_counts_each_key_separately() {
    let mut h = Histogram::new();
    h.bump(1);
    h.bump(2);
    h.bump(1);
    assert_eq!(h.count(1), 2);
    assert_eq!(h.count(2), 1);
    assert_eq!(h.count(3), 0);
    assert_eq!(h.total(), 3);
    assert!(!h.is_empty());
}

#[test]
fn merge_adds_counts() {
    let mut a = Histogram::new();
    a.add_count(1, 5);
    a.add_count(2, 1);
    let mut b = Histogram::new();
    b.add_count(2, 3);
    b.add_count(9, 4);
    a.merge_from(&b);
    assert_eq!(a.count(1), 5);
    assert_eq!(a.count(2), 4);
    assert_eq!(a.count(9), 4);
    assert_eq!(a.total(), 13);
}

#[test]
fn counters_saturate_instead_of_overflowing() {
    assert_eq!(sat_add_u64(u64::MAX - 1, 1), u64::MAX);
    assert_eq!(sat_add_u64(u64::MAX, 1), u64::MAX);
    assert_eq!(sat_add_u64(3, 4), 7);
    let mut h = Histogram::new();
    h.add_count(1, u64::MAX);
    h.bump(1);
    assert_eq!(h.count(1), u64::MAX);
}
