use simd_detect::hist::Histogram;
use simd_detect::report::{
    FunctionInfo, density_at_least, filter_nonempty_lines, filter_simd_functions, record_line_ops,
    sort_by_density,
};

fn record(index: u32, simd: u64, total: u64) -> FunctionInfo {
    FunctionInfo {
        index,
        name: None,
        file: None,
        line: None,
        simd_ops_total: simd,
        total_ops: total,
        op_breakdown: Histogram::new(),
    }
}

#[test]
fn density_comparison_is_by_ratio() {
    // 3/4 >= 1/2 >= 1/4
    assert!(density_at_least(&record(0, 3, 4), &record(1, 1, 2)));
    assert!(density_at_least(&record(0, 1, 2), &record(1, 1, 4)));
    assert!(!density_at_least(&record(0, 1, 4), &record(1, 1, 2)));
    // equal ratios in different terms
    assert!(density_at_least(&record(0, 1, 2), &record(1, 2, 4)));
    assert!(density_at_least(&record(0, 2, 4), &record(1, 1, 2)));
}

#[test]
fn sort_orders_by_density_descending() {
    let mut v = vec![record(0, 1, 4), record(1, 3, 4), record(2, 1, 2)];
    sort_by_density(&mut v);
    let order: Vec<u32> = v.iter().map(|f| f.index).collect();
    assert_eq!(order, vec![1, 2, 0]);
}

#[test]
fn filter_keeps_only_functions_with_vector_instructions() {
    let v = vec![record(0, 0, 4), record(1, 2, 4), record(2, 0, 9), record(3, 1, 1)];
    let kept = filter_simd_functions(v);
    let order: Vec<u32> = kept.iter().map(|f| f.index).collect();
    assert_eq!(order, vec![1, 3]);
}

#[test]
fn line_records_accumulate_per_line() {
    let mut lines = Vec::new();
    let mut h1 = Histogram::new();
    h1.bump(0x23);
    h1.bump(0x23);
    let mut h2 = Histogram::new();
    h2.bump(0x23);
    h2.bump(0x6e);
    let file = "lib.rs".to_string();
    record_line_ops(&mut lines, &file, 10, &h1);
    record_line_ops(&mut lines, &file, 10, &h2);
    record_line_ops(&mut lines, &file, 11, &h2);
    assert_eq!(lines.len(), 2);
    let first = &lines[0];
    assert_eq!(first.file, "lib.rs");
    assert_eq!(first.line, 10);
    assert_eq!(first.breakdown.count(0x23), 3);
    assert_eq!(first.breakdown.count(0x6e), 1);
    assert_eq!(first.simd_ops_total, 4);
    let second = &lines[1];
    assert_eq!(second.line, 11);
    assert_eq!(second.simd_ops_total, 2);
}

#[test]
fn empty_line_records_are_dropped() {
    let mut lines = Vec::new();
    let empty = Histogram::new();
    let mut h = Histogram::new();
    h.bump(0x00);
    record_line_ops(&mut lines, &"a.rs".to_string(), 1, &empty);
    record_line_ops(&mut lines, &"b.rs".to_string(), 2, &h);
    assert_eq!(lines.len(), 2);
    let kept = filter_nonempty_lines(lines);
    assert_eq!(kept.len(), 1);
    assert_eq!(kept[0].file, "b.rs");
    assert_eq!(kept[0].simd_ops_total, 1);
}
