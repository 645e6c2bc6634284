use simd_detect::scan::analyze_function;

#[test]
fn tallies_mixed_instruction_stream() {
    // two v128.load, one v128.store, two plain instructions
    let ops: Vec<(u8, u32)> = vec![
        (0xfd, 0x00),
        (0x20, 0),
        (0xfd, 0x0b),
        (0xfd, 0x00),
        (0x0b, 0),
    ];
    let (total, simd, breakdown) = analyze_function(&ops);
    assert_eq!(total, 5);
    assert_eq!(simd, 3);
    assert_eq!(breakdown.count(0x00), 2);
    assert_eq!(breakdown.count(0x0b), 1);
    assert_eq!(breakdown.count(0x23), 0);
    assert_eq!(breakdown.total(), 3);
}

#[test]
fn tallies_empty_stream() {
    let ops: Vec<(u8, u32)> = Vec::new();
    let (total, simd, breakdown) = analyze_function(&ops);
    assert_eq!(total, 0);
    assert_eq!(simd, 0);
    assert!(breakdown.is_empty());
}

#[test]
fn sub_opcode_matters_only_behind_the_prefix() {
    // a plain instruction whose second component happens to be a table code
    let ops: Vec<(u8, u32)> = vec![(0x41, 0x00), (0x41, 0x0b)];
    let (total, simd, breakdown) = analyze_function(&ops);
    assert_eq!(total, 2);
    assert_eq!(simd, 0);
    assert_eq!(breakdown.count(0x0b), 0);
}
