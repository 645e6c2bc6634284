use simd_detect::classify::classify_simd_op;

#[test]
fn classifies_known_vector_opcodes() {
    assert_eq!(classify_simd_op(0xfd, 0x00), Some("v128.load"));
    assert_eq!(classify_simd_op(0xfd, 0x0b), Some("v128.store"));
    assert_eq!(classify_simd_op(0xfd, 0x23), Some("i8x16.eq"));
    assert_eq!(classify_simd_op(0xfd, 0x6e), Some("i8x16.add"));
    assert_eq!(classify_simd_op(0xfd, 0x80), Some("i16x8.abs"));
    assert_eq!(classify_simd_op(0xfd, 0xff), Some("f64x2.convert_low_i32x4_u"));
}

#[test]
fn leaves_gaps_unclassified() {
    // holes in the vector opcode space
    for code in [0x9a, 0xa2, 0xa5, 0xa6, 0xaf, 0xb0, 0xc2, 0xee] {
        assert_eq!(classify_simd_op(0xfd, code), None);
    }
}

#[test]
fn leaves_other_prefixes_unclassified() {
    assert_eq!(classify_simd_op(0x20, 0x00), None);
    assert_eq!(classify_simd_op(0x00, 0x00), None);
    assert_eq!(classify_simd_op(0xfc, 0x0b), None);
}

#[test]
fn leaves_extensions_above_the_table_unclassified() {
    assert_eq!(classify_simd_op(0xfd, 0x100), None);
    assert_eq!(classify_simd_op(0xfd, 0x113), None);
    assert_eq!(classify_simd_op(0xfd, u32::MAX), None);
}

#[test]
fn table_has_expected_size() {
    let mut named = 0;
    for code in 0..0x200u32 {
        if classify_simd_op(0xfd, code).is_some() {
            named += 1;
        }
    }
    assert_eq!(named, 236);
}
