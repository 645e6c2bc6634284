use simd_detect::leb::insn_at;

#[test]
fn decodes_plain_opcode() {
    let bytes = [0x20u8, 0x00];
    assert_eq!(insn_at(&bytes, 0), (0x20, 0));
}

#[test]
fn decodes_vector_opcode_single_byte() {
    let bytes = [0xfdu8, 0x23];
    assert_eq!(insn_at(&bytes, 0), (0xfd, 0x23));
}

#[test]
fn decodes_vector_opcode_multi_byte() {
    // 0x80 0x01 is the two-byte LEB128 encoding of 0x80
    let bytes = [0xfdu8, 0x80, 0x01];
    assert_eq!(insn_at(&bytes, 0), (0xfd, 0x80));
    // 0x80 0x02 encodes 0x100
    let bytes = [0xfdu8, 0x80, 0x02];
    assert_eq!(insn_at(&bytes, 0), (0xfd, 0x100));
}

#[test]
fn out_of_range_position_is_null() {
    let bytes = [0xfdu8, 0x23];
    assert_eq!(insn_at(&bytes, 2), (0, 0));
    assert_eq!(insn_at(&bytes, u64::MAX), (0, 0));
}

#[test]
fn truncated_sub_opcode_is_null() {
    // the prefix byte ends the buffer
    let bytes = [0xfdu8];
    assert_eq!(insn_at(&bytes, 0), (0, 0));
    // a continuation bit with nothing after it
    let bytes = [0xfdu8, 0x80];
    assert_eq!(insn_at(&bytes, 0), (0, 0));
}
