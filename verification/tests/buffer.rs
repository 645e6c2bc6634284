use simd_detect::buffer::process_bytes;

#[test]
fn test_process_bytes() {
    let input = b"hello";
    let in_len = input.len();
    let out = process_bytes(input);
    assert_eq!(out.len(), in_len);
    assert_eq!(out, b"ifmmp".to_vec()); // h+1, e+1, l+1, l+1, o+1
}

#[test]
fn process_bytes_empty() {
    let out = process_bytes(&[]);
    assert!(out.is_empty());
}

#[test]
fn process_bytes_wraps_at_top() {
    let out = process_bytes(&[0xff, 0x00, 0x7f]);
    assert_eq!(out, vec![0x00, 0x01, 0x80]);
}
