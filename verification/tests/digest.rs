use sha2::Digest;
use simd_detect::digest::wasm_hash_label;

#[test]
fn hash_label_of_empty_input() {
    // the first eight bytes of SHA-256 of the empty string
    assert_eq!(wasm_hash_label(&[]), "e3b0c44298fc1c14".to_string());
}

#[test]
fn hash_label_matches_direct_computation() {
    let data = b"abc";
    let expected = hex::encode(&sha2::Sha256::digest(data)[..8]);
    assert_eq!(wasm_hash_label(data), expected);
    assert_eq!(wasm_hash_label(data), "ba7816bf8f01cfea".to_string());
}

#[test]
fn hash_label_is_sixteen_lowercase_hex_digits() {
    let label = wasm_hash_label(b"some module bytes");
    assert_eq!(label.len(), 16);
    assert!(label.chars().all(|c| c.is_ascii_hexdigit() && !c.is_ascii_uppercase()));
}
