use sha2::Digest;
use simd_detect::analyze::analyze_wasm;
use simd_detect::classify::classify_simd_op;
use simd_detect::dwarf::DebugContext;
use simd_detect::names::parse_name_section;

fn section(id: u8, content: &[u8]) -> Vec<u8> {
    // section sizes in these fixtures stay below 128, one LEB byte
    assert!(content.len() < 128);
    let mut out = vec![id, content.len() as u8];
    out.extend_from_slice(content);
    out
}

/// A minimal two-function module: the first function holds one vector
/// instruction among four, the second holds none; a name section names
/// them "f" and "g".
fn tiny_module() -> Vec<u8> {
    let mut bytes = vec![0x00, 0x61, 0x73, 0x6d, 0x01, 0x00, 0x00, 0x00];
    // one type: () -> ()
    bytes.extend(section(1, &[0x01, 0x60, 0x00, 0x00]));
    // two functions of that type
    bytes.extend(section(3, &[0x02, 0x00, 0x00]));
    // code: f = i32.const 0; i8x16.eq; drop; end -- g = nop; end
    let body_f = [0x07, 0x00, 0x41, 0x00, 0xfd, 0x23, 0x1a, 0x0b];
    let body_g = [0x03, 0x00, 0x01, 0x0b];
    let mut code = vec![0x02];
    code.extend_from_slice(&body_f);
    code.extend_from_slice(&body_g);
    bytes.extend(section(10, &code));
    // name section: function names f and g
    let names = [
        0x04, b'n', b'a', b'm', b'e', // custom section name
        0x01, 0x07, // function-name subsection, 7 bytes
        0x02, 0x00, 0x01, b'f', 0x01, 0x01, b'g',
    ];
    bytes.extend(section(0, &names));
    bytes
}

#[test]
fn analyzes_tiny_module() {
    let bytes = tiny_module();
    let ctx = DebugContext::from_wasm_bytes(&bytes);
    let report = analyze_wasm(&bytes, "test".to_string(), "tiny.wasm".to_string(), ctx.as_ref())
        .expect("the module parses");

    assert_eq!(report.variant, "test");
    assert_eq!(report.wasm_path, "tiny.wasm");
    assert_eq!(report.wasm_size, bytes.len());
    let expected_hash = hex::encode(&sha2::Sha256::digest(&bytes)[..8]);
    assert_eq!(report.wasm_hash, expected_hash);

    // f: i32.const, i8x16.eq, drop, end; g: nop, end
    assert_eq!(report.total_ops, 6);
    assert_eq!(report.total_simd_ops, 1);

    // only f shows up, and under its name
    assert_eq!(report.functions.len(), 1);
    let f = &report.functions[0];
    assert_eq!(f.index, 0);
    assert_eq!(f.name, Some("f".to_string()));
    assert_eq!(f.total_ops, 4);
    assert_eq!(f.simd_ops_total, 1);
    assert_eq!(f.op_breakdown.count(0x23), 1);
    assert_eq!(classify_simd_op(0xfd, 0x23), Some("i8x16.eq"));

    assert_eq!(report.opcode_summary.count(0x23), 1);
    assert_eq!(report.opcode_summary.count(0x00), 0);
    assert_eq!(report.opcode_summary.total(), report.total_simd_ops);

    // the module carries no debug information
    assert!(report.lines.is_empty());
}

#[test]
fn reads_function_names() {
    let bytes = tiny_module();
    let names = parse_name_section(&bytes);
    assert_eq!(names.get(0), Some("f".to_string()));
    assert_eq!(names.get(1), Some("g".to_string()));
    assert_eq!(names.get(2), None);
}

#[test]
fn rejects_garbage_input() {
    let result = analyze_wasm(&[0xde, 0xad, 0xbe, 0xef], "x".to_string(), "y".to_string(), None);
    assert!(result.is_err());
}

#[test]
fn empty_module_yields_empty_report() {
    let bytes = vec![0x00, 0x61, 0x73, 0x6d, 0x01, 0x00, 0x00, 0x00];
    let report = analyze_wasm(&bytes, "v".to_string(), "empty.wasm".to_string(), None)
        .expect("a bare header parses");
    assert_eq!(report.total_ops, 0);
    assert_eq!(report.total_simd_ops, 0);
    assert!(report.functions.is_empty());
    assert!(report.lines.is_empty());
    assert_eq!(report.wasm_size, 8);
}
