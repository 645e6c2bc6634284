use simd_detect::names::FuncNames;

#[test]
fn names_lookup_and_replace() {
    let mut names = FuncNames::new();
    assert_eq!(names.get(0), None);
    names.insert(0, "first".to_string());
    names.insert(7, "seventh".to_string());
    assert_eq!(names.get(0), Some("first".to_string()));
    assert_eq!(names.get(7), Some("seventh".to_string()));
    assert_eq!(names.get(3), None);
    names.insert(0, "renamed".to_string());
    assert_eq!(names.get(0), Some("renamed".to_string()));
    assert_eq!(names.get(7), Some("seventh".to_string()));
}
