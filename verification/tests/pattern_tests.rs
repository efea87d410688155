use logr::pattern::build_pattern;

#[test]
fn build_pattern_compiles_valid_regex() {
    let p = build_pattern("ab+c".to_string(), true).expect("pattern build failed");
    assert_eq!(p.pattern, "ab+c");
    assert!(p.case_sensitive);
    assert!(p.is_match(&b"xabbbcy".to_vec()));
    assert!(!p.is_match(&b"ac".to_vec()));
}

#[test]
fn build_pattern_rejects_invalid_regex() {
    let err = build_pattern("(unclosed".to_string(), true).expect_err("should fail");
    assert!(!err.is_empty());
}

#[test]
fn build_pattern_case_modes() {
    let sensitive = build_pattern("foo".to_string(), true).expect("pattern build failed");
    assert!(!sensitive.is_match(&b"FOO".to_vec()));
    let insensitive = build_pattern("foo".to_string(), false).expect("pattern build failed");
    assert!(insensitive.is_match(&b"FOO".to_vec()));
}

#[test]
fn toggle_case_recompiles_same_text() {
    let mut p = build_pattern("foo".to_string(), true).expect("pattern build failed");
    p.toggle_case().expect("toggle failed");
    assert_eq!(p.pattern, "foo");
    assert!(!p.case_sensitive);
    assert!(p.is_match(&b"FoO bar".to_vec()));
}

#[test]
fn invalid_utf8_line_never_matches() {
    let p = build_pattern(".".to_string(), true).expect("pattern build failed");
    assert!(!p.is_match(&vec![0xff, 0xfe]));
}
