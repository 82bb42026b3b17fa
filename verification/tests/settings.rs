use cc_statusline::settings::effort_level;

#[test]
fn effort_level_reads_the_string_field() {
    assert_eq!(effort_level(r#"{"effortLevel":"high","model":"x"}"#), Some("high".to_string()));
    assert_eq!(effort_level(r#"{ "model": "x" }"#), None);
    assert_eq!(effort_level(r#"{"effortLevel":3}"#), None);
    assert_eq!(effort_level(r#"["effortLevel"]"#), None);
    assert_eq!(effort_level("not json"), None);
    assert_eq!(effort_level(""), None);
}
