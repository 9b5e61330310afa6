use oxide_browser::json::{find_member, get_field, JsonShallow};

#[test]
fn fields_are_read_one_level_at_a_time() {
    let doc = r#"{"type": "content_block_delta", "delta": {"text": "hi"}, "n": 7, "neg": -2, "f": 1.5, "ok": true, "none": null, "list": [1, "a"]}"#;
    assert!(matches!(get_field(doc, "type"), Some(JsonShallow::Str(s)) if s == "content_block_delta"));
    assert!(matches!(get_field(doc, "n"), Some(JsonShallow::UInt(7))));
    assert!(matches!(get_field(doc, "neg"), Some(JsonShallow::Int(-2))));
    assert!(matches!(get_field(doc, "f"), Some(JsonShallow::Float(t)) if t == "1.5"));
    assert!(matches!(get_field(doc, "ok"), Some(JsonShallow::Bool(true))));
    assert!(matches!(get_field(doc, "none"), Some(JsonShallow::Null)));
    assert!(matches!(get_field(doc, "list"), Some(JsonShallow::Array(v)) if v == vec!["1".to_string(), "\"a\"".to_string()]));
    match get_field(doc, "delta") {
        Some(JsonShallow::Object(ms)) => {
            assert_eq!(find_member(&ms, "text"), Some(&"\"hi\"".to_string()));
            assert_eq!(find_member(&ms, "other"), None);
        }
        _ => panic!("delta is an object"),
    }
    assert!(get_field(doc, "missing").is_none());
    assert!(get_field("[1, 2]", "type").is_none());
    assert!(get_field("not json", "type").is_none());
}
