use oxide_browser::storage::SessionStorage;

#[test]
fn session_storage_reads_back_writes() {
    let mut s = SessionStorage::new();
    assert_eq!(s.get("k"), None);
    s.set("k".to_string(), "v1".to_string());
    s.set("other".to_string(), "x".to_string());
    assert_eq!(s.get("k"), Some("v1".to_string()));
    s.set("k".to_string(), "v2".to_string());
    assert_eq!(s.get("k"), Some("v2".to_string()));
    assert_eq!(s.get("other"), Some("x".to_string()));
    s.remove("k");
    assert_eq!(s.get("k"), None);
    assert_eq!(s.get("other"), Some("x".to_string()));
    s.remove("missing");
    s.set("".to_string(), "empty key".to_string());
    assert_eq!(s.get(""), Some("empty key".to_string()));
}
