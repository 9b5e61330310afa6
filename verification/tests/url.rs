use oxide_browser::url::{percent_decode, percent_encode, OxideUrl, UrlError};

#[test]
fn parse_https() {
    let url = OxideUrl::parse("https://example.com/app.wasm").unwrap();
    assert_eq!(url.scheme(), "https");
    assert_eq!(url.host_str(), Some("example.com"));
    assert_eq!(url.path(), "/app.wasm");
}

#[test]
fn bare_hostname_becomes_https() {
    let url = OxideUrl::parse("example.com/app.wasm").unwrap();
    assert_eq!(url.scheme(), "https");
    assert_eq!(url.as_str(), "https://example.com/app.wasm");
}

#[test]
fn resolve_relative() {
    let base = OxideUrl::parse("https://example.com/apps/v1/main.wasm").unwrap();
    let resolved = base.join("../v2/new.wasm").unwrap();
    assert_eq!(resolved.as_str(), "https://example.com/apps/v2/new.wasm");
}

#[test]
fn file_url() {
    let url = OxideUrl::parse("file:///tmp/app.wasm").unwrap();
    assert!(url.is_local_file());
    assert!(!url.is_fetchable());
}

#[test]
fn oxide_internal() {
    let url = OxideUrl::parse("oxide://home").unwrap();
    assert!(url.is_internal());
}

#[test]
fn unsupported_scheme() {
    assert!(OxideUrl::parse("ftp://example.com").is_err());
}

#[test]
fn query_and_fragment() {
    let url = OxideUrl::parse("https://example.com/app.wasm?v=1#section").unwrap();
    assert_eq!(url.query(), Some("v=1"));
    assert_eq!(url.fragment(), Some("section"));
}

#[test]
fn percent_encoding_roundtrip() {
    let original = "hello world";
    let encoded = percent_encode(original);
    let decoded = percent_decode(&encoded);
    assert_eq!(decoded, original);
}

#[test]
fn relative_path_rejected_without_base() {
    assert!(matches!(
        OxideUrl::parse("../other.wasm"),
        Err(UrlError::RelativeRequiresBase)
    ));
}

#[test]
fn empty_input_is_rejected() {
    assert!(matches!(OxideUrl::parse("   "), Err(UrlError::Empty)));
    assert_eq!(UrlError::Empty.message(), "empty URL");
}

#[test]
fn error_messages() {
    match OxideUrl::parse("ftp://example.com") {
        Err(e) => {
            assert!(matches!(e, UrlError::UnsupportedScheme(ref s) if s == "ftp"));
            assert_eq!(e.message(), "unsupported URL scheme: ftp");
        }
        Ok(_) => panic!("ftp must be refused"),
    }
    match OxideUrl::parse("https://exa mple.com") {
        Err(e) => assert!(e.message().starts_with("URL parse error: ")),
        Ok(_) => panic!("space in host must be refused"),
    }
    assert_eq!(
        UrlError::RelativeRequiresBase.message(),
        "relative URL cannot be parsed without a base URL"
    );
}

#[test]
fn percent_encode_exact() {
    assert_eq!(percent_encode("a b/c"), "a%20b%2Fc");
    assert_eq!(percent_encode("é"), "%C3%A9");
    assert_eq!(percent_decode("a%20b%2fc"), "a b/c");
    assert_eq!(percent_decode("100%"), "100%");
}

#[test]
fn same_origin_and_origin_string() {
    let a = OxideUrl::parse("https://example.com/a.wasm").unwrap();
    let b = OxideUrl::parse("https://example.com/b/c.wasm").unwrap();
    let c = OxideUrl::parse("https://example.com:8443/a.wasm").unwrap();
    assert!(a.same_origin(&b));
    assert!(!a.same_origin(&c));
    assert_eq!(a.origin_str(), "https://example.com:443");
    assert_eq!(c.port(), Some(8443));
}

#[test]
fn set_fragment_and_query() {
    let mut u = OxideUrl::parse("https://example.com/app.wasm").unwrap();
    u.set_query(Some("x=1&y=two"));
    u.set_fragment(Some("top"));
    assert_eq!(u.as_str(), "https://example.com/app.wasm?x=1&y=two#top");
    let pairs = u.query_pairs();
    assert_eq!(
        pairs,
        vec![
            ("x".to_string(), "1".to_string()),
            ("y".to_string(), "two".to_string())
        ]
    );
    u.set_fragment(None);
    assert_eq!(u.fragment(), None);
}

#[test]
fn file_url_to_path() {
    let u = OxideUrl::parse("file:///tmp/app.wasm").unwrap();
    assert_eq!(u.to_file_path(), Some(std::path::PathBuf::from("/tmp/app.wasm")));
}

#[test]
fn equality_follows_serialization() {
    let a = OxideUrl::parse("https://example.com/x").unwrap();
    let b = OxideUrl::parse("example.com/x").unwrap();
    assert!(a == b);
    assert_eq!(a.to_string(), "https://example.com/x");
}

#[test]
fn only_local_urls_have_file_paths() {
    assert_eq!(OxideUrl::parse("https://example.com/app.wasm").unwrap().to_file_path(), None);
    assert_eq!(OxideUrl::parse("oxide://home").unwrap().to_file_path(), None);
    assert_eq!(
        OxideUrl::parse("file://localhost/tmp/a.wasm").unwrap().to_file_path(),
        Some(std::path::PathBuf::from("/tmp/a.wasm"))
    );
}

#[test]
fn bare_host_parses_like_https_form() {
    let a = OxideUrl::parse("  example.com/docs?q=1 ").unwrap();
    let b = OxideUrl::parse("https://example.com/docs?q=1").unwrap();
    assert_eq!(a.as_str(), b.as_str());
    assert!(a.is_fetchable() && !a.is_local_file() && !a.is_internal());
}

#[test]
fn same_origin_agrees_with_origin_strings() {
    let a = OxideUrl::parse("https://example.com/x").unwrap();
    let b = OxideUrl::parse("https://example.com:443/y").unwrap();
    let c = OxideUrl::parse("http://example.com/x").unwrap();
    assert!(a.same_origin(&b) && b.same_origin(&a) && a.same_origin(&a));
    assert_eq!(a.origin_str(), b.origin_str());
    assert!(!a.same_origin(&c));
    assert_ne!(a.origin_str(), c.origin_str());
}
