use oxide_browser::forge::{
    artifact_file_name, plan_session_load, saved_metadata_text, session_from_metadata,
    session_metadata, SessionMetadata,
    assemble_system_prompt, is_reference_document, reference_title,
    build_retry_prompt, build_revision_prompt, can_build, delta_from_json, extract_rust_block,
    find_event_boundary, is_busy, make_slug, parse_sse_event, phase_to_str,
    should_auto_retry, slug_for, split_skill_frontmatter, str_to_phase, toml_string,
    truncate_middle, ForgePhase, MAX_AUTO_RETRIES,
};

#[test]
fn extracts_rust_fence() {
    let reply = "Here is your app:\n```rust\nuse oxide_sdk::*;\n```\n";
    assert_eq!(extract_rust_block(reply), "use oxide_sdk::*;");
}

#[test]
fn extracts_plain_fence() {
    let reply = "```\nuse oxide_sdk::*;\n```\nfootnote";
    assert_eq!(extract_rust_block(reply), "use oxide_sdk::*;");
}

#[test]
fn passthrough_when_no_fence() {
    let reply = "use oxide_sdk::*;\nfn main(){}";
    assert_eq!(extract_rust_block(reply), reply.trim());
}

#[test]
fn slug_has_expected_shape() {
    let s = make_slug(42);
    assert!(s.starts_with('s'), "slug was: {s}");
    assert!(s.ends_with("-0042"), "slug was: {s}");
    // `s` + 10 digits of secs + `-` + 4 digits of id = 16 (until epoch >= 10^10).
    assert_eq!(s.len(), 16, "slug was: {s}");
}

#[test]
fn parses_content_block_delta() {
    let event = b"event: content_block_delta\n\
                  data: {\"type\":\"content_block_delta\",\"index\":0,\"delta\":{\"type\":\"text_delta\",\"text\":\"hi\"}}";
    assert_eq!(parse_sse_event(event).as_deref(), Some("hi"));
}

#[test]
fn ignores_ping_events() {
    let event = b"event: ping\ndata: {\"type\":\"ping\"}";
    assert_eq!(parse_sse_event(event), None);
}

#[test]
fn finds_sse_boundary() {
    let buf = b"data: x\n\ndata: y\n\n";
    assert_eq!(find_event_boundary(buf), Some(7));
}

#[test]
fn splits_skill_frontmatter() {
    let doc = "---\nname: demo\ndescription: test\n---\n# Body\ntext\n";
    let (fm, body) = split_skill_frontmatter(doc);
    assert_eq!(fm.as_deref(), Some("name: demo\ndescription: test"));
    assert_eq!(body, "# Body\ntext\n");
}

#[test]
fn missing_frontmatter_passes_through() {
    let doc = "# No frontmatter\n";
    let (fm, body) = split_skill_frontmatter(doc);
    assert!(fm.is_none());
    assert_eq!(body, doc);
}

#[test]
fn crlf_boundary_and_none() {
    assert_eq!(find_event_boundary(b"data: x\r\n\r\nmore"), Some(7));
    assert_eq!(find_event_boundary(b"data: partial\n"), None);
}

#[test]
fn slug_exact_digits() {
    assert_eq!(slug_for(1_700_000_000, 7), "s1700000000-0007");
    assert_eq!(slug_for(5, 12345), "s0000000005-12345");
}

#[test]
fn toml_string_escapes_quotes_and_backslashes() {
    assert_eq!(toml_string(r#"C:\dir\"x""#), r#"C:\\dir\\\"x\""#);
    assert_eq!(toml_string("plain"), "plain");
}

#[test]
fn truncate_middle_keeps_both_ends() {
    assert_eq!(truncate_middle("abcdefghij", 4), "ab\n…[truncated 6 bytes]…\nij");
    assert_eq!(truncate_middle("short", 10), "short");
}

#[test]
fn truncate_middle_respects_char_boundaries() {
    // "é" is two bytes; a cut in its middle moves outward.
    let t = truncate_middle("aéb", 2);
    assert_eq!(t, "a\n…[truncated 2 bytes]…\nb");
}

#[test]
fn retry_prompt_embeds_request_code_and_log() {
    let p = build_retry_prompt("make a clock", "fn x(){}", "error[E0425]");
    assert_eq!(
        p,
        "Your previous attempt at this app did not compile. Fix it.\n\nOriginal request:\nmake a clock\n\nPrevious lib.rs:\n```rust\nfn x(){}\n```\n\nCompiler output:\n```\nerror[E0425]\n```\n\nReply with the complete corrected lib.rs in one ```rust fenced block."
    );
    let r = build_revision_prompt("bigger", "fn y(){}");
    assert_eq!(
        r,
        "Revise this existing Oxide app.\n\nUser change request:\nbigger\n\nCurrent src/lib.rs:\n```rust\nfn y(){}\n```\n\nReply with the complete updated src/lib.rs in one ```rust fenced block."
    );
}

#[test]
fn phase_names_roundtrip() {
    for p in [ForgePhase::StreamComplete, ForgePhase::BuildOk, ForgePhase::Error] {
        assert_eq!(str_to_phase(phase_to_str(p)), p);
    }
    // Busy phases are never restored as busy.
    assert_eq!(str_to_phase("streaming"), ForgePhase::StreamComplete);
    assert_eq!(str_to_phase("building"), ForgePhase::StreamComplete);
}

#[test]
fn phase_rules() {
    assert!(is_busy(ForgePhase::Streaming));
    assert!(is_busy(ForgePhase::Building));
    assert!(!is_busy(ForgePhase::Idle));
    assert!(can_build(ForgePhase::BuildOk));
    assert!(!can_build(ForgePhase::Streaming));
    assert!(should_auto_retry(ForgePhase::Error, true, 0));
    assert!(!should_auto_retry(ForgePhase::Error, true, MAX_AUTO_RETRIES));
    assert!(!should_auto_retry(ForgePhase::Error, false, 0));
    assert!(!should_auto_retry(ForgePhase::BuildOk, true, 0));
}

#[test]
fn delta_needs_content_block_delta() {
    assert_eq!(
        delta_from_json(Some((
            Some("content_block_delta".to_string()),
            Some("hi".to_string())
        ))),
        Some("hi".to_string())
    );
    assert_eq!(
        delta_from_json(Some((Some("message_delta".to_string()), Some("x".to_string())))),
        None
    );
    assert_eq!(
        delta_from_json(Some((Some("content_block_delta".to_string()), None))),
        None
    );
    assert_eq!(delta_from_json(None), None);
}

#[test]
fn system_prompt_joins_body_and_references() {
    let skill = "---\nname: x\n---\n\n  # Skill\nRules.\n";
    let refs = vec![
        ("api".to_string(), "API text\n\n".to_string()),
        ("widgets".to_string(), "W".to_string()),
    ];
    let p = assemble_system_prompt(skill, &refs).unwrap();
    assert_eq!(
        p,
        "# Skill\nRules.\n\n\n---\n\n# Reference: api\n\nAPI text\n\n\n---\n\n# Reference: widgets\n\nW\n"
    );
    assert_eq!(assemble_system_prompt(skill, &[]).unwrap(), "# Skill\nRules.\n");
}

#[test]
fn system_prompt_requires_frontmatter() {
    assert_eq!(assemble_system_prompt("# Skill without frontmatter", &[]), None);
}

#[test]
fn reference_documents_are_markdown_files() {
    assert!(is_reference_document("api.md"));
    assert!(is_reference_document("API.MD"));
    assert!(!is_reference_document("notes.txt"));
    assert!(!is_reference_document("md"));
    assert!(!is_reference_document(".md"));
    assert_eq!(reference_title("widgets.md"), "widgets");
    assert_eq!(reference_title("a.b.md"), "a.b");
}

fn sample_metadata() -> SessionMetadata {
    SessionMetadata {
        id: Some(7),
        slug: Some("snake-game".to_string()),
        prompt: Some("a \"snake\" game\nwith levels".to_string()),
        phase: Some("error".to_string()),
        artifact_path: None,
        updated_at_ms: Some(1_700_000_000_123),
        retries_used: Some(2),
        auto_fix: Some(false),
    }
}

#[test]
fn saved_session_metadata_reads_back() {
    let first = session_from_metadata(sample_metadata(), std::path::PathBuf::from("/tmp/p"), "fn x() {}".to_string(), None, 5).unwrap();
    let text = saved_metadata_text(&first);
    let plan = plan_session_load(&text).unwrap();
    assert_eq!(plan.default_artifact, "snake-game.wasm");
    let back = plan.meta;
    assert_eq!(back.id, Some(7));
    assert_eq!(back.slug.as_deref(), Some("snake-game"));
    assert_eq!(back.prompt.as_deref(), Some("a \"snake\" game\nwith levels"));
    assert_eq!(back.phase.as_deref(), Some("error"));
    assert_eq!(back.artifact_path, None);
    assert_eq!(back.updated_at_ms, Some(1_700_000_000_123));
    assert_eq!(back.retries_used, Some(2));
    assert_eq!(back.auto_fix, Some(false));

    let s = session_from_metadata(back, std::path::PathBuf::from("/tmp/p"), "fn x() {}".to_string(), None, 5).unwrap();
    assert_eq!(s.id, 7);
    assert_eq!(s.phase, ForgePhase::Error);
    assert_eq!(s.retries_used, 2);
    assert!(!s.auto_fix);
    assert_eq!(s.updated_at_ms, 1_700_000_000_123);
    assert_eq!(s.code, "fn x() {}");

    let again = session_metadata(&s);
    assert_eq!(again.phase.as_deref(), Some("error"));
    assert_eq!(again.slug.as_deref(), Some("snake-game"));
}

#[test]
fn session_metadata_defaults() {
    assert!(plan_session_load("not json").is_none());
    assert!(plan_session_load("{\"id\": 3}").is_none());
    assert!(plan_session_load("{\"slug\": \"x\"}").is_none());
    let m = plan_session_load("{\"id\": 3, \"slug\": \"x\", \"phase\": \"building\", \"retries_used\": \"two\"}").unwrap().meta;
    assert_eq!(m.retries_used, None);
    let art = Some(std::path::PathBuf::from("/tmp/p/x.wasm"));
    let s = session_from_metadata(m.clone(), std::path::PathBuf::from("/tmp/p"), String::new(), None, 99).unwrap();
    assert_eq!(s.prompt, "");
    assert_eq!(s.phase, ForgePhase::StreamComplete);
    assert_eq!(s.retries_used, 0);
    assert!(s.auto_fix);
    assert_eq!(s.updated_at_ms, 99);
    let built = session_from_metadata(m, std::path::PathBuf::from("/tmp/p"), String::new(), art.clone(), 99).unwrap();
    assert_eq!(built.phase, ForgePhase::BuildOk);
    assert_eq!(built.artifact_path, art);
    let mut no_slug = sample_metadata();
    no_slug.slug = None;
    assert!(session_from_metadata(no_slug, std::path::PathBuf::from("/tmp/p"), String::new(), None, 0).is_none());
    let big = plan_session_load("{\"id\": 3, \"slug\": \"x\", \"retries_used\": 4294967297}").unwrap().meta;
    let s = session_from_metadata(big, std::path::PathBuf::from("/tmp/p"), String::new(), None, 0).unwrap();
    assert_eq!(s.retries_used, 1);
    assert_eq!(artifact_file_name("x"), "x.wasm");
}
