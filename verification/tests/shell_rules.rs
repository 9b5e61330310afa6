use oxide_browser::forge::ForgePhase;
use oxide_browser::loader::{
    callback_failure_message, check_wasm_body, check_wasm_headers, check_wasm_status, module_source,
    resolve_wasm_url, start_failure_message, LoadRefusal, ModuleSource, PageStatus, WasmRefusal,
    MAX_WASM_MODULE_SIZE,
};
use oxide_browser::shell::{
    frame_dt_ms, frame_failure_message, synced_url, TabPage,
    bookmark_target, clamp_active_tab, close_tab_plan, format_friendly_timestamp, friendly_age,
    is_downloadable_url, key_code, page_title, phase_label, submit_action, truncate_tab_title,
    try_internal_page, url_to_title, InternalPage, NavAction,
};
use oxide_browser::url_bar::UrlBar;
use oxide_browser::video::{parse_hls_master_variants, resolve_against_base};

#[test]
fn internal_pages() {
    assert_eq!(try_internal_page("oxide://home"), Some(InternalPage::Home));
    assert_eq!(try_internal_page("oxide://forge"), Some(InternalPage::Forge));
    assert_eq!(try_internal_page("oxide://home/"), None);
    assert_eq!(try_internal_page("https://home"), None);
}

#[test]
fn friendly_ages() {
    assert_eq!(friendly_age(0), "Just now");
    assert_eq!(friendly_age(59), "Just now");
    assert_eq!(friendly_age(60), "1 minute ago");
    assert_eq!(friendly_age(150), "2 minutes ago");
    assert_eq!(friendly_age(3600), "1 hour ago");
    assert_eq!(friendly_age(7300), "2 hours ago");
    assert_eq!(friendly_age(86400), "Yesterday");
    assert_eq!(friendly_age(3 * 86400 + 5), "3 days ago");
    // A time in the future reads as now.
    assert_eq!(format_friendly_timestamp(u64::MAX), "Just now");
}

#[test]
fn titles() {
    assert_eq!(url_to_title("(local)"), "Local Module");
    assert_eq!(url_to_title("oxide://about"), "About Oxide");
    assert_eq!(url_to_title("https://example.com/a/b.wasm"), "example.com");
    assert_eq!(url_to_title("http://host:8080"), "host:8080");
    assert_eq!(url_to_title("file:///tmp/dir/app.wasm"), "app.wasm");
    assert_eq!(url_to_title("abcdefghijklmnopqrstuvwxyz"), "abcdefghijklmnopqrst…");
    assert_eq!(url_to_title("short"), "short");
    assert_eq!(truncate_tab_title(&"x".repeat(30)), "x".repeat(30));
    assert_eq!(truncate_tab_title(&"é".repeat(31)), format!("{}…", "é".repeat(30)));
    assert_eq!(page_title(&PageStatus::Idle), "New Tab");
    assert_eq!(page_title(&PageStatus::Loading("u".to_string())), "Loading…");
    assert_eq!(page_title(&PageStatus::Running("https://a.com/x".to_string())), "a.com");
    assert_eq!(page_title(&PageStatus::Error("e".to_string())), "Error");
    assert_eq!(phase_label(ForgePhase::StreamComplete), "ready to build");
    assert_eq!(phase_label(ForgePhase::BuildOk), "build ok");
}

#[test]
fn key_codes() {
    assert_eq!(key_code("a"), Some(0));
    assert_eq!(key_code("z"), Some(25));
    assert_eq!(key_code("0"), Some(26));
    assert_eq!(key_code("9"), Some(35));
    assert_eq!(key_code("enter"), Some(36));
    assert_eq!(key_code("pagedown"), Some(49));
    assert_eq!(key_code("A"), None);
    assert_eq!(key_code("f1"), None);
}

#[test]
fn downloadable_urls() {
    assert!(is_downloadable_url("https://example.com/file.zip"));
    assert!(is_downloadable_url("  http://example.com/a/b/report.PDF?x=1 "));
    assert!(!is_downloadable_url("https://example.com/app.wasm"));
    assert!(!is_downloadable_url("https://example.com/app.WASM"));
    assert!(!is_downloadable_url("https://example.com/apps/"));
    assert!(!is_downloadable_url("https://example.com/apps"));
    assert!(!is_downloadable_url("https://example.com"));
    assert!(!is_downloadable_url("file:///tmp/a.zip"));
    assert!(!is_downloadable_url(""));
    assert!(!is_downloadable_url("not a url.zip"));
}

#[test]
fn submitting_the_url_bar() {
    assert!(matches!(submit_action("   "), NavAction::Nothing));
    assert!(matches!(submit_action(" oxide://history "), NavAction::Internal(InternalPage::History, ref u) if u == "oxide://history"));
    assert!(matches!(submit_action("https://x.com/a.zip"), NavAction::Download(ref u) if u == "https://x.com/a.zip"));
    assert!(matches!(submit_action("https://x.com/app"), NavAction::Load(ref u) if u == "https://x.com/app"));
    assert_eq!(bookmark_target("  https://a.com "), Some("https://a.com".to_string()));
    assert_eq!(bookmark_target("https://"), None);
    assert_eq!(bookmark_target("   "), None);
}

#[test]
fn tab_strip() {
    assert_eq!(clamp_active_tab(0, 5), 0);
    assert_eq!(clamp_active_tab(3, 5), 2);
    assert_eq!(clamp_active_tab(3, 1), 1);
    // The last tab cannot be closed.
    assert_eq!(close_tab_plan(1, 0, 0), (None, 0));
    // Stale index: nothing removed, active clamped.
    assert_eq!(close_tab_plan(3, 7, 5), (None, 2));
    // Closing a tab before the active one shifts it left.
    assert_eq!(close_tab_plan(4, 3, 1), (Some(1), 2));
    // Closing the active last tab selects the new last one.
    assert_eq!(close_tab_plan(3, 2, 2), (Some(2), 1));
    // Closing the active middle tab keeps the index.
    assert_eq!(close_tab_plan(3, 1, 1), (Some(1), 1));
}

#[test]
fn url_bar_editing() {
    let mut b = UrlBar::with_text("héllo");
    assert_eq!(b.cursor(), 5);
    b.key_left(false);
    b.key_left(true);
    assert_eq!(b.selection_range(), (3, 4));
    assert_eq!(b.selected_text(), "l");
    b.insert_at_cursor("LL");
    assert_eq!(b.text(), "hélLLo");
    assert_eq!((b.cursor(), b.anchor()), (5, 5));
    b.backspace();
    b.backspace();
    assert_eq!(b.text(), "hélo");
    b.key_home(false);
    b.delete_forward();
    assert_eq!(b.text(), "élo");
    b.select_all();
    assert_eq!(b.selected_text(), "élo");
    b.insert_at_cursor("new");
    assert_eq!(b.text(), "new");
    b.key_end(true);
    assert!(!b.has_selection());
    b.key_home(true);
    assert_eq!(b.selection_range(), (0, 3));
    b.key_right(false);
    assert_eq!((b.cursor(), b.anchor()), (3, 3));
    b.set_text("a");
    assert_eq!((b.cursor(), b.anchor()), (1, 1));
    b.move_to(10);
    assert_eq!(b.cursor(), 1);
    let mut e = UrlBar::new();
    e.backspace();
    e.delete_forward();
    assert_eq!(e.text(), "");
}

#[test]
fn type_then_backspace_restores() {
    let mut b = UrlBar::with_text("abc");
    b.move_to(1);
    b.insert_at_cursor("x");
    b.backspace();
    assert_eq!(b.text(), "abc");
    assert_eq!(b.cursor(), 1);
}

#[test]
fn wasm_url_resolution() {
    assert_eq!(resolve_wasm_url("https://a.com/app.wasm"), "https://a.com/app.wasm");
    assert_eq!(resolve_wasm_url("https://a.com/app.wasm?v=2#x"), "https://a.com/app.wasm?v=2#x");
    assert_eq!(resolve_wasm_url("  https://a.com/apps/ "), "https://a.com/apps/index.wasm");
    assert_eq!(resolve_wasm_url("https://a.com"), "https://a.com/index.wasm");
    assert_eq!(resolve_wasm_url("a.com/x//"), "a.com/x/index.wasm");
    assert_eq!(resolve_wasm_url("   "), "");
}

#[test]
fn module_sources() {
    assert!(matches!(module_source("https://a.com/x.wasm"), Ok(ModuleSource::Network(ref u)) if u == "https://a.com/x.wasm"));
    assert!(matches!(module_source("file:///tmp/x.wasm"), Ok(ModuleSource::LocalFile(_))));
    match module_source("oxide://home") {
        Err(e) => assert_eq!(e.message(), "oxide:// internal pages are not yet implemented"),
        Ok(_) => panic!("internal pages do not load modules"),
    }
    match module_source("ftp://a.com/x.wasm") {
        Err(LoadRefusal::BadUrl(e)) => assert_eq!(e.message(), "unsupported URL scheme: ftp"),
        _ => panic!("ftp is refused by the URL parser"),
    }
}

#[test]
fn wasm_response_checks() {
    assert!(check_wasm_headers(None, None).is_ok());
    assert!(check_wasm_headers(Some("application/wasm"), Some(10)).is_ok());
    assert!(check_wasm_headers(Some("application/octet-stream; x=y"), None).is_ok());
    assert!(check_wasm_headers(Some(""), None).is_ok());
    match check_wasm_headers(Some("text/html"), Some(1)) {
        Err(e) => assert_eq!(e.message(), "unexpected Content-Type for .wasm module: text/html"),
        Ok(()) => panic!("html must be refused"),
    }
    match check_wasm_headers(None, Some(MAX_WASM_MODULE_SIZE + 1)) {
        Err(e) => assert_eq!(e.message(), "module too large (52428801 bytes, limit is 52428800)"),
        Ok(()) => panic!("too large"),
    }
    assert!(check_wasm_body(MAX_WASM_MODULE_SIZE).is_ok());
    match check_wasm_body(MAX_WASM_MODULE_SIZE + 5) {
        Err(e) => {
            assert!(matches!(e, WasmRefusal::BodyTooLarge(52428805)));
            assert_eq!(e.message(), "module body exceeds size limit (52428805 bytes)");
        }
        Ok(()) => panic!("too large"),
    }
}

#[test]
fn failure_messages() {
    assert_eq!(
        start_failure_message("all fuel consumed by WebAssembly"),
        "Execution halted: fuel limit exceeded (possible infinite loop)"
    );
    assert_eq!(start_failure_message("unreachable"), "Runtime error: unreachable");
    assert_eq!(
        callback_failure_message("on_timer(7)", "out of fuel"),
        "on_timer(7) fuel limit exceeded"
    );
    assert_eq!(
        callback_failure_message("on_event(resize:3)", "trap"),
        "on_event(resize:3) trapped: trap"
    );
}

#[test]
fn hls_variants() {
    let body = "#EXTM3U\n#EXT-X-STREAM-INF:BANDWIDTH=800000\n  low/index.m3u8  \n#EXT-X-STREAM-INF:BANDWIDTH=1400000\n#comment\n#EXT-X-STREAM-INF:BANDWIDTH=2000000\r\nhigh.m3u8\r\n#EXT-X-STREAM-INF:X=1";
    assert_eq!(
        parse_hls_master_variants(body),
        vec!["low/index.m3u8".to_string(), "high.m3u8".to_string()]
    );
    assert!(parse_hls_master_variants("").is_empty());
}

#[test]
fn variant_urls_resolve_against_playlist() {
    assert_eq!(
        resolve_against_base("https://cdn.example.com/v/master.m3u8", "low/index.m3u8"),
        Some("https://cdn.example.com/v/low/index.m3u8".to_string())
    );
    assert_eq!(
        resolve_against_base("https://cdn.example.com/v/master.m3u8", "https://other.com/a.m3u8"),
        Some("https://other.com/a.m3u8".to_string())
    );
    assert_eq!(resolve_against_base("not a base", "x.m3u8"), None);
}

#[test]
fn failed_load_never_enters_history() {
    let mut t = TabPage::new();
    t.begin_load("https://a.example/app.wasm".to_string(), true);
    assert_eq!(t.load_finished(Some("compile error".to_string())), None);
    assert_eq!(t.status, PageStatus::Error("compile error".to_string()));
    assert!(!t.running);
    assert_eq!(t.pending_history_url, None);

    t.begin_load("https://b.example/app.wasm".to_string(), true);
    assert_eq!(t.load_finished(None), Some("https://b.example/app.wasm".to_string()));
    assert!(t.running);
    t.begin_load("https://c.example/app.wasm".to_string(), false);
    assert_eq!(t.load_finished(None), None);
}

#[test]
fn internal_pages_and_frame_failures() {
    let mut t = TabPage::new();
    t.show_internal("oxide://home".to_string(), InternalPage::Home);
    assert_eq!(t.status, PageStatus::Running("oxide://home".to_string()));
    assert_eq!(t.internal_page, Some(InternalPage::Home));
    t.begin_load("https://x.example/a.wasm".to_string(), false);
    assert_eq!(t.internal_page, None);
    t.load_finished(None);
    let msg = t.frame_failed("all fuel consumed");
    assert_eq!(msg, "on_frame halted: fuel limit exceeded");
    assert_eq!(t.status, PageStatus::Error(msg));
    assert!(!t.running);
    assert_eq!(frame_failure_message("unreachable"), "on_frame error: unreachable");
}

#[test]
fn frame_time_and_url_bar_sync() {
    assert_eq!(frame_dt_ms(16), 16);
    assert_eq!(frame_dt_ms(5_000), 100);
    let running = PageStatus::Running("https://a.example".to_string());
    assert_eq!(synced_url(&running, "https://a.example/#x", "https://a.example"), Some("https://a.example/#x".to_string()));
    assert_eq!(synced_url(&running, "https://a.example", "https://a.example"), None);
    assert_eq!(synced_url(&running, "", "https://a.example"), None);
    assert_eq!(synced_url(&PageStatus::Idle, "https://b.example", "x"), None);
}


#[test]
fn non_success_status_refuses_module() {
    assert!(check_wasm_status(200, "200 OK".to_string(), "https://a/x.wasm".to_string()).is_ok());
    assert!(check_wasm_status(204, "204 No Content".to_string(), "u".to_string()).is_ok());
    match check_wasm_status(404, "404 Not Found".to_string(), "https://a/x.wasm".to_string()) {
        Err(e) => assert_eq!(e.message(), "server returned HTTP 404 Not Found for https://a/x.wasm"),
        Ok(()) => panic!("404 is refused"),
    }
    assert!(check_wasm_status(301, "301 Moved Permanently".to_string(), "u".to_string()).is_err());
}
