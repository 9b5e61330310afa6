use std::path::PathBuf;

use oxide_browser::fetch::{DriverEvent, FetchState, RecvResult, FETCH_ABORTED, FETCH_DONE, FETCH_ERROR, FETCH_PENDING, FETCH_STREAMING, RECV_UNKNOWN};
use oxide_browser::forge::{
    next_id_after, normalize_api_key, order_creations, BuildOutcome, ForgeCreationSummary,
    ForgePhase, Session, MAX_AUTO_RETRIES,
};
use oxide_browser::guest_api::{button_flag, format_hint_conflicts, key_flag, modifier_flags, pack_pair};
use oxide_browser::playback::PlaybackClock;

fn session() -> Session {
    Session {
        id: 3,
        slug: "s0000000001-0003".to_string(),
        prompt: "a clock".to_string(),
        code: String::new(),
        phase: ForgePhase::Idle,
        build_log: String::new(),
        artifact_path: None,
        error: None,
        revision: 0,
        project_dir: PathBuf::from("/tmp/forge/s0000000001-0003"),
        retries_used: 0,
        auto_fix: true,
        updated_at_ms: 0,
    }
}

#[test]
fn fetch_table_lifecycle() {
    let mut t = FetchState::new();
    let id = t.begin();
    assert_eq!(id, 1);
    assert_eq!(t.state(id), FETCH_PENDING);
    assert_eq!(t.state(42), FETCH_ERROR);
    assert!(t.on_driver_event(id, DriverEvent::Start));
    assert!(t.on_driver_event(id, DriverEvent::Headers(200)));
    assert_eq!((t.state(id), t.status(id)), (FETCH_STREAMING, 200));
    assert!(t.on_driver_event(id, DriverEvent::Chunk(vec![1, 2, 3])));
    assert!(t.on_driver_event(id, DriverEvent::Chunk(Vec::new())));
    assert!(!t.on_driver_event(id, DriverEvent::End));
    assert_eq!(t.state(id), FETCH_DONE);
    match t.recv(id, 2) {
        RecvResult::Data(d) => assert_eq!(d, vec![1, 2]),
        RecvResult::Sentinel(_) => panic!("data expected"),
    }
    assert!(matches!(t.recv(99, 2), RecvResult::Sentinel(RECV_UNKNOWN)));
    t.remove(id);
    assert!(t.is_aborted(id));
    assert!(!t.on_driver_event(id, DriverEvent::End));
}

#[test]
fn fetch_abort_wins_over_driver() {
    let mut t = FetchState::new();
    let id = t.begin();
    assert!(t.abort(id));
    assert!(!t.abort(7));
    assert_eq!(t.state(id), FETCH_ABORTED);
    assert!(!t.on_driver_event(id, DriverEvent::Headers(200)));
    assert_eq!(t.state(id), FETCH_ABORTED);
    assert_eq!(t.status(id), 0);
    let id2 = t.begin();
    assert!(!t.on_driver_event(id2, DriverEvent::Failed("dns".to_string())));
    assert_eq!(t.state(id2), FETCH_ERROR);
    assert_eq!(t.error(id2).as_deref(), Some("dns"));
}

#[test]
fn playback_clock_rules() {
    let mut c = PlaybackClock::new(10_000);
    assert_eq!(c.current_position_ms(500), 0);
    c.play(1_000);
    assert_eq!(c.current_position_ms(3_500), 2_500);
    assert_eq!(c.current_position_ms(20_000), 10_000);
    c.pause(4_000);
    assert_eq!(c.current_position_ms(9_000), 3_000);
    c.seek(20_000, 9_000);
    assert_eq!(c.base_position_ms, 10_000);
    c.looping = true;
    c.seek(9_000, 0);
    c.play(100);
    assert_eq!(c.current_position_ms(1_600), 500);
    c.reset_playback_clock();
    assert_eq!(c.current_position_ms(5_000), 0);
    let mut unknown = PlaybackClock::new(0);
    unknown.play(0);
    assert_eq!(unknown.current_position_ms(123_456), 123_456);
}

#[test]
fn forge_session_retry_cycle() {
    let mut s = session();
    s.begin_attempt();
    assert_eq!(s.phase, ForgePhase::Streaming);
    s.code = "here:\n```rust\nfn broken(\n```".to_string();
    let code = s.code_to_write();
    assert_eq!(code, "fn broken(");
    s.attempt_written(code);
    assert_eq!(s.phase, ForgePhase::StreamComplete);
    s.begin_build();
    s.build_finished("error: expected `)`".to_string(), BuildOutcome::Failed("cargo exited with 101".to_string()));
    assert_eq!(s.phase, ForgePhase::Error);
    assert_eq!(s.error.as_deref(), Some("cargo exited with 101"));
    let mut retries = 0;
    while let Some(p) = s.next_retry() {
        assert!(p.contains("Original request:\na clock"));
        retries += 1;
        assert!(s.code.is_empty());
    }
    assert_eq!(retries, MAX_AUTO_RETRIES);
    assert_eq!(s.retries_used, MAX_AUTO_RETRIES);
}

#[test]
fn forge_session_build_ok_and_revision() {
    let mut s = session();
    s.code = "fn ok(){}".to_string();
    s.phase = ForgePhase::Building;
    assert_eq!(s.prepare_revision("bigger".to_string()), None);
    s.build_finished(String::new(), BuildOutcome::Exported(PathBuf::from("/tmp/x.wasm")));
    assert_eq!(s.phase, ForgePhase::BuildOk);
    assert_eq!(s.artifact_path, Some(PathBuf::from("/tmp/x.wasm")));
    assert_eq!(s.next_retry(), None);
    let p = s.prepare_revision("bigger".to_string()).unwrap();
    assert!(p.starts_with("Revise this existing Oxide app.\n\nUser change request:\nbigger"));
    assert_eq!(s.prompt, "bigger");
    assert_eq!(s.artifact_path, None);
    assert_eq!(s.retries_used, 0);
    let before = s.revision;
    s.set_auto_fix(false);
    assert!(!s.auto_fix);
    assert_eq!(s.revision, before + 1);
}

#[test]
fn forge_helpers() {
    assert_eq!(normalize_api_key("  sk-123 \n"), Some("sk-123".to_string()));
    assert_eq!(normalize_api_key("   "), None);
    assert_eq!(next_id_after(&[]), Some(1));
    assert_eq!(next_id_after(&[4, 9, 2]), Some(10));
    assert_eq!(next_id_after(&[u64::MAX]), None);
}

#[test]
fn creations_list_newest_first() {
    let item = |id: u64, t: u64| ForgeCreationSummary {
        id,
        slug: format!("s-{id}"),
        prompt: String::new(),
        phase: ForgePhase::BuildOk,
        project_dir: PathBuf::from("/tmp"),
        artifact_path: None,
        updated_at_ms: t,
    };
    let ordered = order_creations(vec![item(1, 10), item(2, 30), item(3, 10), item(4, 20)]);
    let ids: Vec<u64> = ordered.iter().map(|c| c.id).collect();
    assert_eq!(ids, vec![2, 4, 3, 1]);
}

#[test]
fn input_polling_rules() {
    assert_eq!(pack_pair(1, 2), (1u64 << 32) | 2);
    assert_eq!(pack_pair(0x3f80_0000, 0), 0x3f80_0000_0000_0000);
    assert_eq!(modifier_flags(true, false, true), 5);
    assert_eq!(modifier_flags(false, true, false), 2);
    assert_eq!(button_flag(&[false, true, false], 1), 1);
    assert_eq!(button_flag(&[true, true, true], 3), 0);
    assert_eq!(key_flag(&[4, 36], 36), 1);
    assert_eq!(key_flag(&[4, 36], 5), 0);
    assert!(format_hint_conflicts(2, 3));
    assert!(!format_hint_conflicts(2, 2));
    assert!(!format_hint_conflicts(0, 3));
    assert!(!format_hint_conflicts(2, 0));
}
