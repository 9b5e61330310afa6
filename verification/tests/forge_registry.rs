use std::path::PathBuf;

use oxide_browser::forge::{ForgePhase, Session};
use oxide_browser::forge_registry::{new_session, ForgeRefusal, ForgeRegistry};

fn session(id: u64, phase: ForgePhase) -> Session {
    Session {
        id,
        slug: format!("app-{id}"),
        prompt: "p".to_string(),
        code: "fn main() {}".to_string(),
        phase,
        build_log: String::new(),
        artifact_path: None,
        error: None,
        revision: 0,
        project_dir: PathBuf::from(format!("/tmp/forge/app-{id}")),
        retries_used: 2,
        auto_fix: true,
        updated_at_ms: 10,
    }
}

#[test]
fn loaded_creations_and_new_ids() {
    let r = ForgeRegistry::from_loaded(vec![session(4, ForgePhase::BuildOk), session(9, ForgePhase::Error)]);
    assert!(r.snapshot(4).is_some() && r.snapshot(9).is_some() && r.snapshot(5).is_none());
    let mut r = r;
    assert_eq!(r.allocate_id(), 10);
    assert_eq!(r.allocate_id(), 11);
    let mut e = ForgeRegistry::new();
    assert_eq!(e.allocate_id(), 1);
}

#[test]
fn requests_on_creations() {
    let mut r = ForgeRegistry::new();
    r.insert(session(1, ForgePhase::Streaming));
    r.insert(session(2, ForgePhase::StreamComplete));
    assert_eq!(r.revise(7, "x".to_string()), Err(ForgeRefusal::Unknown(7)));
    assert_eq!(r.revise(1, "x".to_string()), Err(ForgeRefusal::Busy(1, ForgePhase::Streaming)));
    let p = r.revise(2, "bigger".to_string()).unwrap();
    assert!(p.starts_with("Revise this existing Oxide app."));
    let s = r.snapshot(2).unwrap();
    assert_eq!(s.prompt, "bigger");
    assert_eq!(s.retries_used, 0);
    assert_eq!(r.check_buildable(2), Ok(()));
    assert_eq!(r.check_buildable(1), Err(ForgeRefusal::NotReady(1, ForgePhase::Streaming)));
    assert_eq!(r.check_buildable(3), Err(ForgeRefusal::Unknown(3)));
    r.set_auto_fix(2, false);
    assert!(!r.snapshot(2).unwrap().auto_fix);
    assert_eq!(r.delete(1), Err(ForgeRefusal::Busy(1, ForgePhase::Streaming)));
    assert_eq!(r.delete(2), Ok(PathBuf::from("/tmp/forge/app-2")));
    assert!(r.snapshot(2).is_none());
    assert_eq!(ForgeRefusal::Unknown(7).message(), "unknown forge session 7");
    assert_eq!(ForgeRefusal::Busy(1, ForgePhase::Building).message(), "session 1 is busy (phase=Building)");
    assert_eq!(
        ForgeRefusal::NotReady(3, ForgePhase::Idle).message(),
        "session 3 is not ready to build (phase=Idle)"
    );
}

#[test]
fn starting_a_creation() {
    let mut r = ForgeRegistry::new();
    let (id, slug) = r.allocate_creation();
    assert_eq!(id, 1);
    assert!(slug.starts_with('s') && slug.ends_with("-0001") && slug.len() == 16);
    let s = new_session(id, slug.clone(), "make a game".to_string(), PathBuf::from("/tmp/f").join(&slug), 42);
    assert_eq!(s.phase, ForgePhase::Idle);
    assert!(s.auto_fix && s.code.is_empty() && s.retries_used == 0 && s.updated_at_ms == 42);
    r.insert(s);
    assert_eq!(r.snapshot(1).unwrap().prompt, "make a game");
    assert_eq!(r.allocate_creation().0, 2);
}
