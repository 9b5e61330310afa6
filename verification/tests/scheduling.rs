use oxide_browser::gpu_resources::{GpuState, ResourceKind, MAX_BUFFER_SIZE, MAX_TEXTURE_DIM};
use oxide_browser::guest_api::{
    copy_len, current_state, guest_range, kv_key, navigate_target, push_state, replace_state,
    resolve_for_page, state_url, url_resolve,
};
use oxide_browser::navigation::{HistoryEntry, NavigationStack};
use oxide_browser::sandbox::SandboxPolicy;
use oxide_browser::timers::Scheduler;

#[test]
fn timeouts_fire_once_intervals_repeat() {
    let mut s = Scheduler::new();
    let t1 = s.set_timeout(10, 100, 1000);
    let t2 = s.set_interval(20, 50, 1000);
    assert_eq!((t1, t2), (1, 2));
    assert!(s.drain_expired_timers(1049).is_empty());
    assert_eq!(s.drain_expired_timers(1050), vec![20]);
    assert_eq!(s.drain_expired_timers(1100), vec![10, 20]);
    assert_eq!(s.drain_expired_timers(1100), Vec::<u32>::new());
    assert_eq!(s.drain_expired_timers(1150), vec![20]);
    s.clear_timer(t2);
    assert!(s.drain_expired_timers(10_000).is_empty());
}

#[test]
fn swap_remove_order_of_firing() {
    let mut s = Scheduler::new();
    s.set_timeout(1, 0, 0);
    s.set_timeout(2, 0, 0);
    s.set_timeout(3, 0, 0);
    // The first fired one-shot is replaced by the last entry, which is
    // looked at next.
    assert_eq!(s.drain_expired_timers(0), vec![1, 3, 2]);
}

#[test]
fn animation_frames_are_one_shot() {
    let mut s = Scheduler::new();
    let a = s.request_animation_frame(7);
    let b = s.request_animation_frame(8);
    let c = s.request_animation_frame(9);
    s.cancel_animation_frame(b);
    assert_eq!(s.drain_animation_frame_requests(), vec![7, 9]);
    assert!(s.drain_animation_frame_requests().is_empty());
    assert_eq!((a, c), (1, 3));
    // Timers and frames share one id counter.
    assert_eq!(s.set_timeout(1, 1, 0), 4);
}

#[test]
fn guest_memory_ranges() {
    assert_eq!(guest_range(10, 5, 15), Some((10, 15)));
    assert_eq!(guest_range(10, 6, 15), None);
    assert_eq!(guest_range(u32::MAX, u32::MAX, usize::MAX), Some((u32::MAX as usize, u32::MAX as usize * 2)));
    assert_eq!(copy_len(10, 4), 4);
    assert_eq!(copy_len(3, 4), 3);
}

#[test]
fn page_scoped_keys_and_urls() {
    assert_eq!(kv_key("https://a.com/app.wasm", "score"), "https://a.com/app.wasm::score");
    assert_eq!(
        resolve_for_page("https://a.com/apps/main.wasm", "other.wasm"),
        "https://a.com/apps/other.wasm"
    );
    assert_eq!(resolve_for_page("", "other.wasm"), "other.wasm");
    assert_eq!(resolve_for_page("::bad::", "x"), "x");
    assert_eq!(
        navigate_target("https://a.com/apps/main.wasm", "../b.wasm"),
        Some("https://a.com/b.wasm".to_string())
    );
    assert_eq!(navigate_target("", "../b.wasm"), None);
    assert_eq!(state_url("https://a.com/x", ""), "https://a.com/x");
    assert_eq!(state_url("https://a.com/x", "?page=2"), "https://a.com/x?page=2");
    assert_eq!(url_resolve("https://a.com/d/", "e.wasm"), Ok("https://a.com/d/e.wasm".to_string()));
    assert_eq!(url_resolve("/relative", "e.wasm"), Err(-1));
}

#[test]
fn push_and_replace_state() {
    let mut nav = NavigationStack::new();
    let mut cur = "https://a.com/app.wasm".to_string();
    nav.push(HistoryEntry::new(&cur));
    push_state(&mut nav, &mut cur, vec![1], "Two", "#two");
    assert_eq!(cur, "https://a.com/app.wasm#two");
    assert_eq!(nav.len(), 2);
    assert_eq!(nav.current().unwrap().title, "Two");
    assert_eq!(current_state(&nav), Some(vec![1]));
    replace_state(&mut nav, &mut cur, Vec::new(), "Three", "");
    assert_eq!(nav.len(), 2);
    assert_eq!(nav.current().unwrap().url, "https://a.com/app.wasm#two");
    assert_eq!(current_state(&nav), None);
}

#[test]
fn gpu_handles_and_limits() {
    let mut g = GpuState::new();
    assert_eq!(g.create_buffer(0), 0);
    assert_eq!(g.create_buffer(MAX_BUFFER_SIZE + 1), 0);
    let buf = g.create_buffer(16);
    assert_eq!(buf, 1);
    assert_eq!(g.create_texture(MAX_TEXTURE_DIM + 1, 1), 0);
    let tex = g.create_texture(64, 64);
    let sh = g.create_shader();
    assert_eq!(g.create_render_pipeline(buf), 0);
    let rp = g.create_render_pipeline(sh);
    let cp = g.create_compute_pipeline(sh);
    assert_eq!((tex, sh, rp, cp), (2, 3, 4, 5));
    assert!(g.draw(rp, tex));
    assert!(!g.draw(cp, tex));
    assert!(!g.draw(rp, buf));
    assert!(g.dispatch_compute(cp));
    assert!(!g.dispatch_compute(rp));
    assert!(g.write_buffer(buf));
    assert!(!g.write_buffer(tex));
    assert!(g.has_kind(cp, ResourceKind::ComputePipeline));
    assert!(!g.destroy_buffer(tex));
    assert!(g.destroy_texture(tex));
    assert!(!g.draw(rp, tex));
}

#[test]
fn default_sandbox_policy() {
    let p = SandboxPolicy::default();
    assert_eq!(p.max_memory_pages, 4096);
    assert_eq!(p.fuel_limit, 500_000_000);
    assert_eq!(p.max_memory_bytes(), 256 * 1024 * 1024);
    assert!(!p.allow_filesystem && !p.allow_env_vars && !p.allow_network_sockets);
}

#[test]
fn late_drain_advances_interval_from_its_fire_time() {
    let mut s = Scheduler::new();
    s.set_interval(5, 10, 0);
    assert_eq!(s.drain_expired_timers(25), vec![5]);
    // Due at 10, advanced by 10: due again at 20, already passed.
    assert_eq!(s.drain_expired_timers(25), vec![5]);
    assert!(s.drain_expired_timers(25).is_empty());
    assert_eq!(s.drain_expired_timers(30), vec![5]);
}
