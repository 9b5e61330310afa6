use std::collections::VecDeque;
use std::path::PathBuf;

use oxide_browser::events::{
    drop_files_event, encode_button, encode_xy, EventState, FrameInput, PendingEvent,
    MAX_QUEUED_EVENTS, ONLINE_NO, ONLINE_UNKNOWN, ONLINE_YES,
};
use oxide_browser::fetch::{FetchInner, RecvResult, FETCH_ABORTED, FETCH_DONE, FETCH_PENDING, RECV_EOF, RECV_ERROR, RECV_PENDING};
use oxide_browser::file_picker::{
    handle_bytes, json_escape, metadata_json, mime_for_extension, parse_extension_filters,
    FilePickerState, FolderChild,
};
use oxide_browser::handles::advance_handle;
use oxide_browser::midi::{enqueue_messages, peek_len, recv, MidiState, MAX_QUEUED_MESSAGES};

fn frame(size: (u32, u32), focused: bool, down: bool, online: u8) -> FrameInput {
    FrameInput {
        canvas_size: size,
        focused,
        mouse_down: down,
        mouse_bits: (0, 0),
        mouse_moved: false,
        online_raw: online,
        gamepad: Vec::new(),
    }
}

fn ev(t: &str, data: &[u8]) -> PendingEvent {
    PendingEvent {
        event_type: t.to_string(),
        data: data.to_vec(),
    }
}

#[test]
fn events_need_a_listener() {
    let mut s = EventState::new();
    s.enqueue(ev("custom", b"x"));
    let out = s.drain_pending_events(frame((10, 10), true, false, ONLINE_UNKNOWN));
    assert!(out.is_empty());

    let added = s.add_listener("custom".to_string(), 77);
    assert_eq!(added.listener_id, 1);
    s.enqueue(ev("custom", b"x"));
    let out = s.drain_pending_events(frame((10, 10), true, false, ONLINE_UNKNOWN));
    assert_eq!(out, vec![(77, "custom".to_string(), b"x".to_vec())]);
}

#[test]
fn one_dispatch_per_listener_in_order() {
    let mut s = EventState::new();
    s.add_listener("tick".to_string(), 1);
    s.add_listener("other".to_string(), 2);
    let third = s.add_listener("tick".to_string(), 3);
    s.enqueue(ev("tick", b""));
    let out = s.drain_pending_events(frame((1, 1), true, false, ONLINE_UNKNOWN));
    let cbs: Vec<u32> = out.iter().map(|d| d.0).collect();
    assert_eq!(cbs, vec![1, 3]);
    assert!(s.remove_listener(third.listener_id));
    assert!(!s.remove_listener(third.listener_id));
    s.enqueue(ev("tick", b""));
    let out = s.drain_pending_events(frame((1, 1), true, false, ONLINE_UNKNOWN));
    assert_eq!(out.len(), 1);
}

#[test]
fn builtin_detectors_fire_on_changes() {
    let mut s = EventState::new();
    for t in ["resize", "focus", "blur", "visibility_change", "touch_start", "touch_end", "online", "offline"] {
        s.add_listener(t.to_string(), 9);
    }
    // First frame only records the baseline.
    assert!(s
        .drain_pending_events(frame((100, 50), true, false, ONLINE_YES))
        .is_empty());
    let out = s.drain_pending_events(frame((200, 50), false, true, ONLINE_NO));
    let types: Vec<&str> = out.iter().map(|d| d.1.as_str()).collect();
    assert_eq!(
        types,
        vec!["resize", "blur", "visibility_change", "touch_start", "offline"]
    );
    let mut resize = 200u32.to_le_bytes().to_vec();
    resize.extend_from_slice(&50u32.to_le_bytes());
    assert_eq!(out[0].2, resize);
    assert_eq!(out[2].2, b"hidden".to_vec());
    assert_eq!(out[3].2, vec![0u8; 8]);
    let out = s.drain_pending_events(frame((200, 50), true, false, ONLINE_UNKNOWN));
    let types: Vec<&str> = out.iter().map(|d| d.1.as_str()).collect();
    assert_eq!(types, vec!["focus", "visibility_change", "touch_end"]);
    assert_eq!(out[1].2, b"visible".to_vec());
}

#[test]
fn queue_drops_oldest_when_full() {
    let mut s = EventState::new();
    s.add_listener("n".to_string(), 1);
    for i in 0..(MAX_QUEUED_EVENTS as u32 + 3) {
        s.enqueue(ev("n", &i.to_le_bytes()));
    }
    let out = s.drain_pending_events(frame((1, 1), true, false, ONLINE_UNKNOWN));
    assert_eq!(out.len(), MAX_QUEUED_EVENTS);
    assert_eq!(out[0].2, 3u32.to_le_bytes().to_vec());
}

#[test]
fn listeners_start_producers_once() {
    let mut s = EventState::new();
    let a = s.add_listener("online".to_string(), 1);
    assert!(a.start_online_checker);
    let b = s.add_listener("offline".to_string(), 2);
    assert!(!b.start_online_checker);
    let c = s.add_listener("gamepad_button".to_string(), 3);
    assert!(c.start_gamepad_poll);
    let d = s.add_listener("gamepad_axis".to_string(), 4);
    assert!(!d.start_gamepad_poll);
}

#[test]
fn gamepad_events_follow_builtins() {
    let mut s = EventState::new();
    s.add_listener("gamepad_button".to_string(), 5);
    let mut f = frame((1, 1), true, false, ONLINE_UNKNOWN);
    f.gamepad = vec![ev("gamepad_button", &encode_button(0, 2, true))];
    let out = s.drain_pending_events(f);
    assert_eq!(out.len(), 1);
    assert_eq!(out[0].2, vec![0, 0, 0, 0, 2, 0, 0, 0, 1, 0, 0, 0]);
}

#[test]
fn current_event_and_payload_helpers() {
    let mut s = EventState::default();
    s.set_current_event("drop_files".to_string(), vec![1, 2]);
    assert_eq!(s.current_event_type(), "drop_files");
    assert_eq!(s.current_event_data(), &[1, 2]);
    assert_eq!(encode_xy((1, 2)), vec![1, 0, 0, 0, 2, 0, 0, 0]);
    let e = drop_files_event(&["/tmp/a \"b\".txt".to_string(), "/c".to_string()]);
    assert_eq!(e.event_type, "drop_files");
    assert_eq!(
        String::from_utf8(e.data).unwrap(),
        "[\"/tmp/a \\\"b\\\".txt\",\"/c\"]"
    );
}

#[test]
fn midi_splits_packets() {
    let mut q = VecDeque::new();
    enqueue_messages(&[0x10, 0x90, 60, 100, 0x80, 60, 0, 0xC0, 5, 0xF0, 1, 2, 0xF7, 0xF8, 0x90, 61], &mut q);
    let msgs: Vec<Vec<u8>> = q.iter().cloned().collect();
    assert_eq!(
        msgs,
        vec![
            vec![0x90, 60, 100],
            vec![0x80, 60, 0],
            vec![0xC0, 5],
            vec![0xF0, 1, 2, 0xF7],
            vec![0xF8],
            vec![0x90, 61],
        ]
    );
    assert_eq!(peek_len(&q), Some(3));
    assert_eq!(recv(&mut q), Some(vec![0x90, 60, 100]));
    assert_eq!(q.len(), 5);
}

#[test]
fn midi_queue_is_bounded() {
    let mut q = VecDeque::new();
    for _ in 0..(MAX_QUEUED_MESSAGES + 2) {
        enqueue_messages(&[0xF8], &mut q);
    }
    assert_eq!(q.len(), MAX_QUEUED_MESSAGES);
    let mut empty = VecDeque::new();
    assert_eq!(peek_len(&empty), None);
    assert_eq!(recv(&mut empty), None);
}

#[test]
fn fetch_recv_splits_chunks_and_reports_state() {
    let mut f = FetchInner::new();
    assert!(matches!(f.recv(4), RecvResult::Sentinel(RECV_PENDING)));
    f.chunks.push_back(vec![1, 2, 3, 4, 5, 6]);
    f.chunks.push_back(vec![7]);
    match f.recv(4) {
        RecvResult::Data(d) => assert_eq!(d, vec![1, 2, 3, 4]),
        RecvResult::Sentinel(_) => panic!("data expected"),
    }
    match f.recv(4) {
        RecvResult::Data(d) => assert_eq!(d, vec![5, 6]),
        RecvResult::Sentinel(_) => panic!("data expected"),
    }
    match f.recv(4) {
        RecvResult::Data(d) => assert_eq!(d, vec![7]),
        RecvResult::Sentinel(_) => panic!("data expected"),
    }
    f.state = FETCH_DONE;
    assert!(matches!(f.recv(4), RecvResult::Sentinel(RECV_EOF)));
}

#[test]
fn fetch_abort_and_error() {
    let mut f = FetchInner::new();
    assert_eq!(f.state, FETCH_PENDING);
    f.abort();
    assert_eq!(f.state, FETCH_ABORTED);
    assert!(f.aborted);
    f.abort();
    assert_eq!(f.state, FETCH_ABORTED);
    assert!(matches!(f.recv(1), RecvResult::Sentinel(RECV_ERROR)));
    let mut g = FetchInner::new();
    g.state = FETCH_DONE;
    g.abort();
    assert_eq!(g.state, FETCH_DONE);
    let mut h = FetchInner::new();
    h.set_error("boom".to_string());
    assert_eq!(h.error.as_deref(), Some("boom"));
}

#[test]
fn picker_handles_and_listing() {
    let mut p = FilePickerState::new();
    let a = p.alloc_entry(PathBuf::from("/tmp/a.txt"), false);
    let b = p.alloc_entry(PathBuf::from("/tmp/d"), true);
    assert_eq!((a, b), (1, 2));
    assert!(p.get(a).is_some());
    assert!(p.get(99).is_none());
    let listing = p.list_children(vec![
        FolderChild {
            path: PathBuf::from("/tmp/d/x.png"),
            name: "x.png".to_string(),
            is_dir: false,
            size: 12,
        },
        FolderChild {
            path: PathBuf::from("/tmp/d/sub"),
            name: "sub".to_string(),
            is_dir: true,
            size: 0,
        },
    ]);
    assert_eq!(
        listing,
        "[{\"name\":\"x.png\",\"size\":12,\"is_dir\":false,\"handle\":3},{\"name\":\"sub\",\"size\":0,\"is_dir\":true,\"handle\":4}]"
    );
    assert_eq!(p.get(4).unwrap().path, PathBuf::from("/tmp/d/sub"));
    assert_eq!(p.list_children(Vec::new()), "[]");
}

#[test]
fn picker_json_and_filters() {
    let mut out = String::from("x=");
    json_escape("a\"b\\c\n\u{1}", &mut out);
    assert_eq!(out, "x=\"a\\\"b\\\\c\\n\\u0001\"");
    assert_eq!(
        metadata_json("a.png", 5, "image/png", 17, false),
        "{\"name\":\"a.png\",\"size\":5,\"mime\":\"image/png\",\"modified_ms\":17,\"is_dir\":false}"
    );
    assert_eq!(
        parse_extension_filters(" png, .jpg,,..gif , "),
        vec!["png".to_string(), "jpg".to_string(), "gif".to_string()]
    );
    assert!(parse_extension_filters("").is_empty());
    assert_eq!(mime_for_extension("PNG"), "image/png");
    assert_eq!(mime_for_extension("xyz"), "application/octet-stream");
    assert_eq!(handle_bytes(&[1, 2, 3], 9), vec![1, 0, 0, 0, 2, 0, 0, 0]);
    assert_eq!(handle_bytes(&[1], 100), vec![1, 0, 0, 0]);
}

#[test]
fn handles_skip_zero_on_wrap() {
    assert_eq!(advance_handle(1), 2);
    assert_eq!(advance_handle(u32::MAX), 1);
}

#[test]
fn dropped_files_reach_listeners() {
    let mut s = EventState::new();
    s.enqueue_drop_files(&["/a".to_string()]);
    assert!(s
        .drain_pending_events(frame((1, 1), true, false, ONLINE_UNKNOWN))
        .is_empty());
    s.add_listener("drop_files".to_string(), 4);
    s.enqueue_drop_files(&["/a".to_string(), "/b c".to_string()]);
    let out = s.drain_pending_events(frame((1, 1), true, false, ONLINE_UNKNOWN));
    assert_eq!(out, vec![(4, "drop_files".to_string(), b"[\"/a\",\"/b c\"]".to_vec())]);
}

#[test]
fn midi_state_routes_packets_to_open_inputs() {
    let mut m = MidiState::new();
    let a = m.add_input();
    let o = m.add_output(3);
    assert_eq!(a, 1);
    assert_eq!(o, 2);
    assert_eq!(m.output_dest(o), Some(3));
    assert_eq!(m.output_dest(a), None);
    m.deliver(a, &[0x90, 60, 100, 0x80, 60, 0]);
    m.deliver(99, &[0x90, 1, 2]);
    assert_eq!(m.peek_len(a), Some(3));
    assert_eq!(m.peek_len(99), None);
    assert_eq!(m.recv(a), Some(vec![0x90, 60, 100]));
    assert_eq!(m.recv(a), Some(vec![0x80, 60, 0]));
    assert_eq!(m.recv(a), None);
    m.close(a);
    m.deliver(a, &[0x90, 1, 2]);
    assert_eq!(m.recv(a), None);
}

#[test]
fn midi_recv_within_keeps_message_when_buffer_too_small() {
    let mut m = MidiState::new();
    let a = m.add_input();
    assert_eq!(m.recv_within(a, 16), Err(-1));
    m.deliver(a, &[0xF0, 1, 2, 3, 0xF7]);
    assert_eq!(m.recv_within(a, 2), Err(-2));
    assert_eq!(m.recv_within(a, 5), Ok(vec![0xF0, 1, 2, 3, 0xF7]));
    assert_eq!(m.recv_within(a, 5), Err(-1));
    assert_eq!(m.recv_within(77, 5), Err(-1));
}

#[test]
fn default_event_state_fires_no_resize_on_first_frame() {
    let mut s = EventState::default();
    s.add_listener("resize".to_string(), 7);
    assert!(s.drain_pending_events(frame((800, 600), true, false, ONLINE_UNKNOWN)).is_empty());
    let out = s.drain_pending_events(frame((1024, 600), true, false, ONLINE_UNKNOWN));
    assert_eq!(out, vec![(7, "resize".to_string(), vec![0, 4, 0, 0, 88, 2, 0, 0])]);
}
