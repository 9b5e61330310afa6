use oxide_browser::events::{encode_axis, encode_button, gamepad_event, GamepadInput};
use oxide_browser::rtc_queues::{map_connection_state, PeerConnectionState, STATE_CLOSED, STATE_CONNECTED, STATE_NEW};
use oxide_browser::video::{
    clamp_target_ms, frame_pts_ms, needs_seek, probe_duration_ms, rescale_q, FramePick, CONTAINER_TIME_BASE,
    MILLISECONDS,
};

#[test]
fn frame_times_rescale_to_milliseconds() {
    assert_eq!(frame_pts_ms(Some(90_000), (1, 90_000)), Some(1000));
    assert_eq!(frame_pts_ms(Some(1), (1, 3)), Some(333));
    assert_eq!(frame_pts_ms(Some(2), (1, 3)), Some(667));
    assert_eq!(frame_pts_ms(Some(1), (1, 2000)), Some(1));
    assert_eq!(frame_pts_ms(None, (1, 1000)), None);
    assert_eq!(frame_pts_ms(Some(-5), (1, 1000)), None);
    assert_eq!(frame_pts_ms(Some(5), (1, 0)), None);
    assert_eq!(frame_pts_ms(Some(i64::MAX), (1000, 1)), None);
    assert_eq!(rescale_q(2_500_000, CONTAINER_TIME_BASE, MILLISECONDS), 2500);
    assert_eq!(rescale_q(5, (1, -1), MILLISECONDS), i64::MIN);
}

#[test]
fn duration_prefers_the_container() {
    assert_eq!(probe_duration_ms(5_000_000, 0, (1, 1)), 5000);
    assert_eq!(probe_duration_ms(0, 300, (1, 30)), 10_000);
    assert_eq!(probe_duration_ms(-1, 300, (1, 30)), 10_000);
    assert_eq!(probe_duration_ms(0, 0, (1, 30)), 0);
    assert_eq!(probe_duration_ms(0, 300, (1, 0)), 0);
}

#[test]
fn seeking_and_target_clamp() {
    assert_eq!(clamp_target_ms(10_000, 4_000), 4_500);
    assert_eq!(clamp_target_ms(1_000, 4_000), 1_000);
    assert_eq!(clamp_target_ms(u64::MAX, u64::MAX - 10), u64::MAX);
    assert!(needs_seek(None, 0));
    assert!(needs_seek(Some(1_000), 999));
    assert!(!needs_seek(Some(1_000), 3_500));
    assert!(needs_seek(Some(1_000), 3_501));
}

#[test]
fn frame_pick_prefers_first_frame_at_target() {
    let mut p: FramePick<&str> = FramePick::new(100);
    assert!(!p.offer("a", 40));
    assert!(!p.offer("b", 80));
    assert!(!p.found());
    assert!(p.offer("c", 120));
    assert!(p.found());
    assert_eq!(p.chosen(), Some(("c", 120)));

    let mut q: FramePick<&str> = FramePick::new(100);
    assert!(!q.offer("a", 40));
    assert!(!q.offer("b", 80));
    assert_eq!(q.chosen(), Some(("b", 80)));
    let r: FramePick<&str> = FramePick::new(0);
    assert_eq!(r.chosen(), None);
}

#[test]
fn connection_states_for_the_guest() {
    assert_eq!(map_connection_state(PeerConnectionState::Connected), STATE_CONNECTED);
    assert_eq!(map_connection_state(PeerConnectionState::Closed), STATE_CLOSED);
    assert_eq!(map_connection_state(PeerConnectionState::Unspecified), STATE_NEW);
    assert_eq!(map_connection_state(PeerConnectionState::New), STATE_NEW);
}

#[test]
fn gamepad_axis_payload() {
    let v: f32 = -0.5;
    let d = encode_axis(2, 1, v.to_bits());
    let mut want = Vec::new();
    want.extend_from_slice(&2u32.to_le_bytes());
    want.extend_from_slice(&1u32.to_le_bytes());
    want.extend_from_slice(&v.to_le_bytes());
    assert_eq!(d, want);
}

#[test]
fn gamepad_reports_become_guest_events() {
    let e = gamepad_event(1, GamepadInput::Connected("Pad é".to_string())).unwrap();
    assert_eq!(e.event_type, "gamepad_connected");
    assert_eq!(e.data, "Pad é".as_bytes().to_vec());
    let b = gamepad_event(1, GamepadInput::ButtonReleased(4)).unwrap();
    assert_eq!(b.event_type, "gamepad_button");
    assert_eq!(b.data, encode_button(1, 4, false));
    let a = gamepad_event(2, GamepadInput::AxisChanged(0, 1.0f32.to_bits())).unwrap();
    assert_eq!(a.event_type, "gamepad_axis");
    assert_eq!(a.data, encode_axis(2, 0, 1.0f32.to_bits()));
    assert!(gamepad_event(1, GamepadInput::Other).is_none());
}
