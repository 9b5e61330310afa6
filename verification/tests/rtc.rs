use oxide_browser::rtc_queues::{
    channel_info, ice_server_urls, local_track_names, pack_recv, parse_stun_config, track_info,
    IncomingMessage,
    PeerQueues, PendingTrack, Signaling, DEFAULT_STUN_URL, STATE_CONNECTED, STATE_NEW,
};

fn msg(ch: u32, data: &[u8]) -> IncomingMessage {
    IncomingMessage {
        channel_id: ch,
        is_binary: false,
        data: data.to_vec(),
    }
}

#[test]
fn stun_defaults() {
    assert_eq!(ice_server_urls(Vec::new()), vec![DEFAULT_STUN_URL.to_string()]);
    assert_eq!(
        ice_server_urls(vec!["stun:a".to_string()]),
        vec!["stun:a".to_string()]
    );
}

#[test]
fn per_channel_receive_keeps_other_messages() {
    let mut p = PeerQueues::new();
    p.push_message(msg(1, b"a"));
    p.push_message(msg(2, b"b"));
    p.push_message(msg(1, b"c"));
    let m = p.recv_from_channel(1).unwrap();
    assert_eq!(m.data, b"a".to_vec());
    assert!(p.recv_from_channel(3).is_none());
    let m = p.recv_message().unwrap();
    assert_eq!((m.channel_id, m.data.clone()), (2, b"b".to_vec()));
    let m = p.recv_message().unwrap();
    assert_eq!(m.data, b"c".to_vec());
    assert!(p.recv_message().is_none());
}

#[test]
fn peer_handles_and_queues() {
    let mut p = PeerQueues::new();
    assert_eq!(p.connection_state(), STATE_NEW);
    p.set_connection_state(STATE_CONNECTED);
    assert_eq!(p.connection_state(), STATE_CONNECTED);
    assert_eq!(p.remote_channel_opened("chat".to_string()), 1);
    assert_eq!(p.remote_channel_opened("files".to_string()), 2);
    assert_eq!(p.alloc_local_id(), 1);
    let c = p.poll_new_channel().unwrap();
    assert_eq!(channel_info(&c), "1:chat");
    p.push_track(PendingTrack {
        kind: 1,
        id: "t".to_string(),
        stream_id: "s".to_string(),
    });
    assert_eq!(track_info(&p.poll_track().unwrap()), "1:t:s");
    assert!(p.poll_track().is_none());
    p.push_ice_candidate("{}".to_string());
    assert_eq!(p.poll_ice_candidate(), Some("{}".to_string()));
    assert_eq!(p.poll_ice_candidate(), None);
}

#[test]
fn recv_reply_packing() {
    let w = pack_recv(3, true, 10) as u64;
    assert_eq!(w, (3u64 << 48) | (1u64 << 32) | 10);
    assert_eq!(pack_recv(0, false, 7), 7);
    // Only the channel id's low 16 bits fit.
    assert_eq!(pack_recv(0x1_0002, false, 0) as u64 >> 48, 2);
}

#[test]
fn local_tracks_and_signaling_urls() {
    let (id, stream) = local_track_names(0, 5);
    assert_eq!((id.as_str(), stream.as_str()), ("track-0-5", "oxide-audio"));
    let (id, stream) = local_track_names(1, 12);
    assert_eq!((id.as_str(), stream.as_str()), ("track-1-12", "oxide-video"));
    let mut s = Signaling::connect("https://sig.example.com//");
    assert_eq!(s.base_url, "https://sig.example.com");
    assert_eq!(s.signal_url(), "https://sig.example.com/signal");
    assert_eq!(s.join_room("lobby"), "https://sig.example.com/rooms/lobby/join");
    assert_eq!(s.signal_url(), "https://sig.example.com/rooms/lobby/signal");
}

#[test]
fn stun_config_is_split_on_commas() {
    assert!(parse_stun_config("").is_empty());
    assert_eq!(
        parse_stun_config("stun:a.example:3478, stun:b.example:3478 "),
        vec!["stun:a.example:3478".to_string(), "stun:b.example:3478".to_string()]
    );
    assert_eq!(parse_stun_config(" , x"), vec!["".to_string(), "x".to_string()]);
    assert_eq!(ice_server_urls(parse_stun_config("")), vec![DEFAULT_STUN_URL.to_string()]);
}
