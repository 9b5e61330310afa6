//! Guest-facing side of WebRTC peers: the queues the connection callbacks
//! fill and the guest drains, channel and track handles, how replies are
//! packed for the guest, and the signaling endpoints.
//!
//! The peer connections themselves belong to the embedder.

use vstd::prelude::*;
use std::collections::VecDeque;
use crate::handles::{advance_handle, next_handle};
use crate::text::{
    append_chars, append_str, chars_of, dec, split_char, split_chars, string_of, trim, trim_chars,
    u64_to_dec, views,
};

verus! {

/// Connection state constants exposed to guests.
pub const STATE_NEW: u32 = 0;

pub const STATE_CONNECTING: u32 = 1;

pub const STATE_CONNECTED: u32 = 2;

pub const STATE_DISCONNECTED: u32 = 3;

pub const STATE_FAILED: u32 = 4;

pub const STATE_CLOSED: u32 = 5;

/// The states a peer connection reports, as the WebRTC stack names them.
#[derive(Clone, Copy, Debug, PartialEq, Eq, Structural)]
pub enum PeerConnectionState {
    Unspecified,
    New,
    Connecting,
    Connected,
    Disconnected,
    Failed,
    Closed,
}

/// The guest-facing number of a connection state; a state the guest has no
/// number for reads as new.
pub fn map_connection_state(s: PeerConnectionState) -> (r: u32)
    ensures
        r == match s {
            PeerConnectionState::Connecting => STATE_CONNECTING,
            PeerConnectionState::Connected => STATE_CONNECTED,
            PeerConnectionState::Disconnected => STATE_DISCONNECTED,
            PeerConnectionState::Failed => STATE_FAILED,
            PeerConnectionState::Closed => STATE_CLOSED,
            _ => STATE_NEW,
        },
{
    match s {
        PeerConnectionState::New => STATE_NEW,
        PeerConnectionState::Connecting => STATE_CONNECTING,
        PeerConnectionState::Connected => STATE_CONNECTED,
        PeerConnectionState::Disconnected => STATE_DISCONNECTED,
        PeerConnectionState::Failed => STATE_FAILED,
        PeerConnectionState::Closed => STATE_CLOSED,
        PeerConnectionState::Unspecified => STATE_NEW,
    }
}

/// STUN server used when the guest names none.
pub const DEFAULT_STUN_URL: &'static str = "stun:stun.l.google.com:19302";

/// A message received on a data channel.
#[derive(Clone, Debug)]
pub struct IncomingMessage {
    pub channel_id: u32,
    pub is_binary: bool,
    pub data: Vec<u8>,
}

/// A data channel the remote side opened that the guest has not seen yet.
#[derive(Clone, Debug)]
pub struct PendingChannel {
    pub channel_id: u32,
    pub label: String,
}

/// A remote media track the guest has not seen yet.
#[derive(Clone, Debug)]
pub struct PendingTrack {
    /// 0 audio, 1 video, 2 anything else.
    pub kind: u32,
    pub id: String,
    pub stream_id: String,
}

/// The STUN URLs a guest passes as one comma-separated text: each piece
/// trimmed; none for an empty text.
pub open spec fn stun_urls_spec(config: Seq<char>) -> Seq<Seq<char>> {
    if config.len() == 0 {
        Seq::empty()
    } else {
        split_char(config, ',').map_values(|p: Seq<char>| trim(p))
    }
}

pub fn parse_stun_config(config: &str) -> (r: Vec<String>)
    ensures
        r@.map_values(|u: String| u@) == stun_urls_spec(config@),
{
    let c = chars_of(config);
    let mut out: Vec<String> = Vec::new();
    if c.len() == 0 {
        proof {
            assert(out@.map_values(|u: String| u@) =~= stun_urls_spec(config@));
        }
        return out;
    }
    let pieces = split_chars(c.as_slice(), ',');
    let n = pieces.len();
    let mut i: usize = 0;
    while i < n
        invariant
            n == pieces@.len(),
            i <= n,
            views(pieces@) == split_char(config@, ','),
            c@ == config@,
            out@.map_values(|u: String| u@) == split_char(config@, ',').take(i as int).map_values(
                |p: Seq<char>| trim(p),
            ),
        decreases n - i,
    {
        let t = trim_chars(pieces[i].as_slice());
        let u = string_of(t.as_slice());
        let ghost prev = out@;
        let ghost uv = u@;
        out.push(u);
        proof {
            let sp = split_char(config@, ',');
            assert(views(pieces@)[i as int] == pieces@[i as int]@);
            assert(uv == trim(sp[i as int]));
            assert(out@.map_values(|u: String| u@) =~= prev.map_values(|u: String| u@).push(uv));
            assert(sp.take(i + 1).map_values(|p: Seq<char>| trim(p)) =~= sp.take(i as int).map_values(
                |p: Seq<char>| trim(p),
            ).push(trim(sp[i as int])));
        }
        i = i + 1;
    }
    proof {
        assert(split_char(config@, ',').take(n as int) =~= split_char(config@, ','));
    }
    out
}

/// The ICE servers a new peer uses: the guest's STUN URLs, or the default
/// one when it gives none.
pub fn ice_server_urls(stun_urls: Vec<String>) -> (r: Vec<String>)
    ensures
        stun_urls@.len() == 0 ==> r@.len() == 1 && r@[0]@ == DEFAULT_STUN_URL@,
        stun_urls@.len() > 0 ==> r@ == stun_urls@,
{
    if stun_urls.len() == 0 {
        let mut v: Vec<String> = Vec::new();
        v.push(DEFAULT_STUN_URL.to_owned());
        v
    } else {
        stun_urls
    }
}

/// Index of the first message of channel `ch`.
pub open spec fn first_of_channel(q: Seq<IncomingMessage>, ch: u32) -> Option<int>
    decreases q.len(),
{
    if q.len() == 0 {
        None
    } else {
        match first_of_channel(q.drop_last(), ch) {
            Some(i) => Some(i),
            None => if q.last().channel_id == ch {
                Some(q.len() - 1)
            } else {
                None
            },
        }
    }
}

proof fn lemma_first_of_channel(q: Seq<IncomingMessage>, ch: u32)
    ensures
        match first_of_channel(q, ch) {
            Some(i) => 0 <= i < q.len() && q[i].channel_id == ch && forall|j: int|
                0 <= j < i ==> (#[trigger] q[j]).channel_id != ch,
            None => forall|j: int| 0 <= j < q.len() ==> (#[trigger] q[j]).channel_id != ch,
        },
    decreases q.len(),
{
    if q.len() > 0 {
        let p = q.drop_last();
        lemma_first_of_channel(p, ch);
        match first_of_channel(p, ch) {
            Some(i) => {
                assert(q[i] == p[i]);
                assert forall|j: int| 0 <= j < i implies (#[trigger] q[j]).channel_id != ch by {
                    assert(q[j] == p[j]);
                }
            },
            None => {
                assert forall|j: int| 0 <= j < q.len() - 1 implies (#[trigger] q[j]).channel_id
                    != ch by {
                    assert(q[j] == p[j]);
                }
            },
        }
    }
}

proof fn lemma_first_of_channel_prefix(q: Seq<IncomingMessage>, ch: u32, n: int)
    requires
        0 < n <= q.len(),
        first_of_channel(q.take(n - 1), ch) is None,
        q[n - 1].channel_id == ch,
    ensures
        first_of_channel(q, ch) == Some(n - 1),
    decreases q.len(),
{
    if n < q.len() {
        assert(q.drop_last().take(n - 1) =~= q.take(n - 1));
        lemma_first_of_channel_prefix(q.drop_last(), ch, n);
    } else {
        assert(q.drop_last() =~= q.take(n - 1));
    }
}

/// The queues of one peer, filled by its connection callbacks and drained
/// by the guest, with the peer's handle counters.
pub struct PeerQueues {
    incoming: VecDeque<IncomingMessage>,
    channels: VecDeque<PendingChannel>,
    tracks: VecDeque<PendingTrack>,
    ice_candidates: VecDeque<String>,
    state: u32,
    /// Handles of channels and tracks the guest creates.
    next_local_id: u32,
    /// Handles of channels the remote side opens.
    next_remote_id: u32,
}

impl PeerQueues {
    pub closed spec fn incoming(&self) -> Seq<IncomingMessage> {
        self.incoming@
    }

    pub closed spec fn channels(&self) -> Seq<PendingChannel> {
        self.channels@
    }

    pub closed spec fn tracks(&self) -> Seq<PendingTrack> {
        self.tracks@
    }

    pub closed spec fn ice(&self) -> Seq<String> {
        self.ice_candidates@
    }

    pub closed spec fn state(&self) -> u32 {
        self.state
    }

    pub closed spec fn next_local_id(&self) -> u32 {
        self.next_local_id
    }

    pub closed spec fn next_remote_id(&self) -> u32 {
        self.next_remote_id
    }

    pub fn new() -> (r: Self)
        ensures
            r.incoming().len() == 0,
            r.channels().len() == 0,
            r.tracks().len() == 0,
            r.ice().len() == 0,
            r.state() == STATE_NEW,
            r.next_local_id() == 1,
            r.next_remote_id() == 1,
    {
        PeerQueues {
            incoming: VecDeque::new(),
            channels: VecDeque::new(),
            tracks: VecDeque::new(),
            ice_candidates: VecDeque::new(),
            state: STATE_NEW,
            next_local_id: 1,
            next_remote_id: 1,
        }
    }

    /// The connection state last reported.
    pub fn connection_state(&self) -> (r: u32)
        ensures
            r == self.state(),
    {
        self.state
    }

    /// The connection reports a new state (one of the `STATE_*` values).
    pub fn set_connection_state(&mut self, s: u32)
        ensures
            final(self).state() == s,
            final(self).incoming() == old(self).incoming(),
            final(self).next_local_id() == old(self).next_local_id(),
            final(self).next_remote_id() == old(self).next_remote_id(),
    {
        self.state = s;
    }

    /// A gathered ICE candidate, as JSON, waits for the guest.
    pub fn push_ice_candidate(&mut self, json: String)
        ensures
            final(self).ice() == old(self).ice().push(json),
            final(self).incoming() == old(self).incoming(),
            final(self).state() == old(self).state(),
    {
        self.ice_candidates.push_back(json);
    }

    /// The oldest ICE candidate not yet handed to the guest.
    pub fn poll_ice_candidate(&mut self) -> (r: Option<String>)
        ensures
            old(self).ice().len() == 0 ==> r is None && final(self).ice() == old(self).ice(),
            old(self).ice().len() > 0 ==> r == Some(old(self).ice()[0]) && final(self).ice()
                == old(self).ice().drop_first(),
            final(self).incoming() == old(self).incoming(),
    {
        self.ice_candidates.pop_front()
    }

    /// The remote side opened a data channel labelled `label`: it gets the
    /// next remote handle and waits for the guest to accept it.
    pub fn remote_channel_opened(&mut self, label: String) -> (ch: u32)
        ensures
            ch == old(self).next_remote_id(),
            final(self).next_remote_id() == next_handle(ch),
            final(self).channels() == old(self).channels().push(
                PendingChannel { channel_id: ch, label },
            ),
            final(self).incoming() == old(self).incoming(),
            final(self).next_local_id() == old(self).next_local_id(),
    {
        let ch = self.next_remote_id;
        self.next_remote_id = advance_handle(ch);
        self.channels.push_back(PendingChannel { channel_id: ch, label });
        ch
    }

    /// The oldest remotely opened channel not yet handed to the guest.
    pub fn poll_new_channel(&mut self) -> (r: Option<PendingChannel>)
        ensures
            old(self).channels().len() == 0 ==> r is None && final(self).channels() == old(self).channels(),
            old(self).channels().len() > 0 ==> r == Some(old(self).channels()[0]) && final(self).channels() == old(self).channels().drop_first(),
            final(self).incoming() == old(self).incoming(),
    {
        self.channels.pop_front()
    }

    /// A remote media track arrived.
    pub fn push_track(&mut self, t: PendingTrack)
        ensures
            final(self).tracks() == old(self).tracks().push(t),
            final(self).incoming() == old(self).incoming(),
    {
        self.tracks.push_back(t);
    }

    /// The oldest remote track not yet handed to the guest.
    pub fn poll_track(&mut self) -> (r: Option<PendingTrack>)
        ensures
            old(self).tracks().len() == 0 ==> r is None && final(self).tracks() == old(self).tracks(),
            old(self).tracks().len() > 0 ==> r == Some(old(self).tracks()[0]) && final(self).tracks() == old(self).tracks().drop_first(),
            final(self).incoming() == old(self).incoming(),
    {
        self.tracks.pop_front()
    }

    /// The next handle for a channel or track the guest creates.
    pub fn alloc_local_id(&mut self) -> (id: u32)
        ensures
            id == old(self).next_local_id(),
            final(self).next_local_id() == next_handle(id),
            final(self).incoming() == old(self).incoming(),
            final(self).next_remote_id() == old(self).next_remote_id(),
    {
        let id = self.next_local_id;
        self.next_local_id = advance_handle(id);
        id
    }

    /// A message arrived on channel `channel_id`.
    pub fn push_message(&mut self, m: IncomingMessage)
        ensures
            final(self).incoming() == old(self).incoming().push(m),
            final(self).state() == old(self).state(),
    {
        self.incoming.push_back(m);
    }

    /// The oldest message on any channel.
    pub fn recv_message(&mut self) -> (r: Option<IncomingMessage>)
        ensures
            old(self).incoming().len() == 0 ==> r is None && final(self).incoming() == old(self).incoming(),
            old(self).incoming().len() > 0 ==> r == Some(old(self).incoming()[0]) && final(self).incoming() == old(self).incoming().drop_first(),
    {
        self.incoming.pop_front()
    }

    /// The oldest message on channel `channel_id`; messages of other
    /// channels stay queued in order.
    pub fn recv_from_channel(&mut self, channel_id: u32) -> (r: Option<IncomingMessage>)
        ensures
            match first_of_channel(old(self).incoming(), channel_id) {
                Some(i) => r == Some(old(self).incoming()[i]) && final(self).incoming() == old(self).incoming().remove(i),
                None => r is None && final(self).incoming() == old(self).incoming(),
            },
    {
        let ghost q = self.incoming@;
        let n = self.incoming.len();
        let mut i: usize = 0;
        while i < n
            invariant
                n == self.incoming@.len(),
                q == self.incoming@,
                q == old(self).incoming@,
                i <= n,
                first_of_channel(q.take(i as int), channel_id) is None,
            decreases n - i,
        {
            proof {
                assert(q.take(i + 1).drop_last() =~= q.take(i as int));
            }
            if self.incoming[i].channel_id == channel_id {
                proof {
                    lemma_first_of_channel_prefix(q, channel_id, i as int + 1);
                }
                return self.incoming.remove(i);
            }
            i = i + 1;
        }
        proof {
            assert(q.take(i as int) =~= q);
        }
        None
    }
}

/// What a guest's `recv` returns for a message of which `len` bytes were
/// copied: the channel id's low 16 bits from bit 48, the binary flag at
/// bit 32, the length below.
pub open spec fn recv_word(channel_id: u32, is_binary: bool, len: u32) -> u64 {
    ((channel_id as u64) << 48u64) | (if is_binary {
        1u64 << 32u64
    } else {
        0u64
    }) | (len as u64)
}

pub fn pack_recv(channel_id: u32, is_binary: bool, len: u32) -> (r: i64)
    ensures
        r as u64 == recv_word(channel_id, is_binary, len),
{
    let flags: u64 = if is_binary {
        1u64 << 32u64
    } else {
        0
    };
    let ch: u64 = (channel_id as u64) << 48u64;
    let w = ch | flags | (len as u64);
    let r = #[verifier::truncate] (w as i64);
    assert((#[verifier::truncate] (w as i64)) as u64 == w) by (bit_vector);
    r
}

/// The packed reply keeps the length and the binary flag, and the channel
/// id's low 16 bits.
pub proof fn law_recv_word_fields(channel_id: u32, is_binary: bool, len: u32)
    ensures
        recv_word(channel_id, is_binary, len) & 0xFFFF_FFFF == len,
        ((recv_word(channel_id, is_binary, len) >> 32u64) & 1 == 1) == is_binary,
        recv_word(channel_id, is_binary, len) >> 48u64 == (channel_id & 0xFFFF) as u64,
{
    if is_binary {
        assert(((((channel_id as u64) << 48u64) | (1u64 << 32u64) | (len as u64)) & 0xFFFF_FFFF)
            == len) by (bit_vector);
        assert(((((((channel_id as u64) << 48u64) | (1u64 << 32u64) | (len as u64)) >> 32u64) & 1)
            == 1)) by (bit_vector);
        assert((((channel_id as u64) << 48u64) | (1u64 << 32u64) | (len as u64)) >> 48u64 == (
        channel_id & 0xFFFF) as u64) by (bit_vector);
    } else {
        assert(((((channel_id as u64) << 48u64) | 0u64 | (len as u64)) & 0xFFFF_FFFF) == len)
            by (bit_vector);
        assert(((((((channel_id as u64) << 48u64) | 0u64 | (len as u64)) >> 32u64) & 1) == 0))
            by (bit_vector);
        assert((((channel_id as u64) << 48u64) | 0u64 | (len as u64)) >> 48u64 == (channel_id
            & 0xFFFF) as u64) by (bit_vector);
    }
}

/// `id:label` of a remotely opened channel, as the guest reads it.
pub fn channel_info(c: &PendingChannel) -> (r: String)
    ensures
        r@ == dec(c.channel_id as nat) + ":"@ + c.label@,
{
    let mut out = u64_to_dec(c.channel_id as u64);
    append_str(&mut out, ":");
    append_str(&mut out, c.label.as_str());
    string_of(out.as_slice())
}

/// `kind:id:stream_id` of a remote track, as the guest reads it.
pub fn track_info(t: &PendingTrack) -> (r: String)
    ensures
        r@ == dec(t.kind as nat) + ":"@ + t.id@ + ":"@ + t.stream_id@,
{
    let mut out = u64_to_dec(t.kind as u64);
    append_str(&mut out, ":");
    append_str(&mut out, t.id.as_str());
    append_str(&mut out, ":");
    append_str(&mut out, t.stream_id.as_str());
    string_of(out.as_slice())
}

/// The id of a local track: `track-{kind}-{handle}`; its stream is
/// `oxide-audio` for kind 0 and `oxide-video` otherwise.
pub fn local_track_names(kind: u32, handle: u32) -> (r: (String, String))
    ensures
        r.0@ == "track-"@ + dec(kind as nat) + "-"@ + dec(handle as nat),
        r.1@ == (if kind == 0 {
            "oxide-audio"@
        } else {
            "oxide-video"@
        }),
{
    let mut id = chars_of("track-");
    let k = u64_to_dec(kind as u64);
    append_chars(&mut id, k.as_slice());
    append_str(&mut id, "-");
    let h = u64_to_dec(handle as u64);
    append_chars(&mut id, h.as_slice());
    proof {
        reveal_strlit("track-");
    }
    let stream = if kind == 0 {
        "oxide-audio".to_owned()
    } else {
        "oxide-video".to_owned()
    };
    (string_of(id.as_slice()), stream)
}

// ── Signaling ──────────────────────────────────────────────────────────────

/// `s` without its trailing `/`s.
pub open spec fn strip_slashes(s: Seq<char>) -> Seq<char> {
    crate::loader::strip_trailing(s, '/')
}

/// A signaling server and the room joined on it (empty before joining).
pub struct Signaling {
    pub base_url: String,
    pub room: String,
}

impl Signaling {
    /// Connects to the server at `url` (trailing slashes dropped), in no room.
    pub fn connect(url: &str) -> (r: Self)
        ensures
            r.base_url@ == strip_slashes(url@),
            r.room@.len() == 0,
    {
        let c = chars_of(url);
        let b = crate::loader::strip_trailing_chars(c.as_slice(), '/');
        Signaling { base_url: string_of(b.as_slice()), room: String::new() }
    }

    /// Enters `room` and returns the URL to post the join to.
    pub fn join_room(&mut self, room: &str) -> (r: String)
        ensures
            final(self).room@ == room@,
            final(self).base_url == old(self).base_url,
            r@ == old(self).base_url@ + "/rooms/"@ + room@ + "/join"@,
    {
        self.room = room.to_owned();
        let mut out = chars_of(self.base_url.as_str());
        append_str(&mut out, "/rooms/");
        append_str(&mut out, room);
        append_str(&mut out, "/join");
        string_of(out.as_slice())
    }

    /// Where signal messages are posted and fetched: per room once joined.
    pub fn signal_url(&self) -> (r: String)
        ensures
            self.room@.len() == 0 ==> r@ == self.base_url@ + "/signal"@,
            self.room@.len() > 0 ==> r@ == self.base_url@ + "/rooms/"@ + self.room@ + "/signal"@,
    {
        let mut out = chars_of(self.base_url.as_str());
        let room = chars_of(self.room.as_str());
        if room.len() == 0 {
            append_str(&mut out, "/signal");
        } else {
            append_str(&mut out, "/rooms/");
            append_chars(&mut out, room.as_slice());
            append_str(&mut out, "/signal");
        }
        string_of(out.as_slice())
    }
}

} // verus!
