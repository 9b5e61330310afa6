//! Host-side event system for Oxide guest modules.
//!
//! Guests register listeners with `api_on_event(type, callback_id)` and receive
//! events through the optional exported `on_event(callback_id: u32)` function.
//! While the callback runs, the guest may read the current event type and
//! payload.
//!
//! Two sources push events onto the per-guest queue: custom events emitted
//! by the guest, and built-in events detected once per frame (`resize`,
//! `focus` / `blur` / `visibility_change`, mouse-synthesised `touch_*`,
//! `online` / `offline`, gamepad events, `drop_files`). Only event types that
//! have a listener are queued, the queue is bounded, and draining it
//! produces one `(callback_id, type, data)` dispatch per listener.

use vstd::prelude::*;
use std::collections::{HashMap, VecDeque};
use crate::file_picker::{json_quoted, push_json_escaped};
use crate::handles::{advance_handle, next_handle};
use crate::text::{append_bytes, append_chars, chars_eq_str, chars_of, join, starts_with_str, string_of};

verus! {

broadcast use vstd::std_specs::hash::group_hash_axioms;

/// Maximum events kept in a guest's pending queue. Older events are dropped
/// on overflow.
pub const MAX_QUEUED_EVENTS: usize = 4096;

/// `online_state` sentinel values.
pub const ONLINE_UNKNOWN: u8 = 0;

pub const ONLINE_YES: u8 = 1;

pub const ONLINE_NO: u8 = 2;

/// One queued event: type name and arbitrary opaque payload bytes.
#[derive(Clone, Debug)]
pub struct PendingEvent {
    pub event_type: String,
    pub data: Vec<u8>,
}

/// An event as plain values: type and payload.
pub type EventView = (Seq<char>, Seq<u8>);

pub open spec fn event_view(e: PendingEvent) -> EventView {
    (e.event_type@, e.data@)
}

pub open spec fn event_views(q: Seq<PendingEvent>) -> Seq<EventView> {
    q.map_values(|e: PendingEvent| event_view(e))
}

/// A registered listener as plain values: listener id, event type, callback.
pub type ListenerView = (u32, Seq<char>, u32);

/// The built-in detectors' memory of the previous frame.
pub struct DetectorState {
    pub last_canvas_size: Option<(u32, u32)>,
    pub last_focused: Option<bool>,
    pub last_mouse_down: bool,
    /// Bit patterns of the last mouse position's `f32` coordinates.
    pub last_mouse_bits: (u32, u32),
    pub last_online: Option<bool>,
}

/// What the embedder observed this frame.
pub struct FrameInput {
    pub canvas_size: (u32, u32),
    pub focused: bool,
    pub mouse_down: bool,
    /// Bit patterns of the mouse position's `f32` coordinates.
    pub mouse_bits: (u32, u32),
    /// Whether the mouse position differs from the last one (compared as
    /// floating-point values).
    pub mouse_moved: bool,
    /// The online checker's current reading (`ONLINE_*`).
    pub online_raw: u8,
    /// Events from the gamepad poller since the last frame, in order.
    pub gamepad: Vec<PendingEvent>,
}

/// What adding a listener asks of the embedder: the listener id, and which
/// background producers to start now.
pub struct ListenerAdded {
    pub listener_id: u32,
    pub start_online_checker: bool,
    pub start_gamepad_poll: bool,
}

/// Per-guest event system state: listener table, pending queue, current
/// event and built-in detector state.
pub struct EventState {
    /// Listeners in registration order: `(listener_id, event_type, callback_id)`.
    listeners: Vec<(u32, String, u32)>,
    /// Event type of each listener id (for `api_off_event`).
    listener_owner: HashMap<u32, String>,
    next_listener_id: u32,
    queue: VecDeque<PendingEvent>,
    current_type: String,
    current_data: Vec<u8>,
    detectors: DetectorState,
    online_thread_started: bool,
    gamepad_thread_started: bool,
}

pub open spec fn listener_views(ls: Seq<(u32, String, u32)>) -> Seq<ListenerView> {
    ls.map_values(|l: (u32, String, u32)| (l.0, l.1@, l.2))
}

/// The listener table without listener `id` of type `t`.
pub open spec fn without_listener(ls: Seq<ListenerView>, id: u32, t: Seq<char>) -> Seq<ListenerView> {
    ls.filter(|l: ListenerView| !(l.0 == id && l.1 == t))
}

/// Whether some listener waits for events of type `t`.
pub open spec fn has_listener(ls: Seq<ListenerView>, t: Seq<char>) -> bool {
    exists|i: int| 0 <= i < ls.len() && (#[trigger] ls[i]).1 == t
}

/// The queue after offering `e`: kept only when someone listens for its
/// type, dropping the oldest event when full.
pub open spec fn enqueue_spec(ls: Seq<ListenerView>, q: Seq<EventView>, e: EventView) -> Seq<
    EventView,
> {
    if !has_listener(ls, e.0) {
        q
    } else if q.len() >= MAX_QUEUED_EVENTS {
        q.drop_first().push(e)
    } else {
        q.push(e)
    }
}

pub open spec fn enqueue_all(ls: Seq<ListenerView>, q: Seq<EventView>, es: Seq<EventView>) -> Seq<
    EventView,
>
    decreases es.len(),
{
    if es.len() == 0 {
        q
    } else {
        enqueue_all(ls, enqueue_spec(ls, q, es[0]), es.skip(1))
    }
}

/// The dispatches of one event: each listener of its type, in registration
/// order.
pub open spec fn dispatch_one(ls: Seq<ListenerView>, e: EventView) -> Seq<(u32, Seq<char>, Seq<u8>)>
    decreases ls.len(),
{
    if ls.len() == 0 {
        Seq::empty()
    } else {
        dispatch_one(ls.drop_last(), e) + (if ls.last().1 == e.0 {
            seq![(ls.last().2, e.0, e.1)]
        } else {
            Seq::empty()
        })
    }
}

pub open spec fn dispatch_all(ls: Seq<ListenerView>, q: Seq<EventView>) -> Seq<
    (u32, Seq<char>, Seq<u8>),
>
    decreases q.len(),
{
    if q.len() == 0 {
        Seq::empty()
    } else {
        dispatch_all(ls, q.drop_last()) + dispatch_one(ls, q.last())
    }
}

pub open spec fn dispatch_views(d: Seq<(u32, String, Vec<u8>)>) -> Seq<(u32, Seq<char>, Seq<u8>)> {
    d.map_values(|x: (u32, String, Vec<u8>)| (x.0, x.1@, x.2@))
}

/// Little-endian bytes of a `u32`.
pub open spec fn le32(v: u32) -> Seq<u8> {
    vstd::bytes::spec_u32_to_le_bytes(v)
}

/// Payload of a `gamepad_button` event: id, button code, pressed flag.
pub open spec fn button_payload(id: u32, code: u32, pressed: bool) -> Seq<u8> {
    le32(id) + le32(code) + le32(
        if pressed {
            1u32
        } else {
            0u32
        },
    )
}

/// Payload of a position event: the two coordinates' bytes.
pub open spec fn xy_payload(bits: (u32, u32)) -> Seq<u8> {
    le32(bits.0) + le32(bits.1)
}

/// `resize` when the canvas size changed since a known previous frame.
pub open spec fn resize_events(d: DetectorState, f: FrameInput) -> Seq<EventView> {
    match d.last_canvas_size {
        Some(prev) => if prev == f.canvas_size {
            Seq::<EventView>::empty()
        } else {
            seq![("resize"@, le32(f.canvas_size.0) + le32(f.canvas_size.1))]
        },
        None => Seq::<EventView>::empty(),
    }
}

/// `focus` or `blur`, each followed by `visibility_change`, when the focus
/// changed since a known previous frame.
pub open spec fn focus_events(d: DetectorState, f: FrameInput) -> Seq<EventView> {
    match d.last_focused {
        Some(prev) => if prev == f.focused {
            Seq::<EventView>::empty()
        } else if f.focused {
            seq![("focus"@, Seq::<u8>::empty()), ("visibility_change"@, "visible"@.map_values(|c: char| c as u8))]
        } else {
            seq![("blur"@, Seq::<u8>::empty()), ("visibility_change"@, "hidden"@.map_values(|c: char| c as u8))]
        },
        None => Seq::<EventView>::empty(),
    }
}

/// Touch events synthesised from the mouse button and position.
pub open spec fn touch_events(d: DetectorState, f: FrameInput) -> Seq<EventView> {
    if f.mouse_down && !d.last_mouse_down {
        seq![("touch_start"@, xy_payload(f.mouse_bits))]
    } else if f.mouse_down && d.last_mouse_down && f.mouse_moved {
        seq![("touch_move"@, xy_payload(f.mouse_bits))]
    } else if !f.mouse_down && d.last_mouse_down {
        seq![("touch_end"@, xy_payload(d.last_mouse_bits))]
    } else {
        Seq::<EventView>::empty()
    }
}

/// `online` / `offline` when a known reading differs from the last known one.
pub open spec fn online_events(d: DetectorState, f: FrameInput) -> Seq<EventView> {
    if f.online_raw == ONLINE_UNKNOWN {
        Seq::<EventView>::empty()
    } else {
        let now = f.online_raw == ONLINE_YES;
        match d.last_online {
            Some(prev) => if prev == now {
                Seq::<EventView>::empty()
            } else if now {
                seq![("online"@, Seq::<u8>::empty())]
            } else {
                seq![("offline"@, Seq::<u8>::empty())]
            },
            None => Seq::<EventView>::empty(),
        }
    }
}

/// Built-in events of one frame, before the gamepad events, in the order
/// they are detected: resize, focus/blur with visibility, touch, online.
pub open spec fn builtin_events(d: DetectorState, f: FrameInput) -> Seq<EventView> {
    resize_events(d, f) + focus_events(d, f) + touch_events(d, f) + online_events(d, f)
}

/// The detector memory after a frame.
pub open spec fn detectors_after(d: DetectorState, f: FrameInput) -> DetectorState {
    DetectorState {
        last_canvas_size: Some(f.canvas_size),
        last_focused: Some(f.focused),
        last_mouse_down: f.mouse_down,
        last_mouse_bits: f.mouse_bits,
        last_online: if f.online_raw == ONLINE_UNKNOWN {
            d.last_online
        } else {
            Some(f.online_raw == ONLINE_YES)
        },
    }
}

fn le32_bytes(v: u32) -> (r: Vec<u8>)
    ensures
        r@ == le32(v),
{
    vstd::bytes::u32_to_le_bytes(v)
}

/// `(id, code, pressed)` as 12 little-endian bytes.
pub fn encode_button(id: u32, code: u32, pressed: bool) -> (r: Vec<u8>)
    ensures
        r@ == button_payload(id, code, pressed),
{
    let mut data: Vec<u8> = Vec::new();
    let a = le32_bytes(id);
    let b = le32_bytes(code);
    let c = le32_bytes(
        if pressed {
            1
        } else {
            0
        },
    );
    append_bytes(&mut data, a.as_slice());
    append_bytes(&mut data, b.as_slice());
    append_bytes(&mut data, c.as_slice());
    data
}

/// `(id, code, value)` of a gamepad axis as 12 little-endian bytes; the
/// value is passed as its `f32` bit pattern (`f32::to_bits`), whose
/// little-endian bytes are those of the float itself.
pub fn encode_axis(id: u32, code: u32, value_bits: u32) -> (r: Vec<u8>)
    ensures
        r@ == le32(id) + le32(code) + le32(value_bits),
{
    let mut data: Vec<u8> = Vec::new();
    let a = le32_bytes(id);
    let b = le32_bytes(code);
    let c = le32_bytes(value_bits);
    append_bytes(&mut data, a.as_slice());
    append_bytes(&mut data, b.as_slice());
    append_bytes(&mut data, c.as_slice());
    proof {
        assert(data@ =~= le32(id) + le32(code) + le32(value_bits));
    }
    data
}

/// What the gamepad library reports, as plain values: a pad connected
/// (with its name), a button pressed or released, an axis moved (its value
/// as the `f32` bit pattern), or anything else.
#[derive(Clone, Debug)]
pub enum GamepadInput {
    Connected(String),
    ButtonPressed(u32),
    ButtonReleased(u32),
    AxisChanged(u32, u32),
    Other,
}

/// The guest event for one report of gamepad `id`, if it gets one:
/// `gamepad_connected` with the pad's name, `gamepad_button` with
/// [`encode_button`], `gamepad_axis` with [`encode_axis`].
pub fn gamepad_event(id: u32, input: GamepadInput) -> (r: Option<PendingEvent>)
    ensures
        match input {
            GamepadInput::Connected(name) => r is Some && r->0.event_type@ == "gamepad_connected"@
                && r->0.data@ == vstd::utf8::encode_utf8(name@),
            GamepadInput::ButtonPressed(code) => r is Some && r->0.event_type@ == "gamepad_button"@
                && r->0.data@ == button_payload(id, code, true),
            GamepadInput::ButtonReleased(code) => r is Some && r->0.event_type@ == "gamepad_button"@
                && r->0.data@ == button_payload(id, code, false),
            GamepadInput::AxisChanged(code, bits) => r is Some && r->0.event_type@
                == "gamepad_axis"@ && r->0.data@ == le32(id) + le32(code) + le32(bits),
            GamepadInput::Other => r is None,
        },
{
    match input {
        GamepadInput::Connected(name) => {
            let data = name.as_str().as_bytes_vec();
            Some(PendingEvent { event_type: "gamepad_connected".to_owned(), data })
        },
        GamepadInput::ButtonPressed(code) => Some(
            PendingEvent { event_type: "gamepad_button".to_owned(), data: encode_button(id, code, true) },
        ),
        GamepadInput::ButtonReleased(code) => Some(
            PendingEvent {
                event_type: "gamepad_button".to_owned(),
                data: encode_button(id, code, false),
            },
        ),
        GamepadInput::AxisChanged(code, bits) => Some(
            PendingEvent { event_type: "gamepad_axis".to_owned(), data: encode_axis(id, code, bits) },
        ),
        GamepadInput::Other => None,
    }
}

/// A position as the bytes of its two `f32` bit patterns.
pub fn encode_xy(bits: (u32, u32)) -> (r: Vec<u8>)
    ensures
        r@ == xy_payload(bits),
{
    let mut data: Vec<u8> = Vec::new();
    let a = le32_bytes(bits.0);
    let b = le32_bytes(bits.1);
    append_bytes(&mut data, a.as_slice());
    append_bytes(&mut data, b.as_slice());
    data
}

fn ascii_payload(s: &str) -> (r: Vec<u8>)
    requires
        vstd::utf8::is_ascii_chars(s@),
    ensures
        r@ == s@.map_values(|c: char| c as u8),
{
    let c = chars_of(s);
    let mut out: Vec<u8> = Vec::new();
    let mut i: usize = 0;
    while i < c.len()
        invariant
            c@ == s@,
            vstd::utf8::is_ascii_chars(s@),
            i <= c@.len(),
            out@ =~= c@.take(i as int).map_values(|ch: char| ch as u8),
        decreases c@.len() - i,
    {
        let ch = c[i];
        proof {
            assert('\0' <= c@[i as int] <= '\u{7f}');
        }
        out.push(ch as u8);
        proof {
            assert(c@.take(i + 1).map_values(|ch: char| ch as u8) =~= c@.take(i as int).map_values(
                |ch: char| ch as u8,
            ).push(ch as u8));
        }
        i = i + 1;
    }
    proof {
        assert(c@.take(i as int) =~= c@);
    }
    out
}

fn event_of(t: &str, data: Vec<u8>) -> (e: PendingEvent)
    ensures
        event_view(e) == (t@, data@),
{
    PendingEvent { event_type: t.to_owned(), data }
}

fn detect_resize(d: &DetectorState, f: &FrameInput, found: &mut Vec<PendingEvent>)
    ensures
        event_views(final(found)@) == event_views(old(found)@) + resize_events(*d, *f),
{
    let ghost before = event_views(found@);
    let resized = match d.last_canvas_size {
        Some(prev) => prev.0 != f.canvas_size.0 || prev.1 != f.canvas_size.1,
        None => false,
    };
    if resized {
        let mut data = le32_bytes(f.canvas_size.0);
        let h = le32_bytes(f.canvas_size.1);
        append_bytes(&mut data, h.as_slice());
        found.push(event_of("resize", data));
    }
    proof {
        assert(event_views(found@) =~= before + resize_events(*d, *f));
    }
}

fn detect_focus(d: &DetectorState, f: &FrameInput, found: &mut Vec<PendingEvent>)
    ensures
        event_views(final(found)@) == event_views(old(found)@) + focus_events(*d, *f),
{
    let ghost before = event_views(found@);
    let changed = match d.last_focused {
        Some(prev) => prev != f.focused,
        None => false,
    };
    if changed {
        if f.focused {
            found.push(event_of("focus", Vec::new()));
            proof {
                reveal_strlit("visible");
            }
            found.push(event_of("visibility_change", ascii_payload("visible")));
        } else {
            found.push(event_of("blur", Vec::new()));
            proof {
                reveal_strlit("hidden");
            }
            found.push(event_of("visibility_change", ascii_payload("hidden")));
        }
    }
    proof {
        assert(event_views(found@) =~= before + focus_events(*d, *f));
    }
}

fn detect_touch(d: &DetectorState, f: &FrameInput, found: &mut Vec<PendingEvent>)
    ensures
        event_views(final(found)@) == event_views(old(found)@) + touch_events(*d, *f),
{
    let ghost before = event_views(found@);
    if f.mouse_down && !d.last_mouse_down {
        found.push(event_of("touch_start", encode_xy(f.mouse_bits)));
    } else if f.mouse_down && d.last_mouse_down && f.mouse_moved {
        found.push(event_of("touch_move", encode_xy(f.mouse_bits)));
    } else if !f.mouse_down && d.last_mouse_down {
        found.push(event_of("touch_end", encode_xy(d.last_mouse_bits)));
    }
    proof {
        assert(event_views(found@) =~= before + touch_events(*d, *f));
    }
}

fn detect_online(d: &DetectorState, f: &FrameInput, found: &mut Vec<PendingEvent>)
    ensures
        event_views(final(found)@) == event_views(old(found)@) + online_events(*d, *f),
{
    let ghost before = event_views(found@);
    if f.online_raw != ONLINE_UNKNOWN {
        let now = f.online_raw == ONLINE_YES;
        let changed = match d.last_online {
            Some(prev) => prev != now,
            None => false,
        };
        if changed {
            if now {
                found.push(event_of("online", Vec::new()));
            } else {
                found.push(event_of("offline", Vec::new()));
            }
        }
    }
    proof {
        assert(event_views(found@) =~= before + online_events(*d, *f));
    }
}

fn next_detectors(d: &DetectorState, f: &FrameInput) -> (r: DetectorState)
    ensures
        r == detectors_after(*d, *f),
{
    DetectorState {
        last_canvas_size: Some(f.canvas_size),
        last_focused: Some(f.focused),
        last_mouse_down: f.mouse_down,
        last_mouse_bits: f.mouse_bits,
        last_online: if f.online_raw == ONLINE_UNKNOWN {
            d.last_online
        } else {
            Some(f.online_raw == ONLINE_YES)
        },
    }
}

/// The pending queue never grows past `MAX_QUEUED_EVENTS`: offering any
/// number of events to a queue within the bound keeps it within the bound.
pub proof fn law_queue_bounded(ls: Seq<ListenerView>, q: Seq<EventView>, es: Seq<EventView>)
    requires
        q.len() <= MAX_QUEUED_EVENTS,
    ensures
        enqueue_all(ls, q, es).len() <= MAX_QUEUED_EVENTS,
    decreases es.len(),
{
    if es.len() > 0 {
        law_queue_bounded(ls, enqueue_spec(ls, q, es[0]), es.skip(1));
    }
}

/// An event whose type nobody listens for is never queued, and one that is
/// listened for always ends up last in the queue.
pub proof fn law_enqueue_needs_listener(ls: Seq<ListenerView>, q: Seq<EventView>, e: EventView)
    ensures
        !has_listener(ls, e.0) ==> enqueue_spec(ls, q, e) == q,
        has_listener(ls, e.0) ==> enqueue_spec(ls, q, e).last() == e,
{
}

/// Each dispatch of a drained event goes to a registered listener of that
/// event's type.
pub proof fn law_dispatch_targets_listeners(ls: Seq<ListenerView>, e: EventView, k: int)
    requires
        0 <= k < dispatch_one(ls, e).len(),
    ensures
        dispatch_one(ls, e)[k].1 == e.0,
        dispatch_one(ls, e)[k].2 == e.1,
        exists|i: int| 0 <= i < ls.len() && ls[i].1 == e.0 && ls[i].2 == dispatch_one(ls, e)[k].0,
    decreases ls.len(),
{
    let prefix = dispatch_one(ls.drop_last(), e);
    if k < prefix.len() {
        law_dispatch_targets_listeners(ls.drop_last(), e, k);
        let i = choose|i: int| 0 <= i < ls.drop_last().len() && ls.drop_last()[i].1 == e.0
            && ls.drop_last()[i].2 == prefix[k].0;
        assert(ls[i] == ls.drop_last()[i]);
    } else {
        assert(ls[ls.len() - 1] == ls.last());
    }
}

impl EventState {
    pub closed spec fn listeners_view(&self) -> Seq<ListenerView> {
        listener_views(self.listeners@)
    }

    pub closed spec fn queue_view(&self) -> Seq<EventView> {
        event_views(self.queue@)
    }

    pub closed spec fn owners(&self) -> Map<u32, Seq<char>> {
        self.listener_owner@.map_values(|s: String| s@)
    }

    pub closed spec fn next_id(&self) -> u32 {
        self.next_listener_id
    }

    pub closed spec fn detector(&self) -> DetectorState {
        self.detectors
    }

    pub closed spec fn current(&self) -> (Seq<char>, Seq<u8>) {
        (self.current_type@, self.current_data@)
    }

    pub closed spec fn producers_started(&self) -> (bool, bool) {
        (self.online_thread_started, self.gamepad_thread_started)
    }

    pub fn new() -> (r: Self)
        ensures
            r.listeners_view() == Seq::<ListenerView>::empty(),
            r.queue_view() == Seq::<EventView>::empty(),
            r.next_id() == 1,
            r.producers_started() == (false, false),
            r.detector() == (DetectorState {
                last_canvas_size: None,
                last_focused: None,
                last_mouse_down: false,
                last_mouse_bits: (0u32, 0u32),
                last_online: None,
            }),
    {
        let r = EventState {
            listeners: Vec::new(),
            listener_owner: HashMap::new(),
            next_listener_id: 1,
            queue: VecDeque::new(),
            current_type: String::new(),
            current_data: Vec::new(),
            detectors: DetectorState {
                last_canvas_size: None,
                last_focused: None,
                last_mouse_down: false,
                last_mouse_bits: (0, 0),
                last_online: None,
            },
            online_thread_started: false,
            gamepad_thread_started: false,
        };
        proof {
            assert(listener_views(r.listeners@) =~= Seq::<ListenerView>::empty());
            assert(event_views(r.queue@) =~= Seq::<EventView>::empty());
        }
        r
    }

    /// Registers a listener; the first listener for `online`/`offline` or a
    /// `gamepad_*` type asks for the matching producer to be started.
    pub fn add_listener(&mut self, event_type: String, callback_id: u32) -> (r: ListenerAdded)
        ensures
            r.listener_id == old(self).next_id(),
            final(self).next_id() == next_handle(old(self).next_id()),
            final(self).listeners_view() == old(self).listeners_view().push(
                (r.listener_id, event_type@, callback_id),
            ),
            final(self).owners() == old(self).owners().insert(r.listener_id, event_type@),
            final(self).queue_view() == old(self).queue_view(),
            final(self).detector() == old(self).detector(),
            r.start_online_checker == ((event_type@ == "online"@ || event_type@ == "offline"@)
                && !old(self).producers_started().0),
            r.start_gamepad_poll == (crate::text::has_prefix(event_type@, "gamepad_"@)
                && !old(self).producers_started().1),
            final(self).producers_started() == (old(self).producers_started().0
                || r.start_online_checker, old(self).producers_started().1 || r.start_gamepad_poll),
    {
        let t = chars_of(event_type.as_str());
        let start_online = (chars_eq_str(t.as_slice(), "online") || chars_eq_str(
            t.as_slice(),
            "offline",
        )) && !self.online_thread_started;
        let start_gamepad = starts_with_str(t.as_slice(), "gamepad_") && !self.gamepad_thread_started;
        if start_online {
            self.online_thread_started = true;
        }
        if start_gamepad {
            self.gamepad_thread_started = true;
        }
        let listener_id = self.next_listener_id;
        self.next_listener_id = advance_handle(self.next_listener_id);
        let ghost before = listener_views(self.listeners@);
        let ghost owners_before = self.listener_owner@;
        self.listeners.push((listener_id, event_type.clone(), callback_id));
        self.listener_owner.insert(listener_id, event_type);
        proof {
            assert(listener_views(self.listeners@) =~= before.push(
                (listener_id, event_type@, callback_id),
            ));
            assert(self.listener_owner@.map_values(|s: String| s@) =~= owners_before.map_values(
                |s: String| s@,
            ).insert(listener_id, event_type@));
        }
        ListenerAdded {
            listener_id,
            start_online_checker: start_online,
            start_gamepad_poll: start_gamepad,
        }
    }

    /// Removes listener `listener_id`; `false` when it is not registered.
    pub fn remove_listener(&mut self, listener_id: u32) -> (r: bool)
        ensures
            r == old(self).owners().contains_key(listener_id),
            final(self).owners() == old(self).owners().remove(listener_id),
            r ==> final(self).listeners_view() == without_listener(
                old(self).listeners_view(),
                listener_id,
                old(self).owners()[listener_id],
            ),
            !r ==> final(self).listeners_view() == old(self).listeners_view(),
            final(self).queue_view() == old(self).queue_view(),
            final(self).next_id() == old(self).next_id(),
            final(self).detector() == old(self).detector(),
            final(self).producers_started() == old(self).producers_started(),
    {
        let ghost owners_before = self.listener_owner@;
        let owner = match self.listener_owner.remove(&listener_id) {
            Some(t) => t,
            None => {
                proof {
                    assert(self.listener_owner@.map_values(|s: String| s@) =~= owners_before.map_values(
                        |s: String| s@,
                    ).remove(listener_id));
                }
                return false;
            },
        };
        proof {
            assert(self.listener_owner@.map_values(|s: String| s@) =~= owners_before.map_values(
                |s: String| s@,
            ).remove(listener_id));
        }
        let ghost ov = owner@;
        let ghost lv = listener_views(self.listeners@);
        let oc = chars_of(owner.as_str());
        let mut kept: Vec<(u32, String, u32)> = Vec::new();
        let mut i: usize = 0;
        proof {
            assert(lv.take(0) =~= Seq::<ListenerView>::empty());
            reveal_with_fuel(Seq::<ListenerView>::filter, 1);
            assert(listener_views(kept@) =~= without_listener(lv.take(0), listener_id, ov));
        }
        while i < self.listeners.len()
            invariant
                i <= self.listeners@.len(),
                lv == listener_views(self.listeners@),
                oc@ == ov,
                listener_views(kept@) == without_listener(lv.take(i as int), listener_id, ov),
            decreases self.listeners@.len() - i,
        {
            proof {
                reveal_with_fuel(Seq::<ListenerView>::filter, 1);
                assert(lv.take(i + 1).drop_last() =~= lv.take(i as int));
                assert(lv.take(i + 1).last() == lv[i as int]);
            }
            let entry = &self.listeners[i];
            let same = entry.0 == listener_id && chars_eq_str(oc.as_slice(), entry.1.as_str());
            if !same {
                let ghost before = listener_views(kept@);
                kept.push((entry.0, entry.1.clone(), entry.2));
                proof {
                    assert(listener_views(kept@) =~= before.push(lv[i as int]));
                }
            }
            i = i + 1;
        }
        proof {
            assert(lv.take(i as int) =~= lv);
            assert(owners_before.map_values(|s: String| s@)[listener_id] == ov);
        }
        self.listeners = kept;
        true
    }

    fn has_listener_for(&self, t: &[char]) -> (r: bool)
        ensures
            r == has_listener(self.listeners_view(), t@),
    {
        let mut i: usize = 0;
        while i < self.listeners.len()
            invariant
                i <= self.listeners@.len(),
                forall|j: int|
                    0 <= j < i ==> (#[trigger] listener_views(self.listeners@)[j]).1 != t@,
            decreases self.listeners@.len() - i,
        {
            if chars_eq_str(t, self.listeners[i].1.as_str()) {
                proof {
                    assert(listener_views(self.listeners@)[i as int].1 == t@);
                }
                return true;
            }
            i = i + 1;
        }
        false
    }

    /// Queues `event` if some listener waits for its type; the oldest event
    /// is dropped when the queue is full.
    pub fn enqueue(&mut self, event: PendingEvent)
        ensures
            final(self).queue_view() == enqueue_spec(
                old(self).listeners_view(),
                old(self).queue_view(),
                event_view(event),
            ),
            final(self).listeners_view() == old(self).listeners_view(),
            final(self).owners() == old(self).owners(),
            final(self).next_id() == old(self).next_id(),
            final(self).detector() == old(self).detector(),
            final(self).producers_started() == old(self).producers_started(),
            final(self).current() == old(self).current(),
    {
        let t = chars_of(event.event_type.as_str());
        if self.has_listener_for(t.as_slice()) {
            let ghost q0 = event_views(self.queue@);
            if self.queue.len() >= MAX_QUEUED_EVENTS {
                self.queue.pop_front();
                proof {
                    assert(event_views(self.queue@) =~= q0.drop_first());
                }
            }
            let ghost q1 = event_views(self.queue@);
            let ghost ev = event_view(event);
            self.queue.push_back(event);
            proof {
                assert(event_views(self.queue@) =~= q1.push(ev));
            }
        }
    }

    fn enqueue_each(&mut self, events: Vec<PendingEvent>)
        ensures
            final(self).queue_view() == enqueue_all(
                old(self).listeners_view(),
                old(self).queue_view(),
                event_views(events@),
            ),
            final(self).listeners_view() == old(self).listeners_view(),
            final(self).owners() == old(self).owners(),
            final(self).next_id() == old(self).next_id(),
            final(self).detector() == old(self).detector(),
            final(self).producers_started() == old(self).producers_started(),
            final(self).current() == old(self).current(),
    {
        let ghost all = event_views(events@);
        let mut rest = events;
        let mut taken: usize = 0;
        let total = rest.len();
        proof {
            assert(event_views(rest@) =~= all.skip(0));
        }
        while rest.len() > 0
            invariant
                taken + rest@.len() == total,
                total == all.len(),
                event_views(rest@) == all.skip(taken as int),
                self.listeners_view() == old(self).listeners_view(),
                self.owners() == old(self).owners(),
                self.next_id() == old(self).next_id(),
                self.detector() == old(self).detector(),
                self.producers_started() == old(self).producers_started(),
                self.current() == old(self).current(),
                enqueue_all(old(self).listeners_view(), old(self).queue_view(), all)
                    == enqueue_all(self.listeners_view(), self.queue_view(), all.skip(taken as int)),
            decreases rest@.len(),
        {
            let ghost rv = rest@;
            let e = rest.remove(0);
            proof {
                assert(rest@ =~= rv.skip(1));
                assert(event_views(rest@) =~= event_views(rv).skip(1));
                assert(all.skip(taken as int).skip(1) =~= all.skip(taken + 1));
                assert(all.skip(taken as int)[0] == event_view(e));
            }
            self.enqueue(e);
            taken = taken + 1;
        }
        proof {
            assert(all.skip(taken as int) =~= Seq::<EventView>::empty());
        }
    }

    fn dispatch_event(&self, e: &PendingEvent, out: &mut Vec<(u32, String, Vec<u8>)>)
        ensures
            dispatch_views(final(out)@) == dispatch_views(old(out)@) + dispatch_one(
                self.listeners_view(),
                event_view(*e),
            ),
    {
        let t = chars_of(e.event_type.as_str());
        let ghost lv = self.listeners_view();
        let mut i: usize = 0;
        proof {
            assert(lv.take(0) =~= Seq::<ListenerView>::empty());
            assert(dispatch_views(out@) =~= dispatch_views(old(out)@) + dispatch_one(
                lv.take(0),
                event_view(*e),
            ));
        }
        while i < self.listeners.len()
            invariant
                i <= self.listeners@.len(),
                lv == listener_views(self.listeners@),
                t@ == e.event_type@,
                dispatch_views(out@) == dispatch_views(old(out)@) + dispatch_one(
                    lv.take(i as int),
                    event_view(*e),
                ),
            decreases self.listeners@.len() - i,
        {
            proof {
                assert(lv.take(i + 1).drop_last() =~= lv.take(i as int));
                assert(lv.take(i + 1).last() == lv[i as int]);
            }
            let ghost before = dispatch_views(out@);
            if chars_eq_str(t.as_slice(), self.listeners[i].1.as_str()) {
                out.push((self.listeners[i].2, e.event_type.clone(), e.data.clone()));
                proof {
                    assert(dispatch_views(out@) =~= before.push(
                        (lv[i as int].2, e.event_type@, e.data@),
                    ));
                }
            } else {
                proof {
                    assert(dispatch_views(out@) =~= before + Seq::<(u32, Seq<char>, Seq<u8>)>::empty());
                }
            }
            i = i + 1;
        }
        proof {
            assert(lv.take(i as int) =~= lv);
        }
    }

    /// Runs the built-in detectors for this frame, queues what they found
    /// and the gamepad events, then drains the queue into one
    /// `(callback_id, type, data)` dispatch per listener of each event.
    pub fn drain_pending_events(&mut self, frame: FrameInput) -> (r: Vec<(u32, String, Vec<u8>)>)
        ensures
            dispatch_views(r@) == dispatch_all(
                old(self).listeners_view(),
                enqueue_all(
                    old(self).listeners_view(),
                    old(self).queue_view(),
                    builtin_events(old(self).detector(), frame) + event_views(frame.gamepad@),
                ),
            ),
            final(self).queue_view() == Seq::<EventView>::empty(),
            final(self).detector() == detectors_after(old(self).detector(), frame),
            final(self).listeners_view() == old(self).listeners_view(),
            final(self).owners() == old(self).owners(),
            final(self).next_id() == old(self).next_id(),
            final(self).producers_started() == old(self).producers_started(),
    {
        let ghost d0 = self.detectors;
        let mut found: Vec<PendingEvent> = Vec::new();
        detect_resize(&self.detectors, &frame, &mut found);
        detect_focus(&self.detectors, &frame, &mut found);
        detect_touch(&self.detectors, &frame, &mut found);
        detect_online(&self.detectors, &frame, &mut found);
        self.detectors = next_detectors(&self.detectors, &frame);
        proof {
            assert(event_views(found@) =~= builtin_events(d0, frame));
        }
        let ghost fr = frame;
        let gamepad = frame.gamepad;
        let ghost gv = event_views(gamepad@);
        let ghost fv = event_views(found@);
        let mut g = gamepad;
        let mut all = found;
        all.append(&mut g);
        proof {
            assert(event_views(all@) =~= fv + gv);
        }
        self.enqueue_each(all);
        let ghost queued = self.queue_view();
        let mut out: Vec<(u32, String, Vec<u8>)> = Vec::new();
        let mut taken: usize = 0;
        let total = self.queue.len();
        proof {
            assert(queued.take(0) =~= Seq::<EventView>::empty());
            assert(dispatch_views(out@) =~= Seq::<(u32, Seq<char>, Seq<u8>)>::empty());
            assert(self.queue_view() =~= queued.skip(0));
        }
        while self.queue.len() > 0
            invariant
                taken + self.queue@.len() == total,
                total == queued.len(),
                self.queue_view() == queued.skip(taken as int),
                self.listeners_view() == old(self).listeners_view(),
                self.owners() == old(self).owners(),
                self.next_id() == old(self).next_id(),
                self.producers_started() == old(self).producers_started(),
                self.detectors == detectors_after(d0, fr),
                dispatch_views(out@) == dispatch_all(self.listeners_view(), queued.take(taken as int)),
            decreases self.queue@.len(),
        {
            let ghost qv = self.queue@;
            let e = self.queue.pop_front().unwrap();
            proof {
                assert(self.queue@ =~= qv.drop_first());
                assert(event_views(self.queue@) =~= event_views(qv).skip(1));
                assert(queued.skip(taken as int).skip(1) =~= queued.skip(taken + 1));
                assert(queued.skip(taken as int)[0] == event_view(e));
                assert(queued.take(taken + 1).drop_last() =~= queued.take(taken as int));
                assert(queued.take(taken + 1).last() == queued[taken as int]);
            }
            self.dispatch_event(&e, &mut out);
            taken = taken + 1;
        }
        proof {
            assert(queued.take(taken as int) =~= queued);
            assert(self.queue_view() =~= Seq::<EventView>::empty());
        }
        out
    }

    /// Queues a `drop_files` event for a batch of dropped paths.
    pub fn enqueue_drop_files(&mut self, paths: &[String])
        ensures
            final(self).queue_view() == enqueue_spec(
                old(self).listeners_view(),
                old(self).queue_view(),
                (
                    "drop_files"@,
                    vstd::utf8::encode_utf8(drop_files_json(paths@.map_values(|p: String| p@))),
                ),
            ),
            final(self).listeners_view() == old(self).listeners_view(),
            final(self).detector() == old(self).detector(),
    {
        let e = drop_files_event(paths);
        self.enqueue(e);
    }

    /// Makes `event_type` / `data` the event the guest callback is reading.
    pub fn set_current_event(&mut self, event_type: String, data: Vec<u8>)
        ensures
            final(self).current() == (event_type@, data@),
            final(self).listeners_view() == old(self).listeners_view(),
            final(self).queue_view() == old(self).queue_view(),
            final(self).detector() == old(self).detector(),
    {
        self.current_type = event_type;
        self.current_data = data;
    }

    pub fn current_event_type(&self) -> (r: &str)
        ensures
            r@ == self.current().0,
    {
        self.current_type.as_str()
    }

    pub fn current_event_data(&self) -> (r: &[u8])
        ensures
            r@ == self.current().1,
    {
        self.current_data.as_slice()
    }

    /// Bit patterns of the last mouse position seen by the detectors.
    pub fn last_mouse_bits(&self) -> (r: (u32, u32))
        ensures
            r == self.detector().last_mouse_bits,
    {
        self.detectors.last_mouse_bits
    }
}

impl Default for EventState {
    fn default() -> (r: Self)
        ensures
            r.listeners_view() == Seq::<ListenerView>::empty(),
            r.queue_view() == Seq::<EventView>::empty(),
            r.next_id() == 1,
            r.producers_started() == (false, false),
            r.detector() == (DetectorState {
                last_canvas_size: None,
                last_focused: None,
                last_mouse_down: false,
                last_mouse_bits: (0u32, 0u32),
                last_online: None,
            }),
    {
        Self::new()
    }
}

/// The `drop_files` payload: the paths as a JSON array of strings.
pub open spec fn drop_files_json(paths: Seq<Seq<char>>) -> Seq<char> {
    "["@ + join(paths.map_values(|p: Seq<char>| json_quoted(p)), ","@) + "]"@
}

/// The `drop_files` event for a batch of dropped paths.
pub fn drop_files_event(paths: &[String]) -> (e: PendingEvent)
    ensures
        e.event_type@ == "drop_files"@,
        e.data@ == vstd::utf8::encode_utf8(
            drop_files_json(paths@.map_values(|p: String| p@)),
        ),
{
    let ghost pv = paths@.map_values(|p: String| p@);
    let ghost qs = pv.map_values(|p: Seq<char>| json_quoted(p));
    let mut json: Vec<char> = Vec::new();
    json.push('[');
    let mut i: usize = 0;
    proof {
        reveal_strlit("[");
        assert(qs.take(0) =~= Seq::<Seq<char>>::empty());
    }
    while i < paths.len()
        invariant
            i <= paths@.len(),
            pv == paths@.map_values(|p: String| p@),
            qs == pv.map_values(|p: Seq<char>| json_quoted(p)),
            json@ == seq!['['] + join(qs.take(i as int), ","@),
        decreases paths@.len() - i,
    {
        proof {
            reveal_strlit(",");
            assert(qs.take(i + 1).drop_last() =~= qs.take(i as int));
            assert(qs.take(i + 1).last() == json_quoted(paths@[i as int]@));
        }
        let ghost before = json@;
        if i > 0 {
            json.push(',');
        }
        json.push('"');
        let c = chars_of(paths[i].as_str());
        push_json_escaped(&mut json, c.as_slice());
        json.push('"');
        proof {
            if i == 0 {
                assert(qs.take(1) =~= seq![qs[0]]);
            }
            assert(json@ =~= seq!['['] + join(qs.take(i + 1), ","@));
        }
        i = i + 1;
    }
    json.push(']');
    proof {
        reveal_strlit("[");
        reveal_strlit("]");
        assert(qs.take(i as int) =~= qs);
        assert(json@ =~= drop_files_json(pv));
    }
    let s = string_of(json.as_slice());
    let bytes = s.as_str().as_bytes();
    let mut data: Vec<u8> = Vec::new();
    append_bytes(&mut data, bytes);
    PendingEvent { event_type: "drop_files".to_owned(), data }
}

} // verus!
