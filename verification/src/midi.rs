//! MIDI message framing for Oxide guest modules.
//!
//! Raw MIDI packets may concatenate several messages that share a
//! timestamp; [`enqueue_messages`] splits them into individual messages and
//! appends them to a per-input bounded queue, from which the guest pulls one
//! message per `api_midi_recv` call. When the queue is full the oldest
//! message is dropped.

use vstd::prelude::*;
use std::collections::{HashMap, VecDeque};
use crate::handles::{advance_handle, next_handle};
use crate::text::slice_bytes;

verus! {

broadcast use vstd::std_specs::hash::group_hash_axioms;

/// Hard cap on queued incoming MIDI messages per input port.
pub const MAX_QUEUED_MESSAGES: usize = 4096;

/// Index of the first `0xF7` (end of SysEx) at or after `j`, if any.
pub open spec fn sysex_end(d: Seq<u8>, j: int) -> Option<int>
    decreases d.len() - j,
{
    if j < 0 || j >= d.len() {
        None
    } else if d[j] == 0xF7 {
        Some(j)
    } else {
        sysex_end(d, j + 1)
    }
}

/// End (exclusive) of the message whose status byte is at `i`, before
/// clipping to the data: channel voice messages by kind, system common by
/// kind, SysEx through its `0xF7` (or to the end), everything else one byte.
pub open spec fn message_end_raw(d: Seq<u8>, i: int) -> int {
    let status = d[i];
    let kind = status & 0xF0;
    if kind == 0x80 || kind == 0x90 || kind == 0xA0 || kind == 0xB0 || kind == 0xE0 {
        i + 3
    } else if kind == 0xC0 || kind == 0xD0 {
        i + 2
    } else if kind == 0xF0 {
        if status == 0xF0 {
            match sysex_end(d, i + 1) {
                Some(p) => p + 1,
                None => d.len() as int,
            }
        } else if status == 0xF1 || status == 0xF3 {
            i + 2
        } else if status == 0xF2 {
            i + 3
        } else {
            i + 1
        }
    } else {
        i + 1
    }
}

pub open spec fn message_end(d: Seq<u8>, i: int) -> int {
    let e = message_end_raw(d, i);
    if e < d.len() {
        e
    } else {
        d.len() as int
    }
}

pub proof fn lemma_sysex_end(d: Seq<u8>, j: int)
    requires
        0 <= j,
    ensures
        sysex_end(d, j) matches Some(p) ==> j <= p < d.len(),
    decreases d.len() - j,
{
    if j < d.len() && d[j] != 0xF7 {
        lemma_sysex_end(d, j + 1);
    }
}

pub proof fn lemma_message_end(d: Seq<u8>, i: int)
    requires
        0 <= i < d.len(),
    ensures
        i < message_end(d, i) <= d.len(),
{
    lemma_sysex_end(d, i + 1);
}

/// The messages found in `d` from index `i` on. Data bytes with no status
/// byte before them are skipped.
pub open spec fn messages_from(d: Seq<u8>, i: int) -> Seq<Seq<u8>>
    decreases d.len() - i,
{
    if i < 0 || i >= d.len() {
        Seq::empty()
    } else if d[i] & 0x80 == 0 {
        messages_from(d, i + 1)
    } else {
        proof {
            lemma_message_end(d, i);
        }
        seq![d.subrange(i, message_end(d, i))] + messages_from(d, message_end(d, i))
    }
}

/// The queue after appending `m` with the oldest message dropped when full.
pub open spec fn push_bounded(q: Seq<Seq<u8>>, m: Seq<u8>) -> Seq<Seq<u8>> {
    if q.len() >= MAX_QUEUED_MESSAGES {
        q.drop_first().push(m)
    } else {
        q.push(m)
    }
}

pub open spec fn push_all_bounded(q: Seq<Seq<u8>>, ms: Seq<Seq<u8>>) -> Seq<Seq<u8>>
    decreases ms.len(),
{
    if ms.len() == 0 {
        q
    } else {
        push_all_bounded(push_bounded(q, ms[0]), ms.skip(1))
    }
}

pub open spec fn queue_view(q: Seq<Vec<u8>>) -> Seq<Seq<u8>> {
    q.map_values(|m: Vec<u8>| m@)
}

fn sysex_end_index(d: &[u8], j: usize) -> (r: Option<usize>)
    ensures
        match r {
            Some(p) => sysex_end(d@, j as int) == Some(p as int),
            None => sysex_end(d@, j as int) is None,
        },
{
    let n = d.len();
    let mut k = j;
    while k < n
        invariant
            n == d@.len(),
            j <= k,
            sysex_end(d@, j as int) == sysex_end(d@, k as int),
        decreases n - k,
    {
        if d[k] == 0xF7 {
            return Some(k);
        }
        k = k + 1;
    }
    None
}

fn message_end_index(d: &[u8], i: usize) -> (e: usize)
    requires
        i < d@.len(),
    ensures
        e as int == message_end(d@, i as int),
{
    let n = d.len();
    let status = d[i];
    let kind = status & 0xF0;
    let raw: usize = if kind == 0x80 || kind == 0x90 || kind == 0xA0 || kind == 0xB0 || kind
        == 0xE0 {
        if n - i < 3 {
            n
        } else {
            i + 3
        }
    } else if kind == 0xC0 || kind == 0xD0 {
        if n - i < 2 {
            n
        } else {
            i + 2
        }
    } else if kind == 0xF0 {
        if status == 0xF0 {
            match sysex_end_index(d, i + 1) {
                Some(p) => {
                    proof {
                        lemma_sysex_end(d@, i + 1);
                    }
                    p + 1
                },
                None => n,
            }
        } else if status == 0xF1 || status == 0xF3 {
            if n - i < 2 {
                n
            } else {
                i + 2
            }
        } else if status == 0xF2 {
            if n - i < 3 {
                n
            } else {
                i + 3
            }
        } else {
            i + 1
        }
    } else {
        i + 1
    };
    raw
}

/// Split a raw MIDI packet (which may concatenate several MIDI messages
/// sharing a timestamp) into individual messages and push each onto `out`,
/// enforcing [`MAX_QUEUED_MESSAGES`] by dropping the oldest on overflow.
///
/// Handles channel voice (0x80–0xEF), System Common (0xF1–0xF6),
/// System Real-Time (0xF8–0xFF), and SysEx (0xF0 … 0xF7). Bytes that
/// appear without a preceding status byte (running status, or junk) are
/// skipped.
pub fn enqueue_messages(data: &[u8], out: &mut VecDeque<Vec<u8>>)
    ensures
        queue_view(final(out)@) == push_all_bounded(queue_view(old(out)@), messages_from(data@, 0)),
{
    let n = data.len();
    let mut i: usize = 0;
    while i < n
        invariant
            n == data@.len(),
            i <= n,
            push_all_bounded(queue_view(old(out)@), messages_from(data@, 0)) == push_all_bounded(
                queue_view(out@),
                messages_from(data@, i as int),
            ),
        decreases n - i,
    {
        let status = data[i];
        if status & 0x80 == 0 {
            i = i + 1;
            continue;
        }
        let end = message_end_index(data, i);
        proof {
            lemma_message_end(data@, i as int);
        }
        let msg = slice_bytes(data, i, end);
        let ghost before = queue_view(out@);
        let ghost rest = messages_from(data@, end as int);
        proof {
            assert(messages_from(data@, i as int) == seq![msg@] + rest);
            assert((seq![msg@] + rest)[0] == msg@);
            assert((seq![msg@] + rest).skip(1) =~= rest);
        }
        if out.len() >= MAX_QUEUED_MESSAGES {
            out.pop_front();
            proof {
                assert(queue_view(out@) =~= before.drop_first());
            }
        }
        let ghost mid = queue_view(out@);
        out.push_back(msg);
        proof {
            assert(queue_view(out@) =~= mid.push(msg@));
            assert(queue_view(out@) == push_bounded(before, msg@));
        }
        i = end;
    }
    proof {
        assert(messages_from(data@, i as int) =~= Seq::<Seq<u8>>::empty());
    }
}

proof fn lemma_status_kinds(b: u8)
    ensures
        0x80 <= b ==> b & 0x80 != 0,
        (0x80 <= b < 0xC0 || 0xE0 <= b < 0xF0) ==> (b & 0xF0 == 0x80 || b & 0xF0 == 0x90 || b
            & 0xF0 == 0xA0 || b & 0xF0 == 0xB0 || b & 0xF0 == 0xE0),
        0xC0 <= b < 0xE0 ==> (b & 0xF0 == 0xC0 || b & 0xF0 == 0xD0),
        0xF0 <= b ==> b & 0xF0 == 0xF0,
{
    assert(0x80 <= b ==> b & 0x80 != 0) by (bit_vector);
    assert((0x80 <= b < 0xC0 || 0xE0 <= b < 0xF0) ==> (b & 0xF0 == 0x80 || b & 0xF0 == 0x90
        || b & 0xF0 == 0xA0 || b & 0xF0 == 0xB0 || b & 0xF0 == 0xE0)) by (bit_vector);
    assert(0xC0 <= b < 0xE0 ==> (b & 0xF0 == 0xC0 || b & 0xF0 == 0xD0)) by (bit_vector);
    assert(0xF0 <= b ==> b & 0xF0 == 0xF0) by (bit_vector);
}

/// How many bytes a message takes, by its status byte: note off, note on,
/// polyphonic pressure, control change and pitch bend (0x80-0xBF,
/// 0xE0-0xEF) and song position (0xF2) take three; program change and
/// channel pressure (0xC0-0xDF), time code and song select (0xF1, 0xF3)
/// take two; the other system bytes but SysEx (0xF4-0xFF) take one. A
/// message at `i` whose bytes are all there is split off whole, and the
/// rest of the packet is read after it.
pub proof fn law_message_length_by_status(d: Seq<u8>, i: int, len: int)
    requires
        0 <= i,
        i + len <= d.len(),
        len == (if (0x80 <= d[i] < 0xC0 || 0xE0 <= d[i] < 0xF0 || d[i] == 0xF2) {
            3int
        } else if (0xC0 <= d[i] < 0xE0 || d[i] == 0xF1 || d[i] == 0xF3) {
            2int
        } else if 0xF4 <= d[i] {
            1int
        } else {
            0int
        }),
        len > 0,
    ensures
        messages_from(d, i) == seq![d.subrange(i, i + len)] + messages_from(d, i + len),
{
    lemma_status_kinds(d[i]);
    assert(message_end(d, i) == i + len);
}

proof fn lemma_sysex_end_first(d: Seq<u8>, j: int, p: int)
    requires
        0 <= j <= p < d.len(),
        d[p] == 0xF7,
        forall|k: int| j <= k < p ==> d[k] != 0xF7,
    ensures
        sysex_end(d, j) == Some(p),
    decreases p - j,
{
    if j < p {
        lemma_sysex_end_first(d, j + 1, p);
    }
}

/// A SysEx message runs from its `0xF0` through the first `0xF7` after it.
pub proof fn law_sysex_through_end_byte(d: Seq<u8>, i: int, p: int)
    requires
        0 <= i < p < d.len(),
        d[i] == 0xF0,
        d[p] == 0xF7,
        forall|k: int| i < k < p ==> d[k] != 0xF7,
    ensures
        messages_from(d, i) == seq![d.subrange(i, p + 1)] + messages_from(d, p + 1),
{
    lemma_status_kinds(d[i]);
    lemma_sysex_end_first(d, i + 1, p);
}

/// A data byte (below 0x80) with no status byte before it is skipped.
pub proof fn law_stray_data_byte_skipped(d: Seq<u8>, i: int)
    requires
        0 <= i < d.len(),
        d[i] < 0x80,
    ensures
        messages_from(d, i) == messages_from(d, i + 1),
{
    let b = d[i];
    assert(b < 0x80 ==> b & 0x80 == 0) by (bit_vector);
}

/// A packet holding one complete message (see
/// [`law_message_length_by_status`]) is queued as that one message, all of
/// its bytes kept, when the queue has room.
pub proof fn law_single_message_queued(d: Seq<u8>, q: Seq<Seq<u8>>)
    requires
        d.len() > 0,
        d.len() == (if (0x80 <= d[0] < 0xC0 || 0xE0 <= d[0] < 0xF0 || d[0] == 0xF2) {
            3int
        } else if (0xC0 <= d[0] < 0xE0 || d[0] == 0xF1 || d[0] == 0xF3) {
            2int
        } else if 0xF4 <= d[0] {
            1int
        } else {
            0int
        }),
        q.len() < MAX_QUEUED_MESSAGES,
    ensures
        push_all_bounded(q, messages_from(d, 0)) == q.push(d),
{
    law_message_length_by_status(d, 0, d.len() as int);
    assert(messages_from(d, d.len() as int) =~= Seq::<Seq<u8>>::empty());
    assert(d.subrange(0, d.len() as int) =~= d);
    let ms = messages_from(d, 0);
    assert(ms =~= seq![d]);
    assert(ms.skip(1) =~= Seq::<Seq<u8>>::empty());
    assert(push_all_bounded(q, ms) == push_all_bounded(q.push(d), ms.skip(1)));
}

/// The queue never holds more than [`MAX_QUEUED_MESSAGES`] messages, and the
/// newest message is always kept at its end.
pub proof fn law_queue_bounded(q: Seq<Seq<u8>>, ms: Seq<Seq<u8>>)
    requires
        q.len() <= MAX_QUEUED_MESSAGES,
    ensures
        push_all_bounded(q, ms).len() <= MAX_QUEUED_MESSAGES,
        ms.len() > 0 ==> push_all_bounded(q, ms).last() == ms.last(),
    decreases ms.len(),
{
    if ms.len() > 0 {
        law_queue_bounded(push_bounded(q, ms[0]), ms.skip(1));
        if ms.len() > 1 {
            assert(ms.skip(1).last() == ms.last());
        } else {
            assert(ms.skip(1).len() == 0);
        }
    }
}

/// Nothing is lost while the queue has room: all messages are appended in
/// order.
pub proof fn law_queue_appends_when_room(q: Seq<Seq<u8>>, ms: Seq<Seq<u8>>)
    requires
        q.len() + ms.len() <= MAX_QUEUED_MESSAGES,
    ensures
        push_all_bounded(q, ms) == q + ms,
    decreases ms.len(),
{
    if ms.len() > 0 {
        law_queue_appends_when_room(q.push(ms[0]), ms.skip(1));
        assert(q.push(ms[0]) + ms.skip(1) =~= q + ms);
    } else {
        assert(q + ms =~= q);
    }
}

/// Length in bytes of the front queued message without popping it.
pub fn peek_len(queue: &VecDeque<Vec<u8>>) -> (r: Option<usize>)
    ensures
        match r {
            Some(l) => queue@.len() > 0 && l == queue@[0]@.len(),
            None => queue@.len() == 0,
        },
{
    if queue.len() == 0 {
        None
    } else {
        Some(queue[0].len())
    }
}

/// Takes the oldest queued message.
pub fn recv(queue: &mut VecDeque<Vec<u8>>) -> (r: Option<Vec<u8>>)
    ensures
        match r {
            Some(m) => old(queue)@.len() > 0 && m == old(queue)@[0] && final(queue)@ == old(
                queue,
            )@.drop_first(),
            None => old(queue)@.len() == 0 && final(queue)@ == old(queue)@,
        },
{
    queue.pop_front()
}

/// The MIDI ports a guest opened, by handle: the message queue of each
/// input and the destination index of each output. The device ports
/// themselves belong to the embedder.
pub struct MidiState {
    next_handle: u32,
    inputs: HashMap<u32, VecDeque<Vec<u8>>>,
    outputs: HashMap<u32, u32>,
}

spec fn queues_view(m: Map<u32, VecDeque<Vec<u8>>>) -> Map<u32, Seq<Seq<u8>>> {
    Map::new(|k: u32| m.contains_key(k), |k: u32| queue_view(m[k]@))
}

proof fn lemma_queues_insert(m: Map<u32, VecDeque<Vec<u8>>>, k: u32, q: VecDeque<Vec<u8>>)
    ensures
        queues_view(m.insert(k, q)) == queues_view(m).insert(k, queue_view(q@)),
{
    assert(queues_view(m.insert(k, q)) =~= queues_view(m).insert(k, queue_view(q@)));
}

proof fn lemma_queues_remove(m: Map<u32, VecDeque<Vec<u8>>>, k: u32)
    ensures
        queues_view(m.remove(k)) == queues_view(m).remove(k),
{
    assert(queues_view(m.remove(k)) =~= queues_view(m).remove(k));
}

impl MidiState {
    pub closed spec fn inputs(&self) -> Map<u32, Seq<Seq<u8>>> {
        queues_view(self.inputs@)
    }

    pub closed spec fn outputs(&self) -> Map<u32, u32> {
        self.outputs@
    }

    pub closed spec fn next_handle(&self) -> u32 {
        self.next_handle
    }

    pub fn new() -> (r: Self)
        ensures
            r.inputs() == Map::<u32, Seq<Seq<u8>>>::empty(),
            r.outputs() == Map::<u32, u32>::empty(),
            r.next_handle() == 1,
    {
        let r = MidiState { next_handle: 1, inputs: HashMap::new(), outputs: HashMap::new() };
        proof {
            assert(queues_view(r.inputs@) =~= Map::<u32, Seq<Seq<u8>>>::empty());
        }
        r
    }

    /// An input port was connected: it gets a handle and an empty queue.
    pub fn add_input(&mut self) -> (h: u32)
        ensures
            h == old(self).next_handle(),
            final(self).next_handle() == next_handle(h),
            final(self).inputs() == old(self).inputs().insert(h, Seq::<Seq<u8>>::empty()),
            final(self).outputs() == old(self).outputs(),
    {
        let h = self.next_handle;
        self.next_handle = advance_handle(h);
        let ghost before = self.inputs@;
        let q: VecDeque<Vec<u8>> = VecDeque::new();
        proof {
            assert(queue_view(q@) =~= Seq::<Seq<u8>>::empty());
            lemma_queues_insert(before, h, q);
        }
        self.inputs.insert(h, q);
        h
    }

    /// An output port to destination `dest_index` was opened.
    pub fn add_output(&mut self, dest_index: u32) -> (h: u32)
        ensures
            h == old(self).next_handle(),
            final(self).next_handle() == next_handle(h),
            final(self).outputs() == old(self).outputs().insert(h, dest_index),
            final(self).inputs() == old(self).inputs(),
    {
        let h = self.next_handle;
        self.next_handle = advance_handle(h);
        self.outputs.insert(h, dest_index);
        h
    }

    /// The destination of output `handle`.
    pub fn output_dest(&self, handle: u32) -> (r: Option<u32>)
        ensures
            r == (if self.outputs().contains_key(handle) {
                Some(self.outputs()[handle])
            } else {
                None::<u32>
            }),
    {
        match self.outputs.get(&handle) {
            Some(d) => Some(*d),
            None => None,
        }
    }

    /// A packet arrived on input `handle`: its messages are queued (empty
    /// packets and unknown handles are ignored).
    pub fn deliver(&mut self, handle: u32, packet: &[u8])
        ensures
            old(self).inputs().contains_key(handle) && packet@.len() > 0 ==> final(self).inputs()
                == old(self).inputs().insert(
                handle,
                push_all_bounded(old(self).inputs()[handle], messages_from(packet@, 0)),
            ),
            !(old(self).inputs().contains_key(handle) && packet@.len() > 0) ==> final(self).inputs() == old(self).inputs(),
            final(self).outputs() == old(self).outputs(),
            final(self).next_handle() == old(self).next_handle(),
    {
        if packet.len() == 0 {
            return ;
        }
        let ghost before = self.inputs@;
        match self.inputs.remove(&handle) {
            Some(mut q) => {
                enqueue_messages(packet, &mut q);
                proof {
                    assert(before.remove(handle).insert(handle, q) =~= before.insert(handle, q));
                    lemma_queues_insert(before, handle, q);
                }
                self.inputs.insert(handle, q);
            },
            None => {
                proof {
                    assert(self.inputs@ =~= before);
                }
            },
        }
    }

    /// Length of the oldest queued message of input `handle`.
    pub fn peek_len(&self, handle: u32) -> (r: Option<usize>)
        ensures
            match r {
                Some(l) => self.inputs().contains_key(handle) && self.inputs()[handle].len() > 0
                    && l == self.inputs()[handle][0].len(),
                None => !self.inputs().contains_key(handle) || self.inputs()[handle].len() == 0,
            },
    {
        match self.inputs.get(&handle) {
            Some(q) => peek_len(q),
            None => None,
        }
    }

    /// Takes the oldest queued message of input `handle`.
    pub fn recv(&mut self, handle: u32) -> (r: Option<Vec<u8>>)
        ensures
            match r {
                Some(m) => old(self).inputs().contains_key(handle) && old(self).inputs()[handle].len()
                    > 0 && m@ == old(self).inputs()[handle][0] && final(self).inputs() == old(self).inputs().insert(handle, old(self).inputs()[handle].drop_first()),
                None => (!old(self).inputs().contains_key(handle) || old(self).inputs()[handle].len()
                    == 0) && final(self).inputs() == old(self).inputs(),
            },
            final(self).outputs() == old(self).outputs(),
            final(self).next_handle() == old(self).next_handle(),
    {
        let ghost before = self.inputs@;
        match self.inputs.remove(&handle) {
            Some(mut q) => {
                let ghost q0 = q;
                let r = recv(&mut q);
                proof {
                    assert(before.remove(handle).insert(handle, q) =~= before.insert(handle, q));
                    lemma_queues_insert(before, handle, q);
                    if r is Some {
                        assert(queue_view(q@) =~= queue_view(q0@).drop_first());
                    } else {
                        assert(queues_view(before).insert(handle, queue_view(q@)) =~= queues_view(before));
                    }
                }
                self.inputs.insert(handle, q);
                r
            },
            None => {
                proof {
                    assert(self.inputs@ =~= before);
                }
                None
            },
        }
    }

    /// The guest asks for the oldest message of input `handle` with a buffer
    /// of `cap` bytes: `Err(-1)` when nothing is queued (or the handle is
    /// unknown), `Err(-2)` when the message does not fit (it stays queued so
    /// the guest can retry with a larger buffer), else the message, dequeued.
    pub fn recv_within(&mut self, handle: u32, cap: usize) -> (r: Result<Vec<u8>, i32>)
        ensures
            final(self).outputs() == old(self).outputs(),
            final(self).next_handle() == old(self).next_handle(),
            !old(self).inputs().contains_key(handle) || old(self).inputs()[handle].len() == 0 ==> (r is Err
                && r->Err_0 == -1 && final(self).inputs() == old(self).inputs()),
            old(self).inputs().contains_key(handle) && old(self).inputs()[handle].len() > 0 ==> {
                let q = old(self).inputs()[handle];
                if q[0].len() > cap {
                    r is Err && r->Err_0 == -2 && final(self).inputs() == old(self).inputs()
                } else {
                    r is Ok && r->Ok_0@ == q[0] && final(self).inputs() == old(self).inputs().insert(
                        handle,
                        q.drop_first(),
                    )
                }
            },
    {
        let n = match self.peek_len(handle) {
            Some(n) => n,
            None => return Err(-1),
        };
        if n > cap {
            return Err(-2);
        }
        match self.recv(handle) {
            Some(m) => Ok(m),
            None => Err(-1),
        }
    }

    /// Closes `handle`, input or output.
    pub fn close(&mut self, handle: u32)
        ensures
            final(self).inputs() == old(self).inputs().remove(handle),
            final(self).outputs() == old(self).outputs().remove(handle),
            final(self).next_handle() == old(self).next_handle(),
    {
        let ghost before = self.inputs@;
        self.inputs.remove(&handle);
        self.outputs.remove(&handle);
        proof {
            lemma_queues_remove(before, handle);
        }
    }
}

} // verus!
