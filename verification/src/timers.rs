//! Guest timers and animation-frame requests.
//!
//! `set_timeout` / `set_interval` schedule a guest callback at a point on
//! the host's monotonic millisecond clock; `request_animation_frame` queues
//! a one-shot callback for the next frame. Every frame the host drains the
//! animation requests, then the due timers, and calls the guest's
//! `on_timer(callback_id)` for each. One-shot timers are removed when they
//! fire; the fire time of an interval is advanced by its interval.

use vstd::prelude::*;
use vstd::multiset::Multiset;
use crate::handles::{advance_handle, next_handle};

verus! {

/// A scheduled timer: one-shot (`interval_ms` is `None`) or repeating.
#[derive(Clone, Copy, Debug, PartialEq, Eq, Structural)]
pub struct TimerEntry {
    /// Host-assigned id returned to the guest for `clear_timer`.
    pub id: u32,
    /// Monotonic time (ms) at which the timer fires next.
    pub fire_at_ms: u64,
    pub interval_ms: Option<u64>,
    /// Guest-defined id passed to `on_timer` when the timer fires.
    pub callback_id: u32,
}

/// A one-shot animation-frame request.
#[derive(Clone, Copy, Debug, PartialEq, Eq, Structural)]
pub struct AnimationRequest {
    /// Host-assigned id, for `cancel_animation_frame`.
    pub id: u32,
    /// Guest-defined id passed to `on_timer` when the frame fires.
    pub callback_id: u32,
}

pub open spec fn due(t: TimerEntry, now: u64) -> bool {
    t.fire_at_ms <= now
}

/// The timer after it fired: an interval's fire time is advanced by its
/// interval.
pub open spec fn rescheduled(t: TimerEntry, now: u64) -> TimerEntry {
    TimerEntry { fire_at_ms: (t.fire_at_ms + t.interval_ms.unwrap()) as u64, ..t }
}

/// Draining scans the list from index `i`: a due timer fires; an interval
/// is rescheduled in place and the scan moves on, a one-shot timer is
/// replaced by the last entry (which is looked at next).
pub open spec fn drain_from(ts: Seq<TimerEntry>, i: int, now: u64) -> (Seq<TimerEntry>, Seq<u32>)
    decreases ts.len() - i,
{
    if i < 0 || i >= ts.len() {
        (ts, Seq::empty())
    } else if !due(ts[i], now) {
        drain_from(ts, i + 1, now)
    } else if ts[i].interval_ms is Some {
        let r = drain_from(ts.update(i, rescheduled(ts[i], now)), i + 1, now);
        (r.0, seq![ts[i].callback_id] + r.1)
    } else {
        let swapped = ts.update(i, ts.last()).drop_last();
        let r = drain_from(swapped, i, now);
        (r.0, seq![ts[i].callback_id] + r.1)
    }
}

/// No due interval would be rescheduled past the end of the clock.
pub open spec fn reschedule_fits(ts: Seq<TimerEntry>, now: u64) -> bool {
    forall|j: int|
        0 <= j < ts.len() && due(#[trigger] ts[j], now) && ts[j].interval_ms is Some
            ==> ts[j].fire_at_ms + ts[j].interval_ms.unwrap() <= u64::MAX
}

/// The callbacks of the timers due at `now`.
pub open spec fn due_callbacks(ts: Seq<TimerEntry>, now: u64) -> Multiset<u32>
    decreases ts.len(),
{
    if ts.len() == 0 {
        Multiset::empty()
    } else if due(ts[0], now) {
        due_callbacks(ts.drop_first(), now).insert(ts[0].callback_id)
    } else {
        due_callbacks(ts.drop_first(), now)
    }
}

/// What a single timer leaves behind after a drain at `now`.
pub open spec fn kept_one(t: TimerEntry, now: u64) -> Multiset<TimerEntry> {
    if !due(t, now) {
        Multiset::singleton(t)
    } else if t.interval_ms is Some {
        Multiset::singleton(rescheduled(t, now))
    } else {
        Multiset::empty()
    }
}

/// The timers left after a drain at `now`: those not yet due unchanged,
/// due intervals rescheduled, due one-shots gone.
pub open spec fn kept_after(ts: Seq<TimerEntry>, now: u64) -> Multiset<TimerEntry>
    decreases ts.len(),
{
    if ts.len() == 0 {
        Multiset::empty()
    } else {
        kept_one(ts[0], now).add(kept_after(ts.drop_first(), now))
    }
}

proof fn lemma_push_commutes(s: Seq<TimerEntry>, x: TimerEntry, now: u64)
    ensures
        due_callbacks(s.push(x), now) == due_callbacks(seq![x] + s, now),
        kept_after(s.push(x), now) == kept_after(seq![x] + s, now),
    decreases s.len(),
{
    broadcast use vstd::multiset::group_multiset_axioms;
    assert((seq![x] + s).drop_first() =~= s);
    if s.len() > 0 {
        let t = s.drop_first();
        lemma_push_commutes(t, x, now);
        assert(s.push(x).drop_first() =~= t.push(x));
        assert((seq![x] + t).drop_first() =~= t);
        assert((seq![x] + t)[0] == x);
        assert((seq![x] + s)[0] == x);
        assert(s.push(x)[0] == s[0]);
        assert(due_callbacks(seq![x] + t, now) == (if due(x, now) {
            due_callbacks(t, now).insert(x.callback_id)
        } else {
            due_callbacks(t, now)
        }));
        assert(kept_after(seq![x] + t, now) == kept_one(x, now).add(kept_after(t, now)));
        assert(due_callbacks(s, now) == (if due(s[0], now) {
            due_callbacks(t, now).insert(s[0].callback_id)
        } else {
            due_callbacks(t, now)
        }));
        assert(due_callbacks(s.push(x), now) == (if due(s[0], now) {
            due_callbacks(t.push(x), now).insert(s[0].callback_id)
        } else {
            due_callbacks(t.push(x), now)
        }));
        assert(kept_after(s, now) == kept_one(s[0], now).add(kept_after(t, now)));
        assert(kept_after(s.push(x), now) == kept_one(s[0], now).add(kept_after(t.push(x), now)));
        assert(due_callbacks(seq![x] + s, now) == (if due(x, now) {
            due_callbacks(s, now).insert(x.callback_id)
        } else {
            due_callbacks(s, now)
        }));
        assert(kept_after(seq![x] + s, now) == kept_one(x, now).add(kept_after(s, now)));
        assert(due_callbacks(s.push(x), now) =~= due_callbacks(seq![x] + s, now));
        assert(kept_after(s.push(x), now) =~= kept_after(seq![x] + s, now));
    } else {
        assert(s.push(x) =~= seq![x] + s);
    }
}

/// Draining at index `i` fires exactly the due callbacks from `i` on, and
/// leaves the entries before `i` plus what the rest keeps.
proof fn lemma_drain_from(ts: Seq<TimerEntry>, i: int, now: u64)
    requires
        0 <= i <= ts.len(),
    ensures
        drain_from(ts, i, now).1.to_multiset() == due_callbacks(ts.skip(i), now),
        drain_from(ts, i, now).0.to_multiset() == ts.take(i).to_multiset().add(
            kept_after(ts.skip(i), now),
        ),
    decreases ts.len() - i,
{
    broadcast use vstd::multiset::group_multiset_axioms;
    broadcast use vstd::seq_lib::group_to_multiset_ensures;
    if i >= ts.len() {
        assert(ts.skip(i) =~= Seq::<TimerEntry>::empty());
        assert(ts.take(i) =~= ts);
        assert(drain_from(ts, i, now).1.to_multiset() =~= Multiset::empty());
        assert(kept_after(ts.skip(i), now) =~= Multiset::empty());
        assert(drain_from(ts, i, now).0.to_multiset() =~= ts.take(i).to_multiset().add(
            kept_after(ts.skip(i), now),
        ));
    } else {
        let x = ts[i];
        assert(ts.skip(i).drop_first() =~= ts.skip(i + 1));
        assert(ts.skip(i)[0] == x);
        if !due(x, now) {
            lemma_drain_from(ts, i + 1, now);
            assert(ts.take(i + 1) =~= ts.take(i).push(x));
            assert(drain_from(ts, i, now).0.to_multiset() =~= ts.take(i).to_multiset().add(
                kept_after(ts.skip(i), now),
            ));
        } else if x.interval_ms is Some {
            let u = ts.update(i, rescheduled(x, now));
            lemma_drain_from(u, i + 1, now);
            assert(u.skip(i + 1) =~= ts.skip(i + 1));
            assert(u.take(i + 1) =~= ts.take(i).push(rescheduled(x, now)));
            let r = drain_from(u, i + 1, now);
            assert((seq![x.callback_id] + r.1).to_multiset() =~= r.1.to_multiset().insert(
                x.callback_id,
            )) by {
                vstd::seq_lib::lemma_multiset_commutative(seq![x.callback_id], r.1);
                assert(seq![x.callback_id].to_multiset() =~= Multiset::singleton(x.callback_id)) by {
                    assert(seq![x.callback_id] =~= Seq::<u32>::empty().push(x.callback_id));
                }
            }
            assert(drain_from(ts, i, now).0.to_multiset() =~= ts.take(i).to_multiset().add(
                kept_after(ts.skip(i), now),
            ));
        } else {
            let last = ts.last();
            let w = ts.update(i, last).drop_last();
            lemma_drain_from(w, i, now);
            let r = drain_from(w, i, now);
            assert(w.take(i) =~= ts.take(i));
            if i < ts.len() - 1 {
                let mid = ts.subrange(i + 1, ts.len() - 1);
                assert(w.skip(i) =~= seq![last] + mid);
                assert(ts.skip(i + 1) =~= mid.push(last));
                lemma_push_commutes(mid, last, now);
            } else {
                assert(w.skip(i) =~= Seq::<TimerEntry>::empty());
                assert(ts.skip(i + 1) =~= Seq::<TimerEntry>::empty());
            }
            assert((seq![x.callback_id] + r.1).to_multiset() =~= r.1.to_multiset().insert(
                x.callback_id,
            )) by {
                vstd::seq_lib::lemma_multiset_commutative(seq![x.callback_id], r.1);
                assert(seq![x.callback_id].to_multiset() =~= Multiset::singleton(x.callback_id)) by {
                    assert(seq![x.callback_id] =~= Seq::<u32>::empty().push(x.callback_id));
                }
            }
            assert(drain_from(ts, i, now).0.to_multiset() =~= ts.take(i).to_multiset().add(
                kept_after(ts.skip(i), now),
            ));
        }
    }
}

/// Draining the timers at `now` fires the callback of every due timer,
/// once each (as a multiset), and leaves the timers not yet due plus the
/// due intervals with their fire time advanced by their interval; due
/// one-shot timers are gone.
pub proof fn law_drain_fires_due_timers(ts: Seq<TimerEntry>, now: u64)
    ensures
        drain_from(ts, 0, now).1.to_multiset() == due_callbacks(ts, now),
        drain_from(ts, 0, now).0.to_multiset() == kept_after(ts, now),
{
    broadcast use vstd::multiset::group_multiset_axioms;
    broadcast use vstd::multiset::group_multiset_properties;
    broadcast use vstd::seq_lib::group_to_multiset_ensures;
    lemma_drain_from(ts, 0, now);
    assert(ts.skip(0) =~= ts);
    assert(ts.take(0) =~= Seq::<TimerEntry>::empty());
    assert(ts.take(0).to_multiset().len() == 0);
    assert(ts.take(0).to_multiset() =~= Multiset::<TimerEntry>::empty());
}

/// The guest's timers and pending animation-frame requests, and the
/// counter their ids come from.
pub struct Scheduler {
    timers: Vec<TimerEntry>,
    frames: Vec<AnimationRequest>,
    next_id: u32,
}

impl Scheduler {
    pub closed spec fn timers(&self) -> Seq<TimerEntry> {
        self.timers@
    }

    pub closed spec fn frames(&self) -> Seq<AnimationRequest> {
        self.frames@
    }

    pub closed spec fn next_id(&self) -> u32 {
        self.next_id
    }

    pub fn new() -> (r: Self)
        ensures
            r.timers() == Seq::<TimerEntry>::empty(),
            r.frames() == Seq::<AnimationRequest>::empty(),
            r.next_id() == 1,
    {
        Scheduler { timers: Vec::new(), frames: Vec::new(), next_id: 1 }
    }

    fn take_id(&mut self) -> (id: u32)
        ensures
            id == old(self).next_id(),
            final(self).next_id() == next_handle(id),
            final(self).timers() == old(self).timers(),
            final(self).frames() == old(self).frames(),
    {
        let id = self.next_id;
        self.next_id = advance_handle(id);
        id
    }

    /// Schedules `callback_id` once, `delay_ms` after `now_ms`.
    pub fn set_timeout(&mut self, callback_id: u32, delay_ms: u32, now_ms: u64) -> (id: u32)
        requires
            now_ms + delay_ms <= u64::MAX,
        ensures
            id == old(self).next_id(),
            final(self).next_id() == next_handle(id),
            final(self).timers() == old(self).timers().push(
                TimerEntry {
                    id,
                    fire_at_ms: (now_ms + delay_ms) as u64,
                    interval_ms: None,
                    callback_id,
                },
            ),
            final(self).frames() == old(self).frames(),
    {
        let id = self.take_id();
        self.timers.push(
            TimerEntry { id, fire_at_ms: now_ms + delay_ms as u64, interval_ms: None, callback_id },
        );
        id
    }

    /// Schedules `callback_id` every `interval_ms`, first `interval_ms` after
    /// `now_ms`.
    pub fn set_interval(&mut self, callback_id: u32, interval_ms: u32, now_ms: u64) -> (id: u32)
        requires
            now_ms + interval_ms <= u64::MAX,
        ensures
            id == old(self).next_id(),
            final(self).next_id() == next_handle(id),
            final(self).timers() == old(self).timers().push(
                TimerEntry {
                    id,
                    fire_at_ms: (now_ms + interval_ms) as u64,
                    interval_ms: Some(interval_ms as u64),
                    callback_id,
                },
            ),
            final(self).frames() == old(self).frames(),
    {
        let id = self.take_id();
        self.timers.push(
            TimerEntry {
                id,
                fire_at_ms: now_ms + interval_ms as u64,
                interval_ms: Some(interval_ms as u64),
                callback_id,
            },
        );
        id
    }

    /// Removes every timer with id `timer_id`.
    pub fn clear_timer(&mut self, timer_id: u32)
        ensures
            final(self).timers() == old(self).timers().filter(|t: TimerEntry| t.id != timer_id),
            final(self).frames() == old(self).frames(),
            final(self).next_id() == old(self).next_id(),
    {
        let ghost ts = self.timers@;
        let mut kept: Vec<TimerEntry> = Vec::new();
        let mut i: usize = 0;
        proof {
            assert(ts.take(0) =~= Seq::<TimerEntry>::empty());
            reveal_with_fuel(Seq::<TimerEntry>::filter, 1);
        }
        while i < self.timers.len()
            invariant
                i <= self.timers@.len(),
                ts == self.timers@,
                kept@ == ts.take(i as int).filter(|t: TimerEntry| t.id != timer_id),
            decreases self.timers@.len() - i,
        {
            proof {
                reveal_with_fuel(Seq::<TimerEntry>::filter, 1);
                assert(ts.take(i + 1).drop_last() =~= ts.take(i as int));
            }
            let t = self.timers[i];
            if t.id != timer_id {
                kept.push(t);
            }
            i = i + 1;
        }
        proof {
            assert(ts.take(i as int) =~= ts);
        }
        self.timers = kept;
    }

    /// Queues `callback_id` for the next frame.
    pub fn request_animation_frame(&mut self, callback_id: u32) -> (id: u32)
        ensures
            id == old(self).next_id(),
            final(self).next_id() == next_handle(id),
            final(self).frames() == old(self).frames().push(AnimationRequest { id, callback_id }),
            final(self).timers() == old(self).timers(),
    {
        let id = self.take_id();
        self.frames.push(AnimationRequest { id, callback_id });
        id
    }

    /// Drops every pending frame request with id `request_id`.
    pub fn cancel_animation_frame(&mut self, request_id: u32)
        ensures
            final(self).frames() == old(self).frames().filter(
                |r: AnimationRequest| r.id != request_id,
            ),
            final(self).timers() == old(self).timers(),
            final(self).next_id() == old(self).next_id(),
    {
        let ghost fs = self.frames@;
        let mut kept: Vec<AnimationRequest> = Vec::new();
        let mut i: usize = 0;
        proof {
            assert(fs.take(0) =~= Seq::<AnimationRequest>::empty());
            reveal_with_fuel(Seq::<AnimationRequest>::filter, 1);
        }
        while i < self.frames.len()
            invariant
                i <= self.frames@.len(),
                fs == self.frames@,
                kept@ == fs.take(i as int).filter(|r: AnimationRequest| r.id != request_id),
            decreases self.frames@.len() - i,
        {
            proof {
                reveal_with_fuel(Seq::<AnimationRequest>::filter, 1);
                assert(fs.take(i + 1).drop_last() =~= fs.take(i as int));
            }
            let r = self.frames[i];
            if r.id != request_id {
                kept.push(r);
            }
            i = i + 1;
        }
        proof {
            assert(fs.take(i as int) =~= fs);
        }
        self.frames = kept;
    }

    /// Takes every pending frame request (they are one-shot) and returns
    /// their callbacks in request order.
    pub fn drain_animation_frame_requests(&mut self) -> (r: Vec<u32>)
        ensures
            r@ == old(self).frames().map_values(|q: AnimationRequest| q.callback_id),
            final(self).frames() == Seq::<AnimationRequest>::empty(),
            final(self).timers() == old(self).timers(),
            final(self).next_id() == old(self).next_id(),
    {
        let mut out: Vec<u32> = Vec::new();
        let mut i: usize = 0;
        while i < self.frames.len()
            invariant
                i <= self.frames@.len(),
                out@ =~= self.frames@.take(i as int).map_values(|q: AnimationRequest| q.callback_id),
            decreases self.frames@.len() - i,
        {
            out.push(self.frames[i].callback_id);
            proof {
                assert(self.frames@.take(i + 1) =~= self.frames@.take(i as int).push(
                    self.frames@[i as int],
                ));
            }
            i = i + 1;
        }
        proof {
            assert(self.frames@.take(i as int) =~= self.frames@);
        }
        self.frames.clear();
        out
    }

    /// Fires the timers due at `now_ms`: returns their callbacks in firing
    /// order, drops due one-shot timers and reschedules due intervals.
    pub fn drain_expired_timers(&mut self, now_ms: u64) -> (r: Vec<u32>)
        requires
            reschedule_fits(old(self).timers(), now_ms),
        ensures
            (final(self).timers(), r@) == drain_from(old(self).timers(), 0, now_ms),
            final(self).frames() == old(self).frames(),
            final(self).next_id() == old(self).next_id(),
    {
        let ghost orig = self.timers@;
        let mut fired: Vec<u32> = Vec::new();
        let mut i: usize = 0;
        while i < self.timers.len()
            invariant
                i <= self.timers@.len(),
                forall|j: int|
                    i <= j < self.timers@.len() && due(#[trigger] self.timers@[j], now_ms)
                        && self.timers@[j].interval_ms is Some ==> self.timers@[j].fire_at_ms
                        + self.timers@[j].interval_ms.unwrap() <= u64::MAX,
                drain_from(orig, 0, now_ms) == (
                    drain_from(self.timers@, i as int, now_ms).0,
                    fired@ + drain_from(self.timers@, i as int, now_ms).1,
                ),
                self.frames@ == old(self).frames@,
                self.next_id == old(self).next_id,
            decreases self.timers@.len() - i,
        {
            let ghost cur = self.timers@;
            let t = self.timers[i];
            if t.fire_at_ms <= now_ms {
                fired.push(t.callback_id);
                match t.interval_ms {
                    Some(iv) => {
                        let moved = TimerEntry { fire_at_ms: t.fire_at_ms + iv, ..t };
                        self.timers.set(i, moved);
                        proof {
                            assert(fired@ + drain_from(self.timers@, i + 1, now_ms).1 =~= fired@.drop_last()
                                + (seq![t.callback_id] + drain_from(self.timers@, i + 1, now_ms).1));
                        }
                        i = i + 1;
                    },
                    None => {
                        self.timers.swap_remove(i);
                        proof {
                            assert(fired@ + drain_from(self.timers@, i as int, now_ms).1 =~= fired@.drop_last()
                                + (seq![t.callback_id] + drain_from(self.timers@, i as int, now_ms).1));
                            assert forall|j: int|
                                i <= j < self.timers@.len() && due(#[trigger] self.timers@[j], now_ms)
                                    && self.timers@[j].interval_ms is Some implies self.timers@[j].fire_at_ms
                                    + self.timers@[j].interval_ms.unwrap() <= u64::MAX by {
                                if j == i {
                                    assert(self.timers@[j] == cur[cur.len() - 1]);
                                } else {
                                    assert(self.timers@[j] == cur[j]);
                                }
                            }
                        }
                    },
                }
            } else {
                i = i + 1;
            }
        }
        fired
    }
}

} // verus!
