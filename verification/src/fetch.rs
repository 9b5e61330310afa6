//! Streaming HTTP fetch state for Oxide guest modules.
//!
//! A request dispatched by `api_fetch_begin` is driven by a background task
//! that pushes body chunks into a queue; the guest polls the state and pulls
//! the body in pieces of its own size with `api_fetch_recv`. This module
//! holds that per-request state and the rules the guest-facing calls apply to
//! it; the network task lives with the embedder.

use vstd::prelude::*;
use std::collections::{HashMap, VecDeque};
use crate::handles::{advance_handle, next_handle};

verus! {

/// Request dispatched; waiting for response headers.
pub const FETCH_PENDING: u32 = 0;

/// Headers received; body chunks may be streaming in.
pub const FETCH_STREAMING: u32 = 1;

/// Body fully delivered and the queue may still contain trailing chunks.
pub const FETCH_DONE: u32 = 2;

/// Request failed. Use `api_fetch_error` to retrieve the message.
pub const FETCH_ERROR: u32 = 3;

/// Request was aborted by the guest.
pub const FETCH_ABORTED: u32 = 4;

/// No chunk yet; the request is still in flight.
pub const RECV_PENDING: i64 = -1;

/// The body has been fully read.
pub const RECV_EOF: i64 = -2;

/// The request failed or was aborted.
pub const RECV_ERROR: i64 = -3;

/// No request with this handle.
pub const RECV_UNKNOWN: i64 = -4;

/// Per-request state shared between the guest-facing calls and the driver
/// task.
pub struct FetchInner {
    /// One of the `FETCH_*` constants.
    pub state: u32,
    /// HTTP status code once headers arrive, 0 until then.
    pub status: u32,
    /// Guest-side signal to stop streaming; polled by the driver between chunks.
    pub aborted: bool,
    /// Queued body chunks.
    pub chunks: VecDeque<Vec<u8>>,
    /// Last error message (set once before transitioning to [`FETCH_ERROR`]).
    pub error: Option<String>,
}

/// What one `recv` hands the guest: a piece of the body or a sentinel.
pub enum RecvResult {
    Data(Vec<u8>),
    Sentinel(i64),
}

/// All queued body bytes, in order.
pub open spec fn flatten(q: Seq<Vec<u8>>) -> Seq<u8>
    decreases q.len(),
{
    if q.len() == 0 {
        Seq::empty()
    } else {
        q[0]@ + flatten(q.skip(1))
    }
}

/// The sentinel for an empty queue in state `state`.
pub open spec fn empty_queue_sentinel(state: u32) -> i64 {
    if state == FETCH_DONE {
        RECV_EOF
    } else if state == FETCH_ERROR || state == FETCH_ABORTED {
        RECV_ERROR
    } else {
        RECV_PENDING
    }
}

/// The state after the guest aborts: an unfinished request becomes aborted,
/// a finished one keeps its state.
pub open spec fn state_after_abort(state: u32) -> u32 {
    if state == FETCH_PENDING || state == FETCH_STREAMING {
        FETCH_ABORTED
    } else {
        state
    }
}

impl FetchInner {
    pub fn new() -> (r: Self)
        ensures
            r.state == FETCH_PENDING,
            r.status == 0,
            !r.aborted,
            r.chunks@.len() == 0,
            r.error is None,
    {
        FetchInner {
            state: FETCH_PENDING,
            status: 0,
            aborted: false,
            chunks: VecDeque::new(),
            error: None,
        }
    }

    /// Records a failure: the message is kept and the state becomes
    /// [`FETCH_ERROR`].
    pub fn set_error(&mut self, msg: String)
        ensures
            final(self).error == Some(msg),
            final(self).state == FETCH_ERROR,
            final(self).status == old(self).status,
            final(self).aborted == old(self).aborted,
            final(self).chunks == old(self).chunks,
    {
        self.error = Some(msg);
        self.state = FETCH_ERROR;
    }

    /// The guest's abort: the driver is told to stop and the state reports
    /// the intent at once.
    pub fn abort(&mut self)
        ensures
            final(self).aborted,
            final(self).state == state_after_abort(old(self).state),
            final(self).status == old(self).status,
            final(self).chunks == old(self).chunks,
            final(self).error == old(self).error,
    {
        self.aborted = true;
        if self.state == FETCH_PENDING || self.state == FETCH_STREAMING {
            self.state = FETCH_ABORTED;
        }
    }

    /// Pop up to `cap` bytes from the head of the body queue. When the front
    /// chunk is larger than `cap`, the rest of it stays at the front so the
    /// next call returns it; no data is dropped. With an empty queue the
    /// sentinel for the current state is returned.
    pub fn recv(&mut self, cap: usize) -> (r: RecvResult)
        ensures
            final(self).state == old(self).state,
            final(self).status == old(self).status,
            final(self).aborted == old(self).aborted,
            final(self).error == old(self).error,
            old(self).chunks@.len() == 0 ==> r == RecvResult::Sentinel(
                empty_queue_sentinel(old(self).state),
            ) && final(self).chunks@ == old(self).chunks@,
            old(self).chunks@.len() > 0 ==> match r {
                RecvResult::Data(d) => {
                    let front = old(self).chunks@[0]@;
                    &&& d@ == (if front.len() > cap {
                        front.take(cap as int)
                    } else {
                        front
                    })
                    &&& d@ + flatten(final(self).chunks@) == flatten(old(self).chunks@)
                    &&& (front.len() > cap ==> final(self).chunks@.len() == old(
                        self,
                    ).chunks@.len())
                    &&& (front.len() <= cap ==> final(self).chunks@ == old(
                        self,
                    ).chunks@.drop_first())
                },
                RecvResult::Sentinel(_) => false,
            },
    {
        let ghost q0 = self.chunks@;
        match self.chunks.pop_front() {
            Some(mut chunk) => {
                proof {
                    assert(q0 =~= seq![q0[0]] + q0.skip(1));
                    assert(flatten(q0) == q0[0]@ + flatten(q0.skip(1)));
                    assert(self.chunks@ =~= q0.skip(1));
                }
                if chunk.len() > cap {
                    let ghost whole = chunk@;
                    let remainder = chunk.split_off(cap);
                    let ghost mid = self.chunks@;
                    self.chunks.push_front(remainder);
                    proof {
                        assert(whole =~= chunk@ + remainder@);
                        let q1 = self.chunks@;
                        assert(q1.len() > 0);
                        assert(q1[0] == remainder);
                        assert(q1.skip(1) =~= mid);
                        assert(flatten(q1) == remainder@ + flatten(q1.skip(1)));
                        assert(chunk@ + flatten(q1) =~= whole + flatten(mid));
                    }
                    RecvResult::Data(chunk)
                } else {
                    RecvResult::Data(chunk)
                }
            },
            None => {
                if self.state == FETCH_DONE {
                    RecvResult::Sentinel(RECV_EOF)
                } else if self.state == FETCH_ERROR || self.state == FETCH_ABORTED {
                    RecvResult::Sentinel(RECV_ERROR)
                } else {
                    RecvResult::Sentinel(RECV_PENDING)
                }
            },
        }
    }
}

/// Receiving never loses or reorders body bytes: what one `recv` hands out,
/// followed by what stays queued, is what was queued.
pub proof fn law_recv_preserves_bytes(front: Seq<u8>, rest: Seq<Vec<u8>>, cap: nat)
    ensures
        (if front.len() > cap {
            front.take(cap as int)
        } else {
            front
        }) + (if front.len() > cap {
            front.skip(cap as int)
        } else {
            Seq::empty()
        }) + flatten(rest) == front + flatten(rest),
{
    if front.len() > cap {
        assert(front.take(cap as int) + front.skip(cap as int) =~= front);
    } else {
        assert(front + Seq::<u8>::empty() =~= front);
    }
}

/// Aborting twice is the same as aborting once, and a finished request keeps
/// its outcome.
pub proof fn law_abort_idempotent(state: u32)
    ensures
        state_after_abort(state_after_abort(state)) == state_after_abort(state),
        (state == FETCH_DONE || state == FETCH_ERROR) ==> state_after_abort(state) == state,
{
}

/// What the network task reports while driving a request.
pub enum DriverEvent {
    /// The task is about to send the request.
    Start,
    /// The request could not be sent, or the client could not be built.
    Failed(String),
    /// Response headers arrived with this status code.
    Headers(u32),
    /// A body chunk arrived.
    Chunk(Vec<u8>),
    /// The body stream failed.
    StreamFailed(String),
    /// The body stream ended.
    End,
}

/// The state the request is in after the driver reports `ev`, and whether
/// the driver goes on.
pub open spec fn driver_step(aborted: bool, state: u32, ev: DriverEvent) -> (u32, bool) {
    match ev {
        DriverEvent::Start => if aborted {
            (FETCH_ABORTED, false)
        } else {
            (state, true)
        },
        DriverEvent::Failed(_) => (FETCH_ERROR, false),
        DriverEvent::Headers(_) => if aborted {
            (FETCH_ABORTED, false)
        } else {
            (FETCH_STREAMING, true)
        },
        DriverEvent::Chunk(_) => if aborted {
            (FETCH_ABORTED, false)
        } else {
            (state, true)
        },
        DriverEvent::StreamFailed(_) => (FETCH_ERROR, false),
        DriverEvent::End => if state == FETCH_STREAMING {
            (FETCH_DONE, false)
        } else {
            (state, false)
        },
    }
}

/// How a request changes when the network task reports `ev` and is told
/// whether to go on (`go_on`): see [`FetchInner::on_driver_event`].
pub open spec fn event_applied(before: FetchInner, after: FetchInner, ev: DriverEvent, go_on: bool) -> bool {
    &&& (after.state, go_on) == driver_step(before.aborted, before.state, ev)
    &&& after.aborted == before.aborted
    &&& after.status == (match ev {
        DriverEvent::Headers(code) => if before.aborted {
            before.status
        } else {
            code
        },
        _ => before.status,
    })
    &&& after.chunks@ == (match ev {
        DriverEvent::Chunk(c) => if !before.aborted && c@.len() > 0 {
            before.chunks@.push(c)
        } else {
            before.chunks@
        },
        _ => before.chunks@,
    })
    &&& after.error == (match ev {
        DriverEvent::Failed(m) => Some(m),
        DriverEvent::StreamFailed(m) => Some(m),
        _ => before.error,
    })
}

/// A request the guest just aborted: see [`FetchInner::abort`].
pub open spec fn abort_applied(before: FetchInner, after: FetchInner) -> bool {
    &&& after.aborted
    &&& after.state == state_after_abort(before.state)
    &&& after.status == before.status
    &&& after.chunks@ == before.chunks@
    &&& after.error == before.error
}

/// A request just begun: pending, no status, not aborted, nothing queued,
/// no error.
pub open spec fn fresh_request(f: FetchInner) -> bool {
    &&& f.state == FETCH_PENDING
    &&& f.status == 0
    &&& !f.aborted
    &&& f.chunks@.len() == 0
    &&& f.error is None
}

impl FetchInner {
    /// Applies what the network task reports; returns whether the task
    /// should keep driving the request. An abort seen at a check point ends
    /// the request as aborted; failures record their message; empty chunks
    /// are not queued; the end of the body completes a streaming request
    /// (an abort that came first is kept).
    pub fn on_driver_event(&mut self, ev: DriverEvent) -> (go_on: bool)
        ensures
            (final(self).state, go_on) == driver_step(old(self).aborted, old(self).state, ev),
            final(self).aborted == old(self).aborted,
            final(self).status == (match ev {
                DriverEvent::Headers(code) => if old(self).aborted {
                    old(self).status
                } else {
                    code
                },
                _ => old(self).status,
            }),
            final(self).chunks@ == (match ev {
                DriverEvent::Chunk(c) => if !old(self).aborted && c@.len() > 0 {
                    old(self).chunks@.push(c)
                } else {
                    old(self).chunks@
                },
                _ => old(self).chunks@,
            }),
            match ev {
                DriverEvent::Failed(m) => final(self).error == Some(m),
                DriverEvent::StreamFailed(m) => final(self).error == Some(m),
                _ => final(self).error == old(self).error,
            },
    {
        match ev {
            DriverEvent::Start => {
                if self.aborted {
                    self.state = FETCH_ABORTED;
                    return false;
                }
                true
            },
            DriverEvent::Failed(m) => {
                self.set_error(m);
                false
            },
            DriverEvent::Headers(code) => {
                if self.aborted {
                    self.state = FETCH_ABORTED;
                    return false;
                }
                self.status = code;
                self.state = FETCH_STREAMING;
                true
            },
            DriverEvent::Chunk(c) => {
                if self.aborted {
                    self.state = FETCH_ABORTED;
                    return false;
                }
                if c.len() > 0 {
                    self.chunks.push_back(c);
                }
                true
            },
            DriverEvent::StreamFailed(m) => {
                self.set_error(m);
                false
            },
            DriverEvent::End => {
                if self.state == FETCH_STREAMING {
                    self.state = FETCH_DONE;
                }
                false
            },
        }
    }
}

/// All fetch requests of a guest, by handle.
pub struct FetchState {
    requests: HashMap<u32, FetchInner>,
    next_id: u32,
}

impl FetchState {
    pub closed spec fn requests(&self) -> Map<u32, FetchInner> {
        self.requests@
    }

    pub closed spec fn next_id(&self) -> u32 {
        self.next_id
    }

    pub fn new() -> (r: Self)
        ensures
            r.requests() == Map::<u32, FetchInner>::empty(),
            r.next_id() == 1,
    {
        let r = FetchState { requests: HashMap::new(), next_id: 1 };
        proof {
            assert(r.requests@ =~= Map::<u32, FetchInner>::empty());
        }
        r
    }

    /// Records a new pending request and returns its handle; the embedder
    /// starts the network task for it.
    pub fn begin(&mut self) -> (id: u32)
        ensures
            id == old(self).next_id(),
            final(self).next_id() == next_handle(id),
            final(self).requests().contains_key(id),
            fresh_request(final(self).requests()[id]),
            final(self).requests() == old(self).requests().insert(id, final(self).requests()[id]),
    {
        let id = self.next_id;
        self.next_id = advance_handle(id);
        self.requests.insert(id, FetchInner::new());
        proof {
            assert(self.requests@ =~= old(self).requests@.insert(id, self.requests@[id]));
        }
        id
    }

    /// The request's `FETCH_*` state; [`FETCH_ERROR`] for an unknown handle.
    pub fn state(&self, id: u32) -> (r: u32)
        ensures
            r == (if self.requests().contains_key(id) {
                self.requests()[id].state
            } else {
                FETCH_ERROR
            }),
    {
        match self.requests.get(&id) {
            Some(f) => f.state,
            None => FETCH_ERROR,
        }
    }

    /// The HTTP status; 0 until headers arrive or for an unknown handle.
    pub fn status(&self, id: u32) -> (r: u32)
        ensures
            r == (if self.requests().contains_key(id) {
                self.requests()[id].status
            } else {
                0
            }),
    {
        match self.requests.get(&id) {
            Some(f) => f.status,
            None => 0,
        }
    }

    /// The error message of a failed request.
    pub fn error(&self, id: u32) -> (r: Option<String>)
        ensures
            r == (if self.requests().contains_key(id) {
                self.requests()[id].error
            } else {
                None
            }),
    {
        match self.requests.get(&id) {
            Some(f) => match &f.error {
                Some(e) => Some(e.clone()),
                None => None,
            },
            None => None,
        }
    }

    /// Whether the network task for `id` should stop: the guest aborted it
    /// or dropped it.
    pub fn is_aborted(&self, id: u32) -> (r: bool)
        ensures
            r == (!self.requests().contains_key(id) || self.requests()[id].aborted),
    {
        match self.requests.get(&id) {
            Some(f) => f.aborted,
            None => true,
        }
    }

    /// The guest's `recv`: [`RECV_UNKNOWN`] for an unknown handle, else
    /// [`FetchInner::recv`] on the request.
    pub fn recv(&mut self, id: u32, cap: usize) -> (r: RecvResult)
        ensures
            !old(self).requests().contains_key(id) ==> r == RecvResult::Sentinel(RECV_UNKNOWN)
                && final(self).requests() == old(self).requests(),
            old(self).requests().contains_key(id) ==> final(self).requests().contains_key(id)
                && final(self).requests() == old(self).requests().insert(
                id,
                final(self).requests()[id],
            ) && ({
                let before = old(self).requests()[id];
                let after = final(self).requests()[id];
                &&& after.state == before.state
                &&& after.status == before.status
                &&& after.aborted == before.aborted
                &&& after.error == before.error
                &&& (before.chunks@.len() == 0 ==> r == RecvResult::Sentinel(
                    empty_queue_sentinel(before.state),
                ) && after.chunks@ == before.chunks@)
                &&& (before.chunks@.len() > 0 ==> match r {
                    RecvResult::Data(d) => {
                        let front = before.chunks@[0]@;
                        &&& d@ == (if front.len() > cap {
                            front.take(cap as int)
                        } else {
                            front
                        })
                        &&& d@ + flatten(after.chunks@) == flatten(before.chunks@)
                    },
                    RecvResult::Sentinel(_) => false,
                })
            }),
            final(self).next_id() == old(self).next_id(),
    {
        match self.requests.remove(&id) {
            Some(mut f) => {
                let r = f.recv(cap);
                self.requests.insert(id, f);
                proof {
                    assert(self.requests@ =~= old(self).requests@.insert(id, self.requests@[id]));
                }
                r
            },
            None => {
                proof {
                    assert(self.requests@ =~= old(self).requests@);
                }
                RecvResult::Sentinel(RECV_UNKNOWN)
            },
        }
    }

    /// The guest's `abort`; `false` for an unknown handle.
    pub fn abort(&mut self, id: u32) -> (r: bool)
        ensures
            r == old(self).requests().contains_key(id),
            r ==> final(self).requests().contains_key(id) && abort_applied(
                old(self).requests()[id],
                final(self).requests()[id],
            ) && final(self).requests() == old(self).requests().insert(
                id,
                final(self).requests()[id],
            ),
            !r ==> final(self).requests() == old(self).requests(),
            final(self).next_id() == old(self).next_id(),
    {
        match self.requests.remove(&id) {
            Some(mut f) => {
                f.abort();
                self.requests.insert(id, f);
                proof {
                    assert(self.requests@ =~= old(self).requests@.insert(id, self.requests@[id]));
                }
                true
            },
            None => {
                proof {
                    assert(self.requests@ =~= old(self).requests@);
                }
                false
            },
        }
    }

    /// Forgets request `id`; its network task, if still running, then
    /// stops at its next check.
    pub fn remove(&mut self, id: u32)
        ensures
            final(self).requests() == old(self).requests().remove(id),
            final(self).next_id() == old(self).next_id(),
    {
        self.requests.remove(&id);
    }

    /// Hands a report of the network task for `id` to its request; `false`
    /// (stop) when the request is gone.
    pub fn on_driver_event(&mut self, id: u32, ev: DriverEvent) -> (go_on: bool)
        ensures
            !old(self).requests().contains_key(id) ==> !go_on && final(self).requests() == old(
                self,
            ).requests(),
            old(self).requests().contains_key(id) ==> final(self).requests().contains_key(id)
                && event_applied(old(self).requests()[id], final(self).requests()[id], ev, go_on)
                && final(self).requests() == old(self).requests().insert(
                id,
                final(self).requests()[id],
            ),
            final(self).next_id() == old(self).next_id(),
    {
        match self.requests.remove(&id) {
            Some(mut f) => {
                let go_on = f.on_driver_event(ev);
                self.requests.insert(id, f);
                proof {
                    assert(self.requests@ =~= old(self).requests@.insert(id, self.requests@[id]));
                }
                go_on
            },
            None => {
                proof {
                    assert(self.requests@ =~= old(self).requests@);
                }
                false
            },
        }
    }
}

/// Once the guest aborts a request, no later report of the network task can
/// bring it back to life: every step from an aborted request stops the
/// task, and none makes it pending or streaming again.
pub proof fn law_abort_stops_driver(state: u32, ev: DriverEvent)
    ensures
        !driver_step(true, state_after_abort(state), ev).1,
        driver_step(true, state_after_abort(state), ev).0 != FETCH_PENDING,
        driver_step(true, state_after_abort(state), ev).0 != FETCH_STREAMING,
{
}

} // verus!
