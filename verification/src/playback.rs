//! The video playback clock: where in the stream playback is at a given
//! moment, across play, pause, seek and looping.
//!
//! Times are milliseconds on the embedder's monotonic clock; the decoder
//! reports the stream's duration (0 when unknown).

use vstd::prelude::*;

verus! {

/// The playback clock of the guest's video.
pub struct PlaybackClock {
    pub playing: bool,
    /// Monotonic time at which playback last started or was re-anchored.
    pub play_start_ms: u64,
    /// Stream position at `play_start_ms` (or the frozen position).
    pub base_position_ms: u64,
    pub looping: bool,
    /// Stream duration; 0 when unknown.
    pub duration_ms: u64,
}

/// The stream position before looping or clamping.
pub open spec fn raw_position(c: PlaybackClock, now: u64) -> int {
    if c.playing {
        c.base_position_ms + (if now >= c.play_start_ms {
            now - c.play_start_ms
        } else {
            0int
        })
    } else {
        c.base_position_ms as int
    }
}

/// The position shown at `now`: wrapped around the duration when looping,
/// else capped at the duration (when known).
pub open spec fn position_spec(c: PlaybackClock, now: u64) -> int {
    let pos = raw_position(c, now);
    if c.looping && c.duration_ms > 0 {
        pos % (c.duration_ms as int)
    } else if c.duration_ms > 0 && pos > c.duration_ms {
        c.duration_ms as int
    } else {
        pos
    }
}

/// The clock can be read at `now` without leaving the `u64` range.
pub open spec fn readable(c: PlaybackClock, now: u64) -> bool {
    raw_position(c, now) <= u64::MAX
}

impl PlaybackClock {
    /// A stopped clock at position 0 for a stream of `duration_ms`.
    pub fn new(duration_ms: u64) -> (r: Self)
        ensures
            !r.playing,
            r.base_position_ms == 0,
            !r.looping,
            r.duration_ms == duration_ms,
    {
        PlaybackClock {
            playing: false,
            play_start_ms: 0,
            base_position_ms: 0,
            looping: false,
            duration_ms,
        }
    }

    /// The stream's duration; 0 when unknown.
    pub fn duration_ms(&self) -> (r: u64)
        ensures
            r == self.duration_ms,
    {
        self.duration_ms
    }

    /// The position at `now`.
    pub fn current_position_ms(&self, now: u64) -> (r: u64)
        requires
            readable(*self, now),
        ensures
            r == position_spec(*self, now),
    {
        let pos = if self.playing {
            self.base_position_ms + now.saturating_sub(self.play_start_ms)
        } else {
            self.base_position_ms
        };
        if self.looping && self.duration_ms > 0 {
            pos % self.duration_ms
        } else if self.duration_ms > 0 && pos > self.duration_ms {
            self.duration_ms
        } else {
            pos
        }
    }

    /// Starts (or restarts) the clock from the current base position.
    pub fn play(&mut self, now: u64)
        ensures
            final(self).playing,
            final(self).play_start_ms == now,
            final(self).base_position_ms == old(self).base_position_ms,
            final(self).looping == old(self).looping,
            final(self).duration_ms == old(self).duration_ms,
    {
        self.play_start_ms = now;
        self.playing = true;
    }

    /// Freezes the clock at its position at `now`.
    pub fn pause(&mut self, now: u64)
        requires
            readable(*old(self), now),
        ensures
            !final(self).playing,
            old(self).playing ==> final(self).base_position_ms == position_spec(*old(self), now),
            !old(self).playing ==> final(self).base_position_ms == old(self).base_position_ms,
            final(self).looping == old(self).looping,
            final(self).duration_ms == old(self).duration_ms,
    {
        if self.playing {
            self.base_position_ms = self.current_position_ms(now);
            self.playing = false;
        }
    }

    /// Back to position 0, stopped (also when the stream is swapped).
    pub fn reset_playback_clock(&mut self)
        ensures
            !final(self).playing,
            final(self).base_position_ms == 0,
            final(self).looping == old(self).looping,
            final(self).duration_ms == old(self).duration_ms,
    {
        self.base_position_ms = 0;
        self.playing = false;
    }

    /// Jumps to `position_ms`, capped at the duration when known; a playing
    /// clock goes on from there.
    pub fn seek(&mut self, position_ms: u64, now: u64)
        ensures
            final(self).base_position_ms == (if old(self).duration_ms > 0
                && position_ms > old(self).duration_ms {
                old(self).duration_ms
            } else {
                position_ms
            }),
            final(self).playing == old(self).playing,
            old(self).playing ==> final(self).play_start_ms == now,
            final(self).looping == old(self).looping,
            final(self).duration_ms == old(self).duration_ms,
    {
        let pos = if self.duration_ms > 0 && position_ms > self.duration_ms {
            self.duration_ms
        } else {
            position_ms
        };
        self.base_position_ms = pos;
        if self.playing {
            self.play_start_ms = now;
        }
    }
}

/// A paused clock stands still: its position is the same whenever it is
/// read.
pub proof fn law_paused_clock_stands_still(c: PlaybackClock, t1: u64, t2: u64)
    requires
        !c.playing,
    ensures
        position_spec(c, t1) == position_spec(c, t2),
{
}

/// Pausing does not move the picture: right after a pause the clock shows
/// the position it showed at that moment.
pub proof fn law_pause_keeps_position(c: PlaybackClock, now: u64, later: u64)
    requires
        c.playing,
        readable(c, now),
    ensures
        ({
            let paused = PlaybackClock {
                playing: false,
                base_position_ms: position_spec(c, now) as u64,
                ..c
            };
            position_spec(paused, later) == position_spec(c, now)
        }),
{
    let p = position_spec(c, now);
    if c.looping && c.duration_ms > 0 {
        assert(0 <= p < c.duration_ms) by (nonlinear_arith)
            requires
                c.duration_ms > 0,
                p == raw_position(c, now) % (c.duration_ms as int),
        ;
        assert(p % (c.duration_ms as int) == p) by (nonlinear_arith)
            requires
                0 <= p < c.duration_ms,
        ;
    }
}

/// With a known duration the position never passes the end of the stream.
pub proof fn law_position_within_stream(c: PlaybackClock, now: u64)
    requires
        c.duration_ms > 0,
        raw_position(c, now) >= 0,
    ensures
        0 <= position_spec(c, now) <= c.duration_ms,
{
    if c.looping {
        assert(0 <= raw_position(c, now) % (c.duration_ms as int) < c.duration_ms) by (nonlinear_arith)
            requires
                c.duration_ms > 0,
        ;
    }
}

} // verus!
