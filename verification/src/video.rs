//! HLS master-playlist variant extraction and URL resolution for video
//! sources, and the timing decisions of the frame decoder: timestamp
//! rescaling, duration probing, when to seek and which decoded frame to show.

use vstd::prelude::*;
use crate::text::{chars_of, has_prefix, lines, lines_of, starts_with_str, string_of, trim, trim_chars, views};
use crate::url::{url_join, whatwg_join};

verus! {

/// Whether line `i` of `ls` is an `#EXT-X-STREAM-INF` tag followed by a
/// line that, trimmed, is a non-empty URI (not a comment or tag).
pub open spec fn names_variant(ls: Seq<Seq<char>>, i: int) -> bool {
    &&& has_prefix(ls[i], "#EXT-X-STREAM-INF"@)
    &&& i + 1 < ls.len()
    &&& trim(ls[i + 1]).len() > 0
    &&& trim(ls[i + 1])[0] != '#'
}

/// The variant URIs named by the first `n` lines, in order.
pub open spec fn variants_upto(ls: Seq<Seq<char>>, n: int) -> Seq<Seq<char>>
    decreases n,
{
    if n <= 0 {
        Seq::empty()
    } else {
        variants_upto(ls, n - 1) + (if names_variant(ls, n - 1) {
            seq![trim(ls[n])]
        } else {
            Seq::<Seq<char>>::empty()
        })
    }
}

/// The variant URIs of a master playlist.
pub open spec fn hls_variants(body: Seq<char>) -> Seq<Seq<char>> {
    variants_upto(lines(body), lines(body).len() as int)
}

/// Every line after an `#EXT-X-STREAM-INF` tag that is a URI, trimmed, in
/// playlist order.
pub fn parse_hls_master_variants(body: &str) -> (r: Vec<String>)
    ensures
        r@.map_values(|s: String| s@) == hls_variants(body@),
{
    let text = chars_of(body);
    let ls = lines_of(text.as_slice());
    let ghost lv = views(ls@);
    let mut out: Vec<String> = Vec::new();
    let mut i: usize = 0;
    while i < ls.len()
        invariant
            i <= ls@.len(),
            lv == views(ls@),
            lv == lines(body@),
            out@.map_values(|s: String| s@) == variants_upto(lv, i as int),
        decreases ls@.len() - i,
    {
        let ghost before = out@.map_values(|s: String| s@);
        let tag = starts_with_str(ls[i].as_slice(), "#EXT-X-STREAM-INF");
        proof {
            reveal_strlit("#EXT-X-STREAM-INF");
        }
        if tag && i + 1 < ls.len() {
            let u = trim_chars(ls[i + 1].as_slice());
            if u.len() > 0 && u[0] != '#' {
                out.push(string_of(u.as_slice()));
                proof {
                    assert(out@.map_values(|s: String| s@) =~= before.push(trim(lv[i + 1])));
                }
            }
        }
        proof {
            assert(out@.map_values(|s: String| s@) =~= variants_upto(lv, i + 1));
        }
        i = i + 1;
    }
    out
}

proof fn lemma_variants_grow(ls: Seq<Seq<char>>, k: int, n: int)
    requires
        0 <= k <= n,
    ensures
        variants_upto(ls, n).len() >= variants_upto(ls, k).len(),
        variants_upto(ls, n).subrange(0, variants_upto(ls, k).len() as int) == variants_upto(ls, k),
    decreases n - k,
{
    if k < n {
        lemma_variants_grow(ls, k, n - 1);
        let a = variants_upto(ls, k);
        let b = variants_upto(ls, n - 1);
        let c = variants_upto(ls, n);
        assert(c.subrange(0, b.len() as int) =~= b);
        assert(c.subrange(0, a.len() as int) =~= b.subrange(0, a.len() as int));
    } else {
        assert(variants_upto(ls, n).subrange(0, variants_upto(ls, n).len() as int)
            =~= variants_upto(ls, n));
    }
}

/// Every `#EXT-X-STREAM-INF` line followed by a line that, trimmed, is
/// non-empty and does not start with `#` contributes that trimmed line to
/// the variants, the playlist's last line included.
pub proof fn law_hls_tagged_uri_listed(body: Seq<char>, i: int)
    requires
        0 <= i,
        i + 1 < lines(body).len(),
        has_prefix(lines(body)[i], "#EXT-X-STREAM-INF"@),
        trim(lines(body)[i + 1]).len() > 0,
        trim(lines(body)[i + 1])[0] != '#',
    ensures
        hls_variants(body).contains(trim(lines(body)[i + 1])),
{
    let ls = lines(body);
    let u = trim(ls[i + 1]);
    let a = variants_upto(ls, i + 1);
    assert(a == variants_upto(ls, i) + seq![u]);
    assert(a[a.len() - 1] == u);
    lemma_variants_grow(ls, i + 1, ls.len() as int);
    let v = hls_variants(body);
    assert(v.subrange(0, a.len() as int)[a.len() - 1] == u);
    assert(v[a.len() - 1] == u);
}

proof fn lemma_variants_sound(ls: Seq<Seq<char>>, n: int, x: Seq<char>)
    requires
        0 <= n,
        variants_upto(ls, n).contains(x),
    ensures
        exists|i: int|
            0 <= i && i + 1 < ls.len() && i < n && has_prefix(#[trigger] ls[i], "#EXT-X-STREAM-INF"@)
                && trim(ls[i + 1]).len() > 0 && trim(ls[i + 1])[0] != '#' && trim(ls[i + 1]) == x,
    decreases n,
{
    if n > 0 {
        let p = variants_upto(ls, n - 1);
        let k = choose|k: int| 0 <= k < variants_upto(ls, n).len() && variants_upto(ls, n)[k] == x;
        if k < p.len() {
            assert(p[k] == x);
            lemma_variants_sound(ls, n - 1, x);
        } else {
            assert(names_variant(ls, n - 1));
            assert(has_prefix(ls[n - 1], "#EXT-X-STREAM-INF"@));
        }
    }
}

/// Every variant returned is the trimmed line right after an
/// `#EXT-X-STREAM-INF` line, non-empty and not starting with `#`.
pub proof fn law_hls_variant_follows_tag(body: Seq<char>, x: Seq<char>)
    requires
        hls_variants(body).contains(x),
    ensures
        exists|i: int|
            0 <= i && i + 1 < lines(body).len() && has_prefix(
                #[trigger] lines(body)[i],
                "#EXT-X-STREAM-INF"@,
            ) && trim(lines(body)[i + 1]).len() > 0 && trim(lines(body)[i + 1])[0] != '#'
                && trim(lines(body)[i + 1]) == x,
{
    lemma_variants_sound(lines(body), lines(body).len() as int, x);
}

/// The serialization of `relative` resolved against `base`, when `base`
/// parses and the join succeeds.
pub open spec fn resolved(base: Seq<char>, relative: Seq<char>) -> Option<Seq<char>> {
    match whatwg_join(base, relative) {
        Ok(f) => Some(f.0),
        Err(_) => None,
    }
}

/// `relative` resolved against the URL `base`, serialized; `None` when
/// either step fails.
pub fn resolve_against_base(base: &str, relative: &str) -> (r: Option<String>)
    ensures
        match r {
            Some(s) => resolved(base@, relative@) == Some(s@),
            None => resolved(base@, relative@) is None,
        },
{
    match url_join(base, relative) {
        Ok(u) => Some(u.as_str().to_owned()),
        Err(_) => None,
    }
}

// ── Decoder timing ─────────────────────────────────────────────────────────

/// The time base of the container's own durations (microseconds).
pub const CONTAINER_TIME_BASE: (i32, i32) = (1, 1000000);

/// Milliseconds as a rational time base.
pub const MILLISECONDS: (i32, i32) = (1, 1000);

/// `a * b / c` rounded to nearest with halves away from zero, for `a >= 0`,
/// as libavutil's `av_rescale_rnd` computes it: `i64::MIN` when `c` is not
/// positive, `b` is negative or the result does not fit.
pub open spec fn rescale_rnd_spec(a: int, b: int, c: int) -> int {
    if c <= 0 || b < 0 {
        i64::MIN as int
    } else {
        let q = (a * b + c / 2) / c;
        if q > i64::MAX {
            i64::MIN as int
        } else {
            q
        }
    }
}

/// A timestamp `a` in time base `from` expressed in time base `to`
/// (`av_rescale_q`, rounded to nearest).
pub open spec fn rescale_q_spec(a: int, from: (i32, i32), to: (i32, i32)) -> int {
    rescale_rnd_spec(a, from.0 * to.1, to.0 * from.1)
}

/// Rescales a non-negative timestamp from time base `from` to time base `to`.
pub fn rescale_q(a: i64, from: (i32, i32), to: (i32, i32)) -> (r: i64)
    requires
        a >= 0,
    ensures
        r == rescale_q_spec(a as int, from, to),
{
    let (fn_, fd) = from;
    let (tn, td) = to;
    assert(-0x4000_0000_0000_0000 <= fn_ * td <= 0x4000_0000_0000_0000) by (nonlinear_arith)
        requires
            -0x8000_0000 <= fn_ <= 0x7fff_ffff,
            -0x8000_0000 <= td <= 0x7fff_ffff,
    {
    }
    assert(-0x4000_0000_0000_0000 <= tn * fd <= 0x4000_0000_0000_0000) by (nonlinear_arith)
        requires
            -0x8000_0000 <= tn <= 0x7fff_ffff,
            -0x8000_0000 <= fd <= 0x7fff_ffff,
    {
    }
    let b: i64 = fn_ as i64 * td as i64;
    let c: i64 = tn as i64 * fd as i64;
    if c <= 0 || b < 0 {
        return i64::MIN;
    }
    assert(0 <= a * b <= 0x7fff_ffff_ffff_ffff * 0x4000_0000_0000_0000) by (nonlinear_arith)
        requires
            0 <= a <= 0x7fff_ffff_ffff_ffff,
            0 <= b <= 0x4000_0000_0000_0000,
    {
    }
    let p: u128 = (a as u128) * (b as u128) + (c / 2) as u128;
    let q: u128 = p / (c as u128);
    if q > 0x7fff_ffff_ffff_ffffu128 {
        i64::MIN
    } else {
        q as i64
    }
}

/// The presentation time of a decoded frame in milliseconds, from its
/// best-effort timestamp in the stream's time base; `None` when it has
/// none, it is negative, or it cannot be rescaled.
pub open spec fn frame_pts_ms_spec(pts: Option<i64>, time_base: (i32, i32)) -> Option<u64> {
    match pts {
        None => None,
        Some(p) => if p < 0 {
            None
        } else {
            let ms = rescale_q_spec(p as int, time_base, MILLISECONDS);
            if ms < 0 {
                None
            } else {
                Some(ms as u64)
            }
        },
    }
}

pub fn frame_pts_ms(pts: Option<i64>, time_base: (i32, i32)) -> (r: Option<u64>)
    ensures
        r == frame_pts_ms_spec(pts, time_base),
{
    let p = match pts {
        Some(p) => p,
        None => return None,
    };
    if p < 0 {
        return None;
    }
    let ms = rescale_q(p, time_base, MILLISECONDS);
    if ms < 0 {
        None
    } else {
        Some(ms as u64)
    }
}

/// The duration of a video in milliseconds: the container's own duration
/// when it has a positive one, else the video stream's, else 0.
pub open spec fn probe_duration_spec(container: i64, stream: i64, stream_time_base: (i32, i32)) -> u64 {
    let from_container = rescale_q_spec(container as int, CONTAINER_TIME_BASE, MILLISECONDS);
    if container > 0 && from_container > 0 {
        from_container as u64
    } else if stream > 0 {
        let ms = rescale_q_spec(stream as int, stream_time_base, MILLISECONDS);
        if ms > 0 {
            ms as u64
        } else {
            0
        }
    } else {
        0
    }
}

pub fn probe_duration_ms(container: i64, stream: i64, stream_time_base: (i32, i32)) -> (r: u64)
    ensures
        r == probe_duration_spec(container, stream, stream_time_base),
{
    if container > 0 {
        let ms = rescale_q(container, CONTAINER_TIME_BASE, MILLISECONDS);
        if ms > 0 {
            return ms as u64;
        }
    }
    if stream > 0 {
        let ms = rescale_q(stream, stream_time_base, MILLISECONDS);
        if ms > 0 {
            ms as u64
        } else {
            0
        }
    } else {
        0
    }
}

/// The frame time a request for `target_ms` decodes: at most half a second
/// past the end.
pub fn clamp_target_ms(target_ms: u64, duration_ms: u64) -> (r: u64)
    ensures
        r == if target_ms <= duration_ms + 500 {
            target_ms as int
        } else if duration_ms + 500 <= u64::MAX {
            duration_ms + 500
        } else {
            u64::MAX as int
        },
{
    let cap = duration_ms.saturating_add(500);
    if target_ms < cap {
        target_ms
    } else {
        cap
    }
}

/// Whether the decoder must seek before reading toward `target_ms`: nothing
/// was shown yet, the target lies before the last frame shown, or more
/// than 2.5 s after it.
pub fn needs_seek(last_pts_ms: Option<u64>, target_ms: u64) -> (r: bool)
    ensures
        r == match last_pts_ms {
            None => true,
            Some(last) => target_ms < last || target_ms - last > 2500,
        },
{
    match last_pts_ms {
        None => true,
        Some(last) => target_ms < last || target_ms - last > 2500,
    }
}

/// Chooses the frame to show for a target time among decoded frames, in
/// decoding order: the first at or after the target, else the last before
/// it.
pub struct FramePick<F> {
    pub target_ms: u64,
    pub before: Option<(F, u64)>,
    pub after: Option<(F, u64)>,
}

impl<F> FramePick<F> {
    pub fn new(target_ms: u64) -> (r: Self)
        ensures
            r.target_ms == target_ms,
            r.before is None,
            r.after is None,
    {
        FramePick { target_ms, before: None, after: None }
    }

    /// A frame with time `pts_ms` was decoded. Returns `true` when it is at
    /// or after the target: the search is over and it is the answer.
    pub fn offer(&mut self, frame: F, pts_ms: u64) -> (done: bool)
        requires
            old(self).after is None,
        ensures
            done == (pts_ms >= old(self).target_ms),
            final(self).target_ms == old(self).target_ms,
            done ==> final(self).after == Some((frame, pts_ms)) && final(self).before
                == old(self).before,
            !done ==> final(self).after is None && final(self).before == Some((frame, pts_ms)),
    {
        if pts_ms >= self.target_ms {
            self.after = Some((frame, pts_ms));
            true
        } else {
            self.before = Some((frame, pts_ms));
            false
        }
    }

    /// Whether a frame at or after the target was found.
    pub fn found(&self) -> (r: bool)
        ensures
            r == self.after is Some,
    {
        self.after.is_some()
    }

    /// The frame to show with its time: the one at or after the target,
    /// else the last one before it, else none.
    pub fn chosen(self) -> (r: Option<(F, u64)>)
        ensures
            r == (if self.after is Some {
                self.after
            } else {
                self.before
            }),
    {
        match self.after {
            Some(a) => Some(a),
            None => self.before,
        }
    }
}

} // verus!
