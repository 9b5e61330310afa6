//! Minimal SRT and WebVTT cue lists for host-side caption rendering.

use vstd::prelude::*;
use crate::text::{
    all_digits, chars_of, find, find_chars, lemma_find_first, is_ws, join, join_from, leading_token, leading_token_chars,
    lemma_find_from_props, lemma_split_char_len, lines, lines_of, lower, lower_chars, parse_u64,
    parse_u64_spec, slice_chars, split_char, split_chars, split_on, split_str, string_of, trim,
    trim_chars, trim_end, trim_end_chars, trim_start, views, digits_value, is_digit,
};

verus! {

#[derive(Clone, Debug)]
pub struct SubtitleCue {
    pub start_ms: u64,
    pub end_ms: u64,
    pub text: String,
}

/// A cue as plain values: start, end and text.
pub type CueView = (u64, u64, Seq<char>);

pub open spec fn cue_view(c: SubtitleCue) -> CueView {
    (c.start_ms, c.end_ms, c.text@)
}

pub open spec fn cue_views(cs: Seq<SubtitleCue>) -> Seq<CueView> {
    cs.map_values(|c: SubtitleCue| cue_view(c))
}

// ── Timestamps ─────────────────────────────────────────────────────────────

pub open spec fn is_ts_sep(c: char) -> bool {
    c == ',' || c == '.'
}

/// Index of the last `,` or `.` in `s`.
pub open spec fn last_ts_sep(s: Seq<char>) -> Option<int>
    decreases s.len(),
{
    if s.len() == 0 {
        None
    } else if is_ts_sep(s.last()) {
        Some(s.len() - 1)
    } else {
        last_ts_sep(s.drop_last())
    }
}

/// `((h * 60 + m) * 60 + s) * 1000 + ms`, wrapping at 2^64.
pub open spec fn clock_ms(h: u64, m: u64, s: u64, ms: u64) -> u64 {
    ((((h * 60 + m) * 60 + s) * 1000 + ms) % 0x1_0000_0000_0000_0000) as u64
}

/// `HH:MM:SS,mmm` or `HH:MM:SS.mmm` (surrounding whitespace allowed), in
/// milliseconds.
pub open spec fn parse_timestamp_spec(raw: Seq<char>) -> Option<u64> {
    let s = trim(raw);
    match last_ts_sep(s) {
        None => None,
        Some(i) => {
            let parts = split_char(s.take(i), ':');
            if parts.len() != 3 {
                None
            } else {
                match (
                    parse_u64_spec(parts[0]),
                    parse_u64_spec(parts[1]),
                    parse_u64_spec(parts[2]),
                    parse_u64_spec(s.skip(i + 1)),
                ) {
                    (Some(h), Some(m), Some(sec), Some(ms)) => Some(clock_ms(h, m, sec, ms)),
                    _ => None,
                }
            }
        },
    }
}

fn last_ts_sep_index(s: &[char]) -> (r: Option<usize>)
    ensures
        r matches Some(i) ==> last_ts_sep(s@) == Some(i as int) && i < s@.len(),
        r is None ==> last_ts_sep(s@) is None,
{
    let mut i: usize = s.len();
    proof {
        assert(s@.take(i as int) =~= s@);
    }
    while i > 0
        invariant
            i <= s@.len(),
            last_ts_sep(s@) == last_ts_sep(s@.take(i as int)),
        decreases i,
    {
        let c = s[i - 1];
        proof {
            assert(s@.take(i as int).last() == c);
            assert(s@.take(i as int).drop_last() =~= s@.take(i as int - 1));
        }
        if c == ',' || c == '.' {
            return Some(i - 1);
        }
        i = i - 1;
    }
    None
}

fn combine_clock(h: u64, m: u64, s: u64, ms: u64) -> (r: u64)
    ensures
        r == clock_ms(h, m, s, ms),
{
    let h = h as u128;
    let m = m as u128;
    let s = s as u128;
    let ms = ms as u128;
    proof {
        assert(h * 60 + m <= 0x1_0000_0000_0000_0000 * 61) by (nonlinear_arith)
            requires
                h < 0x1_0000_0000_0000_0000,
                m < 0x1_0000_0000_0000_0000,
        ;
        assert((h * 60 + m) * 60 + s <= 0x1_0000_0000_0000_0000 * 3661) by (nonlinear_arith)
            requires
                h * 60 + m <= 0x1_0000_0000_0000_0000 * 61,
                s < 0x1_0000_0000_0000_0000,
        ;
        assert(((h * 60 + m) * 60 + s) * 1000 + ms <= 0x1_0000_0000_0000_0000 * 3661001)
            by (nonlinear_arith)
            requires
                (h * 60 + m) * 60 + s <= 0x1_0000_0000_0000_0000 * 3661,
                ms < 0x1_0000_0000_0000_0000,
        ;
    }
    let v: u128 = ((h * 60 + m) * 60 + s) * 1000 + ms;
    (v % 0x1_0000_0000_0000_0000u128) as u64
}

fn parse_timestamp(raw: &[char]) -> (r: Option<u64>)
    ensures
        r == parse_timestamp_spec(raw@),
{
    let s = trim_chars(raw);
    let n = s.len();
    let i = match last_ts_sep_index(s.as_slice()) {
        Some(i) => i,
        None => return None,
    };
    let hms = slice_chars(s.as_slice(), 0, i);
    let ms_part = slice_chars(s.as_slice(), i + 1, n);
    proof {
        assert(hms@ =~= s@.take(i as int));
        assert(ms_part@ =~= s@.skip(i + 1));
    }
    let parts = split_chars(hms.as_slice(), ':');
    if parts.len() != 3 {
        return None;
    }
    proof {
        assert(parts@[0]@ == split_char(hms@, ':')[0]);
        assert(parts@[1]@ == split_char(hms@, ':')[1]);
        assert(parts@[2]@ == split_char(hms@, ':')[2]);
    }
    let h = match parse_u64(parts[0].as_slice()) {
        Some(v) => v,
        None => return None,
    };
    let m = match parse_u64(parts[1].as_slice()) {
        Some(v) => v,
        None => return None,
    };
    let sec = match parse_u64(parts[2].as_slice()) {
        Some(v) => v,
        None => return None,
    };
    let ms = match parse_u64(ms_part.as_slice()) {
        Some(v) => v,
        None => return None,
    };
    Some(combine_clock(h, m, sec, ms))
}

// ── Timestamp value ────────────────────────────────────────────────────────

proof fn lemma_no_sep_digits(y: Seq<char>)
    requires
        all_digits(y),
    ensures
        forall|j: int| 0 <= j < y.len() ==> !is_ts_sep(#[trigger] y[j]) && y[j] != ':',
{
}

/// The last separator of `x + [sep] + y`, with `y` all digits, is the one
/// after `x`.
proof fn lemma_last_sep_before_digits(x: Seq<char>, sep: char, y: Seq<char>)
    requires
        is_ts_sep(sep),
        all_digits(y),
    ensures
        last_ts_sep(x + seq![sep] + y) == Some(x.len() as int),
    decreases y.len(),
{
    let s = x + seq![sep] + y;
    if y.len() == 0 {
        assert(s.last() == sep);
    } else {
        assert(s.last() == y.last());
        assert(s.drop_last() =~= x + seq![sep] + y.drop_last());
        lemma_last_sep_before_digits(x, sep, y.drop_last());
    }
}

/// Splitting `x + y` on `c`, where `y` holds no `c`, extends the last piece
/// of `x`'s split by `y`.
proof fn lemma_split_char_extend(x: Seq<char>, y: Seq<char>, c: char)
    requires
        forall|j: int| 0 <= j < y.len() ==> y[j] != c,
    ensures
        split_char(x + y, c) == split_char(x, c).update(
            split_char(x, c).len() - 1,
            split_char(x, c).last() + y,
        ),
    decreases y.len(),
{
    lemma_split_char_len(x, c);
    if y.len() == 0 {
        assert(x + y =~= x);
        assert(split_char(x, c).last() + y =~= split_char(x, c).last());
        assert(split_char(x, c).update(split_char(x, c).len() - 1, split_char(x, c).last())
            =~= split_char(x, c));
    } else {
        let y0 = y.drop_last();
        assert((x + y).drop_last() =~= x + y0);
        assert((x + y).last() == y.last());
        lemma_split_char_extend(x, y0, c);
        lemma_split_char_len(x + y0, c);
        assert(y[y.len() - 1] != c);
        let pp = split_char(x, c);
        let q = split_char(x + y0, c);
        assert(q.len() == pp.len());
        assert(q.last() == pp.last() + y0);
        assert(split_char(x + y, c) == q.update(q.len() - 1, q.last().push(y.last())));
        assert(pp.last() + y0 + seq![y.last()] =~= pp.last() + y);
        assert(q.last().push(y.last()) =~= pp.last() + y);
        assert(split_char(x + y, c) =~= split_char(x, c).update(
            split_char(x, c).len() - 1,
            split_char(x, c).last() + y,
        ));
    }
}

/// Splitting `x + [c]` on `c` adds an empty piece.
proof fn lemma_split_char_sep(x: Seq<char>, c: char)
    ensures
        split_char(x + seq![c], c) == split_char(x, c).push(Seq::<char>::empty()),
{
    assert((x + seq![c]).drop_last() =~= x);
}

proof fn lemma_split_hms(a: Seq<char>, b: Seq<char>, e: Seq<char>)
    requires
        all_digits(a),
        all_digits(b),
        all_digits(e),
    ensures
        split_char(a + seq![':'] + b + seq![':'] + e, ':') == seq![a, b, e],
{
    lemma_no_sep_digits(a);
    lemma_no_sep_digits(b);
    lemma_no_sep_digits(e);
    let em = Seq::<char>::empty();
    lemma_split_char_extend(em, a, ':');
    assert(em + a =~= a);
    assert(split_char(em, ':') =~= seq![em]);
    assert(split_char(a, ':') =~= seq![a]);
    lemma_split_char_sep(a, ':');
    lemma_split_char_extend(a + seq![':'], b, ':');
    assert(split_char(a + seq![':'] + b, ':') =~= seq![a, b]);
    lemma_split_char_sep(a + seq![':'] + b, ':');
    lemma_split_char_extend(a + seq![':'] + b + seq![':'], e, ':');
    assert(split_char(a + seq![':'] + b + seq![':'] + e, ':') =~= seq![a, b, e]);
}

proof fn lemma_digits_parse(d: Seq<char>)
    requires
        d.len() > 0,
        all_digits(d),
        digits_value(d) <= u64::MAX,
    ensures
        parse_u64_spec(d) == Some(digits_value(d) as u64),
{
    assert(is_digit(d[0]));
}

/// A timestamp `H:M:S,mmm` (or with `.` before the milliseconds), each field
/// a run of decimal digits, is worth `H*3600000 + M*60000 + S*1000 + mmm`
/// milliseconds, whenever that fits in a `u64`.
pub proof fn law_timestamp_millis(hh: Seq<char>, mm: Seq<char>, ss: Seq<char>, sep: char, fff: Seq<char>)
    requires
        hh.len() > 0 && mm.len() > 0 && ss.len() > 0 && fff.len() > 0,
        all_digits(hh) && all_digits(mm) && all_digits(ss) && all_digits(fff),
        sep == ',' || sep == '.',
        digits_value(hh) * 3600000 + digits_value(mm) * 60000 + digits_value(ss) * 1000
            + digits_value(fff) <= u64::MAX,
    ensures
        parse_timestamp_spec(hh + seq![':'] + mm + seq![':'] + ss + seq![sep] + fff) == Some(
            (digits_value(hh) * 3600000 + digits_value(mm) * 60000 + digits_value(ss) * 1000
                + digits_value(fff)) as u64,
        ),
{
    let h = digits_value(hh);
    let m = digits_value(mm);
    let sc = digits_value(ss);
    let f = digits_value(fff);
    let hms = hh + seq![':'] + mm + seq![':'] + ss;
    let s = hms + seq![sep] + fff;
    // Digits are not whitespace, so trimming keeps the text.
    assert(is_digit(s[0]));
    assert(s[0] == hh[0]);
    assert(s.last() == fff.last());
    assert(is_digit(fff.last()));
    assert(trim_start(s) == s);
    assert(trim_end(s) == s);
    assert(trim(s) == s);
    lemma_last_sep_before_digits(hms, sep, fff);
    assert(s.take(hms.len() as int) =~= hms);
    assert(s.skip(hms.len() as int + 1) =~= fff);
    lemma_split_hms(hh, mm, ss);
    assert(h * 3600000 <= u64::MAX && m * 60000 <= u64::MAX && sc * 1000 <= u64::MAX);
    lemma_digits_parse(hh);
    lemma_digits_parse(mm);
    lemma_digits_parse(ss);
    lemma_digits_parse(fff);
    assert(((h * 60 + m) * 60 + sc) * 1000 + f == h * 3600000 + m * 60000 + sc * 1000 + f)
        by (nonlinear_arith);
    let t = ((h * 60 + m) * 60 + sc) * 1000 + f;
    assert(t % 0x1_0000_0000_0000_0000 == t);
    assert(clock_ms(h as u64, m as u64, sc as u64, f as u64) == t as u64);
}

// ── Cue timing lines ───────────────────────────────────────────────────────

pub open spec fn arrow() -> Seq<char> {
    seq!['-', '-', '>']
}

pub open spec fn newline() -> Seq<char> {
    seq!['\n']
}

/// Start and end of a `start --> end [settings]` line.
pub open spec fn arrow_times(tl: Seq<char>) -> Option<(u64, u64)> {
    match find(tl, arrow()) {
        None => None,
        Some(a) => {
            let left = trim(tl.take(a));
            let right = leading_token(trim(tl.skip(a + 3)));
            match (parse_timestamp_spec(left), parse_timestamp_spec(right)) {
                (Some(st), Some(en)) => Some((st, en)),
                _ => None,
            }
        },
    }
}

proof fn lemma_trim_end_keeps_prefix(s: Seq<char>, k: int)
    requires
        0 <= k < s.len(),
        !is_ws(s[k]),
    ensures
        k < trim_end(s).len() <= s.len(),
        trim_end(s) == s.take(trim_end(s).len() as int),
    decreases s.len(),
{
    if s.len() > 0 && is_ws(s.last()) {
        assert(s.drop_last()[k] == s[k]);
        lemma_trim_end_keeps_prefix(s.drop_last(), k);
        assert(s.drop_last().take(trim_end(s).len() as int) =~= s.take(trim_end(s).len() as int));
    } else {
        assert(s.take(s.len() as int) =~= s);
    }
}

proof fn lemma_leading_token_of_word(x: Seq<char>, w: Seq<char>)
    requires
        forall|j: int| 0 <= j < x.len() ==> !is_ws(#[trigger] x[j]),
        w.len() == 0 || is_ws(w[0]),
    ensures
        leading_token(x + w) == x,
    decreases x.len(),
{
    if x.len() > 0 {
        assert((x + w)[0] == x[0]);
        assert((x + w).drop_first() =~= x.drop_first() + w);
        lemma_leading_token_of_word(x.drop_first(), w);
        assert(seq![x[0]] + x.drop_first() =~= x);
    } else {
        assert(x + w =~= w);
    }
}

proof fn lemma_trim_left_of_arrow(t1: Seq<char>)
    requires
        t1.len() > 0,
        forall|j: int| 0 <= j < t1.len() ==> !is_ws(#[trigger] t1[j]),
    ensures
        trim(t1 + seq![' ']) == t1,
{
    let left = t1 + seq![' '];
    assert(left.last() == ' ');
    assert(left.drop_last() =~= t1);
    assert(!is_ws(t1[t1.len() - 1]));
    assert(trim_end(t1) == t1);
    assert(trim_end(left) == t1);
    assert(left[0] == t1[0]);
    assert(!is_ws(left[0]));
    assert(trim_start(left) == left);
}

proof fn lemma_end_time_token(t2: Seq<char>, settings: Seq<char>)
    requires
        t2.len() > 0,
        forall|j: int| 0 <= j < t2.len() ==> !is_ws(#[trigger] t2[j]),
        settings.len() == 0 || is_ws(settings[0]),
    ensures
        leading_token(trim(seq![' '] + t2 + settings)) == t2,
{
    let z = t2 + settings;
    let rest = seq![' '] + t2 + settings;
    assert(rest.drop_first() =~= z);
    assert(z[0] == t2[0]);
    assert(!is_ws(z[0]));
    assert(trim_start(z) == z);
    assert(trim_start(rest) == z);
    assert(z[t2.len() - 1] == t2[t2.len() - 1]);
    lemma_trim_end_keeps_prefix(z, t2.len() - 1);
    let tz = trim_end(z);
    let w = settings.take(tz.len() - t2.len());
    assert(tz =~= t2 + w);
    lemma_leading_token_of_word(t2, w);
}

/// A timing line `start --> end`, optionally followed by whitespace and cue
/// settings, gives the values of its two timestamps.
pub proof fn law_timing_line(t1: Seq<char>, t2: Seq<char>, settings: Seq<char>, v1: u64, v2: u64)
    requires
        parse_timestamp_spec(t1) == Some(v1),
        parse_timestamp_spec(t2) == Some(v2),
        t1.len() > 0 && t2.len() > 0,
        forall|j: int| 0 <= j < t1.len() ==> !is_ws(#[trigger] t1[j]) && t1[j] != '-',
        forall|j: int| 0 <= j < t2.len() ==> !is_ws(#[trigger] t2[j]),
        settings.len() == 0 || is_ws(settings[0]),
    ensures
        arrow_times(t1 + seq![' ', '-', '-', '>', ' '] + t2 + settings) == Some((v1, v2)),
{
    let tl = t1 + seq![' ', '-', '-', '>', ' '] + t2 + settings;
    let a = t1.len() as int + 1;
    assert(tl.subrange(a, a + 3) =~= arrow());
    assert forall|j: int| 0 <= j < a implies !crate::text::match_at(tl, arrow(), j) by {
        if j < t1.len() {
            assert(tl[j] == t1[j]);
        } else {
            assert(tl[j] == ' ');
        }
    }
    lemma_find_first(tl, arrow(), a);
    assert(tl.take(a) =~= t1 + seq![' ']);
    lemma_trim_left_of_arrow(t1);
    assert(tl.skip(a + 3) =~= seq![' '] + t2 + settings);
    lemma_end_time_token(t2, settings);
}

fn arrow_chars() -> (v: Vec<char>)
    ensures
        v@ == arrow(),
{
    let mut v: Vec<char> = Vec::new();
    v.push('-');
    v.push('-');
    v.push('>');
    proof {
        assert(v@ =~= arrow());
    }
    v
}

fn newline_chars() -> (v: Vec<char>)
    ensures
        v@ == newline(),
{
    let mut v: Vec<char> = Vec::new();
    v.push('\n');
    proof {
        assert(v@ =~= newline());
    }
    v
}

fn contains_arrow(s: &[char]) -> (r: bool)
    ensures
        r == (find(s@, arrow()) is Some),
{
    let a = arrow_chars();
    find_chars(s, a.as_slice()).is_some()
}

fn parse_arrow_times(tl: &[char]) -> (r: Option<(u64, u64)>)
    ensures
        r == arrow_times(tl@),
{
    let a = arrow_chars();
    let pos = match find_chars(tl, a.as_slice()) {
        Some(p) => p,
        None => return None,
    };
    let n = tl.len();
    proof {
        lemma_find_from_props(tl@, arrow(), 0);
        assert(crate::text::match_at(tl@, arrow(), pos as int));
    }
    let left_raw = slice_chars(tl, 0, pos);
    let right_raw = slice_chars(tl, pos + 3, n);
    proof {
        assert(left_raw@ =~= tl@.take(pos as int));
        assert(right_raw@ =~= tl@.skip(pos + 3));
    }
    let left = trim_chars(left_raw.as_slice());
    let right_t = trim_chars(right_raw.as_slice());
    let right = leading_token_chars(right_t.as_slice());
    let st = match parse_timestamp(left.as_slice()) {
        Some(v) => v,
        None => return None,
    };
    let en = match parse_timestamp(right.as_slice()) {
        Some(v) => v,
        None => return None,
    };
    Some((st, en))
}

// ── SubRip ─────────────────────────────────────────────────────────────────

/// The lines of `ls` that hold something besides whitespace.
pub open spec fn nonblank(ls: Seq<Seq<char>>) -> Seq<Seq<char>>
    decreases ls.len(),
{
    if ls.len() == 0 {
        ls
    } else if trim(ls.last()).len() > 0 {
        nonblank(ls.drop_last()).push(ls.last())
    } else {
        nonblank(ls.drop_last())
    }
}

/// The cue that one blank-line-separated SubRip block describes.
pub open spec fn srt_block(block: Seq<char>) -> Option<CueView> {
    let ls = nonblank(lines(block));
    if ls.len() < 2 {
        None
    } else {
        let i: int = if all_digits(trim(ls[0])) {
            1
        } else {
            0
        };
        match arrow_times(ls[i]) {
            None => None,
            Some((st, en)) => {
                let text = join(ls.skip(i + 1), newline());
                if text.len() == 0 {
                    None
                } else {
                    Some((st, en, text))
                }
            },
        }
    }
}

/// The cues of the blocks that describe one, in order.
pub open spec fn srt_collect(bs: Seq<Seq<char>>) -> Seq<CueView>
    decreases bs.len(),
{
    if bs.len() == 0 {
        Seq::<CueView>::empty()
    } else {
        match srt_block(bs.last()) {
            Some(c) => srt_collect(bs.drop_last()).push(c),
            None => srt_collect(bs.drop_last()),
        }
    }
}

pub open spec fn parse_srt_spec(data: Seq<char>) -> Seq<CueView> {
    srt_collect(split_str(data, seq!['\n', '\n']))
}

fn nonblank_lines(ls: &[Vec<char>]) -> (out: Vec<Vec<char>>)
    ensures
        views(out@) == nonblank(views(ls@)),
{
    let mut out: Vec<Vec<char>> = Vec::new();
    let mut i: usize = 0;
    proof {
        assert(views(ls@).take(0) =~= Seq::<Seq<char>>::empty());
    }
    while i < ls.len()
        invariant
            i <= ls@.len(),
            views(out@) == nonblank(views(ls@).take(i as int)),
        decreases ls@.len() - i,
    {
        let ghost before = views(out@);
        proof {
            assert(views(ls@).take(i + 1).drop_last() =~= views(ls@).take(i as int));
            assert(views(ls@).take(i + 1).last() == ls@[i as int]@);
        }
        let t = trim_chars(ls[i].as_slice());
        if t.len() > 0 {
            let copy = slice_chars(ls[i].as_slice(), 0, ls[i].len());
            proof {
                assert(copy@ =~= ls@[i as int]@);
            }
            out.push(copy);
            proof {
                assert(views(out@) =~= before.push(ls@[i as int]@));
            }
        }
        i = i + 1;
    }
    proof {
        assert(views(ls@).take(i as int) =~= views(ls@));
    }
    out
}

fn cue_of(st: u64, en: u64, text: &[char]) -> (c: SubtitleCue)
    ensures
        cue_view(c) == (st, en, text@),
{
    SubtitleCue { start_ms: st, end_ms: en, text: string_of(text) }
}

fn parse_srt_block(block: &[char]) -> (r: Option<SubtitleCue>)
    ensures
        r matches Some(c) ==> srt_block(block@) == Some(cue_view(c)),
        r is None ==> srt_block(block@) is None,
{
    let all = lines_of(block);
    let ls = nonblank_lines(all.as_slice());
    if ls.len() < 2 {
        return None;
    }
    let first = trim_chars(ls[0].as_slice());
    let mut k: usize = 0;
    while k < first.len() && '0' <= first[k] && first[k] <= '9'
        invariant
            k <= first@.len(),
            all_digits(first@.take(k as int)),
        decreases first@.len() - k,
    {
        proof {
            assert(first@.take(k + 1) =~= first@.take(k as int).push(first@[k as int]));
        }
        k = k + 1;
    }
    let digits = k == first.len();
    proof {
        if k < first@.len() {
            assert(!crate::text::is_digit(first@[k as int]));
        } else {
            assert(first@.take(k as int) =~= first@);
        }
    }
    let i: usize = if digits {
        1
    } else {
        0
    };
    let times = parse_arrow_times(ls[i].as_slice());
    let (st, en) = match times {
        Some(t) => t,
        None => return None,
    };
    let nl = newline_chars();
    let text = join_from(ls.as_slice(), i + 1, nl.as_slice());
    if text.len() == 0 {
        return None;
    }
    Some(cue_of(st, en, text.as_slice()))
}

/// Parse SubRip (`.srt`) text into cues.
pub fn parse_srt(data: &str) -> (out: Vec<SubtitleCue>)
    ensures
        cue_views(out@) == parse_srt_spec(data@),
{
    let d = chars_of(data);
    let mut sep: Vec<char> = Vec::new();
    sep.push('\n');
    sep.push('\n');
    proof {
        assert(sep@ =~= seq!['\n', '\n']);
    }
    let blocks = split_on(d.as_slice(), sep.as_slice());
    let ghost bs = views(blocks@);
    let mut out: Vec<SubtitleCue> = Vec::new();
    let mut i: usize = 0;
    proof {
        assert(bs.take(0) =~= Seq::<Seq<char>>::empty());
        assert(cue_views(out@) =~= Seq::<CueView>::empty());
    }
    while i < blocks.len()
        invariant
            i <= blocks@.len(),
            bs == views(blocks@),
            cue_views(out@) == srt_collect(bs.take(i as int)),
        decreases blocks@.len() - i,
    {
        proof {
            assert(bs.take(i + 1).drop_last() =~= bs.take(i as int));
            assert(bs.take(i + 1).last() == blocks@[i as int]@);
        }
        let ghost before = cue_views(out@);
        match parse_srt_block(blocks[i].as_slice()) {
            Some(c) => {
                out.push(c);
                proof {
                    assert(cue_views(out@) =~= before.push(cue_view(c)));
                }
            },
            None => {},
        }
        i = i + 1;
    }
    proof {
        assert(bs.take(i as int) =~= bs);
    }
    out
}

// ── WebVTT ─────────────────────────────────────────────────────────────────

/// The cue that a buffered WebVTT block describes: an optional identifier
/// line, a timing line, then text lines.
pub open spec fn vtt_block(ls: Seq<Seq<char>>) -> Option<CueView> {
    if ls.len() == 0 {
        None
    } else {
        let i: int = if find(ls[0], arrow()) is Some {
            0
        } else if ls.len() >= 2 && find(ls[1], arrow()) is Some {
            1
        } else {
            -1
        };
        if i < 0 {
            None
        } else {
            match arrow_times(ls[i]) {
                None => None,
                Some((st, en)) => {
                    let text = join(ls.skip(i + 1), newline());
                    if text.len() == 0 {
                        None
                    } else {
                        Some((st, en, text))
                    }
                },
            }
        }
    }
}

pub open spec fn push_cue(out: Seq<CueView>, c: Option<CueView>) -> Seq<CueView> {
    match c {
        Some(x) => out.push(x),
        None => out,
    }
}

/// One line of the WebVTT reader: blank lines close the buffered block.
pub open spec fn vtt_step(st: (Seq<CueView>, Seq<Seq<char>>), line: Seq<char>) -> (
    Seq<CueView>,
    Seq<Seq<char>>,
) {
    let l = trim_end(line);
    if l.len() == 0 {
        if st.1.len() > 0 {
            (push_cue(st.0, vtt_block(st.1)), Seq::<Seq<char>>::empty())
        } else {
            st
        }
    } else {
        (st.0, st.1.push(l))
    }
}

pub open spec fn vtt_run(ls: Seq<Seq<char>>) -> (Seq<CueView>, Seq<Seq<char>>)
    decreases ls.len(),
{
    if ls.len() == 0 {
        (Seq::<CueView>::empty(), Seq::<Seq<char>>::empty())
    } else {
        vtt_step(vtt_run(ls.drop_last()), ls.last())
    }
}

pub open spec fn webvtt_word() -> Seq<char> {
    seq!['w', 'e', 'b', 'v', 't', 't']
}

/// The lines of a WebVTT file after the optional `WEBVTT` header line.
pub open spec fn vtt_body(data: Seq<char>) -> Seq<Seq<char>> {
    let ls = lines(data);
    if ls.len() > 0 && lower(trim(ls[0])) == webvtt_word() {
        ls.drop_first()
    } else {
        ls
    }
}

pub open spec fn parse_vtt_spec(data: Seq<char>) -> Seq<CueView> {
    let st = vtt_run(vtt_body(data));
    if st.1.len() > 0 {
        push_cue(st.0, vtt_block(st.1))
    } else {
        st.0
    }
}

fn parse_vtt_block(ls: &[Vec<char>]) -> (r: Option<SubtitleCue>)
    ensures
        r matches Some(c) ==> vtt_block(views(ls@)) == Some(cue_view(c)),
        r is None ==> vtt_block(views(ls@)) is None,
{
    if ls.len() == 0 {
        return None;
    }
    let i: usize = if contains_arrow(ls[0].as_slice()) {
        0
    } else if ls.len() >= 2 && contains_arrow(ls[1].as_slice()) {
        1
    } else {
        return None;
    };
    let (st, en) = match parse_arrow_times(ls[i].as_slice()) {
        Some(t) => t,
        None => return None,
    };
    let nl = newline_chars();
    let text = join_from(ls, i + 1, nl.as_slice());
    if text.len() == 0 {
        return None;
    }
    Some(cue_of(st, en, text.as_slice()))
}

fn is_webvtt_header(line: &[char]) -> (r: bool)
    ensures
        r == (lower(trim(line@)) == webvtt_word()),
{
    let t = trim_chars(line);
    let l = lower_chars(t.as_slice());
    let mut w: Vec<char> = Vec::new();
    w.push('w');
    w.push('e');
    w.push('b');
    w.push('v');
    w.push('t');
    w.push('t');
    proof {
        assert(w@ =~= webvtt_word());
    }
    crate::text::chars_eq(l.as_slice(), w.as_slice())
}

/// Parse WebVTT (`.vtt`) into cues (ignores styles and notes).
pub fn parse_vtt(data: &str) -> (out: Vec<SubtitleCue>)
    ensures
        cue_views(out@) == parse_vtt_spec(data@),
{
    let d = chars_of(data);
    let all = lines_of(d.as_slice());
    let skip: usize = if all.len() > 0 && is_webvtt_header(all[0].as_slice()) {
        1
    } else {
        0
    };
    let ghost body = vtt_body(d@);
    proof {
        assert(body =~= views(all@).skip(skip as int));
        assert(body.take(0) =~= Seq::<Seq<char>>::empty());
    }
    let mut out: Vec<SubtitleCue> = Vec::new();
    let mut buf: Vec<Vec<char>> = Vec::new();
    let mut i: usize = skip;
    proof {
        assert(cue_views(out@) =~= Seq::<CueView>::empty());
        assert(views(buf@) =~= Seq::<Seq<char>>::empty());
    }
    while i < all.len()
        invariant
            skip <= i <= all@.len(),
            body == views(all@).skip(skip as int),
            (cue_views(out@), views(buf@)) == vtt_run(body.take(i - skip)),
        decreases all@.len() - i,
    {
        proof {
            assert(body.take(i - skip + 1).drop_last() =~= body.take(i - skip));
            assert(body.take(i - skip + 1).last() == all@[i as int]@);
        }
        let line = trim_end_chars(all[i].as_slice());
        if line.len() == 0 {
            if buf.len() > 0 {
                let ghost before = cue_views(out@);
                match parse_vtt_block(buf.as_slice()) {
                    Some(c) => {
                        out.push(c);
                        proof {
                            assert(cue_views(out@) =~= before.push(cue_view(c)));
                        }
                    },
                    None => {},
                }
                buf = Vec::new();
                proof {
                    assert(views(buf@) =~= Seq::<Seq<char>>::empty());
                }
            }
        } else {
            let ghost before = views(buf@);
            let ghost l = line@;
            buf.push(line);
            proof {
                assert(views(buf@) =~= before.push(l));
            }
        }
        i = i + 1;
    }
    proof {
        assert(body.take(i - skip) =~= body);
    }
    if buf.len() > 0 {
        let ghost before = cue_views(out@);
        match parse_vtt_block(buf.as_slice()) {
            Some(c) => {
                out.push(c);
                proof {
                    assert(cue_views(out@) =~= before.push(cue_view(c)));
                }
            },
            None => {},
        }
    }
    out
}

// ── Lookup ─────────────────────────────────────────────────────────────────

pub open spec fn cue_active(c: SubtitleCue, t: u64) -> bool {
    c.start_ms <= t && t <= c.end_ms
}

/// Active subtitle text at `t_ms`, if any: the text of the first cue whose
/// interval (bounds included) holds `t_ms`.
pub fn cue_text_at(cues: &[SubtitleCue], t_ms: u64) -> (r: Option<&str>)
    ensures
        r is None <==> forall|k: int| 0 <= k < cues@.len() ==> !cue_active(cues@[k], t_ms),
        r matches Some(x) ==> exists|k: int|
            0 <= k < cues@.len() && cue_active(cues@[k], t_ms) && (forall|j: int|
                0 <= j < k ==> !cue_active(cues@[j], t_ms)) && x@ == cues@[k].text@,
{
    let mut i: usize = 0;
    while i < cues.len()
        invariant
            i <= cues@.len(),
            forall|j: int| 0 <= j < i ==> !cue_active(cues@[j], t_ms),
        decreases cues@.len() - i,
    {
        let c = &cues[i];
        if t_ms >= c.start_ms && t_ms <= c.end_ms {
            return Some(c.text.as_str());
        }
        i = i + 1;
    }
    None
}

} // verus!
