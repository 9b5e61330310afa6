//! Rules behind the `oxide` host imports: bounds of guest memory accesses,
//! how much of a reply fits a guest buffer, key-value keys scoped to the
//! page, and how URLs handed over by a guest are resolved against the page.

use vstd::prelude::*;
use crate::navigation::{items_after_push, HistoryEntry, NavigationStack};
use crate::text::{append_str, chars_of, string_of};
use crate::url::{check_scheme, parse_spec, whatwg_join, OxideUrl};
use crate::audio_format::AUDIO_FORMAT_UNKNOWN;

verus! {

/// The byte range `ptr .. ptr + len` of a guest memory of `mem_len` bytes,
/// when it lies inside the memory.
pub fn guest_range(ptr: u32, len: u32, mem_len: usize) -> (r: Option<(usize, usize)>)
    ensures
        match r {
            Some((start, end)) => start == ptr && end == ptr + len && end <= mem_len,
            None => ptr + len > mem_len,
        },
{
    let start = ptr as usize;
    match start.checked_add(len as usize) {
        Some(end) => if end <= mem_len {
            Some((start, end))
        } else {
            None
        },
        None => None,
    }
}

/// How many bytes of a `len`-byte reply fit a guest buffer of `cap` bytes.
pub fn copy_len(len: usize, cap: u32) -> (r: usize)
    ensures
        r == (if len <= cap {
            len as int
        } else {
            cap as int
        }),
{
    let c = cap as usize;
    if len <= c {
        len
    } else {
        c
    }
}

/// The key under which a page stores `key`: the page URL, `::`, the key.
pub fn kv_key(origin: &str, key: &str) -> (r: String)
    ensures
        r@ == origin@ + "::"@ + key@,
{
    let mut out = chars_of(origin);
    append_str(&mut out, "::");
    append_str(&mut out, key);
    string_of(out.as_slice())
}

/// `raw` resolved against the page at `current`: unchanged when there is no
/// page or its URL does not parse or the join fails.
pub open spec fn resolve_for_page_spec(current: Seq<char>, raw: Seq<char>) -> Seq<char> {
    if current.len() == 0 {
        raw
    } else {
        match parse_spec(current) {
            Ok(base) => match check_scheme(whatwg_join(base.0, raw)) {
                Ok(u) => u.0,
                Err(_) => raw,
            },
            Err(_) => raw,
        }
    }
}

pub fn resolve_for_page(current: &str, raw: &str) -> (r: String)
    ensures
        r@ == resolve_for_page_spec(current@, raw@),
{
    if chars_of(current).len() == 0 {
        return raw.to_owned();
    }
    match OxideUrl::parse(current) {
        Ok(base) => match base.join(raw) {
            Ok(u) => u.as_str().to_owned(),
            Err(_) => raw.to_owned(),
        },
        Err(_) => raw.to_owned(),
    }
}

/// Where a guest's `navigate(raw)` leads: the URL resolved against the page,
/// if it parses.
pub fn navigate_target(current: &str, raw: &str) -> (r: Option<String>)
    ensures
        match r {
            Some(u) => u@ == resolve_for_page_spec(current@, raw@) && parse_spec(u@) is Ok,
            None => parse_spec(resolve_for_page_spec(current@, raw@)) is Err,
        },
{
    let resolved = resolve_for_page(current, raw);
    match OxideUrl::parse(resolved.as_str()) {
        Ok(_) => Some(resolved),
        Err(_) => None,
    }
}

/// The URL recorded by `push_state` / `replace_state`: the page's own URL
/// when none is given, else the given one resolved against the page.
pub open spec fn state_url_spec(current: Seq<char>, url_arg: Seq<char>) -> Seq<char> {
    if url_arg.len() == 0 {
        current
    } else {
        resolve_for_page_spec(current, url_arg)
    }
}

pub fn state_url(current: &str, url_arg: &str) -> (r: String)
    ensures
        r@ == state_url_spec(current@, url_arg@),
{
    if chars_of(url_arg).len() == 0 {
        current.to_owned()
    } else {
        resolve_for_page(current, url_arg)
    }
}

/// A guest's `push_state(state, title, url)`: a new history entry for the
/// resolved URL, which becomes the page URL.
pub fn push_state(
    nav: &mut NavigationStack,
    current_url: &mut String,
    state: Vec<u8>,
    title: &str,
    url_arg: &str,
)
    requires
        old(nav).wf(),
        old(nav).items().len() < isize::MAX - 1,
    ensures
        final(nav).wf(),
        final(current_url)@ == state_url_spec(old(current_url)@, url_arg@),
        final(nav).cursor() == old(nav).cursor() + 1,
        final(nav).items().len() == old(nav).cursor() + 2,
        final(nav).items().take(old(nav).cursor() + 1) == old(nav).items().take(
            old(nav).cursor() + 1,
        ),
        ({
            let e = final(nav).items()[old(nav).cursor() + 1];
            &&& e.url@ == state_url_spec(old(current_url)@, url_arg@)
            &&& e.title@ == title@
            &&& e.state@ == state@
        }),
{
    let url = state_url(current_url.as_str(), url_arg);
    let entry = HistoryEntry::new(url.as_str()).with_title(title).with_state(state);
    let ghost e = entry;
    nav.push(entry);
    proof {
        let before = old(nav).items();
        let c = old(nav).cursor();
        assert(items_after_push(before, c, e).take(c + 1) =~= before.take(c + 1));
    }
    *current_url = url;
}

/// A guest's `replace_state(state, title, url)`: the current history entry
/// is replaced (or one is pushed on an empty history), and the resolved URL
/// becomes the page URL.
pub fn replace_state(
    nav: &mut NavigationStack,
    current_url: &mut String,
    state: Vec<u8>,
    title: &str,
    url_arg: &str,
)
    requires
        old(nav).wf(),
        old(nav).items().len() < isize::MAX - 1,
    ensures
        final(nav).wf(),
        final(current_url)@ == state_url_spec(old(current_url)@, url_arg@),
        old(nav).cursor() >= 0 ==> final(nav).cursor() == old(nav).cursor()
            && final(nav).items().len() == old(nav).items().len()
            && forall|j: int|
            0 <= j < old(nav).items().len() && j != old(nav).cursor() ==> final(nav).items()[j]
                == old(nav).items()[j],
        old(nav).cursor() < 0 ==> final(nav).cursor() == 0 && final(nav).items().len() == 1,
        ({
            let e = final(nav).items()[final(nav).cursor()];
            &&& e.url@ == state_url_spec(old(current_url)@, url_arg@)
            &&& e.title@ == title@
            &&& e.state@ == state@
        }),
{
    let url = state_url(current_url.as_str(), url_arg);
    let entry = HistoryEntry::new(url.as_str()).with_title(title).with_state(state);
    nav.replace_current(entry);
    *current_url = url;
}

/// A guest's `url_resolve(base, relative)`: the joined URL, or `-1` when
/// `base` does not parse and `-2` when the join fails.
pub fn url_resolve(base: &str, relative: &str) -> (r: Result<String, i32>)
    ensures
        match parse_spec(base@) {
            Err(_) => r matches Err(c) && c == -1,
            Ok(b) => match check_scheme(whatwg_join(b.0, relative@)) {
                Ok(u) => r matches Ok(s) && s@ == u.0,
                Err(_) => r matches Err(c) && c == -2,
            },
        },
{
    let b = match OxideUrl::parse(base) {
        Ok(u) => u,
        Err(_) => return Err(-1),
    };
    match b.join(relative) {
        Ok(u) => Ok(u.as_str().to_owned()),
        Err(_) => Err(-2),
    }
}

/// The state a guest reads back with `get_state`: the current entry's
/// state, unless there is none or it is empty.
pub fn current_state(nav: &NavigationStack) -> (r: Option<Vec<u8>>)
    requires
        nav.wf(),
    ensures
        match r {
            Some(s) => nav.cursor() >= 0 && s@ == nav.items()[nav.cursor()].state@ && s@.len() > 0,
            None => nav.cursor() < 0 || nav.items()[nav.cursor()].state@.len() == 0,
        },
{
    match nav.current() {
        Some(e) => if e.state.len() > 0 {
            Some(e.state.clone())
        } else {
            None
        },
        None => None,
    }
}

// ── Input polling ──────────────────────────────────────────────────────────

/// Two 32-bit values in one `u64`, `hi` in the upper half (how positions
/// and scroll deltas travel as the bit patterns of their coordinates).
pub fn pack_pair(hi: u32, lo: u32) -> (r: u64)
    ensures
        r == hi * 0x1_0000_0000 + lo,
{
    let r = ((hi as u64) << 32u64) | (lo as u64);
    assert(((hi as u64) << 32u64) | (lo as u64) == hi * 0x1_0000_0000 + lo) by (bit_vector);
    r
}

/// The modifier bits a guest reads: 1 for shift, 2 for control, 4 for alt.
pub fn modifier_flags(shift: bool, ctrl: bool, alt: bool) -> (r: u32)
    ensures
        r == (if shift {
            1u32
        } else {
            0u32
        }) + (if ctrl {
            2u32
        } else {
            0u32
        }) + (if alt {
            4u32
        } else {
            0u32
        }),
{
    let mut flags: u32 = 0;
    if shift {
        flags = flags + 1;
    }
    if ctrl {
        flags = flags + 2;
    }
    if alt {
        flags = flags + 4;
    }
    flags
}

/// Whether mouse button `button` (0 primary, 1 secondary, 2 middle) is set;
/// other numbers never are.
pub fn button_flag(buttons: &[bool; 3], button: u32) -> (r: u32)
    ensures
        r == (if button < 3 && buttons@[button as int] {
            1u32
        } else {
            0u32
        }),
{
    if button < 3 && buttons[button as usize] {
        1
    } else {
        0
    }
}

/// Whether key code `key` is among `keys`.
pub fn key_flag(keys: &[u32], key: u32) -> (r: u32)
    ensures
        r == (if keys@.contains(key) {
            1u32
        } else {
            0u32
        }),
{
    let mut i: usize = 0;
    while i < keys.len()
        invariant
            i <= keys@.len(),
            forall|j: int| 0 <= j < i ==> keys@[j] != key,
        decreases keys@.len() - i,
    {
        if keys[i] == key {
            return 1;
        }
        i = i + 1;
    }
    0
}

/// Whether a guest's format hint contradicts what the bytes look like: both
/// are known and they differ (the host then logs a warning and plays the
/// bytes anyway).
pub fn format_hint_conflicts(hint: u32, sniffed: u32) -> (r: bool)
    ensures
        r == (hint != 0 && hint != AUDIO_FORMAT_UNKNOWN && sniffed != AUDIO_FORMAT_UNKNOWN
            && sniffed != hint),
{
    hint != 0 && hint != AUDIO_FORMAT_UNKNOWN && sniffed != AUDIO_FORMAT_UNKNOWN && sniffed != hint
}

} // verus!
