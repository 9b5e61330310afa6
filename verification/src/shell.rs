//! Rules of the desktop shell: internal pages, tab titles, relative times,
//! key codes handed to guests, which URLs are downloads, what a navigation
//! does, how the tab strip changes when a tab closes, and how a tab's page
//! moves between loading, running and failed.

use vstd::prelude::*;
use crate::clock::now_ms;
use crate::download::last_index;
use crate::forge::ForgePhase;
use crate::loader::PageStatus;
use crate::text::{append_chars, append_str, chars_eq, chars_eq_str, chars_of, dec, ends_with_str, has_prefix, has_suffix, lower, lower_chars, slice_chars, starts_with_str, string_of, trim, trim_chars, u64_to_dec};
use crate::url::{url_parse, whatwg_parse};

verus! {

/// Built-in `oxide://` pages.
#[derive(Clone, Copy, Debug, PartialEq, Eq, Structural)]
pub enum InternalPage {
    Home,
    History,
    Bookmarks,
    About,
    Forge,
}

pub open spec fn internal_page_spec(url: Seq<char>) -> Option<InternalPage> {
    if url == "oxide://home"@ {
        Some(InternalPage::Home)
    } else if url == "oxide://history"@ {
        Some(InternalPage::History)
    } else if url == "oxide://bookmarks"@ {
        Some(InternalPage::Bookmarks)
    } else if url == "oxide://about"@ {
        Some(InternalPage::About)
    } else if url == "oxide://forge"@ {
        Some(InternalPage::Forge)
    } else {
        None
    }
}

/// The internal page `url` names exactly, if any.
pub fn try_internal_page(url: &str) -> (r: Option<InternalPage>)
    ensures
        r == internal_page_spec(url@),
{
    let c = chars_of(url);
    let s = c.as_slice();
    if chars_eq_str(s, "oxide://home") {
        Some(InternalPage::Home)
    } else if chars_eq_str(s, "oxide://history") {
        Some(InternalPage::History)
    } else if chars_eq_str(s, "oxide://bookmarks") {
        Some(InternalPage::Bookmarks)
    } else if chars_eq_str(s, "oxide://about") {
        Some(InternalPage::About)
    } else if chars_eq_str(s, "oxide://forge") {
        Some(InternalPage::Forge)
    } else {
        None
    }
}

// ── Relative times ─────────────────────────────────────────────────────────

/// "N units ago", with the singular given separately.
pub open spec fn ago(n: nat, one: Seq<char>, unit: Seq<char>) -> Seq<char> {
    if n == 1 {
        one
    } else {
        dec(n) + " "@ + unit + " ago"@
    }
}

/// How long ago something happened, given the elapsed seconds.
pub open spec fn friendly_age_spec(secs: nat) -> Seq<char> {
    if secs < 60 {
        "Just now"@
    } else if secs < 3600 {
        ago(secs / 60, "1 minute ago"@, "minutes"@)
    } else if secs < 86400 {
        ago(secs / 3600, "1 hour ago"@, "hours"@)
    } else {
        ago(secs / 86400, "Yesterday"@, "days"@)
    }
}

fn ago_text(n: u64, one: &str, unit: &str) -> (r: String)
    ensures
        r@ == ago(n as nat, one@, unit@),
{
    if n == 1 {
        return one.to_owned();
    }
    let mut out = u64_to_dec(n);
    append_str(&mut out, " ");
    append_str(&mut out, unit);
    append_str(&mut out, " ago");
    string_of(out.as_slice())
}

/// "Just now", "5 minutes ago", "1 hour ago", "Yesterday", "3 days ago".
pub fn friendly_age(secs: u64) -> (r: String)
    ensures
        r@ == friendly_age_spec(secs as nat),
{
    if secs < 60 {
        "Just now".to_owned()
    } else if secs < 3600 {
        ago_text(secs / 60, "1 minute ago", "minutes")
    } else if secs < 86400 {
        ago_text(secs / 3600, "1 hour ago", "hours")
    } else {
        ago_text(secs / 86400, "Yesterday", "days")
    }
}

/// Seconds from `then_ms` to `now_ms`, zero when `then_ms` is in the future.
pub open spec fn elapsed_secs(now: u64, then_ms: u64) -> nat {
    if now >= then_ms {
        ((now - then_ms) / 1000) as nat
    } else {
        0
    }
}

/// How long ago `timestamp_ms` was, read against the system clock.
pub fn format_friendly_timestamp(timestamp_ms: u64) -> (r: String)
    ensures
        exists|now: u64| r@ == friendly_age_spec(#[trigger] elapsed_secs(now, timestamp_ms)),
{
    let now = now_ms();
    let diff = now.saturating_sub(timestamp_ms) / 1000;
    let r = friendly_age(diff);
    proof {
        assert(diff as nat == elapsed_secs(now, timestamp_ms));
    }
    r
}

// ── Titles ─────────────────────────────────────────────────────────────────

/// `s` cut to `max` characters with an ellipsis when it is longer.
pub open spec fn ellipsize(s: Seq<char>, max: nat) -> Seq<char> {
    if s.len() > max {
        s.take(max as int).push('\u{2026}')
    } else {
        s
    }
}

fn ellipsize_chars(s: &[char], max: usize) -> (r: String)
    ensures
        r@ == ellipsize(s@, max as nat),
{
    if s.len() > max {
        let mut t = slice_chars(s, 0, max);
        t.push('\u{2026}');
        string_of(t.as_slice())
    } else {
        string_of(s)
    }
}

/// A tab title of at most 30 characters plus an ellipsis.
pub fn truncate_tab_title(title: &str) -> (r: String)
    ensures
        r@ == ellipsize(title@, 30),
{
    let c = chars_of(title);
    ellipsize_chars(c.as_slice(), 30)
}

/// `s` after the last `c` (all of `s` when there is none).
pub open spec fn after_last(s: Seq<char>, c: char) -> Seq<char> {
    match last_index(s, c) {
        Some(k) => s.skip(k + 1),
        None => s,
    }
}

/// `s` before the first `c` (all of `s` when there is none).
pub open spec fn before_first(s: Seq<char>, c: char) -> Seq<char> {
    crate::loader::before_char(s, c)
}

/// The title shown for a page at `url`.
pub open spec fn url_title_spec(url: Seq<char>) -> Seq<char> {
    if url == "(local)"@ {
        "Local Module"@
    } else if url == "oxide://home"@ {
        "Home"@
    } else if url == "oxide://history"@ {
        "History"@
    } else if url == "oxide://bookmarks"@ {
        "Bookmarks"@
    } else if url == "oxide://about"@ {
        "About Oxide"@
    } else if url == "oxide://forge"@ {
        "Forge"@
    } else if has_prefix(url, "https://"@) {
        before_first(url.skip(8), '/')
    } else if has_prefix(url, "http://"@) {
        before_first(url.skip(7), '/')
    } else if has_prefix(url, "file://"@) {
        after_last(url.skip(7), '/')
    } else {
        ellipsize(url, 20)
    }
}

fn after_last_chars(s: &[char], c: char) -> (r: Vec<char>)
    ensures
        r@ == after_last(s@, c),
{
    let mut k = s.len();
    proof {
        assert(s@.take(k as int) =~= s@);
    }
    while k > 0 && s[k - 1] != c
        invariant
            k <= s@.len(),
            last_index(s@, c) == last_index(s@.take(k as int), c),
        decreases k,
    {
        proof {
            assert(s@.take(k as int).drop_last() =~= s@.take(k - 1));
        }
        k = k - 1;
    }
    if k == 0 {
        slice_chars(s, 0, s.len())
    } else {
        slice_chars(s, k, s.len())
    }
}

/// The title shown for a page: names for internal pages, the host for web
/// pages, the file name for local files, else the URL shortened to 20
/// characters.
pub fn url_to_title(url: &str) -> (r: String)
    ensures
        r@ == url_title_spec(url@),
{
    proof {
        reveal_strlit("https://");
        reveal_strlit("http://");
        reveal_strlit("file://");
    }
    let c = chars_of(url);
    let s = c.as_slice();
    if chars_eq_str(s, "(local)") {
        return "Local Module".to_owned();
    }
    if chars_eq_str(s, "oxide://home") {
        return "Home".to_owned();
    }
    if chars_eq_str(s, "oxide://history") {
        return "History".to_owned();
    }
    if chars_eq_str(s, "oxide://bookmarks") {
        return "Bookmarks".to_owned();
    }
    if chars_eq_str(s, "oxide://about") {
        return "About Oxide".to_owned();
    }
    if chars_eq_str(s, "oxide://forge") {
        return "Forge".to_owned();
    }
    if starts_with_str(s, "https://") {
        let rest = slice_chars(s, 8, s.len());
        let host = crate::loader::before_char_chars(rest.as_slice(), '/');
        return string_of(host.as_slice());
    }
    if starts_with_str(s, "http://") {
        let rest = slice_chars(s, 7, s.len());
        let host = crate::loader::before_char_chars(rest.as_slice(), '/');
        return string_of(host.as_slice());
    }
    if starts_with_str(s, "file://") {
        let rest = slice_chars(s, 7, s.len());
        let name = after_last_chars(rest.as_slice(), '/');
        return string_of(name.as_slice());
    }
    ellipsize_chars(s, 20)
}

/// The title of a tab in the given state.
pub open spec fn page_title_spec(status: PageStatus) -> Seq<char> {
    match status {
        PageStatus::Idle => "New Tab"@,
        PageStatus::Loading(_) => "Loading\u{2026}"@,
        PageStatus::Running(url) => url_title_spec(url@),
        PageStatus::Error(_) => "Error"@,
    }
}

pub fn page_title(status: &PageStatus) -> (r: String)
    ensures
        r@ == page_title_spec(*status),
{
    match status {
        PageStatus::Idle => "New Tab".to_owned(),
        PageStatus::Loading(_) => "Loading\u{2026}".to_owned(),
        PageStatus::Running(url) => url_to_title(url.as_str()),
        PageStatus::Error(_) => "Error".to_owned(),
    }
}

/// The badge text of a Forge session phase.
pub fn phase_label(p: ForgePhase) -> (r: &'static str)
    ensures
        r@ == (match p {
            ForgePhase::Idle => "idle"@,
            ForgePhase::Streaming => "streaming"@,
            ForgePhase::StreamComplete => "ready to build"@,
            ForgePhase::Building => "building"@,
            ForgePhase::BuildOk => "build ok"@,
            ForgePhase::Error => "error"@,
        }),
{
    match p {
        ForgePhase::Idle => "idle",
        ForgePhase::Streaming => "streaming",
        ForgePhase::StreamComplete => "ready to build",
        ForgePhase::Building => "building",
        ForgePhase::BuildOk => "build ok",
        ForgePhase::Error => "error",
    }
}

// ── Keys ───────────────────────────────────────────────────────────────────

/// The key code a guest sees for a key name: letters 0–25, digits 26–35,
/// then enter, escape, tab, backspace, delete, space, the arrows, home,
/// end, page up and page down (36–49).
pub open spec fn key_code_spec(key: Seq<char>) -> Option<u32> {
    if key == "a"@ {
        Some(0u32)
    } else if key == "b"@ {
        Some(1u32)
    } else if key == "c"@ {
        Some(2u32)
    } else if key == "d"@ {
        Some(3u32)
    } else if key == "e"@ {
        Some(4u32)
    } else if key == "f"@ {
        Some(5u32)
    } else if key == "g"@ {
        Some(6u32)
    } else if key == "h"@ {
        Some(7u32)
    } else if key == "i"@ {
        Some(8u32)
    } else if key == "j"@ {
        Some(9u32)
    } else if key == "k"@ {
        Some(10u32)
    } else if key == "l"@ {
        Some(11u32)
    } else if key == "m"@ {
        Some(12u32)
    } else if key == "n"@ {
        Some(13u32)
    } else if key == "o"@ {
        Some(14u32)
    } else if key == "p"@ {
        Some(15u32)
    } else if key == "q"@ {
        Some(16u32)
    } else if key == "r"@ {
        Some(17u32)
    } else if key == "s"@ {
        Some(18u32)
    } else if key == "t"@ {
        Some(19u32)
    } else if key == "u"@ {
        Some(20u32)
    } else if key == "v"@ {
        Some(21u32)
    } else if key == "w"@ {
        Some(22u32)
    } else if key == "x"@ {
        Some(23u32)
    } else if key == "y"@ {
        Some(24u32)
    } else if key == "z"@ {
        Some(25u32)
    } else if key == "0"@ {
        Some(26u32)
    } else if key == "1"@ {
        Some(27u32)
    } else if key == "2"@ {
        Some(28u32)
    } else if key == "3"@ {
        Some(29u32)
    } else if key == "4"@ {
        Some(30u32)
    } else if key == "5"@ {
        Some(31u32)
    } else if key == "6"@ {
        Some(32u32)
    } else if key == "7"@ {
        Some(33u32)
    } else if key == "8"@ {
        Some(34u32)
    } else if key == "9"@ {
        Some(35u32)
    } else if key == "enter"@ {
        Some(36u32)
    } else if key == "escape"@ {
        Some(37u32)
    } else if key == "tab"@ {
        Some(38u32)
    } else if key == "backspace"@ {
        Some(39u32)
    } else if key == "delete"@ {
        Some(40u32)
    } else if key == "space"@ {
        Some(41u32)
    } else if key == "up"@ {
        Some(42u32)
    } else if key == "down"@ {
        Some(43u32)
    } else if key == "left"@ {
        Some(44u32)
    } else if key == "right"@ {
        Some(45u32)
    } else if key == "home"@ {
        Some(46u32)
    } else if key == "end"@ {
        Some(47u32)
    } else if key == "pageup"@ {
        Some(48u32)
    } else if key == "pagedown"@ {
        Some(49u32)
    } else {
        None
    }
}

/// The guest key code of the key named `key`, if guests can see it.
pub fn key_code(key: &str) -> (r: Option<u32>)
    ensures
        r == key_code_spec(key@),
{
    let c = chars_of(key);
    let s = c.as_slice();
    if chars_eq_str(s, "a") {
        Some(0)
    } else if chars_eq_str(s, "b") {
        Some(1)
    } else if chars_eq_str(s, "c") {
        Some(2)
    } else if chars_eq_str(s, "d") {
        Some(3)
    } else if chars_eq_str(s, "e") {
        Some(4)
    } else if chars_eq_str(s, "f") {
        Some(5)
    } else if chars_eq_str(s, "g") {
        Some(6)
    } else if chars_eq_str(s, "h") {
        Some(7)
    } else if chars_eq_str(s, "i") {
        Some(8)
    } else if chars_eq_str(s, "j") {
        Some(9)
    } else if chars_eq_str(s, "k") {
        Some(10)
    } else if chars_eq_str(s, "l") {
        Some(11)
    } else if chars_eq_str(s, "m") {
        Some(12)
    } else if chars_eq_str(s, "n") {
        Some(13)
    } else if chars_eq_str(s, "o") {
        Some(14)
    } else if chars_eq_str(s, "p") {
        Some(15)
    } else if chars_eq_str(s, "q") {
        Some(16)
    } else if chars_eq_str(s, "r") {
        Some(17)
    } else if chars_eq_str(s, "s") {
        Some(18)
    } else if chars_eq_str(s, "t") {
        Some(19)
    } else if chars_eq_str(s, "u") {
        Some(20)
    } else if chars_eq_str(s, "v") {
        Some(21)
    } else if chars_eq_str(s, "w") {
        Some(22)
    } else if chars_eq_str(s, "x") {
        Some(23)
    } else if chars_eq_str(s, "y") {
        Some(24)
    } else if chars_eq_str(s, "z") {
        Some(25)
    } else if chars_eq_str(s, "0") {
        Some(26)
    } else if chars_eq_str(s, "1") {
        Some(27)
    } else if chars_eq_str(s, "2") {
        Some(28)
    } else if chars_eq_str(s, "3") {
        Some(29)
    } else if chars_eq_str(s, "4") {
        Some(30)
    } else if chars_eq_str(s, "5") {
        Some(31)
    } else if chars_eq_str(s, "6") {
        Some(32)
    } else if chars_eq_str(s, "7") {
        Some(33)
    } else if chars_eq_str(s, "8") {
        Some(34)
    } else if chars_eq_str(s, "9") {
        Some(35)
    } else if chars_eq_str(s, "enter") {
        Some(36)
    } else if chars_eq_str(s, "escape") {
        Some(37)
    } else if chars_eq_str(s, "tab") {
        Some(38)
    } else if chars_eq_str(s, "backspace") {
        Some(39)
    } else if chars_eq_str(s, "delete") {
        Some(40)
    } else if chars_eq_str(s, "space") {
        Some(41)
    } else if chars_eq_str(s, "up") {
        Some(42)
    } else if chars_eq_str(s, "down") {
        Some(43)
    } else if chars_eq_str(s, "left") {
        Some(44)
    } else if chars_eq_str(s, "right") {
        Some(45)
    } else if chars_eq_str(s, "home") {
        Some(46)
    } else if chars_eq_str(s, "end") {
        Some(47)
    } else if chars_eq_str(s, "pageup") {
        Some(48)
    } else if chars_eq_str(s, "pagedown") {
        Some(49)
    } else {
        None
    }
}

// ── Downloads and navigation ───────────────────────────────────────────────

/// Whether `url` points at a file to download rather than a guest module:
/// an `http`/`https` URL whose path ends in a file name with an extension
/// other than `wasm` (in any letter case).
pub open spec fn downloadable_spec(url: Seq<char>) -> bool {
    let t = trim(url);
    if t.len() == 0 {
        false
    } else {
        match whatwg_parse(t) {
            Ok(f) => {
                let path = f.4;
                if !(f.1 == "http"@ || f.1 == "https"@) {
                    false
                } else if has_suffix(path, "/"@) || path == "/"@ || path.len() == 0 {
                    false
                } else {
                    let seg = after_last(path, '/');
                    match last_index(seg, '.') {
                        Some(d) => lower(seg.skip(d + 1)) != "wasm"@,
                        None => false,
                    }
                }
            },
            Err(_) => false,
        }
    }
}

fn last_index_chars(s: &[char], c: char) -> (r: Option<usize>)
    ensures
        match r {
            Some(k) => last_index(s@, c) == Some(k as int) && k < s@.len(),
            None => last_index(s@, c) is None,
        },
{
    let mut k = s.len();
    proof {
        assert(s@.take(k as int) =~= s@);
    }
    while k > 0 && s[k - 1] != c
        invariant
            k <= s@.len(),
            last_index(s@, c) == last_index(s@.take(k as int), c),
        decreases k,
    {
        proof {
            assert(s@.take(k as int).drop_last() =~= s@.take(k - 1));
        }
        k = k - 1;
    }
    if k == 0 {
        None
    } else {
        proof {
            assert(s@.take(k as int).last() == c);
        }
        Some(k - 1)
    }
}

/// Returns `true` when `url` clearly points to a downloadable file rather
/// than a WASM module: the path has a file extension and it is not `wasm`.
/// Directories and extensionless paths are taken as module locations.
pub fn is_downloadable_url(url: &str) -> (r: bool)
    ensures
        r == downloadable_spec(url@),
{
    let all = chars_of(url);
    let t = trim_chars(all.as_slice());
    if t.len() == 0 {
        return false;
    }
    let ts = string_of(t.as_slice());
    match url_parse(ts.as_str()) {
        Ok(u) => {
            let sc = chars_of(u.scheme());
            if !(chars_eq_str(sc.as_slice(), "http") || chars_eq_str(sc.as_slice(), "https")) {
                return false;
            }
            let path = chars_of(u.path());
            let p = path.as_slice();
            if ends_with_str(p, "/") || chars_eq_str(p, "/") || p.len() == 0 {
                return false;
            }
            let seg = after_last_chars(p, '/');
            let seg_len = seg.len();
            let dot = last_index_chars(seg.as_slice(), '.');
            match dot {
                Some(d) => {
                    assert(d < seg@.len());
                    let ext = slice_chars(seg.as_slice(), d + 1, seg_len);
                    let low = lower_chars(ext.as_slice());
                    !chars_eq_str(low.as_slice(), "wasm")
                },
                None => false,
            }
        },
        Err(_) => false,
    }
}

/// What submitting the URL bar does.
pub enum NavAction {
    /// Nothing was typed.
    Nothing,
    /// Show a built-in page and record it in the history.
    Internal(InternalPage, String),
    /// Hand the URL to the download manager.
    Download(String),
    /// Fetch and run the guest module at the URL.
    Load(String),
}

/// Decides what opening `url` does: built-in pages first, then downloads,
/// else a module load.
pub fn open_action(url: &str) -> (r: NavAction)
    ensures
        match r {
            NavAction::Internal(p, u) => u@ == url@ && internal_page_spec(url@) == Some(p),
            NavAction::Download(u) => u@ == url@ && internal_page_spec(url@) is None
                && downloadable_spec(url@),
            NavAction::Load(u) => u@ == url@ && internal_page_spec(url@) is None
                && !downloadable_spec(url@),
            NavAction::Nothing => false,
        },
{
    if let Some(page) = try_internal_page(url) {
        return NavAction::Internal(page, url.to_owned());
    }
    if is_downloadable_url(url) {
        return NavAction::Download(url.to_owned());
    }
    NavAction::Load(url.to_owned())
}

/// What pressing enter in the URL bar does with `input`: nothing when it
/// is blank, else [`open_action`] on the trimmed text.
pub fn submit_action(input: &str) -> (r: NavAction)
    ensures
        trim(input@).len() == 0 <==> r is Nothing,
        match r {
            NavAction::Internal(p, u) => u@ == trim(input@) && internal_page_spec(u@) == Some(p),
            NavAction::Download(u) => u@ == trim(input@) && internal_page_spec(u@) is None
                && downloadable_spec(u@),
            NavAction::Load(u) => u@ == trim(input@) && internal_page_spec(u@) is None
                && !downloadable_spec(u@),
            NavAction::Nothing => true,
        },
{
    let c = chars_of(input);
    let t = trim_chars(c.as_slice());
    if t.len() == 0 {
        return NavAction::Nothing;
    }
    let s = string_of(t.as_slice());
    open_action(s.as_str())
}

/// The URL the bookmark button acts on: the trimmed URL bar text, unless
/// it is empty or just `https://`.
pub fn bookmark_target(input: &str) -> (r: Option<String>)
    ensures
        match r {
            Some(u) => u@ == trim(input@) && trim(input@).len() > 0 && trim(input@) != "https://"@,
            None => trim(input@).len() == 0 || trim(input@) == "https://"@,
        },
{
    let c = chars_of(input);
    let t = trim_chars(c.as_slice());
    if t.len() == 0 || chars_eq_str(t.as_slice(), "https://") {
        None
    } else {
        Some(string_of(t.as_slice()))
    }
}

// ── Tab strip ──────────────────────────────────────────────────────────────

/// The active tab index kept in range for `count` tabs.
pub open spec fn clamp_active_spec(count: nat, active: nat) -> nat {
    if count == 0 {
        0
    } else if active > count - 1 {
        (count - 1) as nat
    } else {
        active
    }
}

pub fn clamp_active_tab(count: usize, active: usize) -> (r: usize)
    ensures
        r == clamp_active_spec(count as nat, active as nat),
{
    if count == 0 {
        0
    } else if active > count - 1 {
        count - 1
    } else {
        active
    }
}

/// What closing tab `idx` does to a strip of `count` tabs with `active`
/// selected: which tab goes (none when it is the last tab or `idx` is
/// stale) and which index is active afterwards.
pub open spec fn close_tab_spec(count: nat, active: nat, idx: nat) -> (Option<nat>, nat) {
    if count <= 1 {
        (None, active)
    } else if idx >= count {
        (None, clamp_active_spec(count, active))
    } else {
        let n = (count - 1) as nat;
        let a = if active > idx {
            (active - 1) as nat
        } else if active == idx && active >= n {
            (n - 1) as nat
        } else {
            active
        };
        (Some(idx), clamp_active_spec(n, a))
    }
}

pub fn close_tab_plan(count: usize, active: usize, idx: usize) -> (r: (Option<usize>, usize))
    ensures
        r.0 == (match close_tab_spec(count as nat, active as nat, idx as nat).0 {
            Some(i) => Some(i as usize),
            None => None::<usize>,
        }),
        r.1 == close_tab_spec(count as nat, active as nat, idx as nat).1,
{
    if count <= 1 {
        return (None, active);
    }
    if idx >= count {
        return (None, clamp_active_tab(count, active));
    }
    let n = count - 1;
    let a = if active > idx {
        active - 1
    } else if active == idx && active >= n {
        n - 1
    } else {
        active
    };
    (Some(idx), clamp_active_tab(n, a))
}

/// Closing a tab never leaves the strip empty, and afterwards the active
/// index points at a tab.
pub proof fn law_close_keeps_active_in_range(count: nat, active: nat, idx: nat)
    requires
        count >= 1,
    ensures
        ({
            let (removed, a) = close_tab_spec(count, active, idx);
            let left = if removed is Some {
                (count - 1) as nat
            } else {
                count
            };
            &&& left >= 1
            &&& (removed is Some || count == 1 || a < left)
            &&& (count > 1 ==> a < left)
        }),
{
}

// ── A tab's page ───────────────────────────────────────────────────────────

/// The page side of a tab: its status, the internal page it shows, whether
/// a guest module runs, and the URL that enters history once its module
/// has started.
pub struct TabPage {
    pub status: PageStatus,
    pub internal_page: Option<InternalPage>,
    pub running: bool,
    pub pending_history_url: Option<String>,
}

/// The milliseconds one frame advances by: the time since the last frame,
/// at most 100.
pub fn frame_dt_ms(elapsed_ms: u128) -> (r: u32)
    ensures
        r == if elapsed_ms < 100 {
            elapsed_ms as int
        } else {
            100
        },
{
    if elapsed_ms < 100 {
        elapsed_ms as u32
    } else {
        100
    }
}

/// The message shown when a guest's `on_frame` fails with `err`.
pub open spec fn frame_failure_spec(err: Seq<char>) -> Seq<char> {
    if crate::loader::contains(err, "fuel"@) {
        "on_frame halted: fuel limit exceeded"@
    } else {
        "on_frame error: "@ + err
    }
}

pub fn frame_failure_message(err: &str) -> (r: String)
    ensures
        r@ == frame_failure_spec(err@),
{
    let e = chars_of(err);
    if crate::text::find_str(e.as_slice(), "fuel").is_some() {
        "on_frame halted: fuel limit exceeded".to_owned()
    } else {
        let mut out = chars_of("on_frame error: ");
        append_chars(&mut out, e.as_slice());
        proof {
            reveal_strlit("on_frame error: ");
        }
        string_of(out.as_slice())
    }
}

/// The address the URL bar takes from the running page, if it changes:
/// the page's current URL when there is one, it differs from what the bar
/// holds, and the page is running.
pub fn synced_url(status: &PageStatus, current: &str, input: &str) -> (r: Option<String>)
    ensures
        r is Some <==> (current@.len() > 0 && current@ != input@ && status is Running),
        r matches Some(u) ==> u@ == current@,
{
    let c = chars_of(current);
    let i = chars_of(input);
    let running = match status {
        PageStatus::Running(_) => true,
        _ => false,
    };
    if c.len() > 0 && !chars_eq(c.as_slice(), i.as_slice()) && running {
        Some(current.to_owned())
    } else {
        None
    }
}

impl TabPage {
    /// A fresh tab: idle, nothing shown, nothing running or pending.
    pub fn new() -> (r: Self)
        ensures
            r.status is Idle,
            r.internal_page is None,
            !r.running,
            r.pending_history_url is None,
    {
        TabPage { status: PageStatus::Idle, internal_page: None, running: false, pending_history_url: None }
    }

    /// An internal page opens at `url`: it is shown at once and any guest
    /// module stops. The pending history entry stays as it was.
    pub fn show_internal(&mut self, url: String, page: InternalPage)
        ensures
            final(self).status == PageStatus::Running(url),
            final(self).internal_page == Some(page),
            !final(self).running,
            final(self).pending_history_url == old(self).pending_history_url,
    {
        self.internal_page = Some(page);
        self.running = false;
        self.status = PageStatus::Running(url);
    }

    /// A module load of `url` was sent to the loader: the internal page
    /// goes away, and with `push_history` the URL waits to enter history.
    pub fn begin_load(&mut self, url: String, push_history: bool)
        ensures
            final(self).internal_page is None,
            final(self).status == old(self).status,
            final(self).running == old(self).running,
            final(self).pending_history_url == (if push_history {
                Some(url)
            } else {
                old(self).pending_history_url
            }),
    {
        self.internal_page = None;
        if push_history {
            self.pending_history_url = Some(url);
        }
    }

    /// The loader answered. On an error the tab shows it, the module stops
    /// and nothing enters history. Otherwise the module runs, the internal
    /// page goes away, and the pending URL (returned) enters history.
    pub fn load_finished(&mut self, error: Option<String>) -> (entered: Option<String>)
        ensures
            error matches Some(e) ==> {
                &&& final(self).status == PageStatus::Error(e)
                &&& !final(self).running
                &&& final(self).pending_history_url is None
                &&& entered is None
                &&& final(self).internal_page == old(self).internal_page
            },
            error is None ==> {
                &&& final(self).status == old(self).status
                &&& final(self).running
                &&& final(self).internal_page is None
                &&& final(self).pending_history_url is None
                &&& entered == old(self).pending_history_url
            },
    {
        match error {
            Some(e) => {
                self.status = PageStatus::Error(e);
                self.pending_history_url = None;
                self.running = false;
                None
            },
            None => {
                self.internal_page = None;
                self.running = true;
                self.pending_history_url.take()
            },
        }
    }

    /// The guest's `on_frame` failed with `err`: the tab shows the message
    /// (also returned, for the console) and the module stops.
    pub fn frame_failed(&mut self, err: &str) -> (msg: String)
        ensures
            msg@ == frame_failure_spec(err@),
            final(self).status == PageStatus::Error(msg),
            !final(self).running,
            final(self).internal_page == old(self).internal_page,
            final(self).pending_history_url == old(self).pending_history_url,
    {
        let msg = frame_failure_message(err);
        self.status = PageStatus::Error(msg.clone());
        self.running = false;
        msg
    }
}

} // verus!
