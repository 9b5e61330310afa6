//! Host-side file and folder picker state for Oxide guest modules.
//!
//! Guests receive opaque `u32` handles for picked files and folders; paths
//! never cross the sandbox boundary. The host keeps a map from handle to path
//! and answers reads and metadata queries with JSON that this module
//! composes.

use vstd::prelude::*;
use std::collections::HashMap;
use crate::handles::{advance_handle, next_handle};
use crate::text::{
    join,
    append_str, chars_eq_str, chars_of, lower, lower_chars, split_char, split_chars,
    string_of, trim, trim_chars, u64_to_dec, dec, views,
};

verus! {

broadcast use vstd::std_specs::hash::group_hash_axioms;

/// One picked file or folder, keyed by an opaque handle the guest holds.
pub struct PickedEntry {
    pub path: std::path::PathBuf,
    pub is_dir: bool,
}

/// All picker state for a tab.
pub struct FilePickerState {
    entries: HashMap<u32, PickedEntry>,
    next_id: u32,
}

impl FilePickerState {
    /// Handle to picked entry.
    pub closed spec fn handles(&self) -> Map<u32, PickedEntry> {
        self.entries@
    }

    /// The handle the next pick receives.
    pub closed spec fn next(&self) -> u32 {
        self.next_id
    }

    pub fn new() -> (r: Self)
        ensures
            r.handles() == Map::<u32, PickedEntry>::empty(),
            r.next() == 1,
    {
        FilePickerState { entries: HashMap::new(), next_id: 1 }
    }

    /// Registers a picked path and returns its handle.
    pub fn alloc_entry(&mut self, path: std::path::PathBuf, is_dir: bool) -> (id: u32)
        ensures
            id == old(self).next(),
            final(self).next() == next_handle(id),
            final(self).handles() == old(self).handles().insert(
                id,
                PickedEntry { path, is_dir },
            ),
    {
        let id = self.next_id;
        self.next_id = advance_handle(self.next_id);
        self.entries.insert(id, PickedEntry { path, is_dir });
        id
    }

    pub fn get(&self, handle: u32) -> (r: Option<&PickedEntry>)
        ensures
            match r {
                Some(e) => self.handles().contains_key(handle) && *e == self.handles()[handle],
                None => !self.handles().contains_key(handle),
            },
    {
        self.entries.get(&handle)
    }
}

impl Default for FilePickerState {
    fn default() -> (r: Self)
        ensures
            r.handles() == Map::<u32, PickedEntry>::empty(),
            r.next() == 1,
    {
        Self::new()
    }
}

/// While the counter has not wrapped, every handle given out is fresh:
/// if all known handles are below the counter, the new one is unknown and
/// the property holds again afterwards.
pub proof fn law_alloc_fresh(handles: Map<u32, PickedEntry>, next: u32, e: PickedEntry)
    requires
        1 <= next < u32::MAX,
        forall|k: u32| handles.contains_key(k) ==> 1 <= k < next,
    ensures
        !handles.contains_key(next),
        forall|k: u32| #[trigger]
            handles.insert(next, e).contains_key(k) ==> 1 <= k < next_handle(next),
{
}

// ── MIME types ─────────────────────────────────────────────────────────────

pub open spec fn mime_spec(ext: Seq<char>) -> Seq<char> {
    let e = lower(ext);
    if e == "png"@ {
        "image/png"@
    } else if e == "jpg"@ || e == "jpeg"@ {
        "image/jpeg"@
    } else if e == "gif"@ {
        "image/gif"@
    } else if e == "webp"@ {
        "image/webp"@
    } else if e == "bmp"@ {
        "image/bmp"@
    } else if e == "svg"@ {
        "image/svg+xml"@
    } else if e == "ico"@ {
        "image/x-icon"@
    } else if e == "mp3"@ {
        "audio/mpeg"@
    } else if e == "wav"@ {
        "audio/wav"@
    } else if e == "ogg"@ {
        "audio/ogg"@
    } else if e == "flac"@ {
        "audio/flac"@
    } else if e == "m4a"@ {
        "audio/mp4"@
    } else if e == "mp4"@ {
        "video/mp4"@
    } else if e == "webm"@ {
        "video/webm"@
    } else if e == "mkv"@ {
        "video/x-matroska"@
    } else if e == "mov"@ {
        "video/quicktime"@
    } else if e == "txt"@ {
        "text/plain"@
    } else if e == "md"@ {
        "text/markdown"@
    } else if e == "html"@ || e == "htm"@ {
        "text/html"@
    } else if e == "css"@ {
        "text/css"@
    } else if e == "js"@ {
        "text/javascript"@
    } else if e == "json"@ {
        "application/json"@
    } else if e == "xml"@ {
        "application/xml"@
    } else if e == "pdf"@ {
        "application/pdf"@
    } else if e == "zip"@ {
        "application/zip"@
    } else if e == "wasm"@ {
        "application/wasm"@
    } else {
        "application/octet-stream"@
    }
}

/// The MIME type of a file extension (case-insensitive).
pub fn mime_for_extension(ext: &str) -> (r: &'static str)
    ensures
        r@ == mime_spec(ext@),
{
    let c = chars_of(ext);
    let e = lower_chars(c.as_slice());
    let e = e.as_slice();
    if chars_eq_str(e, "png") {
        "image/png"
    } else if chars_eq_str(e, "jpg") || chars_eq_str(e, "jpeg") {
        "image/jpeg"
    } else if chars_eq_str(e, "gif") {
        "image/gif"
    } else if chars_eq_str(e, "webp") {
        "image/webp"
    } else if chars_eq_str(e, "bmp") {
        "image/bmp"
    } else if chars_eq_str(e, "svg") {
        "image/svg+xml"
    } else if chars_eq_str(e, "ico") {
        "image/x-icon"
    } else if chars_eq_str(e, "mp3") {
        "audio/mpeg"
    } else if chars_eq_str(e, "wav") {
        "audio/wav"
    } else if chars_eq_str(e, "ogg") {
        "audio/ogg"
    } else if chars_eq_str(e, "flac") {
        "audio/flac"
    } else if chars_eq_str(e, "m4a") {
        "audio/mp4"
    } else if chars_eq_str(e, "mp4") {
        "video/mp4"
    } else if chars_eq_str(e, "webm") {
        "video/webm"
    } else if chars_eq_str(e, "mkv") {
        "video/x-matroska"
    } else if chars_eq_str(e, "mov") {
        "video/quicktime"
    } else if chars_eq_str(e, "txt") {
        "text/plain"
    } else if chars_eq_str(e, "md") {
        "text/markdown"
    } else if chars_eq_str(e, "html") || chars_eq_str(e, "htm") {
        "text/html"
    } else if chars_eq_str(e, "css") {
        "text/css"
    } else if chars_eq_str(e, "js") {
        "text/javascript"
    } else if chars_eq_str(e, "json") {
        "application/json"
    } else if chars_eq_str(e, "xml") {
        "application/xml"
    } else if chars_eq_str(e, "pdf") {
        "application/pdf"
    } else if chars_eq_str(e, "zip") {
        "application/zip"
    } else if chars_eq_str(e, "wasm") {
        "application/wasm"
    } else {
        "application/octet-stream"
    }
}

// ── JSON ───────────────────────────────────────────────────────────────────

pub open spec fn hex_lower(n: u32) -> char {
    if n < 10 {
        ((n + 48) as u32) as char
    } else {
        ((n + 87) as u32) as char
    }
}

/// The JSON string escape of one character: quote, backslash, newline,
/// carriage return and tab by their short forms, other control characters
/// as `\u00XX`.
pub open spec fn json_escape_char(c: char) -> Seq<char> {
    if c == '"' {
        seq!['\\', '"']
    } else if c == '\\' {
        seq!['\\', '\\']
    } else if c == '\n' {
        seq!['\\', 'n']
    } else if c == '\r' {
        seq!['\\', 'r']
    } else if c == '\t' {
        seq!['\\', 't']
    } else if (c as u32) < 0x20 {
        seq!['\\', 'u', '0', '0', hex_lower((c as u32) / 16), hex_lower((c as u32) % 16)]
    } else {
        seq![c]
    }
}

pub open spec fn json_escape_body(s: Seq<char>) -> Seq<char>
    decreases s.len(),
{
    if s.len() == 0 {
        s
    } else {
        json_escape_body(s.drop_last()) + json_escape_char(s.last())
    }
}

/// `s` as a JSON string literal.
pub open spec fn json_quoted(s: Seq<char>) -> Seq<char> {
    seq!['"'] + json_escape_body(s) + seq!['"']
}

fn hex_digit_lower(n: u32) -> (c: char)
    requires
        n < 16,
    ensures
        c == hex_lower(n),
{
    if n < 10 {
        crate::text::char_from_ascii((n + 48) as u8)
    } else {
        crate::text::char_from_ascii((n + 87) as u8)
    }
}

/// Appends the JSON escape of the characters of `s`.
pub fn push_json_escaped(out: &mut Vec<char>, s: &[char])
    ensures
        final(out)@ == old(out)@ + json_escape_body(s@),
{
    let mut i: usize = 0;
    proof {
        assert(s@.take(0) =~= Seq::<char>::empty());
        assert(old(out)@ + json_escape_body(s@.take(0)) =~= old(out)@);
    }
    while i < s.len()
        invariant
            i <= s@.len(),
            out@ == old(out)@ + json_escape_body(s@.take(i as int)),
        decreases s@.len() - i,
    {
        let c = s[i];
        let ghost before = out@;
        proof {
            assert(s@.take(i + 1).drop_last() =~= s@.take(i as int));
            assert(s@.take(i + 1).last() == c);
        }
        if c == '"' {
            out.push('\\');
            out.push('"');
        } else if c == '\\' {
            out.push('\\');
            out.push('\\');
        } else if c == '\n' {
            out.push('\\');
            out.push('n');
        } else if c == '\r' {
            out.push('\\');
            out.push('r');
        } else if c == '\t' {
            out.push('\\');
            out.push('t');
        } else if (c as u32) < 0x20 {
            out.push('\\');
            out.push('u');
            out.push('0');
            out.push('0');
            out.push(hex_digit_lower((c as u32) / 16));
            out.push(hex_digit_lower((c as u32) % 16));
        } else {
            out.push(c);
        }
        proof {
            assert(out@ =~= before + json_escape_char(c));
        }
        i = i + 1;
    }
    proof {
        assert(s@.take(i as int) =~= s@);
    }
}

/// Appends `s` as a JSON string literal.
pub fn json_escape(s: &str, out: &mut String)
    ensures
        final(out)@ == old(out)@ + json_quoted(s@),
{
    let mut buf = chars_of(out.as_str());
    buf.push('"');
    let c = chars_of(s);
    push_json_escaped(&mut buf, c.as_slice());
    buf.push('"');
    proof {
        assert(buf@ =~= old(out)@ + json_quoted(s@));
    }
    *out = string_of(buf.as_slice());
}

/// `,"size":N,"is_dir":B,"handle":H}` and the rest of one folder entry.
pub open spec fn bool_text(b: bool) -> Seq<char> {
    if b {
        "true"@
    } else {
        "false"@
    }
}

/// One entry of a folder listing:
/// `{"name":…,"size":…,"is_dir":…,"handle":…}`.
pub open spec fn folder_entry_spec(name: Seq<char>, size: u64, is_dir: bool, id: u32) -> Seq<
    char,
> {
    "{\"name\":"@ + json_quoted(name) + ",\"size\":"@ + dec(size as nat) + ",\"is_dir\":"@
        + bool_text(is_dir) + ",\"handle\":"@ + dec(id as nat) + "}"@
}

/// The handle given to the `k`-th of several entries registered in a row
/// from counter value `start`.
pub open spec fn nth_handle(start: u32, k: nat) -> u32
    decreases k,
{
    if k == 0 {
        start
    } else {
        next_handle(nth_handle(start, (k - 1) as nat))
    }
}

/// A folder listing: the entries, each with its handle, joined by commas
/// inside brackets.
pub open spec fn folder_listing_spec(es: Seq<(Seq<char>, u64, bool)>, start: u32) -> Seq<char> {
    "["@ + join(
        Seq::new(
            es.len(),
            |k: int| folder_entry_spec(es[k].0, es[k].1, es[k].2, nth_handle(start, k as nat)),
        ),
        ","@,
    ) + "]"@
}

fn push_bool(out: &mut Vec<char>, b: bool)
    ensures
        final(out)@ == old(out)@ + bool_text(b),
{
    if b {
        append_str(out, "true");
    } else {
        append_str(out, "false");
    }
}

/// Appends one folder entry.
pub fn push_folder_entry(out: &mut Vec<char>, name: &str, size: u64, is_dir: bool, id: u32)
    ensures
        final(out)@ == old(out)@ + folder_entry_spec(name@, size, is_dir, id),
{
    append_str(out, "{\"name\":");
    out.push('"');
    let c = chars_of(name);
    push_json_escaped(out, c.as_slice());
    out.push('"');
    append_str(out, ",\"size\":");
    let s = u64_to_dec(size);
    crate::text::append_chars(out, s.as_slice());
    append_str(out, ",\"is_dir\":");
    push_bool(out, is_dir);
    append_str(out, ",\"handle\":");
    let h = u64_to_dec(id as u64);
    crate::text::append_chars(out, h.as_slice());
    append_str(out, "}");
    proof {
        assert(final(out)@ =~= old(out)@ + folder_entry_spec(name@, size, is_dir, id));
    }
}

/// The metadata document of a picked entry:
/// `{"name":…,"size":…,"mime":…,"modified_ms":…,"is_dir":…}`.
pub open spec fn metadata_spec(name: Seq<char>, size: u64, mime: Seq<char>, modified_ms: u64, is_dir: bool) -> Seq<char> {
    "{\"name\":"@ + json_quoted(name) + ",\"size\":"@ + dec(size as nat) + ",\"mime\":"@
        + json_quoted(mime) + ",\"modified_ms\":"@ + dec(modified_ms as nat) + ",\"is_dir\":"@
        + bool_text(is_dir) + "}"@
}

pub fn metadata_json(name: &str, size: u64, mime: &str, modified_ms: u64, is_dir: bool) -> (r:
    String)
    ensures
        r@ == metadata_spec(name@, size, mime@, modified_ms, is_dir),
{
    let mut out: Vec<char> = Vec::new();
    append_str(&mut out, "{\"name\":");
    out.push('"');
    let n = chars_of(name);
    push_json_escaped(&mut out, n.as_slice());
    out.push('"');
    append_str(&mut out, ",\"size\":");
    let s = u64_to_dec(size);
    crate::text::append_chars(&mut out, s.as_slice());
    append_str(&mut out, ",\"mime\":");
    out.push('"');
    let m = chars_of(mime);
    push_json_escaped(&mut out, m.as_slice());
    out.push('"');
    append_str(&mut out, ",\"modified_ms\":");
    let t = u64_to_dec(modified_ms);
    crate::text::append_chars(&mut out, t.as_slice());
    append_str(&mut out, ",\"is_dir\":");
    push_bool(&mut out, is_dir);
    append_str(&mut out, "}");
    proof {
        assert(out@ =~= metadata_spec(name@, size, mime@, modified_ms, is_dir));
    }
    string_of(out.as_slice())
}

// ── Extension filters ──────────────────────────────────────────────────────

/// One comma-separated filter item: trimmed, leading dots removed.
pub open spec fn strip_dots(s: Seq<char>) -> Seq<char>
    decreases s.len(),
{
    if s.len() > 0 && s[0] == '.' {
        strip_dots(s.drop_first())
    } else {
        s
    }
}

/// The extensions named by a comma-separated filter list; empty items are
/// dropped.
pub open spec fn filters_spec(items: Seq<Seq<char>>) -> Seq<Seq<char>>
    decreases items.len(),
{
    if items.len() == 0 {
        Seq::empty()
    } else {
        let e = strip_dots(trim(items.last()));
        if e.len() > 0 {
            filters_spec(items.drop_last()).push(e)
        } else {
            filters_spec(items.drop_last())
        }
    }
}

fn strip_dots_chars(s: &[char]) -> (out: Vec<char>)
    ensures
        out@ == strip_dots(s@),
{
    let mut i: usize = 0;
    proof {
        assert(s@.skip(0) =~= s@);
    }
    while i < s.len() && s[i] == '.'
        invariant
            i <= s@.len(),
            strip_dots(s@) == strip_dots(s@.skip(i as int)),
        decreases s@.len() - i,
    {
        proof {
            assert(s@.skip(i as int).drop_first() =~= s@.skip(i + 1));
        }
        i = i + 1;
    }
    crate::text::slice_chars(s, i, s.len())
}

/// Parse the guest's `"png,jpg,.gif"` filter list into extensions.
pub fn parse_extension_filters(filters: &str) -> (r: Vec<String>)
    ensures
        r@.map_values(|s: String| s@) == filters_spec(split_char(filters@, ',')),
{
    let c = chars_of(filters);
    let items = split_chars(c.as_slice(), ',');
    let ghost iv = views(items@);
    let mut out: Vec<String> = Vec::new();
    let mut i: usize = 0;
    proof {
        assert(iv.take(0) =~= Seq::<Seq<char>>::empty());
        assert(out@.map_values(|s: String| s@) =~= Seq::<Seq<char>>::empty());
    }
    while i < items.len()
        invariant
            i <= items@.len(),
            iv == views(items@),
            out@.map_values(|s: String| s@) == filters_spec(iv.take(i as int)),
        decreases items@.len() - i,
    {
        proof {
            assert(iv.take(i + 1).drop_last() =~= iv.take(i as int));
            assert(iv.take(i + 1).last() == items@[i as int]@);
        }
        let t = trim_chars(items[i].as_slice());
        let e = strip_dots_chars(t.as_slice());
        if e.len() > 0 {
            let ghost before = out@.map_values(|s: String| s@);
            let s = string_of(e.as_slice());
            out.push(s);
            proof {
                assert(out@.map_values(|s: String| s@) =~= before.push(e@));
            }
        }
        i = i + 1;
    }
    proof {
        assert(iv.take(i as int) =~= iv);
    }
    out
}

/// A child of a picked folder as the embedder found it.
pub struct FolderChild {
    pub path: std::path::PathBuf,
    pub name: String,
    pub is_dir: bool,
    pub size: u64,
}

pub open spec fn child_view(c: FolderChild) -> (Seq<char>, u64, bool) {
    (c.name@, c.size, c.is_dir)
}

/// The entries after the children `cs` of a folder were registered in
/// order from handle `start`: child `k` under `nth_handle(start, k)` (a
/// later child wins should the counter wrap onto an earlier handle).
pub open spec fn registered(m: Map<u32, PickedEntry>, start: u32, cs: Seq<FolderChild>) -> Map<
    u32,
    PickedEntry,
>
    decreases cs.len(),
{
    if cs.len() == 0 {
        m
    } else {
        registered(m, start, cs.drop_last()).insert(
            nth_handle(start, (cs.len() - 1) as nat),
            PickedEntry { path: cs.last().path, is_dir: cs.last().is_dir },
        )
    }
}

impl FilePickerState {
    /// Registers every child of a picked folder, in order, and returns the
    /// JSON listing that names each with its new handle.
    pub fn list_children(&mut self, children: Vec<FolderChild>) -> (r: String)
        ensures
            r@ == folder_listing_spec(
                children@.map_values(|c: FolderChild| child_view(c)),
                old(self).next(),
            ),
            final(self).next() == nth_handle(old(self).next(), children@.len()),
            final(self).handles() == registered(old(self).handles(), old(self).next(), children@),
    {
        let ghost orig = children@;
        let ghost m0 = self.entries@;
        let ghost cv = children@.map_values(|c: FolderChild| child_view(c));
        let ghost start = self.next_id;
        let ghost entries = Seq::new(
            cv.len(),
            |k: int| folder_entry_spec(cv[k].0, cv[k].1, cv[k].2, nth_handle(start, k as nat)),
        );
        let total = children.len();
        let mut out: Vec<char> = Vec::new();
        out.push('[');
        let mut rest = children;
        let mut i: usize = 0;
        proof {
            assert(entries.take(0) =~= Seq::<Seq<char>>::empty());
            assert(out@ =~= "["@ + join(entries.take(0), ","@)) by {
                reveal_strlit("[");
            }
        }
        while rest.len() > 0
            invariant
                i + rest@.len() == total,
                total == cv.len(),
                rest@.map_values(|c: FolderChild| child_view(c)) == cv.skip(i as int),
                entries == Seq::new(
                    cv.len(),
                    |k: int| folder_entry_spec(cv[k].0, cv[k].1, cv[k].2, nth_handle(start, k as nat)),
                ),
                out@ == "["@ + join(entries.take(i as int), ","@),
                self.next_id == nth_handle(start, i as nat),
                rest@ == orig.skip(i as int),
                orig.len() == total,
                self.entries@ == registered(m0, start, orig.take(i as int)),
            decreases rest@.len(),
        {
            let ghost rv = rest@;
            let c = rest.remove(0);
            proof {
                assert(rest@ =~= rv.skip(1));
                assert(rest@ =~= orig.skip(i + 1));
                assert(orig[i as int] == c);
                assert(orig.take(i + 1).drop_last() =~= orig.take(i as int));
                assert(rv[0] == c);
                assert(cv.skip(i as int)[0] == child_view(c));
                assert(rest@.map_values(|c: FolderChild| child_view(c)) =~= rv.map_values(
                    |c: FolderChild| child_view(c),
                ).skip(1));
                assert(cv.skip(i as int).skip(1) =~= cv.skip(i + 1));
                assert(rest@.map_values(|c: FolderChild| child_view(c)) =~= cv.skip(i + 1));
                assert(entries.take(i + 1).drop_last() =~= entries.take(i as int));
            }
            let ghost before = out@;
            if i > 0 {
                out.push(',');
            }
            let FolderChild { path, name, is_dir, size } = c;
            let id = self.alloc_entry(path, is_dir);
            push_folder_entry(&mut out, name.as_str(), size, is_dir, id);
            proof {
                assert(entries[i as int] == folder_entry_spec(name@, size, is_dir, id));
                assert(entries.take(i + 1).last() == entries[i as int]);
                if i == 0 {
                    assert(entries.take(1) =~= seq![entries[0]]);
                    assert(out@ =~= "["@ + join(entries.take(1), ","@));
                } else {
                    reveal_strlit(",");
                    assert(out@ =~= "["@ + join(entries.take(i + 1), ","@));
                }
            }
            i = i + 1;
        }
        out.push(']');
        proof {
            assert(orig.take(i as int) =~= orig);
            assert(entries.take(i as int) =~= entries);
            assert(out@ =~= "["@ + join(entries, ","@) + seq![']']);
            reveal_strlit("]");
        }
        string_of(out.as_slice())
    }
}

/// The handles written for a multi-file pick: as many as fit `cap / 4`
/// slots, each as 4 little-endian bytes.
pub fn handle_bytes(ids: &[u32], cap: u32) -> (r: Vec<u8>)
    ensures
        r@.len() == 4 * (if ids@.len() < cap / 4 {
            ids@.len()
        } else {
            (cap / 4) as nat
        }),
        forall|k: int|
            0 <= k < r@.len() / 4 ==> r@.subrange(4 * k, 4 * k + 4)
                == vstd::bytes::spec_u32_to_le_bytes(ids@[k]),
{
    let max = (cap / 4) as usize;
    let mut out: Vec<u8> = Vec::new();
    let mut i: usize = 0;
    while i < ids.len() && i < max
        invariant
            i <= ids@.len(),
            i <= max,
            max == cap / 4,
            out@.len() == 4 * i,
            forall|k: int|
                0 <= k < i ==> out@.subrange(4 * k, 4 * k + 4)
                    == vstd::bytes::spec_u32_to_le_bytes(ids@[k]),
        decreases ids@.len() - i,
    {
        let b = vstd::bytes::u32_to_le_bytes(ids[i]);
        let ghost before = out@;
        crate::text::append_bytes(&mut out, b.as_slice());
        proof {
            assert forall|k: int| 0 <= k < i + 1 implies out@.subrange(4 * k, 4 * k + 4)
                == vstd::bytes::spec_u32_to_le_bytes(ids@[k]) by {
                if k < i {
                    assert(out@.subrange(4 * k, 4 * k + 4) =~= before.subrange(4 * k, 4 * k + 4));
                } else {
                    assert(out@.subrange(4 * k, 4 * k + 4) =~= b@);
                }
            }
        }
        i = i + 1;
    }
    out
}

} // verus!
