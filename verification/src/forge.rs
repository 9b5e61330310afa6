//! Oxide Forge — the text processing and session rules of the guest app
//! generator.
//!
//! A Forge session turns a natural-language prompt into a guest `.wasm`
//! module: a model reply is streamed in as server-sent events, the Rust
//! source is cut out of the reply, written into a scaffolded project and
//! built. This module holds the parts of that pipeline that decide and
//! compute: SSE framing, fenced-code extraction, Agent Skill frontmatter,
//! prompt composition, slugs, phase encoding and the session state rules.

use vstd::prelude::*;
use vstd::string::StringSliceAdditionalSpecFns;
use vstd::utf8::{
    decode_utf8, encode_utf8, encode_utf8_decode_utf8, encode_utf8_valid_utf8, is_char_boundary,
    is_char_boundary_start_end_of_seq, valid_utf8,
};
use crate::json::{
    field, find_member, get_field, json_shallow, keys_distinct, lemma_member_distinct, member,
    object_members,
    parse_json_shallow, scalar_member_keys, scalar_view, shallow_view, write_json_object,
    JsonScalar, JsonShallow, ShallowView,
};
use crate::clock::{now_ms, now_secs};
use crate::download::{doc_extension, doc_stem, extension_text, file_stem_text, plain_file_name};
use crate::text::{
    append_chars, append_str, chars_eq_str, chars_of, dec, dec_padded, find, find_chars,
    find_chars_from, find_from, find_str, has_prefix, lemma_find_first, lemma_find_from_props, lines,
    lines_of,
    match_at, slice_chars, starts_with_str, string_from_utf8, string_of, trim, trim_chars,
    trim_end, trim_end_chars, trim_start, trim_start_chars, u64_to_dec, u64_to_dec_padded, views,
    lower, lower_chars,
};

verus! {

/// How many times Forge will auto-retry on `cargo build` failure before
/// giving up and surfacing the error to the user.
pub const MAX_AUTO_RETRIES: u32 = 3;

/// Name of the Agent Skill powering Forge generations.
pub const FORGE_SKILL_NAME: &'static str = "oxide-wasm-app";

// ── Phases ─────────────────────────────────────────────────────────────────

/// Coarse-grained state machine for a single Forge session, surfaced to the UI.
#[derive(Clone, Copy, Debug, PartialEq, Eq, Structural)]
pub enum ForgePhase {
    /// Session has been created but streaming has not started.
    Idle,
    /// The model is currently streaming tokens into `code`.
    Streaming,
    /// Streaming finished cleanly; `code` holds the complete source file.
    StreamComplete,
    /// `cargo build` is running in the background.
    Building,
    /// Build succeeded; `artifact_path` points at the `.wasm`.
    BuildOk,
    /// Streaming or build failed; inspect `error` / `build_log`.
    Error,
}

pub open spec fn phase_name(p: ForgePhase) -> Seq<char> {
    match p {
        ForgePhase::Idle => "idle"@,
        ForgePhase::Streaming => "streaming"@,
        ForgePhase::StreamComplete => "stream_complete"@,
        ForgePhase::Building => "building"@,
        ForgePhase::BuildOk => "build_ok"@,
        ForgePhase::Error => "error"@,
    }
}

/// The phase a stored name is loaded as: finished phases keep their name,
/// everything else (an interrupted stream or build, or an unknown name)
/// resumes as a completed stream.
pub open spec fn phase_from_name(s: Seq<char>) -> ForgePhase {
    if s == "build_ok"@ {
        ForgePhase::BuildOk
    } else if s == "error"@ {
        ForgePhase::Error
    } else {
        ForgePhase::StreamComplete
    }
}

/// The name under which a phase is persisted.
pub fn phase_to_str(phase: ForgePhase) -> (r: &'static str)
    ensures
        r@ == phase_name(phase),
{
    match phase {
        ForgePhase::Idle => "idle",
        ForgePhase::Streaming => "streaming",
        ForgePhase::StreamComplete => "stream_complete",
        ForgePhase::Building => "building",
        ForgePhase::BuildOk => "build_ok",
        ForgePhase::Error => "error",
    }
}

/// The phase a persisted name is loaded as.
pub fn str_to_phase(s: &str) -> (r: ForgePhase)
    ensures
        r == phase_from_name(s@),
{
    let c = chars_of(s);
    if chars_eq_str(c.as_slice(), "build_ok") {
        ForgePhase::BuildOk
    } else if chars_eq_str(c.as_slice(), "error") {
        ForgePhase::Error
    } else {
        ForgePhase::StreamComplete
    }
}

/// Loading a persisted session never resumes it in a busy phase: whatever
/// name was stored, the loaded phase allows a build.
pub proof fn law_loaded_phase_is_buildable(s: Seq<char>)
    ensures
        !phase_is_busy(phase_from_name(s)),
        phase_allows_build(phase_from_name(s)),
{
}

/// Persisting a finished phase and loading it back gives the same phase.
pub proof fn law_phase_name_roundtrip(p: ForgePhase)
    requires
        p == ForgePhase::BuildOk || p == ForgePhase::Error || p == ForgePhase::StreamComplete,
    ensures
        phase_from_name(phase_name(p)) == p,
{
    reveal_strlit("build_ok");
    reveal_strlit("error");
    reveal_strlit("stream_complete");
    assert("stream_complete"@.len() == 15);
    assert("build_ok"@.len() == 8);
    assert("error"@.len() == 5);
    assert("error"@[0] != "build_ok"@[0]);
}

/// A session that is streaming or building cannot be revised or deleted.
pub open spec fn phase_is_busy(p: ForgePhase) -> bool {
    p == ForgePhase::Streaming || p == ForgePhase::Building
}

/// A manual build is accepted after streaming completed, after an error and
/// after an earlier successful build.
pub open spec fn phase_allows_build(p: ForgePhase) -> bool {
    p == ForgePhase::StreamComplete || p == ForgePhase::Error || p == ForgePhase::BuildOk
}

pub fn is_busy(p: ForgePhase) -> (r: bool)
    ensures
        r == phase_is_busy(p),
{
    matches!(p, ForgePhase::Streaming | ForgePhase::Building)
}

pub fn can_build(p: ForgePhase) -> (r: bool)
    ensures
        r == phase_allows_build(p),
{
    matches!(p, ForgePhase::StreamComplete | ForgePhase::Error | ForgePhase::BuildOk)
}

/// After a build, another generation is attempted exactly when the build
/// failed, auto-fix is on and the retry budget is not spent.
pub fn should_auto_retry(phase: ForgePhase, auto_fix: bool, retries_used: u32) -> (r: bool)
    ensures
        r == (phase == ForgePhase::Error && auto_fix && retries_used < MAX_AUTO_RETRIES),
{
    phase == ForgePhase::Error && auto_fix && retries_used < MAX_AUTO_RETRIES
}

/// The automatic retries of one generation never exceed the budget: from a
/// count within budget, retrying keeps it within budget.
pub proof fn law_retries_bounded(retries_used: u32, auto_fix: bool, phase: ForgePhase)
    requires
        retries_used <= MAX_AUTO_RETRIES,
    ensures
        (phase == ForgePhase::Error && auto_fix && retries_used < MAX_AUTO_RETRIES) ==> retries_used
            + 1 <= MAX_AUTO_RETRIES,
{
}

// ── Sessions ───────────────────────────────────────────────────────────────

/// Snapshot of a session for the UI to render.
#[derive(Clone, Debug)]
pub struct ForgeSnapshot {
    pub id: u64,
    pub slug: String,
    pub prompt: String,
    pub code: String,
    pub phase: ForgePhase,
    pub build_log: String,
    pub artifact_path: Option<std::path::PathBuf>,
    pub error: Option<String>,
    /// Monotonically increases each time the session is mutated, so the UI
    /// can skip re-rendering identical snapshots.
    pub revision: u64,
    /// Number of auto-fix retries already consumed (0..=MAX_AUTO_RETRIES).
    pub retries_used: u32,
    /// Maximum number of auto-fix retries for this session.
    pub max_retries: u32,
    /// Whether auto-retry on build failure is enabled for this session.
    pub auto_fix: bool,
    /// Absolute project directory containing Cargo.toml, src/lib.rs, metadata,
    /// and the exported wasm artifact.
    pub project_dir: std::path::PathBuf,
    /// Last mutation timestamp, milliseconds since Unix epoch.
    pub updated_at_ms: u64,
}

#[derive(Clone, Debug)]
pub struct ForgeCreationSummary {
    pub id: u64,
    pub slug: String,
    pub prompt: String,
    pub phase: ForgePhase,
    pub project_dir: std::path::PathBuf,
    pub artifact_path: Option<std::path::PathBuf>,
    pub updated_at_ms: u64,
}

/// The state of one Forge creation.
pub struct Session {
    pub id: u64,
    pub slug: String,
    pub prompt: String,
    pub code: String,
    pub phase: ForgePhase,
    pub build_log: String,
    pub artifact_path: Option<std::path::PathBuf>,
    pub error: Option<String>,
    pub revision: u64,
    /// Absolute path to the per-creation Cargo project.
    pub project_dir: std::path::PathBuf,
    pub retries_used: u32,
    pub auto_fix: bool,
    pub updated_at_ms: u64,
}

/// std `PathBuf::clone`: the copy is the same path.
pub assume_specification[ <std::path::PathBuf as Clone>::clone ](p: &std::path::PathBuf) -> (r:
    std::path::PathBuf)
    ensures
        r == *p,
;

fn clone_path(p: &std::path::PathBuf) -> (r: std::path::PathBuf)
    ensures
        r == *p,
{
    p.clone()
}

fn clone_opt_path(p: &Option<std::path::PathBuf>) -> (r: Option<std::path::PathBuf>)
    ensures
        r == *p,
{
    match p {
        Some(x) => Some(clone_path(x)),
        None => None,
    }
}

fn clone_opt_string(s: &Option<String>) -> (r: Option<String>)
    ensures
        r == *s,
{
    match s {
        Some(x) => Some(x.clone()),
        None => None,
    }
}

impl Session {
    pub fn snapshot(&self) -> (r: ForgeSnapshot)
        ensures
            r.id == self.id,
            r.slug == self.slug,
            r.prompt == self.prompt,
            r.code == self.code,
            r.phase == self.phase,
            r.build_log == self.build_log,
            r.artifact_path == self.artifact_path,
            r.error == self.error,
            r.revision == self.revision,
            r.retries_used == self.retries_used,
            r.max_retries == MAX_AUTO_RETRIES,
            r.auto_fix == self.auto_fix,
            r.project_dir == self.project_dir,
            r.updated_at_ms == self.updated_at_ms,
    {
        ForgeSnapshot {
            id: self.id,
            slug: self.slug.clone(),
            prompt: self.prompt.clone(),
            code: self.code.clone(),
            phase: self.phase,
            build_log: self.build_log.clone(),
            artifact_path: clone_opt_path(&self.artifact_path),
            error: clone_opt_string(&self.error),
            revision: self.revision,
            retries_used: self.retries_used,
            max_retries: MAX_AUTO_RETRIES,
            auto_fix: self.auto_fix,
            project_dir: clone_path(&self.project_dir),
            updated_at_ms: self.updated_at_ms,
        }
    }

    /// Records a mutation: the revision advances (wrapping) and the update
    /// time is taken from the clock.
    pub fn bump(&mut self)
        ensures
            final(self).revision == (if old(self).revision == u64::MAX {
                0
            } else {
                (old(self).revision + 1) as u64
            }),
            final(self).id == old(self).id,
            final(self).slug == old(self).slug,
            final(self).prompt == old(self).prompt,
            final(self).code == old(self).code,
            final(self).phase == old(self).phase,
            final(self).build_log == old(self).build_log,
            final(self).artifact_path == old(self).artifact_path,
            final(self).error == old(self).error,
            final(self).project_dir == old(self).project_dir,
            final(self).retries_used == old(self).retries_used,
            final(self).auto_fix == old(self).auto_fix,
    {
        self.revision = self.revision.wrapping_add(1);
        self.updated_at_ms = now_ms();
    }

    pub fn summary(&self) -> (r: ForgeCreationSummary)
        ensures
            r.id == self.id,
            r.slug == self.slug,
            r.prompt == self.prompt,
            r.phase == self.phase,
            r.project_dir == self.project_dir,
            r.artifact_path == self.artifact_path,
            r.updated_at_ms == self.updated_at_ms,
    {
        ForgeCreationSummary {
            id: self.id,
            slug: self.slug.clone(),
            prompt: self.prompt.clone(),
            phase: self.phase,
            project_dir: clone_path(&self.project_dir),
            artifact_path: clone_opt_path(&self.artifact_path),
            updated_at_ms: self.updated_at_ms,
        }
    }
}

// ── Slugs and TOML ─────────────────────────────────────────────────────────

/// `s{secs:010}-{id:04}`.
pub open spec fn slug_spec(secs: u64, id: u64) -> Seq<char> {
    seq!['s'] + dec_padded(secs as nat, 10) + seq!['-'] + dec_padded(id as nat, 4)
}

/// The directory name of a creation: `s` + ten-digit seconds + `-` +
/// four-digit id.
pub fn slug_for(secs: u64, id: u64) -> (r: String)
    ensures
        r@ == slug_spec(secs, id),
{
    let mut out: Vec<char> = Vec::new();
    out.push('s');
    let s = u64_to_dec_padded(secs, 10);
    append_chars(&mut out, s.as_slice());
    out.push('-');
    let i = u64_to_dec_padded(id, 4);
    append_chars(&mut out, i.as_slice());
    proof {
        assert(out@ =~= slug_spec(secs, id));
    }
    string_of(out.as_slice())
}

/// A slug for `id` stamped with the current time.
pub fn make_slug(id: u64) -> (r: String)
    ensures
        exists|secs: u64| r@ == slug_spec(secs, id),
{
    let secs = now_secs();
    slug_for(secs, id)
}

/// Escaping of a string for a TOML basic string: `\` and `"` get a
/// backslash.
pub open spec fn toml_escape(s: Seq<char>) -> Seq<char>
    decreases s.len(),
{
    if s.len() == 0 {
        s
    } else {
        let c = s.last();
        toml_escape(s.drop_last()) + (if c == '\\' || c == '"' {
            seq!['\\', c]
        } else {
            seq![c]
        })
    }
}

pub fn toml_string(s: &str) -> (r: String)
    ensures
        r@ == toml_escape(s@),
{
    let c = chars_of(s);
    let mut out: Vec<char> = Vec::new();
    let mut i: usize = 0;
    proof {
        assert(c@.take(0) =~= Seq::<char>::empty());
    }
    while i < c.len()
        invariant
            i <= c@.len(),
            out@ == toml_escape(c@.take(i as int)),
        decreases c@.len() - i,
    {
        let ch = c[i];
        proof {
            assert(c@.take(i + 1).drop_last() =~= c@.take(i as int));
        }
        let ghost before = out@;
        if ch == '\\' || ch == '"' {
            out.push('\\');
        }
        out.push(ch);
        proof {
            if ch == '\\' || ch == '"' {
                assert(out@ =~= before + seq!['\\', ch]);
            } else {
                assert(out@ =~= before + seq![ch]);
            }
        }
        i = i + 1;
    }
    proof {
        assert(c@.take(i as int) =~= c@);
    }
    string_of(out.as_slice())
}

// ── Fenced code ────────────────────────────────────────────────────────────

/// The text that follows a fence starting at `start`, minus one newline.
pub open spec fn after_fence(r: Seq<char>, start: int, fence_len: int) -> Seq<char> {
    let a = r.skip(start + fence_len);
    if a.len() > 0 && a[0] == '\n' {
        a.skip(1)
    } else {
        a
    }
}

/// The body of the first `fence` block that is closed by a later ```,
/// with trailing whitespace removed.
pub open spec fn fenced_body(r: Seq<char>, fence: Seq<char>) -> Option<Seq<char>> {
    match find(r, fence) {
        None => None,
        Some(st) => {
            let a = after_fence(r, st, fence.len() as int);
            match find(a, "```"@) {
                None => None,
                Some(e) => Some(trim_end(a.take(e))),
            }
        },
    }
}

/// The Rust source in a model reply: the body of a closed ```` ```rust ````
/// fence, else of a closed plain fence, else the whole trimmed reply.
pub open spec fn extract_rust_block_spec(r: Seq<char>) -> Seq<char> {
    match fenced_body(r, "```rust"@) {
        Some(b) => b,
        None => match fenced_body(r, "```"@) {
            Some(b) => b,
            None => trim(r),
        },
    }
}

fn fenced_body_exec(r: &[char], fence: &str) -> (out: Option<Vec<char>>)
    ensures
        match out {
            Some(b) => fenced_body(r@, fence@) == Some(b@),
            None => fenced_body(r@, fence@) is None,
        },
{
    let fc = chars_of(fence);
    let n = r.len();
    let st = match find_chars(r, fc.as_slice()) {
        Some(st) => st,
        None => return None,
    };
    proof {
        lemma_find_from_props(r@, fc@, 0);
        assert(match_at(r@, fc@, st as int));
    }
    let a0 = slice_chars(r, st + fc.len(), n);
    proof {
        assert(a0@ =~= r@.skip(st + fc@.len()));
    }
    let a = if a0.len() > 0 && a0[0] == '\n' {
        let m = a0.len();
        let t = slice_chars(a0.as_slice(), 1, m);
        proof {
            assert(t@ =~= a0@.skip(1));
        }
        t
    } else {
        a0
    };
    let e = match find_str(a.as_slice(), "```") {
        Some(e) => e,
        None => return None,
    };
    proof {
        lemma_find_from_props(a@, "```"@, 0);
    }
    let body = slice_chars(a.as_slice(), 0, e);
    proof {
        assert(body@ =~= a@.take(e as int));
    }
    Some(trim_end_chars(body.as_slice()))
}

/// A reply that opens with ```` ```rust ````, a newline, then a body in
/// which no ```` ``` ```` starts (the body holds none and does not end in a
/// backtick), then ```` ``` ````, yields that body with trailing whitespace
/// removed, whatever lines it spans and whatever follows the fence.
pub proof fn law_rust_fence_body(body: Seq<char>, tail: Seq<char>)
    requires
        forall|j: int| !match_at(body, "```"@, j),
        body.len() == 0 || body.last() != '`',
    ensures
        extract_rust_block_spec("```rust"@ + seq!['\n'] + body + "```"@ + tail) == trim_end(body),
{
    reveal_strlit("```rust");
    reveal_strlit("```");
    let f = "```rust"@;
    let t = "```"@;
    let r = f + seq!['\n'] + body + t + tail;
    assert(r.subrange(0, 7) =~= f);
    lemma_find_first(r, f, 0);
    let a = body + t + tail;
    assert(r.skip(7) =~= seq!['\n'] + a);
    assert(after_fence(r, 0, 7) =~= a);
    let n = body.len() as int;
    assert(a.subrange(n, n + 3) =~= t);
    assert forall|j: int| 0 <= j < n implies !match_at(a, t, j) by {
        if j + 3 <= n {
            assert(a.subrange(j, j + 3) =~= body.subrange(j, j + 3));
            assert(!match_at(body, t, j));
        } else {
            if match_at(a, t, j) {
                assert(a.subrange(j, j + 3)[n - 1 - j] == a[n - 1]);
                assert(a[n - 1] == body.last());
            }
        }
    }
    lemma_find_first(a, t, n);
    assert(a.take(n) =~= body);
}

/// A reply with no ```` ``` ```` in it is taken whole, trimmed.
pub proof fn law_unfenced_reply_is_trimmed(r: Seq<char>)
    requires
        forall|j: int| !match_at(r, "```"@, j),
    ensures
        extract_rust_block_spec(r) == trim(r),
{
    reveal_strlit("```rust");
    reveal_strlit("```");
    assert forall|j: int| !match_at(r, "```rust"@, j) by {
        if match_at(r, "```rust"@, j) {
            assert(r.subrange(j, j + 7) == "```rust"@);
            assert("```rust"@.subrange(0, 3) =~= "```"@);
            assert(r.subrange(j, j + 3) =~= r.subrange(j, j + 7).subrange(0, 3));
            assert(match_at(r, "```"@, j));
        }
    }
    lemma_find_from_props(r, "```rust"@, 0);
    lemma_find_from_props(r, "```"@, 0);
}

/// Extract the Rust source from a response that may (but need not) include
/// a ```rust … ``` fence. Falls back to returning the raw response.
pub fn extract_rust_block(reply: &str) -> (r: String)
    ensures
        r@ == extract_rust_block_spec(reply@),
{
    let c = chars_of(reply);
    if let Some(b) = fenced_body_exec(c.as_slice(), "```rust") {
        return string_of(b.as_slice());
    }
    if let Some(b) = fenced_body_exec(c.as_slice(), "```") {
        return string_of(b.as_slice());
    }
    let t = trim_chars(c.as_slice());
    string_of(t.as_slice())
}

// ── Server-sent events ─────────────────────────────────────────────────────

/// An SSE event ends at index `i` of `b`: `\n\n` or `\r\n\r\n` starts there.
pub open spec fn event_boundary_at(b: Seq<u8>, i: int) -> bool {
    0 <= i && ((i + 1 < b.len() && b[i] == 0x0A && b[i + 1] == 0x0A) || (i + 3 < b.len() && b[i]
        == 0x0D && b[i + 1] == 0x0A && b[i + 2] == 0x0D && b[i + 3] == 0x0A))
}

/// Find the end of the first complete SSE event (`\n\n` or `\r\n\r\n`)
/// and return the index of the first byte of the separator.
pub fn find_event_boundary(buf: &[u8]) -> (r: Option<usize>)
    ensures
        r matches Some(i) ==> event_boundary_at(buf@, i as int) && forall|j: int|
            0 <= j < i ==> !event_boundary_at(buf@, j),
        r is None ==> forall|j: int| !event_boundary_at(buf@, j),
{
    let n = buf.len();
    let stop = if n == 0 {
        0
    } else {
        n - 1
    };
    let mut i: usize = 0;
    while i < stop
        invariant
            n == buf@.len(),
            stop == (if n == 0 {
                0
            } else {
                n - 1
            }),
            i <= stop,
            forall|j: int| 0 <= j < i ==> !event_boundary_at(buf@, j),
        decreases stop - i,
    {
        if buf[i] == 0x0A && buf[i + 1] == 0x0A {
            return Some(i);
        }
        if n > 3 && i < n - 3 && buf[i] == 0x0D && buf[i + 1] == 0x0A && buf[i + 2] == 0x0D && buf[i + 3]
            == 0x0A {
            return Some(i);
        }
        i = i + 1;
    }
    None
}

/// The `data:` payload of an SSE event: every `data:` line's value (leading
/// whitespace dropped) followed by a newline, concatenated.
pub open spec fn sse_data(ls: Seq<Seq<char>>) -> Seq<char>
    decreases ls.len(),
{
    if ls.len() == 0 {
        Seq::<char>::empty()
    } else {
        let l = ls.last();
        sse_data(ls.drop_last()) + (if has_prefix(l, "data:"@) {
            trim_start(l.skip(5)) + seq!['\n']
        } else {
            Seq::<char>::empty()
        })
    }
}

/// The text of a JSON string value, if it is one.
pub open spec fn str_of(v: Option<ShallowView>) -> Option<Seq<char>> {
    match v {
        Some(ShallowView::Str(t)) => Some(t),
        _ => None,
    }
}

/// What an event's JSON payload holds: `None` when it is not JSON, else the
/// string at `type` and the string at `delta.text`, each when present.
pub open spec fn json_type_and_delta_text(data: Seq<char>) -> Option<
    (Option<Seq<char>>, Option<Seq<char>>),
> {
    match json_shallow(data) {
        None => None,
        Some(_) => Some(
            (
                str_of(field(data, "type"@)),
                match object_members(data) {
                    Some(ms) => match member(ms, "delta"@) {
                        Some(d) => str_of(field(d, "text"@)),
                        None => None,
                    },
                    None => None,
                },
            ),
        ),
    }
}

/// A JSON string value's text, if the value is one.
fn string_value(v: Option<JsonShallow>) -> (r: Option<String>)
    ensures
        opt_text(r) == str_of(
            match v {
                Some(x) => Some(shallow_view(x)),
                None => None,
            },
        ),
{
    match v {
        Some(JsonShallow::Str(s)) => Some(s),
        _ => None,
    }
}

/// Reads `type` and `delta.text` of an event's JSON payload.
fn json_type_and_delta(data: &str) -> (r: Option<(Option<String>, Option<String>)>)
    ensures
        match r {
            None => json_type_and_delta_text(data@) is None,
            Some((t, d)) => json_type_and_delta_text(data@) == Some((opt_text(t), opt_text(d))),
        },
{
    let top = match parse_json_shallow(data) {
        Some(v) => v,
        None => return None,
    };
    match top {
        JsonShallow::Object(ms) => {
            let kind = match find_member(&ms, "type") {
                Some(t) => string_value(parse_json_shallow(t.as_str())),
                None => None,
            };
            let text = match find_member(&ms, "delta") {
                Some(d) => string_value(get_field(d.as_str(), "text")),
                None => None,
            };
            Some((kind, text))
        },
        _ => Some((None, None)),
    }
}

/// The text delta that one SSE event contributes, given what the JSON
/// reader found in its payload.
pub open spec fn delta_of(found: Option<(Option<Seq<char>>, Option<Seq<char>>)>) -> Option<
    Seq<char>,
> {
    match found {
        Some((Some(kind), Some(text))) => if kind == "content_block_delta"@ {
            Some(text)
        } else {
            None
        },
        _ => None,
    }
}

/// What [`parse_sse_event`] returns for the bytes of one event.
pub open spec fn parse_sse_event_spec(event: Seq<u8>) -> Option<Seq<char>> {
    if !valid_utf8(event) {
        None
    } else {
        let data = sse_data(lines(decode_utf8(event)));
        if data.len() == 0 {
            None
        } else {
            let d = trim(data);
            if d == "[DONE]"@ {
                None
            } else {
                delta_of(json_type_and_delta_text(d))
            }
        }
    }
}

/// The text delta of an event whose trimmed data is `d`, once the JSON reader
/// has looked at `d`.
pub fn delta_from_json(found: Option<(Option<String>, Option<String>)>) -> (r: Option<String>)
    ensures
        (match r {
            Some(x) => Some(x@),
            None => None,
        }) == delta_of(
            match found {
                None => None,
                Some((t, d)) => Some(
                    (
                        match t {
                            Some(x) => Some(x@),
                            None => None,
                        },
                        match d {
                            Some(x) => Some(x@),
                            None => None,
                        },
                    ),
                ),
            },
        ),
{
    match found {
        Some((Some(kind), Some(text))) => {
            let k = chars_of(kind.as_str());
            if chars_eq_str(k.as_slice(), "content_block_delta") {
                Some(text)
            } else {
                None
            }
        },
        _ => None,
    }
}

/// Parse a single SSE event (already stripped of trailing blank line).
/// Returns the text delta contribution, if any.
pub fn parse_sse_event(event: &[u8]) -> (r: Option<String>)
    ensures
        (match r {
            Some(x) => Some(x@),
            None => None,
        }) == parse_sse_event_spec(event@),
{
    let text = match string_from_utf8(event) {
        Some(t) => t,
        None => return None,
    };
    let c = chars_of(text.as_str());
    let ls = lines_of(c.as_slice());
    let mut data: Vec<char> = Vec::new();
    let mut i: usize = 0;
    proof {
        assert(views(ls@).take(0) =~= Seq::<Seq<char>>::empty());
    }
    while i < ls.len()
        invariant
            i <= ls@.len(),
            data@ == sse_data(views(ls@).take(i as int)),
        decreases ls@.len() - i,
    {
        proof {
            assert(views(ls@).take(i + 1).drop_last() =~= views(ls@).take(i as int));
            assert(views(ls@).take(i + 1).last() == ls@[i as int]@);
        }
        let line = ls[i].as_slice();
        let ghost before = data@;
        if starts_with_str(line, "data:") {
            proof {
                reveal_strlit("data:");
            }
            let m = line.len();
            let rest = slice_chars(line, 5, m);
            let t = trim_start_chars(rest.as_slice());
            append_chars(&mut data, t.as_slice());
            data.push('\n');
            proof {
                assert(rest@ =~= line@.skip(5));
                assert(data@ =~= before + (trim_start(line@.skip(5)) + seq!['\n']));
            }
        } else {
            proof {
                assert(data@ =~= before + Seq::<char>::empty());
            }
        }
        i = i + 1;
    }
    proof {
        assert(views(ls@).take(i as int) =~= views(ls@));
    }
    if data.len() == 0 {
        return None;
    }
    let d = trim_chars(data.as_slice());
    if chars_eq_str(d.as_slice(), "[DONE]") {
        return None;
    }
    let ds = string_of(d.as_slice());
    delta_from_json(json_type_and_delta(ds.as_str()))
}

// ── Agent Skill frontmatter ────────────────────────────────────────────────

pub open spec fn dashes_line() -> Seq<char> {
    seq!['\n', '-', '-', '-']
}

/// Whether the text after a `---` marker at `at` ends the line there.
pub open spec fn line_ends_at(rest: Seq<char>, at: int) -> bool {
    let tail = rest.skip(at);
    tail.len() == 0 || has_prefix(tail, seq!['\n']) || has_prefix(tail, seq!['\r', '\n'])
}

/// Position of the first `\n---` at or after `from` that ends its line.
pub open spec fn closing_marker(rest: Seq<char>, from: int) -> Option<int>
    decreases rest.len() + 1 - from,
{
    if from < 0 {
        None
    } else {
        match find_from(rest, dashes_line(), from) {
            None => None,
            Some(e) => {
                proof {
                    lemma_find_from_props(rest, dashes_line(), from);
                }
                if line_ends_at(rest, e + 4) {
                    Some(e)
                } else {
                    closing_marker(rest, e + 1)
                }
            },
        }
    }
}

/// The document after an opening `---` line, if it has one.
pub open spec fn after_opening(doc: Seq<char>) -> Option<Seq<char>> {
    if has_prefix(doc, seq!['-', '-', '-', '\n']) {
        Some(doc.skip(4))
    } else if has_prefix(doc, seq!['-', '-', '-', '\r', '\n']) {
        Some(doc.skip(5))
    } else {
        None
    }
}

/// Split a SKILL.md document into its YAML frontmatter and markdown body.
pub open spec fn split_frontmatter_spec(doc: Seq<char>) -> (Option<Seq<char>>, Seq<char>) {
    match after_opening(doc) {
        None => (None, doc),
        Some(rest) => match closing_marker(rest, 0) {
            None => (None, doc),
            Some(end) => {
                let after = end + 4;
                let tail = rest.skip(after);
                let body_start = if has_prefix(tail, seq!['\r', '\n']) {
                    after + 2
                } else if has_prefix(tail, seq!['\n']) {
                    after + 1
                } else {
                    after
                };
                (Some(rest.take(end)), rest.skip(body_start))
            },
        },
    }
}

fn lit_chars3(a: char, b: char, c: char) -> (v: Vec<char>)
    ensures
        v@ == seq![a, b, c],
{
    let mut v: Vec<char> = Vec::new();
    v.push(a);
    v.push(b);
    v.push(c);
    proof {
        assert(v@ =~= seq![a, b, c]);
    }
    v
}

/// Split a SKILL.md document into its YAML frontmatter and markdown body.
/// The frontmatter is the optional leading `---\n…\n---\n` block defined
/// by the agentskills.io specification. Returns `(None, whole_text)` when
/// no frontmatter is present.
pub fn split_skill_frontmatter(doc: &str) -> (r: (Option<String>, String))
    ensures
        (match r.0 {
            Some(x) => Some(x@),
            None => None,
        }, r.1@) == split_frontmatter_spec(doc@),
{
    let d = chars_of(doc);
    let dn = d.len();
    let mut open4: Vec<char> = lit_chars3('-', '-', '-');
    open4.push('\n');
    let mut open5: Vec<char> = lit_chars3('-', '-', '-');
    open5.push('\r');
    open5.push('\n');
    proof {
        assert(open4@ =~= seq!['-', '-', '-', '\n']);
        assert(open5@ =~= seq!['-', '-', '-', '\r', '\n']);
    }
    let rest: Vec<char> = if crate::text::starts_with(d.as_slice(), open4.as_slice()) {
        slice_chars(d.as_slice(), 4, dn)
    } else if crate::text::starts_with(d.as_slice(), open5.as_slice()) {
        slice_chars(d.as_slice(), 5, dn)
    } else {
        return (None, doc.to_owned());
    };
    proof {
        assert(after_opening(d@) == Some(rest@));
    }
    let rn = rest.len();
    let mut marker: Vec<char> = Vec::new();
    marker.push('\n');
    marker.push('-');
    marker.push('-');
    marker.push('-');
    proof {
        assert(marker@ =~= dashes_line());
    }
    let mut search_from: usize = 0;
    loop
        invariant
            rn == rest@.len(),
            search_from <= rn + 1,
            marker@ == dashes_line(),
            after_opening(d@) == Some(rest@),
            d@ == doc@,
            closing_marker(rest@, 0) == closing_marker(rest@, search_from as int),
        decreases rn + 1 - search_from,
    {
        let end = match find_chars_from(rest.as_slice(), marker.as_slice(), search_from) {
            Some(e) => e,
            None => {
                return (None, doc.to_owned());
            },
        };
        proof {
            lemma_find_from_props(rest@, dashes_line(), search_from as int);
            assert(match_at(rest@, dashes_line(), end as int));
        }
        let after = end + 4;
        let tail = slice_chars(rest.as_slice(), after, rn);
        proof {
            assert(tail@ =~= rest@.skip(after as int));
        }
        let nl = tail.len() > 0 && tail[0] == '\n';
        let crlf = tail.len() > 1 && tail[0] == '\r' && tail[1] == '\n';
        proof {
            assert(nl == has_prefix(tail@, seq!['\n'])) by {
                if tail@.len() > 0 {
                    assert(tail@.take(1) =~= seq![tail@[0]]);
                    if tail@.take(1) == seq!['\n'] {
                        assert(tail@.take(1)[0] == '\n');
                    }
                }
            }
            assert(crlf == has_prefix(tail@, seq!['\r', '\n'])) by {
                if tail@.len() > 1 {
                    assert(tail@.take(2) =~= seq![tail@[0], tail@[1]]);
                    if tail@.take(2) == seq!['\r', '\n'] {
                        assert(tail@.take(2)[0] == '\r');
                        assert(tail@.take(2)[1] == '\n');
                    }
                }
            }
        }
        if tail.len() == 0 || nl || crlf {
            let fm = slice_chars(rest.as_slice(), 0, end);
            let body_start = if crlf {
                after + 2
            } else if nl {
                after + 1
            } else {
                after
            };
            let body = slice_chars(rest.as_slice(), body_start, rn);
            proof {
                assert(fm@ =~= rest@.take(end as int));
                assert(body@ =~= rest@.skip(body_start as int));
            }
            return (Some(string_of(fm.as_slice())), string_of(body.as_slice()));
        }
        search_from = end + 1;
    }
}

// ── System prompt ──────────────────────────────────────────────────────────

/// Whether a file of the skill's `references` directory is a reference
/// document: its extension is `md` in any letter case.
pub fn is_reference_document(name: &str) -> (r: bool)
    ensures
        plain_file_name(name@) ==> r == match doc_extension(name@) {
            Some(e) => lower(e) == seq!['m', 'd'],
            None => false,
        },
{
    match extension_text(name) {
        Some(e) => {
            let l = lower_chars(chars_of(e.as_str()).as_slice());
            let r = l.len() == 2 && l[0] == 'm' && l[1] == 'd';
            proof {
                if l@.len() == 2 {
                    if l@ == seq!['m', 'd'] {
                        assert(l@[0] == 'm' && l@[1] == 'd');
                    }
                    if r {
                        assert(l@ =~= seq!['m', 'd']);
                    }
                }
            }
            r
        },
        None => false,
    }
}

/// The heading of a reference document: its file stem, or `Reference`
/// when there is none.
pub fn reference_title(name: &str) -> (r: String)
    ensures
        plain_file_name(name@) && doc_stem(name@).len() > 0 ==> r@ == doc_stem(name@),
{
    let stem = file_stem_text(name);
    if stem.as_str().unicode_len() == 0 {
        "Reference".to_owned()
    } else {
        stem
    }
}

/// One reference document as it is appended to the prompt.
pub open spec fn reference_section(title: Seq<char>, body: Seq<char>) -> Seq<char> {
    "\n\n---\n\n# Reference: "@ + title + "\n\n"@ + trim_end(body) + "\n"@
}

/// All reference sections, in the order given.
pub open spec fn reference_sections(refs: Seq<(Seq<char>, Seq<char>)>) -> Seq<char>
    decreases refs.len(),
{
    if refs.len() == 0 {
        Seq::empty()
    } else {
        reference_sections(refs.drop_last()) + reference_section(refs.last().0, refs.last().1)
    }
}

/// The system prompt of a generation: the skill's markdown body (leading
/// whitespace removed), then every reference document under its heading.
/// A skill without frontmatter is refused.
pub open spec fn system_prompt_spec(skill_md: Seq<char>, refs: Seq<(Seq<char>, Seq<char>)>) -> Option<
    Seq<char>,
> {
    let (fm, body) = split_frontmatter_spec(skill_md);
    if fm is None {
        None
    } else {
        Some(trim_start(body) + reference_sections(refs))
    }
}

pub open spec fn title_body_views(refs: Seq<(String, String)>) -> Seq<(Seq<char>, Seq<char>)> {
    refs.map_values(|p: (String, String)| (p.0@, p.1@))
}

/// Compose the system prompt from the skill document and the reference
/// documents, given as `(title, text)` in the order they are to appear.
/// `None` when the skill lacks its required frontmatter.
pub fn assemble_system_prompt(skill_md: &str, references: &[(String, String)]) -> (r: Option<String>)
    ensures
        match r {
            Some(p) => system_prompt_spec(skill_md@, title_body_views(references@)) == Some(p@),
            None => system_prompt_spec(skill_md@, title_body_views(references@)) is None,
        },
{
    let (fm, body) = split_skill_frontmatter(skill_md);
    if fm.is_none() {
        return None;
    }
    let mut out: Vec<char> = trim_start_chars(chars_of(body.as_str()).as_slice());
    let ghost head = out@;
    let n = references.len();
    let mut i: usize = 0;
    while i < n
        invariant
            n == references@.len(),
            i <= n,
            out@ == head + reference_sections(title_body_views(references@).take(i as int)),
        decreases n - i,
    {
        let title = &references[i].0;
        let text = &references[i].1;
        append_str(&mut out, "\n\n---\n\n# Reference: ");
        append_str(&mut out, title.as_str());
        append_str(&mut out, "\n\n");
        let t = trim_end_chars(chars_of(text.as_str()).as_slice());
        append_chars(&mut out, t.as_slice());
        append_str(&mut out, "\n");
        proof {
            let rs = title_body_views(references@);
            assert(rs.take(i + 1).drop_last() =~= rs.take(i as int));
            assert(rs.take(i + 1).last() == (title@, text@));
        }
        i = i + 1;
    }
    proof {
        assert(title_body_views(references@).take(n as int) =~= title_body_views(references@));
    }
    Some(string_of(out.as_slice()))
}

// ── Prompts ────────────────────────────────────────────────────────────────

pub open spec fn trunc_marker(n: nat) -> Seq<char> {
    "\n…[truncated "@ + dec(n) + " bytes]…\n"@
}

/// Largest char boundary of `b` that is `<= k`.
pub open spec fn boundary_down(b: Seq<u8>, k: int) -> int
    decreases k,
{
    if k <= 0 || is_char_boundary(b, k) {
        k
    } else {
        boundary_down(b, k - 1)
    }
}

/// Smallest char boundary of `b` that is `>= k`.
pub open spec fn boundary_up(b: Seq<u8>, k: int) -> int
    decreases b.len() - k,
{
    if k >= b.len() || is_char_boundary(b, k) {
        k
    } else {
        boundary_up(b, k + 1)
    }
}

/// `text` cut to its first and last `max / 2` bytes (moved to char
/// boundaries) around a marker that counts the bytes left out.
pub open spec fn truncate_middle_spec(text: Seq<char>, max: nat) -> Seq<char> {
    let b = encode_utf8(text);
    if b.len() <= max {
        text
    } else {
        let h = boundary_down(b, (max / 2) as int);
        let t = boundary_up(b, b.len() - max / 2);
        decode_utf8(b.take(h)) + trunc_marker((t - h) as nat) + decode_utf8(b.skip(t))
    }
}

/// If `text` exceeds `max_bytes`, keep the first and last halves with an
/// elision marker in between. Byte-safe (won't split a multi-byte char).
pub fn truncate_middle(text: &str, max_bytes: usize) -> (r: String)
    ensures
        r@ == truncate_middle_spec(text@, max_bytes as nat),
{
    let bytes = text.as_bytes();
    let n = bytes.len();
    if n <= max_bytes {
        return text.to_owned();
    }
    let ghost b = text.spec_bytes();
    proof {
        encode_utf8_valid_utf8(text@);
        is_char_boundary_start_end_of_seq(b);
    }
    let half = max_bytes / 2;
    let mut head_end = half;
    while head_end < n && !text.is_char_boundary(head_end)
        invariant
            n == b.len(),
            b == text.spec_bytes(),
            head_end <= half,
            half < n,
            valid_utf8(b),
            is_char_boundary(b, 0),
            boundary_down(b, half as int) == boundary_down(b, head_end as int),
        decreases head_end,
    {
        head_end = head_end - 1;
    }
    let mut tail_start = n - half;
    while tail_start < n && !text.is_char_boundary(tail_start)
        invariant
            n == b.len(),
            b == text.spec_bytes(),
            n - half <= tail_start <= n,
            valid_utf8(b),
            is_char_boundary(b, n as int),
            boundary_up(b, n - half) == boundary_up(b, tail_start as int),
        decreases n - tail_start,
    {
        tail_start = tail_start + 1;
    }
    proof {
        assert(is_char_boundary(b, head_end as int));
        assert(is_char_boundary(b, tail_start as int));
        assert(head_end <= half < n - half <= tail_start);
    }
    let (head, _) = text.split_at(head_end);
    let (_, tail) = text.split_at(tail_start);
    proof {
        assert(head.spec_bytes() == b.take(head_end as int));
        assert(tail.spec_bytes() == b.skip(tail_start as int));
        encode_utf8_decode_utf8(head@);
        encode_utf8_decode_utf8(tail@);
    }
    let mut out: Vec<char> = Vec::new();
    append_str(&mut out, head);
    append_str(&mut out, "\n…[truncated ");
    let count = u64_to_dec((tail_start - head_end) as u64);
    append_chars(&mut out, count.as_slice());
    append_str(&mut out, " bytes]…\n");
    append_str(&mut out, tail);
    proof {
        assert(out@ =~= decode_utf8(b.take(head_end as int)) + trunc_marker(
            (tail_start - head_end) as nat,
        ) + decode_utf8(b.skip(tail_start as int)));
    }
    string_of(out.as_slice())
}

/// The correction prompt sent after a failed build.
pub open spec fn retry_prompt_spec(prompt: Seq<char>, code: Seq<char>, log: Seq<char>) -> Seq<
    char,
> {
    "Your previous attempt at this app did not compile. Fix it.\n\nOriginal request:\n"@ + prompt
        + "\n\nPrevious lib.rs:\n```rust\n"@ + code + "\n```\n\nCompiler output:\n```\n"@ + log
        + "\n```\n\nReply with the complete corrected lib.rs in one ```rust fenced block."@
}

/// Compose a "please fix this" prompt from the last failed attempt; the
/// build log is cut to 6000 bytes with [`truncate_middle`].
pub fn build_retry_prompt(prompt: &str, code: &str, build_log: &str) -> (r: String)
    ensures
        r@ == retry_prompt_spec(prompt@, code@, truncate_middle_spec(build_log@, 6000)),
{
    let log = truncate_middle(build_log, 6000);
    let mut out: Vec<char> = Vec::new();
    append_str(
        &mut out,
        "Your previous attempt at this app did not compile. Fix it.\n\nOriginal request:\n",
    );
    append_str(&mut out, prompt);
    append_str(&mut out, "\n\nPrevious lib.rs:\n```rust\n");
    append_str(&mut out, code);
    append_str(&mut out, "\n```\n\nCompiler output:\n```\n");
    append_str(&mut out, log.as_str());
    append_str(
        &mut out,
        "\n```\n\nReply with the complete corrected lib.rs in one ```rust fenced block.",
    );
    proof {
        assert(out@ =~= retry_prompt_spec(prompt@, code@, log@));
    }
    string_of(out.as_slice())
}

/// The prompt that asks for an edit of an existing creation.
pub open spec fn revision_prompt_spec(request: Seq<char>, code: Seq<char>) -> Seq<char> {
    "Revise this existing Oxide app.\n\nUser change request:\n"@ + request
        + "\n\nCurrent src/lib.rs:\n```rust\n"@ + code
        + "\n```\n\nReply with the complete updated src/lib.rs in one ```rust fenced block."@
}

pub fn build_revision_prompt(request: &str, code: &str) -> (r: String)
    ensures
        r@ == revision_prompt_spec(request@, code@),
{
    let mut out: Vec<char> = Vec::new();
    append_str(&mut out, "Revise this existing Oxide app.\n\nUser change request:\n");
    append_str(&mut out, request);
    append_str(&mut out, "\n\nCurrent src/lib.rs:\n```rust\n");
    append_str(&mut out, code);
    append_str(
        &mut out,
        "\n```\n\nReply with the complete updated src/lib.rs in one ```rust fenced block.",
    );
    proof {
        assert(out@ =~= revision_prompt_spec(request@, code@));
    }
    string_of(out.as_slice())
}

// ── Persisted sessions ─────────────────────────────────────────────────────

/// Name of a creation's metadata file inside its project directory.
pub const METADATA_FILE_NAME: &'static str = "forge.json";

/// The fields of a creation's metadata file, each as found: `None` when it
/// is missing or holds a JSON value of another type.
#[derive(Clone, Debug)]
pub struct SessionMetadata {
    pub id: Option<u64>,
    pub slug: Option<String>,
    pub prompt: Option<String>,
    pub phase: Option<String>,
    pub artifact_path: Option<String>,
    pub updated_at_ms: Option<u64>,
    pub retries_used: Option<u64>,
    pub auto_fix: Option<bool>,
}

pub open spec fn opt_text(o: Option<String>) -> Option<Seq<char>> {
    match o {
        Some(x) => Some(x@),
        None => None,
    }
}

/// The metadata fields as plain values.
pub open spec fn metadata_view(m: SessionMetadata) -> (
    Option<u64>,
    Option<Seq<char>>,
    Option<Seq<char>>,
    Option<Seq<char>>,
    Option<Seq<char>>,
    Option<u64>,
    Option<u64>,
    Option<bool>,
) {
    (
        m.id,
        opt_text(m.slug),
        opt_text(m.prompt),
        opt_text(m.phase),
        opt_text(m.artifact_path),
        m.updated_at_ms,
        m.retries_used,
        m.auto_fix,
    )
}

/// A JSON unsigned integer's value, if the value is one.
pub open spec fn u64_of(v: Option<ShallowView>) -> Option<u64> {
    match v {
        Some(ShallowView::UInt(u)) => Some(u),
        _ => None,
    }
}

/// A JSON boolean's value, if the value is one.
pub open spec fn bool_of(v: Option<ShallowView>) -> Option<bool> {
    match v {
        Some(ShallowView::Bool(b)) => Some(b),
        _ => None,
    }
}

/// What a metadata file holds: `None` when the text is not JSON, else
/// `id`, `slug`, `prompt`, `phase`, `artifact_path`, `updated_at_ms`,
/// `retries_used` and `auto_fix`, each when present with the expected type
/// (unsigned integer, string or boolean).
pub open spec fn metadata_fields(text: Seq<char>) -> Option<
    (
        Option<u64>,
        Option<Seq<char>>,
        Option<Seq<char>>,
        Option<Seq<char>>,
        Option<Seq<char>>,
        Option<u64>,
        Option<u64>,
        Option<bool>,
    ),
> {
    match json_shallow(text) {
        None => None,
        Some(_) => Some(
            (
                u64_of(field(text, "id"@)),
                str_of(field(text, "slug"@)),
                str_of(field(text, "prompt"@)),
                str_of(field(text, "phase"@)),
                str_of(field(text, "artifact_path"@)),
                u64_of(field(text, "updated_at_ms"@)),
                u64_of(field(text, "retries_used"@)),
                bool_of(field(text, "auto_fix"@)),
            ),
        ),
    }
}

pub open spec fn opt_shallow(v: Option<JsonShallow>) -> Option<ShallowView> {
    match v {
        Some(x) => Some(shallow_view(x)),
        None => None,
    }
}

/// The value at `key` of the document `text`, whose top level is `top`.
fn top_field(text: &str, top: &JsonShallow, key: &str) -> (r: Option<JsonShallow>)
    requires
        json_shallow(text@) == Some(shallow_view(*top)),
    ensures
        opt_shallow(r) == field(text@, key@),
{
    match top {
        JsonShallow::Object(ms) => match find_member(ms, key) {
            Some(t) => parse_json_shallow(t.as_str()),
            None => None,
        },
        _ => None,
    }
}

fn u64_value(v: Option<JsonShallow>) -> (r: Option<u64>)
    ensures
        r == u64_of(opt_shallow(v)),
{
    match v {
        Some(JsonShallow::UInt(u)) => Some(u),
        _ => None,
    }
}

fn bool_value(v: Option<JsonShallow>) -> (r: Option<bool>)
    ensures
        r == bool_of(opt_shallow(v)),
{
    match v {
        Some(JsonShallow::Bool(b)) => Some(b),
        _ => None,
    }
}

/// Reads the metadata fields of a metadata file.
fn read_session_metadata(text: &str) -> (r: Option<SessionMetadata>)
    ensures
        match r {
            Some(m) => metadata_fields(text@) == Some(metadata_view(m)),
            None => metadata_fields(text@) is None,
        },
{
    let top = match parse_json_shallow(text) {
        Some(v) => v,
        None => return None,
    };
    Some(
        SessionMetadata {
            id: u64_value(top_field(text, &top, "id")),
            slug: string_value(top_field(text, &top, "slug")),
            prompt: string_value(top_field(text, &top, "prompt")),
            phase: string_value(top_field(text, &top, "phase")),
            artifact_path: string_value(top_field(text, &top, "artifact_path")),
            updated_at_ms: u64_value(top_field(text, &top, "updated_at_ms")),
            retries_used: u64_value(top_field(text, &top, "retries_used")),
            auto_fix: bool_value(top_field(text, &top, "auto_fix")),
        },
    )
}

/// The file a creation's module is exported to, inside its project
/// directory: `<slug>.wasm`.
pub fn artifact_file_name(slug: &str) -> (r: String)
    ensures
        r@ == slug@ + ".wasm"@,
{
    let mut out = chars_of(slug);
    append_str(&mut out, ".wasm");
    string_of(out.as_slice())
}

/// What a creation loads back as, from its metadata fields: `None`
/// without an id or a slug, else its id, slug, prompt, phase, retry count,
/// auto-fix flag and last-change time.
pub open spec fn loaded_fields(
    v: (
        Option<u64>,
        Option<Seq<char>>,
        Option<Seq<char>>,
        Option<Seq<char>>,
        Option<Seq<char>>,
        Option<u64>,
        Option<u64>,
        Option<bool>,
    ),
    has_artifact: bool,
    now_ms: u64,
) -> Option<(u64, Seq<char>, Seq<char>, ForgePhase, u32, bool, u64)> {
    let (id, slug, prompt, phase, _artifact, updated, retries, auto_fix) = v;
    if id is None || slug is None {
        None
    } else {
        Some(
            (
                id->0,
                slug->0,
                match prompt {
                    Some(p) => p,
                    None => Seq::empty(),
                },
                if has_artifact {
                    ForgePhase::BuildOk
                } else {
                    phase_from_name(
                        match phase {
                            Some(p) => p,
                            None => Seq::empty(),
                        },
                    )
                },
                match retries {
                    Some(n) => n as u32,
                    None => 0u32,
                },
                match auto_fix {
                    Some(b) => b,
                    None => true,
                },
                match updated {
                    Some(t) => t,
                    None => now_ms,
                },
            ),
        )
    }
}

/// The metadata fields a creation is saved with.
pub open spec fn saved_fields(
    id: u64,
    slug: Seq<char>,
    prompt: Seq<char>,
    phase: ForgePhase,
    artifact: Option<Seq<char>>,
    updated_at_ms: u64,
    retries_used: u32,
    auto_fix: bool,
) -> (
    Option<u64>,
    Option<Seq<char>>,
    Option<Seq<char>>,
    Option<Seq<char>>,
    Option<Seq<char>>,
    Option<u64>,
    Option<u64>,
    Option<bool>,
) {
    (
        Some(id),
        Some(slug),
        Some(prompt),
        Some(phase_name(phase)),
        artifact,
        Some(updated_at_ms),
        Some(retries_used as u64),
        Some(auto_fix),
    )
}

/// The text of a path as it is saved (`Path::to_string_lossy`). Nothing is
/// stated of it: its bytes depend on the platform's path encoding.
#[verifier::external_body]
fn path_text(p: &std::path::PathBuf) -> (r: String) {
    p.to_string_lossy().into_owned()
}

/// The metadata a creation is saved with: its identity, prompt, phase
/// name, module path, time, retry count and auto-fix flag.
pub fn session_metadata(s: &Session) -> (r: SessionMetadata)
    ensures
        exists|a: Option<Seq<char>>|
            #![auto]
            (s.artifact_path is None <==> a is None) && metadata_view(r) == saved_fields(
                s.id,
                s.slug@,
                s.prompt@,
                s.phase,
                a,
                s.updated_at_ms,
                s.retries_used,
                s.auto_fix,
            ),
{
    let artifact_path = match &s.artifact_path {
        Some(p) => Some(path_text(p)),
        None => None,
    };
    let r = SessionMetadata {
        id: Some(s.id),
        slug: Some(s.slug.clone()),
        prompt: Some(s.prompt.clone()),
        phase: Some(phase_to_str(s.phase).to_owned()),
        artifact_path,
        updated_at_ms: Some(s.updated_at_ms),
        retries_used: Some(s.retries_used as u64),
        auto_fix: Some(s.auto_fix),
    };
    proof {
        assert(metadata_view(r) == saved_fields(
            s.id,
            s.slug@,
            s.prompt@,
            s.phase,
            opt_text(r.artifact_path),
            s.updated_at_ms,
            s.retries_used,
            s.auto_fix,
        ));
    }
    r
}

fn u64_scalar(v: Option<u64>) -> (r: JsonScalar)
    ensures
        u64_of(Some(scalar_view(r))) == v,
{
    match v {
        Some(u) => JsonScalar::UInt(u),
        None => JsonScalar::Null,
    }
}

fn str_scalar(v: &Option<String>) -> (r: JsonScalar)
    ensures
        str_of(Some(scalar_view(r))) == opt_text(*v),
{
    match v {
        Some(t) => JsonScalar::Str(t.clone()),
        None => JsonScalar::Null,
    }
}

fn bool_scalar(v: Option<bool>) -> (r: JsonScalar)
    ensures
        bool_of(Some(scalar_view(r))) == v,
{
    match v {
        Some(b) => JsonScalar::Bool(b),
        None => JsonScalar::Null,
    }
}

/// The names of the metadata file's members, in the order written.
pub open spec fn metadata_keys() -> Seq<Seq<char>> {
    seq![
        "id"@,
        "slug"@,
        "prompt"@,
        "phase"@,
        "artifact_path"@,
        "updated_at_ms"@,
        "retries_used"@,
        "auto_fix"@,
    ]
}

/// What reading member `i` of a written object gives back.
proof fn lemma_written_member(
    text: Seq<char>,
    members: Seq<(String, JsonScalar)>,
    i: int,
)
    requires
        0 <= i < members.len(),
        object_members(text) matches Some(ms) && keys_distinct(ms) && forall|k: int|
            #![trigger members[k]]
            0 <= k < members.len() ==> exists|j: int|
                #![trigger ms[j]]
                0 <= j < ms.len() && ms[j].0 == members[k].0@ && json_shallow(ms[j].1) == Some(
                    scalar_view(members[k].1),
                ),
    ensures
        field(text, members[i].0@) == Some(scalar_view(members[i].1)),
{
    let ms = object_members(text).unwrap();
    assert(members[i] == members[i]);
    let j = choose|j: int|
        #![trigger ms[j]]
        0 <= j < ms.len() && ms[j].0 == members[i].0@ && json_shallow(ms[j].1) == Some(
            scalar_view(members[i].1),
        );
    lemma_member_distinct(ms, j);
}

/// The metadata as pretty-printed JSON, one member per field and `null`
/// for a missing one; reading it back gives the same fields.
fn write_session_metadata(m: &SessionMetadata) -> (r: String)
    ensures
        metadata_fields(r@) == Some(metadata_view(*m)),
{
    let mut members: Vec<(String, JsonScalar)> = Vec::new();
    members.push(("id".to_owned(), u64_scalar(m.id)));
    members.push(("slug".to_owned(), str_scalar(&m.slug)));
    members.push(("prompt".to_owned(), str_scalar(&m.prompt)));
    members.push(("phase".to_owned(), str_scalar(&m.phase)));
    members.push(("artifact_path".to_owned(), str_scalar(&m.artifact_path)));
    members.push(("updated_at_ms".to_owned(), u64_scalar(m.updated_at_ms)));
    members.push(("retries_used".to_owned(), u64_scalar(m.retries_used)));
    members.push(("auto_fix".to_owned(), bool_scalar(m.auto_fix)));
    proof {
        let ks = metadata_keys();
        assert(scalar_member_keys(members@).map_values(|p: (Seq<char>, Seq<char>)| p.0) =~= ks);
        reveal_strlit("id");
        reveal_strlit("slug");
        reveal_strlit("prompt");
        reveal_strlit("phase");
        reveal_strlit("artifact_path");
        reveal_strlit("updated_at_ms");
        reveal_strlit("retries_used");
        reveal_strlit("auto_fix");
        assert(ks[4][0] != ks[5][0]);
        assert forall|a: int, b: int|
            0 <= a < b < scalar_member_keys(members@).len() implies #[trigger] scalar_member_keys(
            members@,
        )[a].0 != #[trigger] scalar_member_keys(members@)[b].0 by {
            assert(scalar_member_keys(members@)[a].0 == ks[a]);
            assert(scalar_member_keys(members@)[b].0 == ks[b]);
            if a == 4 && b == 5 {
                assert(ks[a][0] != ks[b][0]);
            }
        }
    }
    let r = write_json_object(&members);
    proof {
        let mv = members@;
        assert forall|i: int| 0 <= i < 8 implies field(r@, mv[i].0@) == Some(scalar_view(mv[i].1)) by {
            lemma_written_member(r@, mv, i);
        }
        assert(field(r@, "id"@) == Some(scalar_view(mv[0].1)));
        assert(field(r@, "slug"@) == Some(scalar_view(mv[1].1)));
        assert(field(r@, "prompt"@) == Some(scalar_view(mv[2].1)));
        assert(field(r@, "phase"@) == Some(scalar_view(mv[3].1)));
        assert(field(r@, "artifact_path"@) == Some(scalar_view(mv[4].1)));
        assert(field(r@, "updated_at_ms"@) == Some(scalar_view(mv[5].1)));
        assert(field(r@, "retries_used"@) == Some(scalar_view(mv[6].1)));
        assert(field(r@, "auto_fix"@) == Some(scalar_view(mv[7].1)));
    }
    r
}

/// The text of a creation's metadata file.
pub fn saved_metadata_text(s: &Session) -> (r: String)
    ensures
        exists|a: Option<Seq<char>>|
            #![auto]
            (s.artifact_path is None <==> a is None) && metadata_fields(r@) == Some(
                saved_fields(
                    s.id,
                    s.slug@,
                    s.prompt@,
                    s.phase,
                    a,
                    s.updated_at_ms,
                    s.retries_used,
                    s.auto_fix,
                ),
            ),
{
    let m = session_metadata(s);
    write_session_metadata(&m)
}

/// What loading a creation needs from its metadata file: its fields (among
/// them the module path it recorded) and the name its module has by
/// default.
pub struct LoadPlan {
    pub meta: SessionMetadata,
    pub default_artifact: String,
}

/// Reads a creation's metadata file: `None` when the text is not JSON or
/// lacks the id or slug.
pub fn plan_session_load(text: &str) -> (r: Option<LoadPlan>)
    ensures
        r is None <==> (metadata_fields(text@) is None || metadata_fields(text@).unwrap().0 is None
            || metadata_fields(text@).unwrap().1 is None),
        r matches Some(p) ==> {
            &&& metadata_fields(text@) == Some(metadata_view(p.meta))
            &&& p.default_artifact@ == metadata_fields(text@).unwrap().1.unwrap() + ".wasm"@
        },
{
    let meta = match read_session_metadata(text) {
        Some(m) => m,
        None => return None,
    };
    if meta.id.is_none() {
        return None;
    }
    let default_artifact = match &meta.slug {
        Some(slug) => artifact_file_name(slug.as_str()),
        None => return None,
    };
    Some(LoadPlan { meta, default_artifact })
}

/// A creation saved with its metadata loads back as it was: the same id,
/// slug, prompt, retry count, auto-fix flag and time. With its module on
/// disk it loads as built; otherwise a finished phase (stream complete,
/// built or failed) is kept and an interrupted one resumes as a completed
/// stream.
pub proof fn law_saved_session_loads_back(
    id: u64,
    slug: Seq<char>,
    prompt: Seq<char>,
    phase: ForgePhase,
    artifact: Option<Seq<char>>,
    updated_at_ms: u64,
    retries_used: u32,
    auto_fix: bool,
    has_artifact: bool,
    now_ms: u64,
)
    ensures
        loaded_fields(
            saved_fields(id, slug, prompt, phase, artifact, updated_at_ms, retries_used, auto_fix),
            has_artifact,
            now_ms,
        ) == Some(
            (
                id,
                slug,
                prompt,
                if has_artifact {
                    ForgePhase::BuildOk
                } else if phase == ForgePhase::StreamComplete || phase == ForgePhase::BuildOk
                    || phase == ForgePhase::Error {
                    phase
                } else {
                    ForgePhase::StreamComplete
                },
                retries_used,
                auto_fix,
                updated_at_ms,
            ),
        ),
{
    reveal_strlit("build_ok");
    reveal_strlit("error");
    reveal_strlit("idle");
    reveal_strlit("streaming");
    reveal_strlit("stream_complete");
    reveal_strlit("building");
    if phase == ForgePhase::StreamComplete || phase == ForgePhase::BuildOk || phase == ForgePhase::Error {
        law_phase_name_roundtrip(phase);
    } else {
        assert("build_ok"@.len() == 8 && "error"@.len() == 5);
        if phase == ForgePhase::Building {
            assert("building"@[5] != "build_ok"@[5]);
            assert("building"@ != "build_ok"@);
        } else if phase == ForgePhase::Idle {
            assert("idle"@.len() == 4);
        } else {
            assert("streaming"@.len() == 9);
        }
        assert(phase_from_name(phase_name(phase)) == ForgePhase::StreamComplete);
    }
    assert((retries_used as u64) as u32 == retries_used);
}

/// A creation loaded back from its directory: `None` without an id or a
/// slug. A missing prompt reads as empty, a missing retry count as 0 (kept
/// to its low 32 bits), a missing auto-fix flag as on and a missing time
/// as `now_ms`. With a module on disk (`artifact_path`, which the caller
/// found) the phase is `BuildOk`; otherwise it is read from its stored name.
pub fn session_from_metadata(
    meta: SessionMetadata,
    project_dir: std::path::PathBuf,
    code: String,
    artifact_path: Option<std::path::PathBuf>,
    now_ms: u64,
) -> (r: Option<Session>)
    ensures
        r is None <==> loaded_fields(metadata_view(meta), artifact_path is Some, now_ms) is None,
        r matches Some(s) ==> {
            &&& Some(
                (s.id, s.slug@, s.prompt@, s.phase, s.retries_used, s.auto_fix, s.updated_at_ms),
            ) == loaded_fields(metadata_view(meta), artifact_path is Some, now_ms)
            &&& s.code == code
            &&& s.build_log@ == Seq::<char>::empty()
            &&& s.artifact_path == artifact_path
            &&& s.error is None
            &&& s.revision == 0
            &&& s.project_dir == project_dir
        },
{
    let id = match meta.id {
        Some(i) => i,
        None => return None,
    };
    let slug = match meta.slug {
        Some(s) => s,
        None => return None,
    };
    let prompt = match meta.prompt {
        Some(p) => p,
        None => String::new(),
    };
    let phase = if artifact_path.is_some() {
        ForgePhase::BuildOk
    } else {
        match &meta.phase {
            Some(p) => str_to_phase(p.as_str()),
            None => {
                let e = String::new();
                str_to_phase(e.as_str())
            },
        }
    };
    let retries_used: u32 = match meta.retries_used {
        Some(n) => #[verifier::truncate] (n as u32),
        None => 0,
    };
    Some(
        Session {
            id,
            slug,
            prompt,
            code,
            phase,
            build_log: String::new(),
            artifact_path,
            error: None,
            revision: 0,
            project_dir,
            retries_used,
            auto_fix: match meta.auto_fix {
                Some(b) => b,
                None => true,
            },
            updated_at_ms: match meta.updated_at_ms {
                Some(t) => t,
                None => now_ms,
            },
        },
    )
}

// ── Session lifecycle ──────────────────────────────────────────────────────

/// How a `cargo build` of a creation ended, as the embedder saw it.
pub enum BuildOutcome {
    /// The build succeeded and the module was copied to this path.
    Exported(std::path::PathBuf),
    /// The build succeeded but copying the module from this path failed;
    /// the message says why.
    CopyFailed(std::path::PathBuf, String),
    /// The build failed, or succeeded without a module; the message says
    /// which.
    Failed(String),
}

/// Everything but the lifecycle fields stays as it was.
pub open spec fn same_identity(a: Session, b: Session) -> bool {
    &&& a.id == b.id
    &&& a.slug == b.slug
    &&& a.project_dir == b.project_dir
}

/// The revision after one change.
pub open spec fn next_revision(r: u64) -> u64 {
    if r == u64::MAX {
        0
    } else {
        (r + 1) as u64
    }
}

impl Session {
    /// A generation starts: the session streams into an empty `code`.
    pub fn begin_attempt(&mut self)
        ensures
            same_identity(*final(self), *old(self)),
            final(self).phase == ForgePhase::Streaming,
            final(self).code@.len() == 0,
            final(self).artifact_path is None,
            final(self).error is None,
            final(self).prompt == old(self).prompt,
            final(self).build_log == old(self).build_log,
            final(self).retries_used == old(self).retries_used,
            final(self).auto_fix == old(self).auto_fix,
            final(self).revision == next_revision(old(self).revision),
    {
        self.phase = ForgePhase::Streaming;
        self.code = String::new();
        self.artifact_path = None;
        self.error = None;
        self.bump();
    }

    /// A generation or a file write failed with `msg`.
    pub fn attempt_failed(&mut self, msg: String)
        ensures
            same_identity(*final(self), *old(self)),
            final(self).phase == ForgePhase::Error,
            final(self).error == Some(msg),
            final(self).code == old(self).code,
            final(self).prompt == old(self).prompt,
            final(self).artifact_path == old(self).artifact_path,
            final(self).retries_used == old(self).retries_used,
            final(self).auto_fix == old(self).auto_fix,
            final(self).revision == next_revision(old(self).revision),
    {
        self.phase = ForgePhase::Error;
        self.error = Some(msg);
        self.bump();
    }

    /// The source to write to `src/lib.rs` once streaming ended: the
    /// fenced block of the reply.
    pub fn code_to_write(&self) -> (r: String)
        ensures
            r@ == extract_rust_block_spec(self.code@),
    {
        extract_rust_block(self.code.as_str())
    }

    /// The source was written: the session holds it and is ready to build.
    pub fn attempt_written(&mut self, code: String)
        ensures
            same_identity(*final(self), *old(self)),
            final(self).phase == ForgePhase::StreamComplete,
            final(self).code == code,
            final(self).error == old(self).error,
            final(self).artifact_path == old(self).artifact_path,
            final(self).prompt == old(self).prompt,
            final(self).retries_used == old(self).retries_used,
            final(self).auto_fix == old(self).auto_fix,
            final(self).revision == next_revision(old(self).revision),
    {
        self.code = code;
        self.phase = ForgePhase::StreamComplete;
        self.bump();
    }

    /// A build starts: the log and the last error are cleared.
    pub fn begin_build(&mut self)
        ensures
            same_identity(*final(self), *old(self)),
            final(self).phase == ForgePhase::Building,
            final(self).build_log@.len() == 0,
            final(self).error is None,
            final(self).code == old(self).code,
            final(self).prompt == old(self).prompt,
            final(self).artifact_path == old(self).artifact_path,
            final(self).retries_used == old(self).retries_used,
            final(self).auto_fix == old(self).auto_fix,
            final(self).revision == next_revision(old(self).revision),
    {
        self.phase = ForgePhase::Building;
        self.build_log = String::new();
        self.error = None;
        self.bump();
    }

    /// A build ended with compiler output `log`: an exported module makes
    /// the session built, anything else an error.
    pub fn build_finished(&mut self, log: String, outcome: BuildOutcome)
        ensures
            same_identity(*final(self), *old(self)),
            final(self).build_log == log,
            final(self).code == old(self).code,
            final(self).prompt == old(self).prompt,
            final(self).retries_used == old(self).retries_used,
            final(self).auto_fix == old(self).auto_fix,
            final(self).revision == next_revision(old(self).revision),
            match outcome {
                BuildOutcome::Exported(p) => final(self).phase == ForgePhase::BuildOk
                    && final(self).artifact_path == Some(p) && final(self).error == old(self).error,
                BuildOutcome::CopyFailed(p, m) => final(self).phase == ForgePhase::Error
                    && final(self).artifact_path == Some(p) && final(self).error == Some(m),
                BuildOutcome::Failed(m) => final(self).phase == ForgePhase::Error
                    && final(self).artifact_path == old(self).artifact_path && final(self).error
                    == Some(m),
            },
    {
        self.build_log = log;
        match outcome {
            BuildOutcome::Exported(p) => {
                self.artifact_path = Some(p);
                self.phase = ForgePhase::BuildOk;
            },
            BuildOutcome::CopyFailed(p, m) => {
                self.artifact_path = Some(p);
                self.phase = ForgePhase::Error;
                self.error = Some(m);
            },
            BuildOutcome::Failed(m) => {
                self.phase = ForgePhase::Error;
                self.error = Some(m);
            },
        }
        self.bump();
    }

    /// After a build: when the build failed, auto-fix is on and retries are
    /// left, one retry is spent, the code is cleared and the correction
    /// prompt is returned; otherwise nothing changes.
    pub fn next_retry(&mut self) -> (r: Option<String>)
        ensures
            same_identity(*final(self), *old(self)),
            should_retry_spec(*old(self)) ==> (r matches Some(p) && p@ == retry_prompt_spec(
                old(self).prompt@,
                old(self).code@,
                truncate_middle_spec(old(self).build_log@, 6000),
            ) && final(self).retries_used == old(self).retries_used + 1
                && final(self).code@.len() == 0 && final(self).phase == old(self).phase
                && final(self).revision == next_revision(old(self).revision)),
            !should_retry_spec(*old(self)) ==> r is None && *final(self) == *old(self),
            old(self).retries_used <= MAX_AUTO_RETRIES ==> final(self).retries_used
                <= MAX_AUTO_RETRIES,
    {
        if !should_auto_retry(self.phase, self.auto_fix, self.retries_used) {
            return None;
        }
        let prompt = build_retry_prompt(self.prompt.as_str(), self.code.as_str(), self.build_log.as_str());
        self.retries_used = self.retries_used + 1;
        self.code = String::new();
        self.bump();
        Some(prompt)
    }

    /// Re-prompting a creation with `prompt`: refused (`None`) while it
    /// streams or builds; otherwise the prompt is recorded, the last outcome
    /// and retries are cleared, and the prompt asking to edit the current
    /// code is returned.
    pub fn prepare_revision(&mut self, prompt: String) -> (r: Option<String>)
        ensures
            phase_is_busy(old(self).phase) ==> r is None && *final(self) == *old(self),
            !phase_is_busy(old(self).phase) ==> (r matches Some(p) && p@ == revision_prompt_spec(
                prompt@,
                old(self).code@,
            ) && same_identity(*final(self), *old(self)) && final(self).prompt == prompt
                && final(self).error is None && final(self).build_log@.len() == 0
                && final(self).artifact_path is None && final(self).retries_used == 0
                && final(self).code == old(self).code && final(self).phase == old(self).phase
                && final(self).revision == next_revision(old(self).revision)),
    {
        if is_busy(self.phase) {
            return None;
        }
        let text = build_revision_prompt(prompt.as_str(), self.code.as_str());
        self.prompt = prompt;
        self.error = None;
        self.build_log = String::new();
        self.artifact_path = None;
        self.retries_used = 0;
        self.bump();
        Some(text)
    }

    /// Turns auto-fix on or off.
    pub fn set_auto_fix(&mut self, enabled: bool)
        ensures
            same_identity(*final(self), *old(self)),
            final(self).auto_fix == enabled,
            final(self).phase == old(self).phase,
            final(self).retries_used == old(self).retries_used,
            final(self).revision == next_revision(old(self).revision),
    {
        self.auto_fix = enabled;
        self.bump();
    }
}

/// Whether a session retries automatically after its build.
pub open spec fn should_retry_spec(s: Session) -> bool {
    s.phase == ForgePhase::Error && s.auto_fix && s.retries_used < MAX_AUTO_RETRIES
}

/// A trimmed API key, or `None` when nothing but whitespace was given.
pub fn normalize_api_key(key: &str) -> (r: Option<String>)
    ensures
        match r {
            Some(k) => k@ == trim(key@) && k@.len() > 0,
            None => trim(key@).len() == 0,
        },
{
    let c = chars_of(key);
    let t = trim_chars(c.as_slice());
    if t.len() == 0 {
        None
    } else {
        Some(string_of(t.as_slice()))
    }
}

/// The id the next new creation gets after loading creations with `ids`:
/// one past the largest (1 when there are none).
pub fn next_id_after(ids: &[u64]) -> (r: Option<u64>)
    ensures
        match r {
            Some(n) => (forall|i: int| 0 <= i < ids@.len() ==> ids@[i] < n) && (ids@.len() == 0
                ==> n == 1) && (ids@.len() > 0 ==> exists|i: int|
                0 <= i < ids@.len() && ids@[i] + 1 == n),
            None => exists|i: int| 0 <= i < ids@.len() && ids@[i] == u64::MAX,
        },
{
    let mut max: u64 = 0;
    let mut i: usize = 0;
    while i < ids.len()
        invariant
            i <= ids@.len(),
            forall|j: int| 0 <= j < i ==> ids@[j] <= max,
            i > 0 ==> exists|j: int| 0 <= j < i && ids@[j] == max,
            i == 0 ==> max == 0,
        decreases ids@.len() - i,
    {
        if ids[i] > max {
            max = ids[i];
        }
        i = i + 1;
    }
    if max == u64::MAX {
        None
    } else {
        Some(max + 1)
    }
}

// ── Creation listing ───────────────────────────────────────────────────────

/// `a` lists before or together with `b`: newer update first, then the
/// larger id.
pub open spec fn lists_before(a: ForgeCreationSummary, b: ForgeCreationSummary) -> bool {
    a.updated_at_ms > b.updated_at_ms || (a.updated_at_ms == b.updated_at_ms && a.id >= b.id)
}

/// Index of the first entry of `s` that `x` lists before strictly.
pub open spec fn first_after(s: Seq<ForgeCreationSummary>, x: ForgeCreationSummary) -> int
    decreases s.len(),
{
    if s.len() == 0 {
        0
    } else if !lists_before(s[0], x) {
        0
    } else {
        1 + first_after(s.drop_first(), x)
    }
}

/// The listing order of creations: newest update first, larger id first on
/// equal times (a stable sort).
pub open spec fn creation_order(s: Seq<ForgeCreationSummary>) -> Seq<ForgeCreationSummary>
    decreases s.len(),
{
    if s.len() == 0 {
        s
    } else {
        let p = creation_order(s.drop_last());
        p.insert(first_after(p, s.last()), s.last())
    }
}

pub open spec fn is_creation_ordered(s: Seq<ForgeCreationSummary>) -> bool {
    forall|i: int, j: int| 0 <= i < j < s.len() ==> lists_before(s[i], s[j])
}

proof fn lemma_first_after(s: Seq<ForgeCreationSummary>, x: ForgeCreationSummary)
    requires
        is_creation_ordered(s),
    ensures
        0 <= first_after(s, x) <= s.len(),
        forall|i: int| 0 <= i < first_after(s, x) ==> lists_before(s[i], x),
        forall|i: int| first_after(s, x) <= i < s.len() ==> !lists_before(s[i], x),
    decreases s.len(),
{
    if s.len() > 0 {
        if lists_before(s[0], x) {
            let t = s.drop_first();
            assert forall|i: int, j: int| 0 <= i < j < t.len() implies lists_before(t[i], t[j]) by {
                assert(lists_before(s[i + 1], s[j + 1]));
            }
            lemma_first_after(t, x);
            assert forall|i: int| 0 <= i < first_after(s, x) implies lists_before(s[i], x) by {
                if i > 0 {
                    assert(s[i] == t[i - 1]);
                }
            }
            assert forall|i: int| first_after(s, x) <= i < s.len() implies !lists_before(s[i], x) by {
                assert(s[i] == t[i - 1]);
            }
        } else {
            assert forall|i: int| first_after(s, x) <= i < s.len() implies !lists_before(s[i], x) by {
                if i > 0 {
                    assert(lists_before(s[0], s[i]));
                }
            }
        }
    }
}

/// The creation listing is sorted newest first and keeps every creation.
pub proof fn law_creation_order_sorted(s: Seq<ForgeCreationSummary>)
    ensures
        is_creation_ordered(creation_order(s)),
        creation_order(s).to_multiset() == s.to_multiset(),
    decreases s.len(),
{
    if s.len() > 0 {
        let p = creation_order(s.drop_last());
        law_creation_order_sorted(s.drop_last());
        let x = s.last();
        lemma_first_after(p, x);
        let k = first_after(p, x);
        let q = p.insert(k, x);
        assert forall|i: int, j: int| 0 <= i < j < q.len() implies lists_before(q[i], q[j]) by {
            if j < k {
            } else if j == k {
            } else if i < k {
                assert(lists_before(q[i], x));
            } else if i == k {
            } else {
            }
        }
        assert(s =~= s.drop_last().push(x));
        vstd::seq_lib::to_multiset_insert(p, k, x);
        vstd::seq_lib::to_multiset_build(s.drop_last(), x);
    }
}

fn insertion_point(out: &Vec<ForgeCreationSummary>, x: &ForgeCreationSummary) -> (k: usize)
    ensures
        k as int == first_after(out@, *x),
{
    let mut k: usize = 0;
    proof {
        assert(out@.skip(0) =~= out@);
    }
    while k < out.len() && (out[k].updated_at_ms > x.updated_at_ms || (out[k].updated_at_ms
        == x.updated_at_ms && out[k].id >= x.id))
        invariant
            k <= out@.len(),
            first_after(out@, *x) == k + first_after(out@.skip(k as int), *x),
        decreases out@.len() - k,
    {
        proof {
            assert(out@.skip(k as int).drop_first() =~= out@.skip(k + 1));
        }
        k = k + 1;
    }
    k
}

/// Creations as listed: newest update first, larger id first on equal
/// times.
pub fn order_creations(items: Vec<ForgeCreationSummary>) -> (r: Vec<ForgeCreationSummary>)
    ensures
        r@ == creation_order(items@),
{
    let ghost all = items@;
    let mut rest = items;
    let mut out: Vec<ForgeCreationSummary> = Vec::new();
    let ghost mut done: int = 0;
    proof {
        assert(all.take(0) =~= Seq::<ForgeCreationSummary>::empty());
        assert(rest@ =~= all.skip(0));
    }
    while rest.len() > 0
        invariant
            0 <= done <= all.len(),
            rest@ == all.skip(done),
            out@ == creation_order(all.take(done)),
            is_creation_ordered(out@),
        decreases rest@.len(),
    {
        proof {
            assert(all.take(done + 1).drop_last() =~= all.take(done));
            assert(all.take(done + 1).last() == all[done]);
            assert(all.skip(done).skip(1) =~= all.skip(done + 1));
        }
        let x = rest.remove(0);
        let k = insertion_point(&out, &x);
        proof {
            lemma_first_after(out@, x);
            law_creation_order_sorted(all.take(done + 1));
        }
        out.insert(k, x);
        proof {
            done = done + 1;
        }
    }
    proof {
        assert(all.take(done) =~= all);
    }
    out
}

} // verus!
