//! Download bookkeeping for non-WASM resources.
//!
//! When the browser navigates to something that is not a `.wasm` module it
//! downloads the file instead. Several downloads can run at once; each has
//! a record (state, bytes received, total size) in a list that the UI polls.
//! The transfer itself and the speed figure live with the embedder; this
//! module owns the list, the naming of the saved file and the state rules.

use vstd::prelude::*;
use crate::text::{append_chars, append_str, chars_of, dec, has_char, lemma_split_char_len, slice_chars, split_char, split_chars, string_of, u64_to_dec};
use crate::url::{percent_decode, pct_decode, url_parse, utf8_lossy, whatwg_parse};

verus! {

/// Identifies a single download; allocated in increasing order.
pub type DownloadId = u64;

#[derive(Clone, Debug, PartialEq)]
pub enum DownloadState {
    InProgress,
    Completed,
    Failed(String),
    Cancelled,
}

impl DownloadState {
    pub fn is_in_progress(&self) -> (r: bool)
        ensures
            r == (*self is InProgress),
    {
        match self {
            DownloadState::InProgress => true,
            _ => false,
        }
    }

    pub fn is_cancelled(&self) -> (r: bool)
        ensures
            r == (*self is Cancelled),
    {
        match self {
            DownloadState::Cancelled => true,
            _ => false,
        }
    }
}

/// What the list keeps of one download.
#[derive(Clone, Debug)]
pub struct DownloadRecord {
    pub id: DownloadId,
    pub url: String,
    pub filename: String,
    pub state: DownloadState,
    pub bytes_downloaded: u64,
    /// `None` when the server omits `Content-Length`.
    pub total_bytes: Option<u64>,
}

impl DownloadRecord {
    /// Whether the download has stopped, one way or another.
    pub fn is_finished(&self) -> (r: bool)
        ensures
            r == !(self.state is InProgress),
    {
        !self.state.is_in_progress()
    }
}

/// Index of the first record with id `id`.
pub open spec fn find_id(rs: Seq<DownloadRecord>, id: DownloadId) -> Option<int>
    decreases rs.len(),
{
    if rs.len() == 0 {
        None
    } else {
        match find_id(rs.drop_last(), id) {
            Some(i) => Some(i),
            None => if rs.last().id == id {
                Some(rs.len() - 1)
            } else {
                None
            },
        }
    }
}

/// The records after changing the state of download `id`; `only_running`
/// leaves a finished download alone.
pub open spec fn with_state(
    rs: Seq<DownloadRecord>,
    id: DownloadId,
    st: DownloadState,
    only_running: bool,
) -> Seq<DownloadRecord> {
    match find_id(rs, id) {
        Some(i) => if only_running && !(rs[i].state is InProgress) {
            rs
        } else {
            rs.update(i, DownloadRecord { state: st, ..rs[i] })
        },
        None => rs,
    }
}

/// The records after cancelling download `id`: only a running download
/// becomes cancelled.
pub open spec fn cancel_spec(rs: Seq<DownloadRecord>, id: DownloadId) -> Seq<DownloadRecord> {
    with_state(rs, id, DownloadState::Cancelled, true)
}

/// The records without download `id`.
pub open spec fn dismiss_spec(rs: Seq<DownloadRecord>, id: DownloadId) -> Seq<DownloadRecord> {
    rs.filter(|d: DownloadRecord| d.id != id)
}

pub open spec fn any_active(rs: Seq<DownloadRecord>) -> bool {
    exists|i: int| 0 <= i < rs.len() && (#[trigger] rs[i]).state is InProgress
}

proof fn lemma_find_id(rs: Seq<DownloadRecord>, id: DownloadId)
    ensures
        match find_id(rs, id) {
            Some(i) => 0 <= i < rs.len() && rs[i].id == id && forall|j: int|
                0 <= j < i ==> (#[trigger] rs[j]).id != id,
            None => forall|j: int| 0 <= j < rs.len() ==> (#[trigger] rs[j]).id != id,
        },
    decreases rs.len(),
{
    if rs.len() > 0 {
        let p = rs.drop_last();
        lemma_find_id(p, id);
        match find_id(p, id) {
            Some(i) => {
                assert(rs[i] == p[i]);
                assert forall|j: int| 0 <= j < i implies (#[trigger] rs[j]).id != id by {
                    assert(rs[j] == p[j]);
                }
            },
            None => {
                assert forall|j: int| 0 <= j < rs.len() - 1 implies (#[trigger] rs[j]).id != id by {
                    assert(rs[j] == p[j]);
                }
            },
        }
    }
}

/// The list of downloads, oldest first, and the next id to hand out.
pub struct DownloadManager {
    records: Vec<DownloadRecord>,
    next_id: DownloadId,
}

impl DownloadManager {
    pub closed spec fn records(&self) -> Seq<DownloadRecord> {
        self.records@
    }

    pub closed spec fn next_id(&self) -> DownloadId {
        self.next_id
    }

    pub fn new() -> (r: Self)
        ensures
            r.records() == Seq::<DownloadRecord>::empty(),
            r.next_id() == 1,
    {
        DownloadManager { records: Vec::new(), next_id: 1 }
    }

    /// Records a new running download and returns its id.
    pub fn start(&mut self, url: String, filename: String) -> (id: DownloadId)
        requires
            old(self).next_id() < u64::MAX,
        ensures
            id == old(self).next_id(),
            final(self).next_id() == id + 1,
            final(self).records() == old(self).records().push(
                DownloadRecord {
                    id,
                    url,
                    filename,
                    state: DownloadState::InProgress,
                    bytes_downloaded: 0,
                    total_bytes: None,
                },
            ),
    {
        let id = self.next_id;
        self.next_id = self.next_id + 1;
        self.records.push(
            DownloadRecord {
                id,
                url,
                filename,
                state: DownloadState::InProgress,
                bytes_downloaded: 0,
                total_bytes: None,
            },
        );
        id
    }

    fn position(&self, id: DownloadId) -> (r: Option<usize>)
        ensures
            match r {
                Some(i) => find_id(self.records@, id) == Some(i as int),
                None => find_id(self.records@, id) is None,
            },
    {
        let mut i: usize = 0;
        while i < self.records.len()
            invariant
                i <= self.records@.len(),
                find_id(self.records@.take(i as int), id) is None,
            decreases self.records@.len() - i,
        {
            proof {
                assert(self.records@.take(i + 1).drop_last() =~= self.records@.take(i as int));
            }
            if self.records[i].id == id {
                proof {
                    lemma_find_prefix(self.records@, id, i as int + 1);
                }
                return Some(i);
            }
            i = i + 1;
        }
        proof {
            assert(self.records@.take(i as int) =~= self.records@);
        }
        None
    }

    fn put_state(&mut self, id: DownloadId, state: DownloadState, only_running: bool)
        ensures
            final(self).records() == with_state(old(self).records(), id, state, only_running),
            final(self).next_id() == old(self).next_id(),
    {
        let pos = self.position(id);
        proof {
            lemma_find_id(self.records@, id);
        }
        match pos {
            Some(i) => {
                if only_running && !self.records[i].state.is_in_progress() {
                    return ;
                }
                let rec = &mut self.records[i];
                rec.state = state;
            },
            None => {},
        }
    }

    /// Cancels download `id` if it is still running.
    pub fn cancel(&mut self, id: DownloadId)
        ensures
            final(self).records() == cancel_spec(old(self).records(), id),
            final(self).next_id() == old(self).next_id(),
    {
        self.put_state(id, DownloadState::Cancelled, true);
    }

    /// Sets the state of download `id`, whatever it was.
    pub fn set_state(&mut self, id: DownloadId, state: DownloadState)
        ensures
            final(self).records() == with_state(old(self).records(), id, state, false),
            final(self).next_id() == old(self).next_id(),
    {
        self.put_state(id, state, false);
    }

    /// Removes every record of download `id`.
    pub fn dismiss(&mut self, id: DownloadId)
        ensures
            final(self).records() == dismiss_spec(old(self).records(), id),
            final(self).next_id() == old(self).next_id(),
    {
        let ghost rs = self.records@;
        let mut rest: Vec<DownloadRecord> = Vec::new();
        std::mem::swap(&mut rest, &mut self.records);
        let mut kept: Vec<DownloadRecord> = Vec::new();
        let ghost mut done: int = 0;
        proof {
            assert(rs.take(0) =~= Seq::<DownloadRecord>::empty());
            reveal_with_fuel(Seq::<DownloadRecord>::filter, 1);
            assert(kept@ =~= dismiss_spec(rs.take(0), id));
            assert(rest@ =~= rs.skip(0));
        }
        while rest.len() > 0
            invariant
                0 <= done <= rs.len(),
                rest@ == rs.skip(done),
                kept@ == dismiss_spec(rs.take(done), id),
                self.next_id == old(self).next_id,
            decreases rest@.len(),
        {
            proof {
                reveal_with_fuel(Seq::<DownloadRecord>::filter, 1);
                assert(rs.take(done + 1).drop_last() =~= rs.take(done));
                assert(rs.take(done + 1).last() == rs[done]);
                assert(rs.skip(done).skip(1) =~= rs.skip(done + 1));
            }
            let rec = rest.remove(0);
            if rec.id != id {
                kept.push(rec);
            }
            proof {
                done = done + 1;
            }
        }
        proof {
            assert(rs.take(done) =~= rs);
        }
        self.records = kept;
    }

    /// Whether some download is still running.
    pub fn has_active(&self) -> (r: bool)
        ensures
            r == any_active(self.records()),
    {
        let mut i: usize = 0;
        while i < self.records.len()
            invariant
                i <= self.records@.len(),
                forall|j: int| 0 <= j < i ==> !((#[trigger] self.records@[j]).state is InProgress),
            decreases self.records@.len() - i,
        {
            if self.records[i].state.is_in_progress() {
                return true;
            }
            i = i + 1;
        }
        false
    }

    /// Whether download `id` has been cancelled (the transfer loop checks
    /// this before each chunk).
    pub fn is_cancelled(&self, id: DownloadId) -> (r: bool)
        ensures
            r == exists|i: int|
                0 <= i < self.records().len() && (#[trigger] self.records()[i]).id == id
                    && self.records()[i].state is Cancelled,
    {
        let mut i: usize = 0;
        while i < self.records.len()
            invariant
                i <= self.records@.len(),
                forall|j: int|
                    0 <= j < i ==> !((#[trigger] self.records@[j]).id == id
                        && self.records@[j].state is Cancelled),
            decreases self.records@.len() - i,
        {
            if self.records[i].id == id && self.records[i].state.is_cancelled() {
                return true;
            }
            i = i + 1;
        }
        false
    }

    /// Records the announced total size of download `id`.
    pub fn set_total(&mut self, id: DownloadId, total: Option<u64>)
        ensures
            final(self).records() == (match find_id(old(self).records(), id) {
                Some(i) => old(self).records().update(
                    i,
                    DownloadRecord { total_bytes: total, ..old(self).records()[i] },
                ),
                None => old(self).records(),
            }),
            final(self).next_id() == old(self).next_id(),
    {
        let pos = self.position(id);
        proof {
            lemma_find_id(self.records@, id);
        }
        if let Some(i) = pos {
            let rec = &mut self.records[i];
            rec.total_bytes = total;
        }
    }

    /// Records how many bytes of download `id` have arrived.
    pub fn set_downloaded(&mut self, id: DownloadId, bytes: u64)
        ensures
            final(self).records() == (match find_id(old(self).records(), id) {
                Some(i) => old(self).records().update(
                    i,
                    DownloadRecord { bytes_downloaded: bytes, ..old(self).records()[i] },
                ),
                None => old(self).records(),
            }),
            final(self).next_id() == old(self).next_id(),
    {
        let pos = self.position(id);
        proof {
            lemma_find_id(self.records@, id);
        }
        if let Some(i) = pos {
            let rec = &mut self.records[i];
            rec.bytes_downloaded = bytes;
        }
    }

    pub fn downloads(&self) -> (r: &[DownloadRecord])
        ensures
            r@ == self.records(),
    {
        self.records.as_slice()
    }
}

proof fn lemma_find_prefix(rs: Seq<DownloadRecord>, id: DownloadId, n: int)
    requires
        0 < n <= rs.len(),
        find_id(rs.take(n - 1), id) is None,
        rs[n - 1].id == id,
    ensures
        find_id(rs, id) == Some(n - 1),
    decreases rs.len(),
{
    if n < rs.len() {
        assert(rs.drop_last().take(n - 1) =~= rs.take(n - 1));
        lemma_find_prefix(rs.drop_last(), id, n);
    } else {
        assert(rs.drop_last() =~= rs.take(n - 1));
    }
}

// ── File naming ────────────────────────────────────────────────────────────

/// The last segment of a URL path (`Url::path_segments().next_back()`):
/// the text after the last `/`, for a path that starts with `/`.
pub open spec fn last_segment(path: Seq<char>) -> Option<Seq<char>> {
    if path.len() > 0 && path[0] == '/' {
        Some(split_char(path.drop_first(), '/').last())
    } else {
        None
    }
}

/// The name a download of `url` is saved under: the percent-decoded last
/// path segment, or `download` when the URL does not parse or its last
/// segment is empty.
pub open spec fn filename_spec(url: Seq<char>) -> Seq<char> {
    match whatwg_parse(url) {
        Ok(f) => match last_segment(f.4) {
            Some(seg) => if seg.len() > 0 {
                utf8_lossy(pct_decode(vstd::utf8::encode_utf8(seg)))
            } else {
                "download"@
            },
            None => "download"@,
        },
        Err(_) => "download"@,
    }
}

/// Extract a reasonable filename from a URL, falling back to `"download"`.
pub fn filename_from_url(url: &str) -> (r: String)
    ensures
        r@ == filename_spec(url@),
{
    proof {
        reveal_strlit("download");
    }
    match url_parse(url) {
        Ok(u) => {
            let p = chars_of(u.path());
            if p.len() > 0 && p[0] == '/' {
                let rest = slice_chars(p.as_slice(), 1, p.len());
                proof {
                    assert(rest@ =~= p@.drop_first());
                    lemma_split_char_len(rest@, '/');
                }
                let segs = split_chars(rest.as_slice(), '/');
                let n = segs.len();
                let last = &segs[n - 1];
                if last.len() > 0 {
                    let name = string_of(last.as_slice());
                    return percent_decode(name.as_str());
                }
            }
            "download".to_owned()
        },
        Err(_) => "download".to_owned(),
    }
}

/// Index of the last occurrence of `c` in `s`.
pub open spec fn last_index(s: Seq<char>, c: char) -> Option<int>
    decreases s.len(),
{
    if s.len() == 0 {
        None
    } else if s.last() == c {
        Some(s.len() - 1)
    } else {
        last_index(s.drop_last(), c)
    }
}

/// A file name that every platform reads as one plain path component.
pub open spec fn plain_file_name(n: Seq<char>) -> bool {
    &&& n.len() > 0
    &&& n != "."@
    &&& n != ".."@
    &&& !has_char(n, '/')
    &&& !has_char(n, '\\')
    &&& !has_char(n, ':')
}

/// `Path::file_stem` of a plain file name, as documented: the part before
/// the final `.`, or the whole name when it has no `.` past its first
/// character.
pub open spec fn doc_stem(n: Seq<char>) -> Seq<char> {
    match last_index(n, '.') {
        Some(k) => if k > 0 {
            n.take(k)
        } else {
            n
        },
        None => n,
    }
}

/// `Path::extension` of a plain file name, as documented: the part after
/// the final `.`, if that `.` is not the first character.
pub open spec fn doc_extension(n: Seq<char>) -> Option<Seq<char>> {
    match last_index(n, '.') {
        Some(k) => if k > 0 {
            Some(n.skip(k + 1))
        } else {
            None
        },
        None => None,
    }
}

/// `Path::new(name).file_stem()`, read as text (empty when there is none).
/// For a plain file name the result is the documented stem; for names with
/// separators, prefixes or dot components it depends on the platform's path
/// rules and nothing is stated.
#[verifier::external_body]
pub(crate) fn file_stem_text(name: &str) -> (r: String)
    ensures
        plain_file_name(name@) ==> r@ == doc_stem(name@),
{
    std::path::Path::new(name).file_stem().unwrap_or_default().to_string_lossy().into_owned()
}

/// `Path::new(name).extension()`, read as text. For a plain file name the
/// result is the documented extension; otherwise nothing is stated.
#[verifier::external_body]
pub(crate) fn extension_text(name: &str) -> (r: Option<String>)
    ensures
        plain_file_name(name@) ==> match r {
            Some(e) => doc_extension(name@) == Some(e@),
            None => doc_extension(name@) is None,
        },
{
    std::path::Path::new(name).extension().map(|e| e.to_string_lossy().into_owned())
}

/// The name tried at attempt `attempt` when saving `name`: the name itself
/// first, then `stem (attempt).ext`.
pub open spec fn candidate_spec(name: Seq<char>, attempt: u32) -> Seq<char> {
    if attempt == 0 {
        name
    } else {
        doc_stem(name) + " ("@ + dec(attempt as nat) + ")"@ + match doc_extension(name) {
            Some(e) => "."@ + e,
            None => Seq::<char>::empty(),
        }
    }
}

/// The file name tried at attempt `attempt` when `name` is taken: `name`
/// itself at attempt 0, then `stem (1).ext`, `stem (2).ext`, ...
pub fn candidate_name(name: &str, attempt: u32) -> (r: String)
    ensures
        attempt == 0 ==> r@ == name@,
        plain_file_name(name@) ==> r@ == candidate_spec(name@, attempt),
{
    if attempt == 0 {
        return name.to_owned();
    }
    let stem = file_stem_text(name);
    let ext = extension_text(name);
    let mut out = chars_of(stem.as_str());
    append_str(&mut out, " (");
    let d = u64_to_dec(attempt as u64);
    append_chars(&mut out, d.as_slice());
    append_str(&mut out, ")");
    let ghost mid = out@;
    match ext {
        Some(e) => {
            append_str(&mut out, ".");
            append_str(&mut out, e.as_str());
        },
        None => {},
    }
    proof {
        reveal_strlit(" (");
        reveal_strlit(")");
        reveal_strlit(".");
        if plain_file_name(name@) {
            assert(out@ =~= candidate_spec(name@, attempt));
        }
    }
    string_of(out.as_slice())
}

// ── Laws ───────────────────────────────────────────────────────────────────

/// Cancelling twice is the same as cancelling once.
pub proof fn law_cancel_idempotent(rs: Seq<DownloadRecord>, id: DownloadId)
    ensures
        cancel_spec(cancel_spec(rs, id), id) == cancel_spec(rs, id),
{
    lemma_find_id(rs, id);
    match find_id(rs, id) {
        Some(i) => {
            let c = cancel_spec(rs, id);
            lemma_find_id(c, id);
            lemma_find_unique_prefix(rs, c, id, i);
        },
        None => {},
    }
}

proof fn lemma_find_unique_prefix(rs: Seq<DownloadRecord>, c: Seq<DownloadRecord>, id: DownloadId, i: int)
    requires
        find_id(rs, id) == Some(i),
        c.len() == rs.len(),
        forall|j: int| 0 <= j < rs.len() ==> (#[trigger] c[j]).id == rs[j].id,
    ensures
        find_id(c, id) == Some(i),
{
    lemma_find_id(rs, id);
    lemma_find_id(c, id);
    match find_id(c, id) {
        Some(k) => {
            assert(c[k].id == rs[k].id);
            assert(c[i].id == rs[i].id);
        },
        None => {
            assert(c[i].id == rs[i].id);
        },
    }
}

/// Cancelling never touches a download that has already finished, and a
/// running one ends up cancelled.
pub proof fn law_cancel_only_running(rs: Seq<DownloadRecord>, id: DownloadId, i: int)
    requires
        0 <= i < rs.len(),
        rs[i].id == id,
        forall|j: int| 0 <= j < rs.len() && j != i ==> (#[trigger] rs[j]).id != id,
    ensures
        !(rs[i].state is InProgress) ==> cancel_spec(rs, id) == rs,
        rs[i].state is InProgress ==> cancel_spec(rs, id)[i].state is Cancelled,
        cancel_spec(rs, id).len() == rs.len(),
{
    lemma_find_id(rs, id);
}

/// After dismissing `id` no record of it is left, and every other record
/// is kept in order.
pub proof fn law_dismiss_removes(rs: Seq<DownloadRecord>, id: DownloadId)
    ensures
        forall|j: int| 0 <= j < dismiss_spec(rs, id).len() ==> (#[trigger] dismiss_spec(rs, id)[j]).id != id,
        forall|j: int| 0 <= j < rs.len() && rs[j].id != id ==> dismiss_spec(rs, id).contains(#[trigger] rs[j]),
{
    let f = |d: DownloadRecord| d.id != id;
    assert forall|j: int| 0 <= j < dismiss_spec(rs, id).len() implies (#[trigger] dismiss_spec(rs, id)[j]).id != id by {
        rs.filter_lemma(f);
    }
    assert forall|j: int| 0 <= j < rs.len() && rs[j].id != id implies dismiss_spec(rs, id).contains(#[trigger] rs[j]) by {
        rs.filter_lemma(f);
    }
}

/// A download that was just started counts as active.
pub proof fn law_started_is_active(rs: Seq<DownloadRecord>, r: DownloadRecord)
    requires
        r.state is InProgress,
    ensures
        any_active(rs.push(r)),
{
    assert(rs.push(r)[rs.len() as int] == r);
}

} // verus!
