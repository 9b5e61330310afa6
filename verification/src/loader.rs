//! Rules of the guest-module loader: which URL a navigation fetches, where
//! the module comes from, which responses are accepted, and how a failed
//! start is reported. Fetching, compiling and running live with the
//! embedder.

use vstd::prelude::*;
use crate::text::{append_chars, append_str, chars_of, find, find_str, first_index, has_suffix, slice_chars, string_of, trim, trim_chars, ends_with_str, dec, u64_to_dec};
use crate::url::{OxideUrl, UrlError};

verus! {

/// Current lifecycle state of a browser tab, reflected in the UI.
#[derive(Clone, Debug, PartialEq)]
pub enum PageStatus {
    /// No navigation in progress; ready for a new load.
    Idle,
    /// A module is being fetched or read (the string is the URL or path).
    Loading(String),
    /// Guest code is active; the string identifies the page.
    Running(String),
    /// Load, compile, or `start_app` failed; the string is the message.
    Error(String),
}

/// Maximum size of a `.wasm` module fetched over the network (50 MB).
pub const MAX_WASM_MODULE_SIZE: u64 = 52428800;

/// `s` up to the first `c` (all of `s` when there is none).
pub open spec fn before_char(s: Seq<char>, c: char) -> Seq<char> {
    match first_index(s, c) {
        Some(k) => s.take(k),
        None => s,
    }
}

/// `s` without its trailing run of `c`.
pub open spec fn strip_trailing(s: Seq<char>, c: char) -> Seq<char>
    decreases s.len(),
{
    if s.len() > 0 && s.last() == c {
        strip_trailing(s.drop_last(), c)
    } else {
        s
    }
}

/// The path of a URL as the loader sees it: from the first `/` after the
/// scheme separator (or `/`), without query and fragment.
pub open spec fn wasm_path(t: Seq<char>) -> Seq<char> {
    let path_part = match find(t, "://"@) {
        Some(p) => t.skip(p + 3),
        None => t,
    };
    let path = match first_index(path_part, '/') {
        Some(s) => path_part.skip(s),
        None => "/"@,
    };
    before_char(before_char(path, '?'), '#')
}

/// The URL a navigation loads: the trimmed input when its path names a
/// `.wasm` file, otherwise the input treated as a directory holding
/// `index.wasm`.
pub open spec fn resolve_spec(url: Seq<char>) -> Seq<char> {
    let t = trim(url);
    if t.len() == 0 {
        t
    } else if has_suffix(wasm_path(t), ".wasm"@) {
        t
    } else {
        strip_trailing(t, '/') + "/index.wasm"@
    }
}

pub(crate) fn before_char_chars(s: &[char], c: char) -> (r: Vec<char>)
    ensures
        r@ == before_char(s@, c),
{
    let mut p: Vec<char> = Vec::new();
    p.push(c);
    proof {
        assert(p@ =~= seq![c]);
    }
    let found = crate::text::find_chars(s, p.as_slice());
    proof {
        crate::text::lemma_find_from_props(s@, p@, 0);
    }
    match found {
        Some(k) => slice_chars(s, 0, k),
        None => slice_chars(s, 0, s.len()),
    }
}

pub(crate) fn strip_trailing_chars(s: &[char], c: char) -> (r: Vec<char>)
    ensures
        r@ == strip_trailing(s@, c),
{
    let mut n = s.len();
    proof {
        assert(s@.take(n as int) =~= s@);
    }
    while n > 0 && s[n - 1] == c
        invariant
            n <= s@.len(),
            strip_trailing(s@, c) == strip_trailing(s@.take(n as int), c),
        decreases n,
    {
        proof {
            assert(s@.take(n as int).drop_last() =~= s@.take(n - 1));
        }
        n = n - 1;
    }
    slice_chars(s, 0, n)
}

/// If the URL path doesn't already end with `.wasm`, treat it as a directory
/// and append `/index.wasm` (like `index.html` on a web server).
pub fn resolve_wasm_url(url: &str) -> (r: String)
    ensures
        r@ == resolve_spec(url@),
{
    let all = chars_of(url);
    let t = trim_chars(all.as_slice());
    if t.len() == 0 {
        return string_of(t.as_slice());
    }
    let sep = find_str(t.as_slice(), "://");
    proof {
        reveal_strlit("://");
        crate::text::lemma_find_from_props(t@, "://"@, 0);
    }
    let path_part = match sep {
        Some(p) => slice_chars(t.as_slice(), p + 3, t.len()),
        None => slice_chars(t.as_slice(), 0, t.len()),
    };
    proof {
        reveal_strlit("://");
    }
    let ghost pp = match find(t@, "://"@) {
        Some(p) => t@.skip(p + 3),
        None => t@,
    };
    proof {
        assert(path_part@ =~= pp);
    }
    let mut slash: Vec<char> = Vec::new();
    slash.push('/');
    proof {
        assert(slash@ =~= seq!['/']);
    }
    let first_slash = crate::text::find_chars(path_part.as_slice(), slash.as_slice());
    proof {
        crate::text::lemma_find_from_props(path_part@, slash@, 0);
    }
    let path = match first_slash {
        Some(s) => slice_chars(path_part.as_slice(), s, path_part.len()),
        None => chars_of("/"),
    };
    proof {
        reveal_strlit("/");
        assert(path@ =~= match first_index(pp, '/') {
            Some(s) => pp.skip(s),
            None => "/"@,
        });
    }
    let no_query = before_char_chars(path.as_slice(), '?');
    let no_frag = before_char_chars(no_query.as_slice(), '#');
    proof {
        assert(no_frag@ == wasm_path(t@));
    }
    if ends_with_str(no_frag.as_slice(), ".wasm") {
        return string_of(t.as_slice());
    }
    let mut base = strip_trailing_chars(t.as_slice(), '/');
    append_str(&mut base, "/index.wasm");
    string_of(base.as_slice())
}

/// Where a module is loaded from.
pub enum ModuleSource {
    /// Fetched over HTTP(S) from this URL.
    Network(String),
    /// Read from the local file named by this `file://` URL.
    LocalFile(OxideUrl),
}

/// Why a URL cannot be loaded.
pub enum LoadRefusal {
    BadUrl(UrlError),
    InternalPage,
    UnsupportedScheme(String),
}

impl LoadRefusal {
    /// The message shown for the refusal.
    pub fn message(&self) -> (r: String)
        ensures
            match self {
                LoadRefusal::BadUrl(_) => true,
                LoadRefusal::InternalPage => r@ == "oxide:// internal pages are not yet implemented"@,
                LoadRefusal::UnsupportedScheme(s) => r@ == "unsupported URL scheme: "@ + s@,
            },
    {
        match self {
            LoadRefusal::BadUrl(e) => e.message(),
            LoadRefusal::InternalPage => "oxide:// internal pages are not yet implemented".to_owned(),
            LoadRefusal::UnsupportedScheme(s) => {
                let mut out = chars_of("unsupported URL scheme: ");
                let sc = chars_of(s.as_str());
                append_chars(&mut out, sc.as_slice());
                proof {
                    reveal_strlit("unsupported URL scheme: ");
                }
                string_of(out.as_slice())
            },
        }
    }
}

/// Decides where the module named by `url` comes from: the network for
/// `http`/`https`, the file system for `file`; `oxide://` pages and other
/// schemes are refused.
pub fn module_source(url: &str) -> (r: Result<ModuleSource, LoadRefusal>)
    ensures
        match (r, crate::url::parse_spec(url@)) {
            (Err(LoadRefusal::BadUrl(e)), Err(ev)) => e@ == ev,
            (Ok(ModuleSource::Network(s)), Ok(f)) => s@ == f.0 && (f.1 == "http"@ || f.1 == "https"@),
            (Ok(ModuleSource::LocalFile(u)), Ok(f)) => u@ == f && f.1 == "file"@,
            (Err(LoadRefusal::InternalPage), Ok(f)) => f.1 == "oxide"@,
            (Err(LoadRefusal::UnsupportedScheme(s)), Ok(f)) => s@ == f.1 && f.1 != "http"@
                && f.1 != "https"@ && f.1 != "file"@ && f.1 != "oxide"@,
            _ => false,
        },
{
    match OxideUrl::parse(url) {
        Err(e) => Err(LoadRefusal::BadUrl(e)),
        Ok(u) => {
            if u.is_fetchable() {
                Ok(ModuleSource::Network(u.as_str().to_owned()))
            } else if u.is_local_file() {
                Ok(ModuleSource::LocalFile(u))
            } else if u.is_internal() {
                Err(LoadRefusal::InternalPage)
            } else {
                Err(LoadRefusal::UnsupportedScheme(u.scheme().to_owned()))
            }
        },
    }
}

/// Why a fetched module is refused.
pub enum WasmRefusal {
    /// The server answered with a status outside 200-299; the status as the
    /// HTTP client prints it (code and reason) and the URL.
    HttpStatus(u16, String, String),
    /// The response declared a content type that is not WebAssembly or
    /// raw bytes.
    ContentType(String),
    /// `Content-Length` announced more than [`MAX_WASM_MODULE_SIZE`].
    DeclaredTooLarge(u64),
    /// The body turned out larger than [`MAX_WASM_MODULE_SIZE`].
    BodyTooLarge(u64),
}

pub open spec fn contains(s: Seq<char>, p: Seq<char>) -> bool {
    find(s, p) is Some
}

/// Whether a declared content type is acceptable for a module: absent or
/// empty, or naming `application/wasm` or `application/octet-stream`.
pub open spec fn content_type_ok(ct: Seq<char>) -> bool {
    ct.len() == 0 || contains(ct, "application/wasm"@) || contains(ct, "application/octet-stream"@)
}

/// Checks the response headers of a module fetch: the content type first,
/// then the announced length.
pub fn check_wasm_headers(content_type: Option<&str>, content_length: Option<u64>) -> (r: Result<(), WasmRefusal>)
    ensures
        match r {
            Ok(()) => (content_type matches Some(ct) ==> content_type_ok(ct@))
                && (content_length matches Some(n) ==> n <= MAX_WASM_MODULE_SIZE),
            Err(WasmRefusal::ContentType(ct)) => content_type matches Some(c) && c@ == ct@
                && !content_type_ok(ct@),
            Err(WasmRefusal::DeclaredTooLarge(n)) => (content_type matches Some(ct) ==> content_type_ok(ct@))
                && content_length == Some(n) && n > MAX_WASM_MODULE_SIZE,
            Err(_) => false,
        },
{
    if let Some(ct) = content_type {
        let c = chars_of(ct);
        let ok = c.len() == 0 || find_str(c.as_slice(), "application/wasm").is_some() || find_str(
            c.as_slice(),
            "application/octet-stream",
        ).is_some();
        if !ok {
            return Err(WasmRefusal::ContentType(ct.to_owned()));
        }
    }
    if let Some(n) = content_length {
        if n > MAX_WASM_MODULE_SIZE {
            return Err(WasmRefusal::DeclaredTooLarge(n));
        }
    }
    Ok(())
}

/// Checks the status of a module fetch's response: only a success status
/// (200-299) is accepted. `status_text` is the status as the HTTP client
/// prints it, `url` the module's address; both go into the refusal.
pub fn check_wasm_status(status: u16, status_text: String, url: String) -> (r: Result<(), WasmRefusal>)
    ensures
        match r {
            Ok(()) => 200 <= status < 300,
            Err(WasmRefusal::HttpStatus(code, t, u)) => !(200 <= status < 300) && code == status
                && t == status_text && u == url,
            Err(_) => false,
        },
{
    if 200 <= status && status < 300 {
        Ok(())
    } else {
        Err(WasmRefusal::HttpStatus(status, status_text, url))
    }
}

/// Checks the size of a received module body.
pub fn check_wasm_body(len: u64) -> (r: Result<(), WasmRefusal>)
    ensures
        match r {
            Ok(()) => len <= MAX_WASM_MODULE_SIZE,
            Err(WasmRefusal::BodyTooLarge(n)) => n == len && len > MAX_WASM_MODULE_SIZE,
            Err(_) => false,
        },
{
    if len > MAX_WASM_MODULE_SIZE {
        Err(WasmRefusal::BodyTooLarge(len))
    } else {
        Ok(())
    }
}

impl WasmRefusal {
    /// The message shown for the refusal.
    pub fn message(&self) -> (r: String)
        ensures
            r@ == (match self {
                WasmRefusal::HttpStatus(_, t, u) => "server returned HTTP "@ + t@ + " for "@ + u@,
                WasmRefusal::ContentType(ct) => "unexpected Content-Type for .wasm module: "@ + ct@,
                WasmRefusal::DeclaredTooLarge(n) => "module too large ("@ + dec(*n as nat)
                    + " bytes, limit is 52428800)"@,
                WasmRefusal::BodyTooLarge(n) => "module body exceeds size limit ("@ + dec(*n as nat)
                    + " bytes)"@,
            }),
    {
        let mut out: Vec<char> = Vec::new();
        match self {
            WasmRefusal::HttpStatus(_, t, u) => {
                append_str(&mut out, "server returned HTTP ");
                append_str(&mut out, t.as_str());
                append_str(&mut out, " for ");
                append_str(&mut out, u.as_str());
            },
            WasmRefusal::ContentType(ct) => {
                append_str(&mut out, "unexpected Content-Type for .wasm module: ");
                append_str(&mut out, ct.as_str());
            },
            WasmRefusal::DeclaredTooLarge(n) => {
                append_str(&mut out, "module too large (");
                let d = u64_to_dec(*n);
                append_chars(&mut out, d.as_slice());
                append_str(&mut out, " bytes, limit is 52428800)");
            },
            WasmRefusal::BodyTooLarge(n) => {
                append_str(&mut out, "module body exceeds size limit (");
                let d = u64_to_dec(*n);
                append_chars(&mut out, d.as_slice());
                append_str(&mut out, " bytes)");
            },
        }
        string_of(out.as_slice())
    }
}

/// The status message for a guest whose `start_app` failed with `err`:
/// running out of fuel is reported as a probable infinite loop.
pub fn start_failure_message(err: &str) -> (r: String)
    ensures
        r@ == (if contains(err@, "fuel"@) {
            "Execution halted: fuel limit exceeded (possible infinite loop)"@
        } else {
            "Runtime error: "@ + err@
        }),
{
    let e = chars_of(err);
    if find_str(e.as_slice(), "fuel").is_some() {
        "Execution halted: fuel limit exceeded (possible infinite loop)".to_owned()
    } else {
        let mut out = chars_of("Runtime error: ");
        append_chars(&mut out, e.as_slice());
        proof {
            reveal_strlit("Runtime error: ");
        }
        string_of(out.as_slice())
    }
}

/// The console message for a guest callback (named by `label`, such as
/// `on_timer(7)`) that failed with `err`.
pub fn callback_failure_message(label: &str, err: &str) -> (r: String)
    ensures
        r@ == (if contains(err@, "fuel"@) {
            label@ + " fuel limit exceeded"@
        } else {
            label@ + " trapped: "@ + err@
        }),
{
    let e = chars_of(err);
    let mut out = chars_of(label);
    if find_str(e.as_slice(), "fuel").is_some() {
        append_str(&mut out, " fuel limit exceeded");
    } else {
        append_str(&mut out, " trapped: ");
        append_chars(&mut out, e.as_slice());
    }
    string_of(out.as_slice())
}

} // verus!
