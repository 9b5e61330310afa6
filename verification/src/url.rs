//! WHATWG URL Standard compliant URL parsing for the Oxide browser.
//!
//! Parsing, resolution and mutation are done by the `url` crate (which
//! implements the WHATWG URL spec); this module keeps the parsed fields as
//! plain values and adds Oxide-specific scheme handling (`oxide://` for
//! internal pages) alongside standard `http`, `https`, and `file` schemes.

use vstd::prelude::*;
use vstd::string::StringSliceAdditionalSpecFns;
use vstd::utf8::{
    decode_utf8, encode_utf8, encode_utf8_decode_utf8, encode_utf8_valid_utf8, is_ascii_chars,
    is_ascii_chars_encode_utf8, valid_utf8,
};
use crate::text::{
    append_chars, append_str, chars_eq_str, chars_of, dec, find, find_str, has_prefix, is_ws,
    lemma_find_from_props, match_at, starts_with_str, string_of, trim, trim_chars, trim_end,
    trim_start,
};

verus! {

/// Fields of a parsed URL, as plain values: serialization, scheme, host,
/// explicit port, path, query, fragment.
pub type UrlFields = (
    Seq<char>,
    Seq<char>,
    Option<Seq<char>>,
    Option<u16>,
    Seq<char>,
    Option<Seq<char>>,
    Option<Seq<char>>,
);

/// What `url::Url::parse` makes of `input`: the fields of the URL, or the
/// text of the parse error.
pub uninterp spec fn whatwg_parse(input: Seq<char>) -> Result<UrlFields, Seq<char>>;

/// What `url::Url::join` makes of `reference` against the URL serialized as
/// `base`: the fields of the URL, or the text of the error.
pub uninterp spec fn whatwg_join(base: Seq<char>, reference: Seq<char>) -> Result<
    UrlFields,
    Seq<char>,
>;

/// The URL serialized as `url` after `url::Url::set_fragment(fragment)`, or
/// `None` when `url` does not parse.
pub uninterp spec fn whatwg_set_fragment(url: Seq<char>, fragment: Option<Seq<char>>) -> Option<
    UrlFields,
>;

/// The URL serialized as `url` after `url::Url::set_query(query)`, or
/// `None` when `url` does not parse.
pub uninterp spec fn whatwg_set_query(url: Seq<char>, query: Option<Seq<char>>) -> Option<
    UrlFields,
>;

/// `url::Url::origin` of the URL serialized as `url`: `Some((scheme, host,
/// port))` for a tuple origin, `None` for an opaque one.
pub uninterp spec fn whatwg_origin(url: Seq<char>) -> Option<(Seq<char>, Seq<char>, u16)>;

/// The name/value pairs that `form_urlencoded::parse` decodes from `query`.
pub uninterp spec fn form_pairs(query: Seq<char>) -> Seq<(Seq<char>, Seq<char>)>;

#[verifier::external_type_specification]
#[verifier::external_body]
pub struct ExPathBuf(std::path::PathBuf);

/// A parsed URL whose scheme is one Oxide supports.
#[derive(Debug, Hash)]
pub struct OxideUrl {
    serialization: String,
    scheme: String,
    host: Option<String>,
    port: Option<u16>,
    path: String,
    query: Option<String>,
    fragment: Option<String>,
}

pub open spec fn opt_view(o: Option<String>) -> Option<Seq<char>> {
    match o {
        Some(s) => Some(s@),
        None => None,
    }
}

pub open spec fn opt_str_view(o: Option<&str>) -> Option<Seq<char>> {
    match o {
        Some(s) => Some(s@),
        None => None,
    }
}

impl OxideUrl {
    /// Every URL the library hands out re-parses from its own text with its
    /// scheme, so an `http` or `https` URL has a tuple origin.
    #[verifier::type_invariant]
    spec fn reparses(self) -> bool {
        origin_consistent(self@)
    }
}

fn clone_opt(o: &Option<String>) -> (r: Option<String>)
    ensures
        opt_view(r) == opt_view(*o),
{
    match o {
        Some(x) => Some(x.clone()),
        None => None,
    }
}

impl Clone for OxideUrl {
    /// A copy with the same fields.
    fn clone(&self) -> (r: Self)
        ensures
            r@ == self@,
    {
        proof {
            use_type_invariant(self);
        }
        OxideUrl {
            serialization: self.serialization.clone(),
            scheme: self.scheme.clone(),
            host: clone_opt(&self.host),
            port: self.port,
            path: self.path.clone(),
            query: clone_opt(&self.query),
            fragment: clone_opt(&self.fragment),
        }
    }
}

impl View for OxideUrl {
    type V = UrlFields;

    closed spec fn view(&self) -> UrlFields {
        (
            self.serialization@,
            self.scheme@,
            opt_view(self.host),
            self.port,
            self.path@,
            opt_view(self.query),
            opt_view(self.fragment),
        )
    }
}

#[derive(Debug)]
pub enum UrlError {
    Parse(String),
    UnsupportedScheme(String),
    Empty,
    RelativeRequiresBase,
}

/// A [`UrlError`] as plain values.
pub enum UrlErrorView {
    Parse(Seq<char>),
    UnsupportedScheme(Seq<char>),
    Empty,
    RelativeRequiresBase,
}

impl View for UrlError {
    type V = UrlErrorView;

    open spec fn view(&self) -> UrlErrorView {
        match self {
            UrlError::Parse(m) => UrlErrorView::Parse(m@),
            UrlError::UnsupportedScheme(s) => UrlErrorView::UnsupportedScheme(s@),
            UrlError::Empty => UrlErrorView::Empty,
            UrlError::RelativeRequiresBase => UrlErrorView::RelativeRequiresBase,
        }
    }
}

pub open spec fn result_view(r: Result<OxideUrl, UrlError>) -> Result<UrlFields, UrlErrorView> {
    match r {
        Ok(u) => Ok(u@),
        Err(e) => Err(e@),
    }
}

impl UrlError {
    /// The human-readable message of this error.
    pub fn message(&self) -> (r: String)
        ensures
            r@ == (match self@ {
                UrlErrorView::Parse(m) => "URL parse error: "@ + m,
                UrlErrorView::UnsupportedScheme(s) => "unsupported URL scheme: "@ + s,
                UrlErrorView::Empty => "empty URL"@,
                UrlErrorView::RelativeRequiresBase => "relative URL cannot be parsed without a base URL"@,
            }),
    {
        let mut out: Vec<char> = Vec::new();
        match self {
            UrlError::Parse(msg) => {
                append_str(&mut out, "URL parse error: ");
                append_str(&mut out, msg.as_str());
            },
            UrlError::UnsupportedScheme(s) => {
                append_str(&mut out, "unsupported URL scheme: ");
                append_str(&mut out, s.as_str());
            },
            UrlError::Empty => {
                append_str(&mut out, "empty URL");
            },
            UrlError::RelativeRequiresBase => {
                append_str(&mut out, "relative URL cannot be parsed without a base URL");
            },
        }
        proof {
            assert(out@ =~= (match self@ {
                UrlErrorView::Parse(m) => "URL parse error: "@ + m,
                UrlErrorView::UnsupportedScheme(s) => "unsupported URL scheme: "@ + s,
                UrlErrorView::Empty => "empty URL"@,
                UrlErrorView::RelativeRequiresBase => "relative URL cannot be parsed without a base URL"@,
            }));
        }
        string_of(out.as_slice())
    }
}

// ── Calls into the `url` crate ─────────────────────────────────────────────

/// Reading the text `f.0` of a URL with fields `f` again gives the same
/// scheme; so an `http` or `https` URL's own text has a tuple origin (its
/// scheme is one `url::Url::origin` gives tuple origins for, and those have
/// schemes of [`tuple_scheme`]).
pub open spec fn origin_consistent(f: UrlFields) -> bool {
    (f.1 == "http"@ || f.1 == "https"@) ==> (whatwg_origin(f.0) matches Some(o) && tuple_scheme(o.0))
}


/// `url::Url::parse(input)`; the fields are read with the `Url` accessors and
/// a parse error is turned into its message. The URL's text re-parses with
/// its scheme (the crate's serialization round-trips).
#[verifier::external_body]
pub(crate) fn url_parse(input: &str) -> (r: Result<OxideUrl, String>)
    ensures
        match r {
            Ok(u) => whatwg_parse(input@) == Ok::<UrlFields, Seq<char>>(u@),
            Err(e) => whatwg_parse(input@) == Err::<UrlFields, Seq<char>>(e@),
        },
        r matches Ok(u) ==> origin_consistent(u@),
{
    match url::Url::parse(input) {
        Ok(u) => Ok(OxideUrl {
            serialization: u.as_str().to_string(),
            scheme: u.scheme().to_string(),
            host: u.host_str().map(str::to_string),
            port: u.port(),
            path: u.path().to_string(),
            query: u.query().map(str::to_string),
            fragment: u.fragment().map(str::to_string),
        }),
        Err(e) => Err(e.to_string()),
    }
}

/// `url::Url::join(reference)` on the URL serialized as `base`.
#[verifier::external_body]
pub(crate) fn url_join(base: &str, reference: &str) -> (r: Result<OxideUrl, String>)
    ensures
        match r {
            Ok(u) => whatwg_join(base@, reference@) == Ok::<UrlFields, Seq<char>>(u@),
            Err(e) => whatwg_join(base@, reference@) == Err::<UrlFields, Seq<char>>(e@),
        },
        r matches Ok(u) ==> origin_consistent(u@),
{
    let b = match url::Url::parse(base) { Ok(b) => b, Err(e) => return Err(e.to_string()) };
    match b.join(reference) {
        Ok(u) => Ok(OxideUrl {
            serialization: u.as_str().to_string(),
            scheme: u.scheme().to_string(),
            host: u.host_str().map(str::to_string),
            port: u.port(),
            path: u.path().to_string(),
            query: u.query().map(str::to_string),
            fragment: u.fragment().map(str::to_string),
        }),
        Err(e) => Err(e.to_string()),
    }
}

/// `url::Url::set_fragment(fragment)` on the URL serialized as `url`.
#[verifier::external_body]
fn url_set_fragment(url: &str, fragment: Option<&str>) -> (r: Option<OxideUrl>)
    ensures
        match r {
            Some(u) => whatwg_set_fragment(url@, opt_str_view(fragment)) == Some(u@),
            None => whatwg_set_fragment(url@, opt_str_view(fragment)) is None,
        },
        r matches Some(u) ==> origin_consistent(u@),
{
    let mut u = match url::Url::parse(url) {
        Ok(u) => u,
        Err(_) => return None,
    };
    u.set_fragment(fragment);
    Some(OxideUrl {
        serialization: u.as_str().to_string(),
        scheme: u.scheme().to_string(),
        host: u.host_str().map(str::to_string),
        port: u.port(),
        path: u.path().to_string(),
        query: u.query().map(str::to_string),
        fragment: u.fragment().map(str::to_string),
    })
}

/// `url::Url::set_query(query)` on the URL serialized as `url`.
#[verifier::external_body]
fn url_set_query(url: &str, query: Option<&str>) -> (r: Option<OxideUrl>)
    ensures
        match r {
            Some(u) => whatwg_set_query(url@, opt_str_view(query)) == Some(u@),
            None => whatwg_set_query(url@, opt_str_view(query)) is None,
        },
        r matches Some(u) ==> origin_consistent(u@),
{
    let mut u = match url::Url::parse(url) {
        Ok(u) => u,
        Err(_) => return None,
    };
    u.set_query(query);
    Some(OxideUrl {
        serialization: u.as_str().to_string(),
        scheme: u.scheme().to_string(),
        host: u.host_str().map(str::to_string),
        port: u.port(),
        path: u.path().to_string(),
        query: u.query().map(str::to_string),
        fragment: u.fragment().map(str::to_string),
    })
}

/// `url::Url::origin` of the URL serialized as `url`, with a tuple origin as
/// `(scheme, host, port)` and an opaque one as `None`. As the crate's
/// `url_origin` shows, only the schemes `ftp`, `http`, `https`, `ws` and
/// `wss` give tuple origins, and an `http` or `https` URL always has one.
#[verifier::external_body]
fn url_origin(url: &str) -> (r: Option<(String, String, u16)>)
    ensures
        match r {
            Some(t) => whatwg_origin(url@) == Some((t.0@, t.1@, t.2)),
            None => whatwg_origin(url@) is None,
        },
        r matches Some(t) ==> tuple_scheme(t.0@),
        whatwg_parse(url@) matches Ok(f) && (f.1 == "http"@ || f.1 == "https"@) ==> r is Some,
{
    match url::Url::parse(url) {
        Ok(u) => match u.origin() {
            url::Origin::Tuple(scheme, host, port) => Some((scheme, host.to_string(), port)),
            url::Origin::Opaque(_) => None,
        },
        Err(_) => None,
    }
}

/// Whether `url::Url::to_file_path` refuses the URL with these fields on
/// every platform: its path does not start with `/` (it has no path
/// segments), or it is not a `file` URL and has a host other than
/// `localhost`.
pub open spec fn no_file_path(f: UrlFields) -> bool {
    !has_prefix(f.4, "/"@) || (f.1 != "file"@ && (f.2 matches Some(h) && h != "localhost"@))
}

/// `url::Url::to_file_path` of the URL serialized as `url`: `None` when the
/// text does not parse, or when the parsed URL has no path segments or a
/// host other than `localhost` outside the `file` scheme (the crate returns
/// `Err` there on every platform). What path a successful call gives, and
/// when it succeeds otherwise, depend on the platform and are not stated.
#[verifier::external_body]
fn url_file_path(url: &str) -> (r: Option<std::path::PathBuf>)
    ensures
        match whatwg_parse(url@) {
            Err(_) => r is None,
            Ok(f) => no_file_path(f) ==> r is None,
        },
{
    url::Url::parse(url).ok().and_then(|u| u.to_file_path().ok())
}

/// `form_urlencoded::parse` of `query`, each pair turned into owned strings.
#[verifier::external_body]
fn form_urlencoded_pairs(query: &str) -> (r: Vec<(String, String)>)
    ensures
        r@.map_values(|p: (String, String)| (p.0@, p.1@)) == form_pairs(query@),
{
    url::form_urlencoded::parse(query.as_bytes()).into_owned().collect()
}

// ── OxideUrl ───────────────────────────────────────────────────────────────

pub open spec fn supported_scheme(s: Seq<char>) -> bool {
    s == "http"@ || s == "https"@ || s == "file"@ || s == "oxide"@
}

/// The string handed to the URL parser: inputs without `://` (and not
/// starting with `//`) are taken as bare host names and get `https://`.
pub open spec fn normalized_input(t: Seq<char>) -> Seq<char> {
    if find(t, "://"@) is Some || has_prefix(t, "//"@) {
        t
    } else {
        "https://"@ + t
    }
}

pub open spec fn check_scheme(r: Result<UrlFields, Seq<char>>) -> Result<UrlFields, UrlErrorView> {
    match r {
        Err(m) => Err(UrlErrorView::Parse(m)),
        Ok(f) => if supported_scheme(f.1) {
            Ok(f)
        } else {
            Err(UrlErrorView::UnsupportedScheme(f.1))
        },
    }
}

/// What [`OxideUrl::parse`] returns for `input`.
pub open spec fn parse_spec(input: Seq<char>) -> Result<UrlFields, UrlErrorView> {
    let t = trim(input);
    if t.len() == 0 {
        Err(UrlErrorView::Empty)
    } else if (has_prefix(t, "/"@) || has_prefix(t, "."@)) && !has_prefix(t, "//"@) {
        Err(UrlErrorView::RelativeRequiresBase)
    } else {
        check_scheme(whatwg_parse(normalized_input(t)))
    }
}

proof fn lemma_trim_end_last(s: Seq<char>)
    ensures
        trim_end(s).len() > 0 ==> !is_ws(trim_end(s).last()),
        trim_end(s).len() <= s.len(),
    decreases s.len(),
{
    if s.len() > 0 && is_ws(s.last()) {
        lemma_trim_end_last(s.drop_last());
    }
}

/// A bare host name is taken as an `https` URL: when the trimmed input is
/// neither empty nor relative and holds no `://`, parsing it gives what
/// parsing it with `https://` in front gives.
pub proof fn law_bare_host_is_https(input: Seq<char>)
    requires
        trim(input).len() > 0,
        !has_prefix(trim(input), "/"@),
        !has_prefix(trim(input), "."@),
        find(trim(input), "://"@) is None,
    ensures
        parse_spec(input) == parse_spec("https://"@ + trim(input)),
{
    reveal_strlit("https://");
    reveal_strlit("://");
    reveal_strlit("/");
    reveal_strlit("//");
    reveal_strlit(".");
    let t = trim(input);
    let u = "https://"@ + t;
    lemma_trim_end_last(trim_start(input));
    assert(!is_ws(t.last()));
    assert(u.last() == t.last());
    assert(!is_ws(u[0]));
    assert(trim_start(u) == u);
    assert(trim_end(u) == u);
    assert(trim(u) == u);
    assert(!has_prefix(t, "//"@)) by {
        if has_prefix(t, "//"@) {
            assert("//"@[0] == '/');
            assert(t.take(2)[0] == t[0]);
            assert(t[0] == '/');
            assert(t.take(1) =~= "/"@);
        }
    }
    assert(!has_prefix(u, "/"@)) by {
        if has_prefix(u, "/"@) {
            assert(u.take(1)[0] == u[0]);
            assert(u[0] == 'h');
            assert("/"@[0] == '/');
        }
    }
    assert(!has_prefix(u, "."@)) by {
        if has_prefix(u, "."@) {
            assert(u.take(1)[0] == u[0]);
            assert(u[0] == 'h');
            assert("."@[0] == '.');
        }
    }
    assert(u.subrange(5, 8) =~= "://"@);
    assert(match_at(u, "://"@, 5));
    lemma_find_from_props(u, "://"@, 0);
    assert(find(u, "://"@) is Some);
    assert(normalized_input(t) == u);
    assert(normalized_input(u) == u);
}

/// Exactly one of "fetchable" (`http`/`https`), "local file" (`file`) and
/// "internal page" (`oxide`) holds of a scheme.
pub open spec fn one_kind(scheme: Seq<char>) -> bool {
    let fetchable = scheme == "http"@ || scheme == "https"@;
    let local = scheme == "file"@;
    let internal = scheme == "oxide"@;
    &&& fetchable || local || internal
    &&& !(fetchable && local)
    &&& !(fetchable && internal)
    &&& !(local && internal)
}

proof fn lemma_supported_one_kind(scheme: Seq<char>)
    requires
        supported_scheme(scheme),
    ensures
        one_kind(scheme),
{
    reveal_strlit("http");
    reveal_strlit("https");
    reveal_strlit("file");
    reveal_strlit("oxide");
    assert("http"@[0] != "file"@[0]);
    assert("https"@[0] != "oxide"@[0]);
}

/// Every URL that parsing or joining gives is of exactly one kind:
/// fetchable, a local file, or an internal page.
pub proof fn law_url_has_one_kind(input: Seq<char>, base: Seq<char>, reference: Seq<char>)
    ensures
        parse_spec(input) matches Ok(f) ==> one_kind(f.1),
        check_scheme(whatwg_join(base, reference)) matches Ok(f) ==> one_kind(f.1),
{
    if let Ok(f) = parse_spec(input) {
        lemma_supported_one_kind(f.1);
    }
    if let Ok(f) = check_scheme(whatwg_join(base, reference)) {
        lemma_supported_one_kind(f.1);
    }
}

/// The schemes of tuple origins.
pub open spec fn tuple_scheme(s: Seq<char>) -> bool {
    s == "ftp"@ || s == "http"@ || s == "https"@ || s == "ws"@ || s == "wss"@
}

/// The origin of the URL serialized as `url` written out: `scheme://host:port`
/// for a tuple origin, else the URL's own scheme `scheme`.
pub open spec fn origin_text(url: Seq<char>, scheme: Seq<char>) -> Seq<char> {
    match whatwg_origin(url) {
        None => scheme,
        Some(t) => t.0 + "://"@ + t.1 + ":"@ + dec(t.2 as nat),
    }
}

/// Whether the URLs serialized as `a` and `b` share a tuple origin.
pub open spec fn same_origin_spec(a: Seq<char>, b: Seq<char>) -> bool {
    whatwg_origin(a) is Some && whatwg_origin(a) == whatwg_origin(b)
}

proof fn lemma_tuple_scheme_chars(s: Seq<char>)
    requires
        tuple_scheme(s),
    ensures
        s.len() >= 2,
        forall|i: int| 0 <= i < s.len() ==> s[i] != ':',
{
    reveal_strlit("ftp");
    reveal_strlit("http");
    reveal_strlit("https");
    reveal_strlit("ws");
    reveal_strlit("wss");
}

proof fn lemma_dec_digits(n: nat)
    ensures
        dec(n).len() >= 1,
        n >= 10 ==> dec(n).len() >= 2,
        forall|i: int| 0 <= i < dec(n).len() ==> '0' <= #[trigger] dec(n)[i] <= '9',
    decreases n,
{
    if n >= 10 {
        lemma_dec_digits(n / 10);
        let p = dec(n / 10);
        assert forall|i: int| 0 <= i < dec(n).len() implies '0' <= #[trigger] dec(n)[i] <= '9' by {
            if i < p.len() {
                assert(dec(n)[i] == p[i]);
            }
        }
    }
}

proof fn lemma_dec_injective(n: nat, m: nat)
    requires
        dec(n) == dec(m),
    ensures
        n == m,
    decreases n,
{
    lemma_dec_digits(n);
    lemma_dec_digits(m);
    if n < 10 {
        assert(dec(n) == seq![(((n + 48) as u32) as char)]);
    } else {
        assert(dec(n) == dec(n / 10).push((((n % 10) + 48) as u32) as char));
    }
    if m < 10 {
        assert(dec(m) == seq![(((m + 48) as u32) as char)]);
    } else {
        assert(dec(m) == dec(m / 10).push((((m % 10) + 48) as u32) as char));
    }
    if n < 10 && m < 10 {
        let c1 = ((n + 48) as u32) as char;
        let c2 = ((m + 48) as u32) as char;
        assert(dec(n)[0] == c1);
        assert(dec(m)[0] == c2);
        assert(c1 == c2);
        assert(c1 as u32 == n + 48);
        assert(c2 as u32 == m + 48);
        assert(c1 as u32 == c2 as u32);
    } else if n >= 10 && m >= 10 {
        let c1 = ((n % 10 + 48) as u32) as char;
        let c2 = ((m % 10 + 48) as u32) as char;
        assert(dec(n).last() == c1);
        assert(dec(m).last() == c2);
        assert(dec(n).last() == dec(m).last());
        assert(c1 as u32 == n % 10 + 48);
        assert(c2 as u32 == m % 10 + 48);
        assert(c1 as u32 == c2 as u32);
        assert(dec(n).drop_last() =~= dec(n / 10));
        assert(dec(m).drop_last() =~= dec(m / 10));
        lemma_dec_injective(n / 10, m / 10);
        assert(n % 10 == m % 10);
        assert(n == 10 * (n / 10) + n % 10) by (nonlinear_arith);
        assert(m == 10 * (m / 10) + m % 10) by (nonlinear_arith);
    }
}

proof fn lemma_split_at_last_colon(h1: Seq<char>, d1: Seq<char>, h2: Seq<char>, d2: Seq<char>)
    requires
        forall|i: int| 0 <= i < d1.len() ==> d1[i] != ':',
        forall|i: int| 0 <= i < d2.len() ==> d2[i] != ':',
        h1 + seq![':'] + d1 == h2 + seq![':'] + d2,
    ensures
        h1 == h2,
        d1 == d2,
{
    let w1 = h1 + seq![':'] + d1;
    let w2 = h2 + seq![':'] + d2;
    if d1.len() < d2.len() {
        let k = w1.len() - d1.len() - 1;
        assert(w1[k] == ':');
        assert(w2[k] == d2[k - h2.len() - 1]);
    } else if d2.len() < d1.len() {
        let k = w2.len() - d2.len() - 1;
        assert(w2[k] == ':');
        assert(w1[k] == d1[k - h1.len() - 1]);
    }
    assert(d1 =~= w1.skip(w1.len() - d1.len()));
    assert(d2 =~= w2.skip(w2.len() - d2.len()));
    assert(h1 =~= w1.take(h1.len() as int));
    assert(h2 =~= w2.take(h2.len() as int));
}

proof fn lemma_split_scheme(s1: Seq<char>, r1: Seq<char>, s2: Seq<char>, r2: Seq<char>)
    requires
        tuple_scheme(s1),
        tuple_scheme(s2),
        s1 + "://"@ + r1 == s2 + "://"@ + r2,
    ensures
        s1 == s2,
        r1 == r2,
{
    reveal_strlit("://");
    lemma_tuple_scheme_chars(s1);
    lemma_tuple_scheme_chars(s2);
    let w1 = s1 + "://"@ + r1;
    let w2 = s2 + "://"@ + r2;
    if s1.len() < s2.len() {
        assert(w1[s1.len() as int] == ':');
        assert(w2[s1.len() as int] == s2[s1.len() as int]);
    } else if s2.len() < s1.len() {
        assert(w2[s2.len() as int] == ':');
        assert(w1[s2.len() as int] == s1[s2.len() as int]);
    }
    assert(s1 =~= w1.take(s1.len() as int));
    assert(s2 =~= w2.take(s2.len() as int));
    assert(r1 =~= w1.skip(s1.len() + 3int));
    assert(r2 =~= w2.skip(s2.len() + 3int));
}

/// Two URLs with tuple origins (every `http` or `https` URL has one) are
/// same-origin exactly when their origin strings are equal; the relation is
/// symmetric, and such a URL is same-origin with itself. `a` and `b` are the
/// URLs' serializations, `sa` and `sb` their schemes.
pub proof fn law_same_origin_is_equal_origin(a: Seq<char>, sa: Seq<char>, b: Seq<char>, sb: Seq<char>)
    requires
        whatwg_origin(a) matches Some(o) && tuple_scheme(o.0),
        whatwg_origin(b) matches Some(o) && tuple_scheme(o.0),
    ensures
        same_origin_spec(a, b) == (origin_text(a, sa) == origin_text(b, sb)),
        same_origin_spec(a, b) == same_origin_spec(b, a),
        same_origin_spec(a, a),
{
    let oa = whatwg_origin(a).unwrap();
    let ob = whatwg_origin(b).unwrap();
    if origin_text(a, sa) == origin_text(b, sb) {
        let ra = oa.1 + ":"@ + dec(oa.2 as nat);
        let rb = ob.1 + ":"@ + dec(ob.2 as nat);
        assert(origin_text(a, sa) =~= oa.0 + "://"@ + ra);
        assert(origin_text(b, sb) =~= ob.0 + "://"@ + rb);
        lemma_split_scheme(oa.0, ra, ob.0, rb);
        reveal_strlit(":");
        assert(":"@ =~= seq![':']);
        lemma_dec_digits(oa.2 as nat);
        lemma_dec_digits(ob.2 as nat);
        lemma_split_at_last_colon(oa.1, dec(oa.2 as nat), ob.1, dec(ob.2 as nat));
        lemma_dec_injective(oa.2 as nat, ob.2 as nat);
        assert(oa == ob);
    }
}

/// For two `http` or `https` URLs, as parsing, joining and the setters give
/// them: being same-origin is having equal origin strings; the relation is
/// symmetric, and such a URL is same-origin with itself.
pub proof fn law_same_origin_of_web_urls(a: UrlFields, b: UrlFields)
    requires
        origin_consistent(a),
        origin_consistent(b),
        a.1 == "http"@ || a.1 == "https"@,
        b.1 == "http"@ || b.1 == "https"@,
    ensures
        same_origin_spec(a.0, b.0) == (origin_text(a.0, a.1) == origin_text(b.0, b.1)),
        same_origin_spec(a.0, b.0) == same_origin_spec(b.0, a.0),
        same_origin_spec(a.0, a.0),
{
    law_same_origin_is_equal_origin(a.0, a.1, b.0, b.1);
}

fn is_supported_scheme(s: &str) -> (r: bool)
    ensures
        r == supported_scheme(s@),
{
    let c = chars_of(s);
    let c = c.as_slice();
    chars_eq_str(c, "http") || chars_eq_str(c, "https") || chars_eq_str(c, "file")
        || chars_eq_str(c, "oxide")
}

fn checked(r: Result<OxideUrl, String>) -> (out: Result<OxideUrl, UrlError>)
    requires
        r matches Ok(u) ==> origin_consistent(u@),
    ensures
        out matches Ok(u) ==> origin_consistent(u@),
        result_view(out) == check_scheme(
            match r {
                Ok(u) => Ok::<UrlFields, Seq<char>>(u@),
                Err(e) => Err::<UrlFields, Seq<char>>(e@),
            },
        ),
{
    match r {
        Err(e) => Err(UrlError::Parse(e)),
        Ok(u) => {
            if is_supported_scheme(u.scheme.as_str()) {
                Ok(u)
            } else {
                Err(UrlError::UnsupportedScheme(u.scheme))
            }
        },
    }
}

impl OxideUrl {
    /// Parse a user-supplied URL string.
    ///
    /// Bare hostnames like `example.com/path` are assumed HTTPS.
    /// Relative paths (starting with `/` or `.`) are rejected — use
    /// [`OxideUrl::join`] to resolve them against a base URL.
    pub fn parse(input: &str) -> (r: Result<Self, UrlError>)
        ensures
            result_view(r) == parse_spec(input@),
            r matches Ok(u) ==> origin_consistent(u@),
    {
        let raw = chars_of(input);
        let t = trim_chars(raw.as_slice());
        if t.len() == 0 {
            return Err(UrlError::Empty);
        }
        let ts = t.as_slice();
        if (starts_with_str(ts, "/") || starts_with_str(ts, ".")) && !starts_with_str(ts, "//") {
            return Err(UrlError::RelativeRequiresBase);
        }
        let normalized: Vec<char> = if find_str(ts, "://").is_some() || starts_with_str(ts, "//") {
            t
        } else {
            let mut v: Vec<char> = Vec::new();
            append_str(&mut v, "https://");
            append_chars(&mut v, ts);
            v
        };
        let s = string_of(normalized.as_slice());
        checked(url_parse(s.as_str()))
    }

    /// Resolve a possibly-relative reference against this URL as the base.
    pub fn join(&self, reference: &str) -> (r: Result<Self, UrlError>)
        ensures
            result_view(r) == check_scheme(whatwg_join(self@.0, reference@)),
            r matches Ok(u) ==> origin_consistent(u@),
    {
        checked(url_join(self.serialization.as_str(), reference))
    }

    pub fn scheme(&self) -> (r: &str)
        ensures
            r@ == self@.1,
    {
        self.scheme.as_str()
    }

    pub fn host_str(&self) -> (r: Option<&str>)
        ensures
            opt_str_view(r) == self@.2,
    {
        match &self.host {
            Some(h) => Some(h.as_str()),
            None => None,
        }
    }

    pub fn port(&self) -> (r: Option<u16>)
        ensures
            r == self@.3,
    {
        self.port
    }

    pub fn path(&self) -> (r: &str)
        ensures
            r@ == self@.4,
    {
        self.path.as_str()
    }

    pub fn query(&self) -> (r: Option<&str>)
        ensures
            opt_str_view(r) == self@.5,
    {
        match &self.query {
            Some(q) => Some(q.as_str()),
            None => None,
        }
    }

    pub fn fragment(&self) -> (r: Option<&str>)
        ensures
            opt_str_view(r) == self@.6,
    {
        match &self.fragment {
            Some(f) => Some(f.as_str()),
            None => None,
        }
    }

    pub fn as_str(&self) -> (r: &str)
        ensures
            r@ == self@.0,
    {
        self.serialization.as_str()
    }

    /// True for http/https URLs that can be fetched over the network.
    pub fn is_fetchable(&self) -> (r: bool)
        ensures
            r == (self@.1 == "http"@ || self@.1 == "https"@),
    {
        let c = chars_of(self.scheme.as_str());
        chars_eq_str(c.as_slice(), "http") || chars_eq_str(c.as_slice(), "https")
    }

    /// True for `file://` URLs.
    pub fn is_local_file(&self) -> (r: bool)
        ensures
            r == (self@.1 == "file"@),
    {
        let c = chars_of(self.scheme.as_str());
        chars_eq_str(c.as_slice(), "file")
    }

    /// True for `oxide://` internal browser pages.
    pub fn is_internal(&self) -> (r: bool)
        ensures
            r == (self@.1 == "oxide"@),
    {
        let c = chars_of(self.scheme.as_str());
        chars_eq_str(c.as_slice(), "oxide")
    }

    /// Extract the local filesystem path from a `file://` URL, read from
    /// the URL's own serialization: none when that does not parse, or when
    /// the URL has no path segments or is a non-`file` URL with a host other
    /// than `localhost`.
    pub fn to_file_path(&self) -> (r: Option<std::path::PathBuf>)
        ensures
            match whatwg_parse(self@.0) {
                Err(_) => r is None,
                Ok(f) => no_file_path(f) ==> r is None,
            },
    {
        url_file_path(self.serialization.as_str())
    }

    /// Replaces the fragment (`None` removes it). A URL whose serialization the
    /// parser refuses is left as it is.
    pub fn set_fragment(&mut self, fragment: Option<&str>)
        ensures
            match whatwg_set_fragment(old(self)@.0, opt_str_view(fragment)) {
                Some(f) => final(self)@ == f,
                None => final(self)@ == old(self)@,
            },
            origin_consistent(old(self)@) ==> origin_consistent(final(self)@),
    {
        if let Some(updated) = url_set_fragment(self.serialization.as_str(), fragment) {
            *self = updated;
        }
    }

    /// Replaces the query (`None` removes it). A URL whose serialization the
    /// parser refuses is left as it is.
    pub fn set_query(&mut self, query: Option<&str>)
        ensures
            match whatwg_set_query(old(self)@.0, opt_str_view(query)) {
                Some(f) => final(self)@ == f,
                None => final(self)@ == old(self)@,
            },
            origin_consistent(old(self)@) ==> origin_consistent(final(self)@),
    {
        if let Some(updated) = url_set_query(self.serialization.as_str(), query) {
            *self = updated;
        }
    }

    /// The decoded `name=value` pairs of the query (none without a query).
    pub fn query_pairs(&self) -> (r: Vec<(String, String)>)
        ensures
            r@.map_values(|p: (String, String)| (p.0@, p.1@)) == form_pairs(
                match self@.5 {
                    Some(q) => q,
                    None => Seq::<char>::empty(),
                },
            ),
    {
        match &self.query {
            Some(q) => form_urlencoded_pairs(q.as_str()),
            None => {
                proof {
                    reveal_strlit("");
                    assert(""@ =~= Seq::<char>::empty());
                }
                form_urlencoded_pairs("")
            },
        }
    }

    /// Scheme + host + port serialized as a string (for same-origin checks).
    pub fn origin_str(&self) -> (r: String)
        ensures
            r@ == origin_text(self@.0, self@.1),
    {
        match url_origin(self.serialization.as_str()) {
            None => self.scheme.clone(),
            Some((scheme, host, port)) => {
                let mut out: Vec<char> = Vec::new();
                append_str(&mut out, scheme.as_str());
                append_str(&mut out, "://");
                append_str(&mut out, host.as_str());
                append_str(&mut out, ":");
                let digits = crate::text::u64_to_dec(port as u64);
                append_chars(&mut out, digits.as_slice());
                string_of(out.as_slice())
            },
        }
    }

    /// Check whether two URLs share the same origin. Opaque origins are
    /// unique, so they never match.
    /// For two `http` or `https` URLs, being same-origin is having equal
    /// origin strings; the relation is symmetric, and such a URL is
    /// same-origin with any URL of the same text, itself included.
    pub fn same_origin(&self, other: &OxideUrl) -> (r: bool)
        ensures
            r == same_origin_spec(self@.0, other@.0),
            (self@.1 == "http"@ || self@.1 == "https"@) && (other@.1 == "http"@ || other@.1
                == "https"@) ==> r == (origin_text(self@.0, self@.1) == origin_text(
                other@.0,
                other@.1,
            )) && r == same_origin_spec(other@.0, self@.0),
            (self@.1 == "http"@ || self@.1 == "https"@) && self@.0 == other@.0 ==> r,
    {
        proof {
            use_type_invariant(self);
            use_type_invariant(other);
            if (self@.1 == "http"@ || self@.1 == "https"@) && (other@.1 == "http"@ || other@.1
                == "https"@) {
                law_same_origin_of_web_urls(self@, other@);
            }
            if (self@.1 == "http"@ || self@.1 == "https"@) && self@.0 == other@.0 {
                law_same_origin_of_web_urls(self@, self@);
            }
        }
        match (url_origin(self.serialization.as_str()), url_origin(other.serialization.as_str())) {
            (Some(a), Some(b)) => {
                let sa = chars_of(a.0.as_str());
                let ha = chars_of(a.1.as_str());
                crate::text::chars_eq_str(sa.as_slice(), b.0.as_str())
                    && crate::text::chars_eq_str(ha.as_slice(), b.1.as_str()) && a.2 == b.2
            },
            _ => false,
        }
    }

    /// The URL as a string (what `Display` prints).
    pub fn to_string(&self) -> (r: String)
        ensures
            r@ == self@.0,
    {
        self.serialization.clone()
    }
}

impl PartialEq for OxideUrl {
    fn eq(&self, other: &Self) -> (r: bool) {
        self.serialization == other.serialization
    }
}

impl vstd::std_specs::cmp::PartialEqSpecImpl for OxideUrl {
    open spec fn obeys_eq_spec() -> bool {
        true
    }

    open spec fn eq_spec(&self, other: &Self) -> bool {
        self@.0 == other@.0
    }
}

impl Eq for OxideUrl {

}

// ── Percent-encoding ───────────────────────────────────────────────────────

pub open spec fn is_ascii_alnum(b: u8) -> bool {
    (0x30 <= b <= 0x39) || (0x41 <= b <= 0x5A) || (0x61 <= b <= 0x7A)
}

/// Upper-case hexadecimal digit of `n < 16`.
pub open spec fn hex_upper(n: u8) -> char {
    if n < 10 {
        ((n + 48) as u32) as char
    } else {
        ((n + 55) as u32) as char
    }
}

/// Encoding of one byte under the `NON_ALPHANUMERIC` set: ASCII letters and
/// digits stay, every other byte becomes `%XX`.
pub open spec fn pct_encode_byte(b: u8) -> Seq<char> {
    if is_ascii_alnum(b) {
        seq![(b as u32) as char]
    } else {
        seq!['%', hex_upper(b / 16), hex_upper(b % 16)]
    }
}

pub open spec fn pct_encode(bs: Seq<u8>) -> Seq<char>
    decreases bs.len(),
{
    if bs.len() == 0 {
        Seq::<char>::empty()
    } else {
        pct_encode_byte(bs[0]) + pct_encode(bs.skip(1))
    }
}

pub open spec fn is_hex_byte(b: u8) -> bool {
    (0x30 <= b <= 0x39) || (0x41 <= b <= 0x46) || (0x61 <= b <= 0x66)
}

pub open spec fn hex_byte_value(b: u8) -> int {
    if b <= 0x39 {
        b - 0x30
    } else if b <= 0x46 {
        b - 0x41 + 10
    } else {
        b - 0x61 + 10
    }
}

/// `percent_decode`: each `%` followed by two hex digits (either case)
/// becomes the byte they spell; every other byte is kept.
pub open spec fn pct_decode(bs: Seq<u8>) -> Seq<u8>
    decreases bs.len(),
{
    if bs.len() == 0 {
        Seq::<u8>::empty()
    } else if bs[0] == 0x25 && bs.len() >= 3 && is_hex_byte(bs[1]) && is_hex_byte(bs[2]) {
        seq![(hex_byte_value(bs[1]) * 16 + hex_byte_value(bs[2])) as u8] + pct_decode(bs.skip(3))
    } else {
        seq![bs[0]] + pct_decode(bs.skip(1))
    }
}

/// What `String::from_utf8_lossy` makes of `bytes`.
pub uninterp spec fn utf8_lossy(bytes: Seq<u8>) -> Seq<char>;

/// `percent_encoding::utf8_percent_encode(input, NON_ALPHANUMERIC)`, collected
/// into a `String`.
#[verifier::external_body]
fn utf8_percent_encode_all(input: &str) -> (r: String)
    ensures
        r@ == pct_encode(input.spec_bytes()),
{
    percent_encoding::utf8_percent_encode(input, percent_encoding::NON_ALPHANUMERIC).to_string()
}

/// `percent_encoding::percent_decode_str(input).decode_utf8_lossy()`: the
/// decoded bytes read as UTF-8, invalid sequences replaced.
#[verifier::external_body]
fn percent_decode_lossy(input: &str) -> (r: String)
    ensures
        r@ == utf8_lossy(pct_decode(input.spec_bytes())),
        valid_utf8(pct_decode(input.spec_bytes())) ==> r@ == decode_utf8(
            pct_decode(input.spec_bytes()),
        ),
{
    percent_encoding::percent_decode_str(input).decode_utf8_lossy().to_string()
}

/// Percent-encode a string (useful for building URL path/query components).
pub fn percent_encode(input: &str) -> (r: String)
    ensures
        r@ == pct_encode(input.spec_bytes()),
{
    utf8_percent_encode_all(input)
}

/// Decode a percent-encoded string.
pub fn percent_decode(input: &str) -> (r: String)
    ensures
        r@ == utf8_lossy(pct_decode(input.spec_bytes())),
        valid_utf8(pct_decode(input.spec_bytes())) ==> r@ == decode_utf8(
            pct_decode(input.spec_bytes()),
        ),
{
    percent_decode_lossy(input)
}

/// The bytes of a sequence of ASCII characters.
pub open spec fn ascii_bytes(cs: Seq<char>) -> Seq<u8> {
    Seq::new(cs.len(), |i: int| cs[i] as u8)
}

proof fn lemma_hex_roundtrip(b: u8)
    ensures
        is_hex_byte(hex_upper(b / 16) as u8),
        is_hex_byte(hex_upper(b % 16) as u8),
        hex_byte_value(hex_upper(b / 16) as u8) * 16 + hex_byte_value(hex_upper(b % 16) as u8)
            == b,
        (hex_upper(b / 16) as u32) < 128,
        (hex_upper(b % 16) as u32) < 128,
{
}

proof fn lemma_encode_ascii(bs: Seq<u8>)
    ensures
        is_ascii_chars(pct_encode(bs)),
    decreases bs.len(),
{
    if bs.len() > 0 {
        lemma_encode_ascii(bs.skip(1));
        lemma_hex_roundtrip(bs[0]);
        let e = pct_encode(bs);
        let h = pct_encode_byte(bs[0]);
        assert(e == h + pct_encode(bs.skip(1)));
        assert forall|i: int| 0 <= i < e.len() implies (e[i] as u32) < 128 by {
            if i >= h.len() {
                assert(e[i] == pct_encode(bs.skip(1))[i - h.len()]);
            }
        }
    }
}

proof fn lemma_decode_encoded(bs: Seq<u8>)
    ensures
        pct_decode(ascii_bytes(pct_encode(bs))) == bs,
    decreases bs.len(),
{
    if bs.len() == 0 {
        assert(ascii_bytes(pct_encode(bs)) =~= Seq::<u8>::empty());
    } else {
        let rest = bs.skip(1);
        lemma_decode_encoded(rest);
        lemma_hex_roundtrip(bs[0]);
        let h = pct_encode_byte(bs[0]);
        let e = ascii_bytes(pct_encode(bs));
        assert(pct_encode(bs) == h + pct_encode(rest));
        if is_ascii_alnum(bs[0]) {
            assert(e[0] == bs[0]);
            assert(e.skip(1) =~= ascii_bytes(pct_encode(rest)));
        } else {
            assert(e[0] == 0x25);
            assert(e.skip(3) =~= ascii_bytes(pct_encode(rest)));
        }
        assert(bs =~= seq![bs[0]] + rest);
    }
}

/// Decoding what [`percent_encode`] produced gives back the original text.
pub proof fn law_percent_roundtrip(s: Seq<char>, encoded: Seq<char>)
    requires
        encoded == pct_encode(encode_utf8(s)),
    ensures
        pct_decode(encode_utf8(encoded)) == encode_utf8(s),
        utf8_lossy(pct_decode(encode_utf8(encoded))) == utf8_lossy(encode_utf8(s)),
        decode_utf8(pct_decode(encode_utf8(encoded))) == s,
        valid_utf8(pct_decode(encode_utf8(encoded))),
{
    lemma_encode_ascii(encode_utf8(s));
    is_ascii_chars_encode_utf8(encoded);
    assert(encode_utf8(encoded) =~= ascii_bytes(encoded));
    lemma_decode_encoded(encode_utf8(s));
    encode_utf8_decode_utf8(s);
    encode_utf8_valid_utf8(s);
}

} // verus!
