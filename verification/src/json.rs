//! JSON documents one level at a time: a parsed value with its array
//! elements and object members kept as their own JSON text, member lookup
//! by key, and flat objects of scalars written out as text.
//!
//! Parsing and printing are `serde_json`'s; which keys are read or written,
//! and what type each must have, is decided by the callers.

use vstd::prelude::*;
use serde_json::Value;
use crate::text::{chars_eq, chars_of};

verus! {

/// A parsed JSON value, one level deep: nested values are kept as their
/// compact JSON text. A number is an unsigned integer when it fits `u64`,
/// else a signed one when it fits `i64`, else its text.
#[derive(Clone, Debug)]
pub enum JsonShallow {
    Null,
    Bool(bool),
    UInt(u64),
    Int(i64),
    Float(String),
    Str(String),
    Array(Vec<String>),
    Object(Vec<(String, String)>),
}

/// [`JsonShallow`] as plain values.
pub enum ShallowView {
    Null,
    Bool(bool),
    UInt(u64),
    Int(i64),
    Float(Seq<char>),
    Str(Seq<char>),
    Array(Seq<Seq<char>>),
    Object(Seq<(Seq<char>, Seq<char>)>),
}

pub open spec fn member_views(ms: Seq<(String, String)>) -> Seq<(Seq<char>, Seq<char>)> {
    ms.map_values(|p: (String, String)| (p.0@, p.1@))
}

pub open spec fn shallow_view(v: JsonShallow) -> ShallowView {
    match v {
        JsonShallow::Null => ShallowView::Null,
        JsonShallow::Bool(b) => ShallowView::Bool(b),
        JsonShallow::UInt(u) => ShallowView::UInt(u),
        JsonShallow::Int(i) => ShallowView::Int(i),
        JsonShallow::Float(t) => ShallowView::Float(t@),
        JsonShallow::Str(s) => ShallowView::Str(s@),
        JsonShallow::Array(a) => ShallowView::Array(a@.map_values(|x: String| x@)),
        JsonShallow::Object(ms) => ShallowView::Object(member_views(ms@)),
    }
}

/// What `serde_json::from_str::<Value>` makes of `text`, one level deep:
/// `None` when it is not JSON.
pub uninterp spec fn json_shallow(text: Seq<char>) -> Option<ShallowView>;

/// No key occurs twice among the members.
pub open spec fn keys_distinct(ms: Seq<(Seq<char>, Seq<char>)>) -> bool {
    forall|i: int, j: int| 0 <= i < j < ms.len() ==> #[trigger] ms[i].0 != #[trigger] ms[j].0
}

/// `serde_json::from_str::<Value>(text)`, the top level converted variant
/// for variant and each array element or object member printed back with
/// `Value::to_string`. An object's keys are those of a `serde_json::Map`,
/// so none occurs twice.
#[verifier::external_body]
pub(crate) fn parse_json_shallow(text: &str) -> (r: Option<JsonShallow>)
    ensures
        match r {
            Some(v) => json_shallow(text@) == Some(shallow_view(v)),
            None => json_shallow(text@) is None,
        },
        r matches Some(JsonShallow::Object(ms)) ==> keys_distinct(member_views(ms@)),
{
    Some(match serde_json::from_str::<Value>(text).ok()? {
        Value::Null => JsonShallow::Null,
        Value::Bool(b) => JsonShallow::Bool(b),
        Value::Number(n) => match (n.as_u64(), n.as_i64()) {
            (Some(u), _) => JsonShallow::UInt(u),
            (_, Some(i)) => JsonShallow::Int(i),
            _ => JsonShallow::Float(n.to_string()),
        },
        Value::String(s) => JsonShallow::Str(s),
        Value::Array(a) => JsonShallow::Array(a.iter().map(Value::to_string).collect()),
        Value::Object(o) => JsonShallow::Object(o.into_iter().map(|(k, x)| (k, x.to_string())).collect()),
    })
}

/// The text of the first member named `key`.
pub open spec fn member(ms: Seq<(Seq<char>, Seq<char>)>, key: Seq<char>) -> Option<Seq<char>>
    decreases ms.len(),
{
    if ms.len() == 0 {
        None
    } else if ms[0].0 == key {
        Some(ms[0].1)
    } else {
        member(ms.drop_first(), key)
    }
}

/// With distinct keys, the member named like member `j` is member `j`.
pub proof fn lemma_member_distinct(ms: Seq<(Seq<char>, Seq<char>)>, j: int)
    requires
        keys_distinct(ms),
        0 <= j < ms.len(),
    ensures
        member(ms, ms[j].0) == Some(ms[j].1),
    decreases ms.len(),
{
    if j > 0 {
        let t = ms.drop_first();
        assert(keys_distinct(t)) by {
            assert forall|a: int, b: int| 0 <= a < b < t.len() implies #[trigger] t[a].0 != #[trigger] t[b].0 by {
                assert(t[a] == ms[a + 1] && t[b] == ms[b + 1]);
            }
        }
        assert(ms[0].0 != ms[j].0);
        lemma_member_distinct(t, j - 1);
        assert(t[j - 1] == ms[j]);
    }
}

/// The JSON value of `text` as an object's members: `None` unless it is an
/// object.
pub open spec fn object_members(text: Seq<char>) -> Option<Seq<(Seq<char>, Seq<char>)>> {
    match json_shallow(text) {
        Some(ShallowView::Object(ms)) => Some(ms),
        _ => None,
    }
}

/// The value at `key` of the JSON object `text`, one level deep: `None`
/// when `text` is no object, has no such member, or the member does not
/// parse.
pub open spec fn field(text: Seq<char>, key: Seq<char>) -> Option<ShallowView> {
    match object_members(text) {
        Some(ms) => match member(ms, key) {
            Some(t) => json_shallow(t),
            None => None,
        },
        None => None,
    }
}

/// The text of the first member named `key`.
pub fn find_member<'a>(ms: &'a Vec<(String, String)>, key: &str) -> (r: Option<&'a String>)
    ensures
        match r {
            Some(t) => member(member_views(ms@), key@) == Some(t@),
            None => member(member_views(ms@), key@) is None,
        },
{
    let k = chars_of(key);
    let n = ms.len();
    let mut i: usize = 0;
    proof {
        assert(member_views(ms@).skip(0) =~= member_views(ms@));
    }
    while i < n
        invariant
            n == ms@.len(),
            i <= n,
            k@ == key@,
            member(member_views(ms@), key@) == member(member_views(ms@).skip(i as int), key@),
        decreases n - i,
    {
        let ghost mv = member_views(ms@);
        proof {
            assert(mv.skip(i as int)[0] == mv[i as int]);
            assert(mv.skip(i as int).drop_first() =~= mv.skip(i + 1));
        }
        let c = chars_of(ms[i].0.as_str());
        if chars_eq(c.as_slice(), k.as_slice()) {
            return Some(&ms[i].1);
        }
        i = i + 1;
    }
    proof {
        assert(member_views(ms@).skip(i as int).len() == 0);
    }
    None
}

/// The value at `key` of the JSON object `text`, parsed one level deep.
pub fn get_field(text: &str, key: &str) -> (r: Option<JsonShallow>)
    ensures
        match r {
            Some(v) => field(text@, key@) == Some(shallow_view(v)),
            None => field(text@, key@) is None,
        },
{
    match parse_json_shallow(text) {
        Some(JsonShallow::Object(ms)) => match find_member(&ms, key) {
            Some(t) => parse_json_shallow(t.as_str()),
            None => None,
        },
        _ => None,
    }
}

/// A scalar to write as an object member.
#[derive(Clone, Debug)]
pub enum JsonScalar {
    Null,
    Bool(bool),
    UInt(u64),
    Str(String),
}

pub open spec fn scalar_view(s: JsonScalar) -> ShallowView {
    match s {
        JsonScalar::Null => ShallowView::Null,
        JsonScalar::Bool(b) => ShallowView::Bool(b),
        JsonScalar::UInt(u) => ShallowView::UInt(u),
        JsonScalar::Str(t) => ShallowView::Str(t@),
    }
}

pub open spec fn scalar_member_keys(ms: Seq<(String, JsonScalar)>) -> Seq<(Seq<char>, Seq<char>)> {
    ms.map_values(|p: (String, JsonScalar)| (p.0@, Seq::<char>::empty()))
}

/// The object with `members` (whose keys are distinct) as pretty-printed
/// JSON: `serde_json::to_string_pretty` of a `serde_json::Map` built member
/// by member. Reading the text back gives an object with distinct keys that
/// holds each member's key with a text that reads back as its value:
/// null, booleans, unsigned integers and strings print and parse without
/// loss.
#[verifier::external_body]
pub(crate) fn write_json_object(members: &Vec<(String, JsonScalar)>) -> (r: String)
    requires
        keys_distinct(scalar_member_keys(members@)),
    ensures
        object_members(r@) matches Some(ms) && keys_distinct(ms) && forall|i: int|
            #![trigger members@[i]]
            0 <= i < members@.len() ==> exists|j: int|
                #![trigger ms[j]]
                0 <= j < ms.len() && ms[j].0 == members@[i].0@ && json_shallow(ms[j].1) == Some(
                    scalar_view(members@[i].1),
                ),
{
    let mut o = serde_json::Map::new();
    for (k, v) in members.iter() {
        o.insert(k.clone(), match v {
            JsonScalar::Null => Value::Null,
            JsonScalar::Bool(b) => Value::Bool(*b),
            JsonScalar::UInt(u) => Value::from(*u),
            JsonScalar::Str(s) => Value::String(s.clone()),
        });
    }
    serde_json::to_string_pretty(&Value::Object(o)).unwrap_or_else(|_| "{}".to_string())
}

} // verus!
