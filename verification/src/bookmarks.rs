//! Bookmarks of the Oxide browser: the record encoding kept in the
//! persistent store, and the rules for adding, toggling and listing.
//!
//! Each record is keyed by its URL; the value holds a favorite flag, the
//! creation time and the title:
//! `[favorite: u8][created_at_ms: u64 LE][title_len: u32 LE][title bytes]`.

use vstd::prelude::*;
use vstd::bytes::{
    lemma_auto_spec_u32_to_from_le_bytes, lemma_auto_spec_u64_to_from_le_bytes,
    spec_u32_from_le_bytes, spec_u32_to_le_bytes, spec_u64_from_le_bytes, spec_u64_to_le_bytes,
    u32_from_le_bytes, u32_to_le_bytes, u64_from_le_bytes, u64_to_le_bytes,
};
use vstd::string::StringSliceAdditionalSpecFns;
use vstd::utf8::{decode_utf8, encode_utf8, encode_utf8_decode_utf8, encode_utf8_valid_utf8, valid_utf8};
use crate::clock::now_ms;
use crate::text::{append_bytes, slice_bytes, string_from_utf8};

verus! {

/// A saved bookmark: canonical URL, display title, favorite flag, and creation time.
///
/// The URL is the primary key in the store. New bookmarks start with
/// `is_favorite` set to `false` and `created_at_ms` set to the current time
/// in milliseconds since the UNIX epoch.
#[derive(Clone, Debug)]
pub struct Bookmark {
    /// Canonical bookmark URL; also the store key for this entry.
    pub url: String,
    /// User-visible title (may differ from the page title at save time).
    pub title: String,
    /// When `true`, this bookmark is included in favorite-only listings.
    pub is_favorite: bool,
    /// Creation instant as milliseconds since the UNIX epoch.
    pub created_at_ms: u64,
}

/// A bookmark as plain values: url, title, favorite flag, creation time.
pub type BookmarkView = (Seq<char>, Seq<char>, bool, u64);

pub open spec fn bookmark_view(b: Bookmark) -> BookmarkView {
    (b.url@, b.title@, b.is_favorite, b.created_at_ms)
}

pub open spec fn bookmark_views(bs: Seq<Bookmark>) -> Seq<BookmarkView> {
    bs.map_values(|b: Bookmark| bookmark_view(b))
}

/// The stored value of a bookmark with this title, flag and time.
pub open spec fn bookmark_bytes(title: Seq<char>, fav: bool, ts: u64) -> Seq<u8> {
    let t = encode_utf8(title);
    seq![if fav {
        1u8
    } else {
        0u8
    }] + spec_u64_to_le_bytes(ts) + spec_u32_to_le_bytes(t.len() as u32) + t
}

/// The bookmark a stored value describes, for the given key.
pub open spec fn bookmark_from_spec(url: Seq<char>, d: Seq<u8>) -> Option<BookmarkView> {
    if d.len() < 13 {
        None
    } else {
        let tl = spec_u32_from_le_bytes(d.subrange(9, 13)) as int;
        if d.len() < 13 + tl {
            None
        } else {
            let tb = d.subrange(13, 13 + tl);
            if valid_utf8(tb) {
                Some((url, decode_utf8(tb), d[0] != 0, spec_u64_from_le_bytes(d.subrange(1, 9))))
            } else {
                None
            }
        }
    }
}

impl Bookmark {
    pub fn to_bytes(&self) -> (r: Vec<u8>)
        ensures
            r@ == bookmark_bytes(self.title@, self.is_favorite, self.created_at_ms),
    {
        let fav_byte: u8 = if self.is_favorite {
            1
        } else {
            0
        };
        let title_bytes = self.title.as_str().as_bytes();
        #[verifier::truncate]
        let title_len = title_bytes.len() as u32;
        let ts = u64_to_le_bytes(self.created_at_ms);
        let tl = u32_to_le_bytes(title_len);
        let mut buf: Vec<u8> = Vec::new();
        buf.push(fav_byte);
        append_bytes(&mut buf, ts.as_slice());
        append_bytes(&mut buf, tl.as_slice());
        append_bytes(&mut buf, title_bytes);
        proof {
            assert(buf@ =~= bookmark_bytes(self.title@, self.is_favorite, self.created_at_ms));
        }
        buf
    }

    pub fn from_bytes(url: &str, data: &[u8]) -> (r: Option<Self>)
        ensures
            match r {
                Some(b) => bookmark_from_spec(url@, data@) == Some(bookmark_view(b)),
                None => bookmark_from_spec(url@, data@) is None,
            },
    {
        let n = data.len();
        if n < 13 {
            return None;
        }
        let is_favorite = data[0] != 0;
        let ts_bytes = slice_bytes(data, 1, 9);
        let created_at_ms = u64_from_le_bytes(ts_bytes.as_slice());
        let tl_bytes = slice_bytes(data, 9, 13);
        let title_len = u32_from_le_bytes(tl_bytes.as_slice()) as usize;
        if title_len > n - 13 {
            return None;
        }
        let tb = slice_bytes(data, 13, 13 + title_len);
        let title = match string_from_utf8(tb.as_slice()) {
            Some(t) => t,
            None => return None,
        };
        Some(Bookmark { url: url.to_owned(), title, is_favorite, created_at_ms })
    }

    /// A bookmark for `url` as [`add`] stores it: not a favorite, stamped now.
    pub fn new_entry(url: &str, title: &str) -> (r: Self)
        ensures
            r.url@ == url@,
            r.title@ == title@,
            !r.is_favorite,
    {
        Bookmark {
            url: url.to_owned(),
            title: title.to_owned(),
            is_favorite: false,
            created_at_ms: now_ms(),
        }
    }

    /// The same bookmark with its favorite flag flipped.
    pub fn toggled(self) -> (r: Self)
        ensures
            r.url == self.url,
            r.title == self.title,
            r.is_favorite == !self.is_favorite,
            r.created_at_ms == self.created_at_ms,
    {
        Bookmark { is_favorite: !self.is_favorite, ..self }
    }
}

/// What toggling the favorite flag of `url` does, given the value stored
/// for it (`None` when there is none): the bookmark to store back, with the
/// flag flipped, or `None` (nothing changes, and the flag reads as off)
/// when there is no entry or it cannot be read.
pub fn toggle_favorite_entry(url: &str, stored: Option<&[u8]>) -> (r: Option<Bookmark>)
    ensures
        match stored {
            None => r is None,
            Some(d) => match bookmark_from_spec(url@, d@) {
                None => r is None,
                Some(v) => r matches Some(b) && bookmark_view(b) == (
                    v.0,
                    v.1,
                    !v.2,
                    v.3,
                ),
            },
        },
{
    match stored {
        None => None,
        Some(d) => match Bookmark::from_bytes(url, d) {
            Some(b) => Some(b.toggled()),
            None => None,
        },
    }
}

/// Reading back the value stored for a bookmark gives the bookmark, provided
/// its title's byte length fits the 32-bit length field.
pub proof fn law_bookmark_roundtrip(url: Seq<char>, title: Seq<char>, fav: bool, ts: u64)
    requires
        encode_utf8(title).len() <= u32::MAX,
    ensures
        bookmark_from_spec(url, bookmark_bytes(title, fav, ts)) == Some((url, title, fav, ts)),
{
    lemma_auto_spec_u64_to_from_le_bytes();
    lemma_auto_spec_u32_to_from_le_bytes();
    let t = encode_utf8(title);
    let d = bookmark_bytes(title, fav, ts);
    assert(spec_u64_to_le_bytes(ts).len() == 8);
    assert(spec_u32_to_le_bytes(t.len() as u32).len() == 4);
    assert(d.subrange(1, 9) =~= spec_u64_to_le_bytes(ts));
    assert(d.subrange(9, 13) =~= spec_u32_to_le_bytes(t.len() as u32));
    assert(d.subrange(13, 13 + t.len() as int) =~= t);
    encode_utf8_valid_utf8(title);
    encode_utf8_decode_utf8(title);
}

/// Flipping the favorite flag twice restores the bookmark.
pub proof fn law_toggle_twice(b: BookmarkView)
    ensures
        ({
            let once = (b.0, b.1, !b.2, b.3);
            (once.0, once.1, !once.2, once.3)
        }) == b,
{
}

// ── Listing ────────────────────────────────────────────────────────────────

/// The bookmark stored under a key, if the key is UTF-8 text and the value
/// decodes.
pub open spec fn entry_bookmark(key: Seq<u8>, val: Seq<u8>) -> Option<BookmarkView> {
    if valid_utf8(key) {
        bookmark_from_spec(decode_utf8(key), val)
    } else {
        None
    }
}

/// The decodable entries, in store order.
pub open spec fn decoded_entries(es: Seq<(Seq<u8>, Seq<u8>)>) -> Seq<BookmarkView>
    decreases es.len(),
{
    if es.len() == 0 {
        Seq::<BookmarkView>::empty()
    } else {
        let p = decoded_entries(es.drop_last());
        match entry_bookmark(es.last().0, es.last().1) {
            Some(b) => p.push(b),
            None => p,
        }
    }
}

/// Index of the first entry of `s` created strictly before `ts`.
pub open spec fn first_older(s: Seq<BookmarkView>, ts: u64) -> int
    decreases s.len(),
{
    if s.len() == 0 {
        0
    } else if s[0].3 < ts {
        0
    } else {
        1 + first_older(s.drop_first(), ts)
    }
}

/// `x` placed after every entry at least as new as it.
pub open spec fn insert_newest_first(s: Seq<BookmarkView>, x: BookmarkView) -> Seq<BookmarkView> {
    s.insert(first_older(s, x.3), x)
}

/// Stable ordering by creation time, newest first.
pub open spec fn newest_first(s: Seq<BookmarkView>) -> Seq<BookmarkView>
    decreases s.len(),
{
    if s.len() == 0 {
        s
    } else {
        insert_newest_first(newest_first(s.drop_last()), s.last())
    }
}

pub open spec fn is_newest_first(s: Seq<BookmarkView>) -> bool {
    forall|i: int, j: int| 0 <= i < j < s.len() ==> s[i].3 >= s[j].3
}

proof fn lemma_first_older(s: Seq<BookmarkView>, ts: u64)
    requires
        is_newest_first(s),
    ensures
        0 <= first_older(s, ts) <= s.len(),
        forall|i: int| 0 <= i < first_older(s, ts) ==> s[i].3 >= ts,
        forall|i: int| first_older(s, ts) <= i < s.len() ==> s[i].3 < ts,
    decreases s.len(),
{
    if s.len() > 0 {
        if s[0].3 >= ts {
            let t = s.drop_first();
            assert forall|i: int, j: int| 0 <= i < j < t.len() implies t[i].3 >= t[j].3 by {
                assert(s[i + 1].3 >= s[j + 1].3);
            }
            lemma_first_older(t, ts);
            assert forall|i: int| 0 <= i < first_older(s, ts) implies s[i].3 >= ts by {
                if i > 0 {
                    assert(s[i] == t[i - 1]);
                }
            }
            assert forall|i: int| first_older(s, ts) <= i < s.len() implies s[i].3 < ts by {
                assert(s[i] == t[i - 1]);
            }
        } else {
            assert forall|i: int| first_older(s, ts) <= i < s.len() implies s[i].3 < ts by {
                if i > 0 {
                    assert(s[0].3 >= s[i].3);
                }
            }
        }
    }
}

/// The listing order is sorted newest first, and keeps every entry.
pub proof fn law_newest_first_sorted(s: Seq<BookmarkView>)
    ensures
        is_newest_first(newest_first(s)),
        newest_first(s).len() == s.len(),
        newest_first(s).to_multiset() == s.to_multiset(),
    decreases s.len(),
{
    if s.len() > 0 {
        let p = newest_first(s.drop_last());
        law_newest_first_sorted(s.drop_last());
        let x = s.last();
        lemma_first_older(p, x.3);
        let k = first_older(p, x.3);
        let q = p.insert(k, x);
        assert forall|i: int, j: int| 0 <= i < j < q.len() implies q[i].3 >= q[j].3 by {
            if j < k {
            } else if j == k {
            } else if i < k {
            } else if i == k {
            } else {
            }
        }
        assert(s =~= s.drop_last().push(x));
        vstd::seq_lib::to_multiset_insert(p, k, x);
        vstd::seq_lib::to_multiset_build(s.drop_last(), x);
    }
}

fn insert_position(out: &Vec<Bookmark>, ts: u64) -> (k: usize)
    ensures
        k as int == first_older(bookmark_views(out@), ts),
{
    let mut k: usize = 0;
    let ghost v = bookmark_views(out@);
    proof {
        assert(v.skip(0) =~= v);
    }
    while k < out.len() && out[k].created_at_ms >= ts
        invariant
            k <= out@.len(),
            v == bookmark_views(out@),
            first_older(v, ts) == k + first_older(v.skip(k as int), ts),
        decreases out@.len() - k,
    {
        proof {
            assert(v.skip(k as int).drop_first() =~= v.skip(k + 1));
        }
        k = k + 1;
    }
    proof {
        if k < out@.len() {
            assert(v.skip(k as int)[0] == v[k as int]);
        }
    }
    k
}

/// Every decodable entry of the store, ordered by creation time, newest
/// first (entries of equal time keep the store's order).
pub fn collect_bookmarks(entries: Vec<(Vec<u8>, Vec<u8>)>) -> (r: Vec<Bookmark>)
    ensures
        bookmark_views(r@) == newest_first(
            decoded_entries(entries@.map_values(|e: (Vec<u8>, Vec<u8>)| (e.0@, e.1@))),
        ),
{
    let ghost es = entries@.map_values(|e: (Vec<u8>, Vec<u8>)| (e.0@, e.1@));
    let mut out: Vec<Bookmark> = Vec::new();
    let ghost mut dec: Seq<BookmarkView> = Seq::empty();
    let mut i: usize = 0;
    proof {
        assert(es.take(0) =~= Seq::<(Seq<u8>, Seq<u8>)>::empty());
        assert(bookmark_views(out@) =~= Seq::<BookmarkView>::empty());
    }
    while i < entries.len()
        invariant
            i <= entries@.len(),
            es == entries@.map_values(|e: (Vec<u8>, Vec<u8>)| (e.0@, e.1@)),
            dec == decoded_entries(es.take(i as int)),
            bookmark_views(out@) == newest_first(dec),
            is_newest_first(bookmark_views(out@)),
        decreases entries@.len() - i,
    {
        proof {
            assert(es.take(i + 1).drop_last() =~= es.take(i as int));
            assert(es.take(i + 1).last() == (entries@[i as int].0@, entries@[i as int].1@));
        }
        let (key, val) = (&entries[i].0, &entries[i].1);
        let decoded = match string_from_utf8(key.as_slice()) {
            Some(url) => Bookmark::from_bytes(url.as_str(), val.as_slice()),
            None => None,
        };
        match decoded {
            Some(b) => {
                let k = insert_position(&out, b.created_at_ms);
                proof {
                    lemma_first_older(bookmark_views(out@), b.created_at_ms);
                }
                let ghost before = bookmark_views(out@);
                let ghost bv = bookmark_view(b);
                out.insert(k, b);
                proof {
                    assert(bookmark_views(out@) =~= before.insert(k as int, bv));
                    dec = dec.push(bv);
                    assert(dec.drop_last() =~= decoded_entries(es.take(i as int)));
                    law_newest_first_sorted(dec);
                }
            },
            None => {},
        }
        i = i + 1;
    }
    proof {
        assert(es.take(i as int) =~= es);
    }
    out
}

/// Only the favorites of a listing, in the same order.
pub open spec fn favorites_spec(s: Seq<BookmarkView>) -> Seq<BookmarkView>
    decreases s.len(),
{
    if s.len() == 0 {
        s
    } else if s.last().2 {
        favorites_spec(s.drop_last()).push(s.last())
    } else {
        favorites_spec(s.drop_last())
    }
}

pub fn favorites_of(list: Vec<Bookmark>) -> (r: Vec<Bookmark>)
    ensures
        bookmark_views(r@) == favorites_spec(bookmark_views(list@)),
{
    let ghost v = bookmark_views(list@);
    let mut out: Vec<Bookmark> = Vec::new();
    let mut rest = list;
    let mut taken: usize = 0;
    let total = rest.len();
    proof {
        assert(v.take(0) =~= Seq::<BookmarkView>::empty());
        assert(bookmark_views(out@) =~= Seq::<BookmarkView>::empty());
        assert(bookmark_views(rest@) =~= v.skip(0));
    }
    while rest.len() > 0
        invariant
            taken + rest@.len() == total,
            total == v.len(),
            bookmark_views(rest@) == v.skip(taken as int),
            bookmark_views(out@) == favorites_spec(v.take(taken as int)),
        decreases rest@.len(),
    {
        let ghost rv = rest@;
        let b = rest.remove(0);
        proof {
            assert(v.take(taken + 1).drop_last() =~= v.take(taken as int));
            assert(rv[0] == b);
            assert(v[taken as int] == bookmark_view(b)) by {
                assert(bookmark_views(rv)[0] == bookmark_view(b));
                assert(v.skip(taken as int)[0] == v[taken as int]);
            }
            assert(v.take(taken + 1).last() == v[taken as int]);
            assert(rest@ =~= rv.skip(1));
            assert(bookmark_views(rest@) =~= bookmark_views(rv).skip(1));
            assert(bookmark_views(rest@) =~= v.skip(taken + 1));
        }
        if b.is_favorite {
            let ghost before = bookmark_views(out@);
            let ghost bv = bookmark_view(b);
            out.push(b);
            proof {
                assert(bookmark_views(out@) =~= before.push(bv));
            }
        }
        taken = taken + 1;
    }
    proof {
        assert(v.take(taken as int) =~= v);
    }
    out
}

} // verus!
