//! Browsing history of the Oxide browser: the record encoding and keys of
//! the persistent store, and the listing rule.
//!
//! Each record is keyed by a timestamp + sequence number composite key (both
//! big-endian, so the store's byte order is visit order) and holds
//! `[visited_at_ms: u64 LE][title_len: u32 LE][title][url_len: u32 LE][url]`.

use vstd::prelude::*;
use vstd::bytes::{
    lemma_auto_spec_u32_to_from_le_bytes, lemma_auto_spec_u64_to_from_le_bytes,
    spec_u32_from_le_bytes, spec_u32_to_le_bytes, spec_u64_from_le_bytes, spec_u64_to_le_bytes,
    u32_from_le_bytes, u32_to_le_bytes, u64_from_le_bytes, u64_to_le_bytes,
};
use vstd::utf8::{decode_utf8, encode_utf8, encode_utf8_decode_utf8, encode_utf8_valid_utf8, valid_utf8};
use crate::clock::now_ms;
use crate::text::{append_bytes, slice_bytes, string_from_utf8};

verus! {

/// A single browsing history entry.
#[derive(Clone, Debug)]
pub struct HistoryItem {
    pub url: String,
    pub title: String,
    pub visited_at_ms: u64,
}

/// A history entry as plain values: url, title, visit time.
pub type HistoryItemView = (Seq<char>, Seq<char>, u64);

pub open spec fn item_view(h: HistoryItem) -> HistoryItemView {
    (h.url@, h.title@, h.visited_at_ms)
}

/// The stored value of an entry.
pub open spec fn item_bytes(url: Seq<char>, title: Seq<char>, ts: u64) -> Seq<u8> {
    let t = encode_utf8(title);
    let u = encode_utf8(url);
    spec_u64_to_le_bytes(ts) + spec_u32_to_le_bytes(t.len() as u32) + t + spec_u32_to_le_bytes(
        u.len() as u32,
    ) + u
}

/// The entry a stored value describes.
pub open spec fn item_from_spec(d: Seq<u8>) -> Option<HistoryItemView> {
    if d.len() < 16 {
        None
    } else {
        let tl = spec_u32_from_le_bytes(d.subrange(8, 12)) as int;
        if d.len() < 12 + tl + 4 {
            None
        } else {
            let tb = d.subrange(12, 12 + tl);
            let off = 12 + tl;
            let ul = spec_u32_from_le_bytes(d.subrange(off, off + 4)) as int;
            if !valid_utf8(tb) || d.len() < off + 4 + ul {
                None
            } else {
                let ub = d.subrange(off + 4, off + 4 + ul);
                if valid_utf8(ub) {
                    Some((decode_utf8(ub), decode_utf8(tb), spec_u64_from_le_bytes(d.subrange(0, 8))))
                } else {
                    None
                }
            }
        }
    }
}

impl HistoryItem {
    pub fn to_bytes(&self) -> (r: Vec<u8>)
        ensures
            r@ == item_bytes(self.url@, self.title@, self.visited_at_ms),
    {
        let title_bytes = self.title.as_str().as_bytes();
        let url_bytes = self.url.as_str().as_bytes();
        #[verifier::truncate]
        let title_len = title_bytes.len() as u32;
        #[verifier::truncate]
        let url_len = url_bytes.len() as u32;
        let ts = u64_to_le_bytes(self.visited_at_ms);
        let tl = u32_to_le_bytes(title_len);
        let ul = u32_to_le_bytes(url_len);
        let mut buf: Vec<u8> = Vec::new();
        append_bytes(&mut buf, ts.as_slice());
        append_bytes(&mut buf, tl.as_slice());
        append_bytes(&mut buf, title_bytes);
        append_bytes(&mut buf, ul.as_slice());
        append_bytes(&mut buf, url_bytes);
        proof {
            assert(buf@ =~= item_bytes(self.url@, self.title@, self.visited_at_ms));
        }
        buf
    }

    pub fn from_bytes(data: &[u8]) -> (r: Option<Self>)
        ensures
            match r {
                Some(h) => item_from_spec(data@) == Some(item_view(h)),
                None => item_from_spec(data@) is None,
            },
    {
        let n = data.len();
        if n < 16 {
            return None;
        }
        let ts_bytes = slice_bytes(data, 0, 8);
        let visited_at_ms = u64_from_le_bytes(ts_bytes.as_slice());
        let tl_bytes = slice_bytes(data, 8, 12);
        let title_len = u32_from_le_bytes(tl_bytes.as_slice()) as usize;
        if title_len > n - 16 {
            return None;
        }
        let tb = slice_bytes(data, 12, 12 + title_len);
        let title_opt = string_from_utf8(tb.as_slice());
        let url_off = 12 + title_len;
        let ul_bytes = slice_bytes(data, url_off, url_off + 4);
        let url_len = u32_from_le_bytes(ul_bytes.as_slice()) as usize;
        let title = match title_opt {
            Some(t) => t,
            None => return None,
        };
        if url_len > n - url_off - 4 {
            return None;
        }
        let ub = slice_bytes(data, url_off + 4, url_off + 4 + url_len);
        let url = match string_from_utf8(ub.as_slice()) {
            Some(u) => u,
            None => return None,
        };
        Some(HistoryItem { url, title, visited_at_ms })
    }

    /// The entry recorded for a visit to `url` now.
    pub fn visit(url: &str, title: &str) -> (r: Self)
        ensures
            r.url@ == url@,
            r.title@ == title@,
    {
        HistoryItem { url: url.to_owned(), title: title.to_owned(), visited_at_ms: now_ms() }
    }
}

/// Reading back the value stored for an entry gives the entry, provided the
/// title and URL byte lengths fit the 32-bit length fields.
pub proof fn law_history_item_roundtrip(url: Seq<char>, title: Seq<char>, ts: u64)
    requires
        encode_utf8(title).len() <= u32::MAX,
        encode_utf8(url).len() <= u32::MAX,
    ensures
        item_from_spec(item_bytes(url, title, ts)) == Some((url, title, ts)),
{
    lemma_auto_spec_u64_to_from_le_bytes();
    lemma_auto_spec_u32_to_from_le_bytes();
    let t = encode_utf8(title);
    let u = encode_utf8(url);
    let d = item_bytes(url, title, ts);
    let off: int = 12 + t.len() as int;
    assert(spec_u64_to_le_bytes(ts).len() == 8);
    assert(spec_u32_to_le_bytes(t.len() as u32).len() == 4);
    assert(spec_u32_to_le_bytes(u.len() as u32).len() == 4);
    assert(d.subrange(0, 8) =~= spec_u64_to_le_bytes(ts));
    assert(d.subrange(8, 12) =~= spec_u32_to_le_bytes(t.len() as u32));
    assert(d.subrange(12, off) =~= t);
    assert(d.subrange(off, off + 4) =~= spec_u32_to_le_bytes(u.len() as u32));
    assert(d.subrange(off + 4, off + 4 + u.len()) =~= u);
    encode_utf8_valid_utf8(title);
    encode_utf8_decode_utf8(title);
    encode_utf8_valid_utf8(url);
    encode_utf8_decode_utf8(url);
}

/// Big-endian bytes of `v`.
pub open spec fn be_bytes(v: u64) -> Seq<u8> {
    spec_u64_to_le_bytes(v).reverse()
}

/// The store key of a visit: time then sequence number, both big-endian.
pub open spec fn history_key_spec(ts: u64, seq: u64) -> Seq<u8> {
    be_bytes(ts) + be_bytes(seq)
}

/// Visits recorded at different times, or with different sequence numbers,
/// never share a store key.
pub proof fn law_history_keys_unique(ts1: u64, seq1: u64, ts2: u64, seq2: u64)
    requires
        history_key_spec(ts1, seq1) == history_key_spec(ts2, seq2),
    ensures
        ts1 == ts2,
        seq1 == seq2,
{
    lemma_auto_spec_u64_to_from_le_bytes();
    let k1 = history_key_spec(ts1, seq1);
    let k2 = history_key_spec(ts2, seq2);
    assert(be_bytes(ts1).len() == 8);
    assert(be_bytes(ts2).len() == 8);
    assert(be_bytes(ts1) =~= k1.take(8));
    assert(be_bytes(ts2) =~= k2.take(8));
    assert(be_bytes(seq1) =~= k1.skip(8));
    assert(be_bytes(seq2) =~= k2.skip(8));
    assert(spec_u64_to_le_bytes(ts1) =~= be_bytes(ts1).reverse());
    assert(spec_u64_to_le_bytes(ts2) =~= be_bytes(ts2).reverse());
    assert(spec_u64_to_le_bytes(seq1) =~= be_bytes(seq1).reverse());
    assert(spec_u64_to_le_bytes(seq2) =~= be_bytes(seq2).reverse());
}

fn push_be(buf: &mut Vec<u8>, v: u64)
    ensures
        final(buf)@ == old(buf)@ + be_bytes(v),
{
    let le = u64_to_le_bytes(v);
    let mut i: usize = 8;
    while i > 0
        invariant
            le@ == spec_u64_to_le_bytes(v),
            le@.len() == 8,
            i <= 8,
            buf@ == old(buf)@ + le@.reverse().take(8 - i),
        decreases i,
    {
        proof {
            assert(le@.reverse().take(8 - i + 1) =~= le@.reverse().take(8 - i).push(le@[i - 1]));
        }
        buf.push(le[i - 1]);
        i = i - 1;
    }
    proof {
        assert(le@.reverse().take(8) =~= le@.reverse());
    }
}

/// The store key for a visit at `ts` with sequence number `seq`.
pub fn history_key(ts: u64, seq: u64) -> (r: Vec<u8>)
    ensures
        r@ == history_key_spec(ts, seq),
{
    let mut key: Vec<u8> = Vec::new();
    push_be(&mut key, ts);
    push_be(&mut key, seq);
    proof {
        assert(key@ =~= history_key_spec(ts, seq));
    }
    key
}

/// The decodable entries of the store with their keys, in store order.
pub open spec fn decoded_items(es: Seq<(Seq<u8>, Seq<u8>)>) -> Seq<(Seq<u8>, HistoryItemView)>
    decreases es.len(),
{
    if es.len() == 0 {
        Seq::empty()
    } else {
        let p = decoded_items(es.drop_last());
        match item_from_spec(es.last().1) {
            Some(h) => p.push((es.last().0, h)),
            None => p,
        }
    }
}

pub open spec fn keyed_views(v: Seq<(Vec<u8>, HistoryItem)>) -> Seq<(Seq<u8>, HistoryItemView)> {
    v.map_values(|e: (Vec<u8>, HistoryItem)| (e.0@, item_view(e.1)))
}

/// All decodable entries with their keys, newest first: the reverse of the
/// store's key order.
pub fn collect_history(entries: Vec<(Vec<u8>, Vec<u8>)>) -> (r: Vec<(Vec<u8>, HistoryItem)>)
    ensures
        keyed_views(r@) == decoded_items(
            entries@.map_values(|e: (Vec<u8>, Vec<u8>)| (e.0@, e.1@)),
        ).reverse(),
{
    let ghost es = entries@.map_values(|e: (Vec<u8>, Vec<u8>)| (e.0@, e.1@));
    let mut items: Vec<(Vec<u8>, HistoryItem)> = Vec::new();
    let mut i: usize = 0;
    proof {
        assert(es.take(0) =~= Seq::<(Seq<u8>, Seq<u8>)>::empty());
        assert(keyed_views(items@) =~= Seq::<(Seq<u8>, HistoryItemView)>::empty());
    }
    while i < entries.len()
        invariant
            i <= entries@.len(),
            es == entries@.map_values(|e: (Vec<u8>, Vec<u8>)| (e.0@, e.1@)),
            keyed_views(items@) == decoded_items(es.take(i as int)),
        decreases entries@.len() - i,
    {
        proof {
            assert(es.take(i + 1).drop_last() =~= es.take(i as int));
            assert(es.take(i + 1).last() == (entries@[i as int].0@, entries@[i as int].1@));
        }
        match HistoryItem::from_bytes(entries[i].1.as_slice()) {
            Some(h) => {
                let key = slice_bytes(entries[i].0.as_slice(), 0, entries[i].0.len());
                proof {
                    assert(key@ =~= entries@[i as int].0@);
                }
                let ghost before = keyed_views(items@);
                let ghost kv = (key@, item_view(h));
                items.push((key, h));
                proof {
                    assert(keyed_views(items@) =~= before.push(kv));
                }
            },
            None => {},
        }
        i = i + 1;
    }
    proof {
        assert(es.take(i as int) =~= es);
    }
    let ghost fwd = keyed_views(items@);
    let mut out: Vec<(Vec<u8>, HistoryItem)> = Vec::new();
    proof {
        assert(keyed_views(out@) =~= fwd.reverse().take(0));
    }
    while items.len() > 0
        invariant
            fwd.len() == items@.len() + out@.len(),
            keyed_views(items@) == fwd.take(items@.len() as int),
            keyed_views(out@) == fwd.reverse().take(out@.len() as int),
        decreases items@.len(),
    {
        let ghost before_items = keyed_views(items@);
        let ghost before_out = keyed_views(out@);
        let e = items.pop().unwrap();
        proof {
            assert(keyed_views(items@) =~= before_items.drop_last());
            assert(before_items.last() == (e.0@, item_view(e.1)));
        }
        out.push(e);
        proof {
            assert(keyed_views(out@) =~= before_out.push((e.0@, item_view(e.1))));
            assert(fwd.reverse().take(out@.len() as int) =~= fwd.reverse().take(
                out@.len() - 1,
            ).push(fwd[items@.len() as int]));
            assert(keyed_views(items@) =~= fwd.take(items@.len() as int));
        }
    }
    proof {
        assert(fwd.reverse().take(out@.len() as int) =~= fwd.reverse());
    }
    out
}

} // verus!
