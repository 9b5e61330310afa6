use oxide_browser::bookmarks::{collect_bookmarks, favorites_of, toggle_favorite_entry, Bookmark};
use oxide_browser::history::{collect_history, history_key, HistoryItem};

fn bm(url: &str, title: &str, fav: bool, ts: u64) -> Bookmark {
    Bookmark {
        url: url.to_string(),
        title: title.to_string(),
        is_favorite: fav,
        created_at_ms: ts,
    }
}

#[test]
fn bookmark_bytes_layout() {
    let b = bm("https://a.com/app.wasm", "Hi", true, 0x0102);
    let bytes = b.to_bytes();
    assert_eq!(bytes, vec![1, 0x02, 0x01, 0, 0, 0, 0, 0, 0, 2, 0, 0, 0, b'H', b'i']);
}

#[test]
fn bookmark_roundtrip_through_bytes() {
    let b = bm("https://a.com/app.wasm", "App A ✓", false, 1_700_000_000_123);
    let back = Bookmark::from_bytes(&b.url, &b.to_bytes()).unwrap();
    assert_eq!(back.url, b.url);
    assert_eq!(back.title, b.title);
    assert_eq!(back.is_favorite, b.is_favorite);
    assert_eq!(back.created_at_ms, b.created_at_ms);
}

#[test]
fn bookmark_rejects_short_or_bad_values() {
    assert!(Bookmark::from_bytes("u", &[0u8; 12]).is_none());
    // Title length says 5 bytes but only 2 follow.
    let mut v = vec![0u8; 13];
    v[9] = 5;
    v.extend_from_slice(b"ab");
    assert!(Bookmark::from_bytes("u", &v).is_none());
    // Invalid UTF-8 title.
    let mut w = vec![0u8; 13];
    w[9] = 1;
    w.push(0xFF);
    assert!(Bookmark::from_bytes("u", &w).is_none());
}

#[test]
fn toggle_twice_restores_flag() {
    let b = Bookmark::new_entry("https://a.com/app.wasm", "A");
    assert!(!b.is_favorite);
    let t = b.clone().toggled();
    assert!(t.is_favorite);
    let tt = t.toggled();
    assert_eq!(tt.is_favorite, b.is_favorite);
    assert_eq!(tt.created_at_ms, b.created_at_ms);
}

#[test]
fn listing_is_newest_first_and_skips_garbage() {
    let entries = vec![
        (b"https://a.com".to_vec(), bm("https://a.com", "A", false, 10).to_bytes()),
        (b"https://b.com".to_vec(), bm("https://b.com", "B", true, 30).to_bytes()),
        (b"https://junk".to_vec(), vec![1, 2, 3]),
        (b"https://c.com".to_vec(), bm("https://c.com", "C", true, 20).to_bytes()),
        (vec![0xFF, 0xFE], bm("x", "X", false, 99).to_bytes()),
    ];
    let list = collect_bookmarks(entries);
    let urls: Vec<&str> = list.iter().map(|b| b.url.as_str()).collect();
    assert_eq!(urls, vec!["https://b.com", "https://c.com", "https://a.com"]);
    let favs = favorites_of(list);
    let fav_urls: Vec<&str> = favs.iter().map(|b| b.url.as_str()).collect();
    assert_eq!(fav_urls, vec!["https://b.com", "https://c.com"]);
}

#[test]
fn equal_times_keep_store_order() {
    let entries = vec![
        (b"https://a.com".to_vec(), bm("https://a.com", "A", false, 5).to_bytes()),
        (b"https://b.com".to_vec(), bm("https://b.com", "B", false, 5).to_bytes()),
    ];
    let list = collect_bookmarks(entries);
    assert_eq!(list[0].url, "https://a.com");
    assert_eq!(list[1].url, "https://b.com");
}

#[test]
fn history_item_roundtrip_and_layout() {
    let h = HistoryItem {
        url: "https://a.com".to_string(),
        title: "A".to_string(),
        visited_at_ms: 7,
    };
    let bytes = h.to_bytes();
    assert_eq!(&bytes[0..8], &7u64.to_le_bytes());
    assert_eq!(&bytes[8..12], &1u32.to_le_bytes());
    assert_eq!(bytes[12], b'A');
    assert_eq!(&bytes[13..17], &13u32.to_le_bytes());
    let back = HistoryItem::from_bytes(&bytes).unwrap();
    assert_eq!(back.url, h.url);
    assert_eq!(back.title, h.title);
    assert_eq!(back.visited_at_ms, 7);
    assert!(HistoryItem::from_bytes(&bytes[..15]).is_none());
}

#[test]
fn history_keys_sort_by_time_then_sequence() {
    assert_eq!(
        history_key(1, 2),
        vec![0, 0, 0, 0, 0, 0, 0, 1, 0, 0, 0, 0, 0, 0, 0, 2]
    );
    assert!(history_key(1, 999) < history_key(2, 0));
    assert!(history_key(5, 1) < history_key(5, 2));
}

#[test]
fn history_listing_is_newest_first() {
    let visit = |u: &str, t: u64| HistoryItem {
        url: u.to_string(),
        title: u.to_string(),
        visited_at_ms: t,
    };
    let entries = vec![
        (history_key(1, 0), visit("https://a.com", 1).to_bytes()),
        (history_key(2, 1), vec![9, 9]),
        (history_key(3, 2), visit("https://a.com", 3).to_bytes()),
        (history_key(4, 3), visit("https://b.com", 4).to_bytes()),
    ];
    let list = collect_history(entries);
    let got: Vec<(&str, u64)> = list
        .iter()
        .map(|(_, h)| (h.url.as_str(), h.visited_at_ms))
        .collect();
    assert_eq!(
        got,
        vec![("https://b.com", 4), ("https://a.com", 3), ("https://a.com", 1)]
    );
    assert_eq!(list[0].0, history_key(4, 3));
}

#[test]
fn history_visit_stamps_fields() {
    let h = HistoryItem::visit("https://a.com", "A");
    assert_eq!(h.url, "https://a.com");
    assert_eq!(h.title, "A");
}

#[test]
fn toggling_a_stored_favorite() {
    let bm = Bookmark::new_entry("https://a.example", "A");
    let bytes = bm.to_bytes();
    let t = toggle_favorite_entry("https://a.example", Some(&bytes)).unwrap();
    assert!(t.is_favorite);
    assert_eq!(t.title, "A");
    let back = toggle_favorite_entry("https://a.example", Some(&t.to_bytes())).unwrap();
    assert!(!back.is_favorite);
    assert!(toggle_favorite_entry("https://a.example", None).is_none());
    assert!(toggle_favorite_entry("https://a.example", Some(&[1, 2])).is_none());
}
