use oxide_browser::navigation::{HistoryEntry, NavigationStack};

#[test]
fn push_and_navigate() {
    let mut stack = NavigationStack::new();
    assert!(!stack.can_go_back());
    assert!(!stack.can_go_forward());

    stack.push(HistoryEntry::new("https://a.com"));
    stack.push(HistoryEntry::new("https://b.com"));
    stack.push(HistoryEntry::new("https://c.com"));

    assert_eq!(stack.current().unwrap().url, "https://c.com");
    assert!(stack.can_go_back());
    assert!(!stack.can_go_forward());

    let entry = stack.go_back().unwrap();
    assert_eq!(entry.url, "https://b.com");
    let entry = stack.go_back().unwrap();
    assert_eq!(entry.url, "https://a.com");
    assert!(!stack.can_go_back());
    assert!(stack.can_go_forward());

    let entry = stack.go_forward().unwrap();
    assert_eq!(entry.url, "https://b.com");

    stack.push(HistoryEntry::new("https://d.com"));
    assert!(!stack.can_go_forward());
    assert_eq!(stack.len(), 3); // a, b, d
}

#[test]
fn replace_current() {
    let mut stack = NavigationStack::new();
    stack.push(HistoryEntry::new("https://a.com"));
    stack.replace_current(HistoryEntry::new("https://b.com"));
    assert_eq!(stack.current().unwrap().url, "https://b.com");
    assert_eq!(stack.len(), 1);
}

#[test]
fn update_current_fields() {
    let mut stack = NavigationStack::new();
    stack.push(HistoryEntry::new("https://a.com"));
    stack.update_current(Some("Page A"), Some(vec![1, 2, 3]), None);
    let cur = stack.current().unwrap();
    assert_eq!(cur.title, "Page A");
    assert_eq!(cur.state, vec![1, 2, 3]);
    assert_eq!(cur.url, "https://a.com");
}

#[test]
fn state_preserved_through_back_forward() {
    let mut stack = NavigationStack::new();
    stack.push(HistoryEntry::new("https://a.com").with_state(vec![10, 20]));
    stack.push(HistoryEntry::new("https://b.com"));

    let entry = stack.go_back().unwrap();
    assert_eq!(entry.state, vec![10, 20]);
}

#[test]
fn back_then_forward_returns_to_same_entry() {
    let mut stack = NavigationStack::new();
    stack.push(HistoryEntry::new("https://a.com"));
    stack.push(HistoryEntry::new("https://b.com"));
    let before = stack.current_index();
    stack.go_back();
    stack.go_forward();
    assert_eq!(stack.current_index(), before);
    assert_eq!(stack.current().unwrap().url, "https://b.com");
}

#[test]
fn empty_stack_has_no_current() {
    let mut stack = NavigationStack::default();
    assert!(stack.is_empty());
    assert_eq!(stack.current_index(), -1);
    assert!(stack.current().is_none());
    assert!(stack.go_back().is_none());
    assert!(stack.go_forward().is_none());
    assert!(stack.current_mut().is_none());
}

#[test]
fn replace_on_empty_stack_pushes() {
    let mut stack = NavigationStack::new();
    stack.replace_current(HistoryEntry::new("https://a.com"));
    assert_eq!(stack.len(), 1);
    assert_eq!(stack.current_index(), 0);
}

#[test]
fn current_mut_edits_in_place() {
    let mut stack = NavigationStack::new();
    stack.push(HistoryEntry::new("https://a.com"));
    stack.push(HistoryEntry::new("https://b.com"));
    stack.go_back();
    if let Some(e) = stack.current_mut() {
        e.title = "A".to_string();
    }
    assert_eq!(stack.entries()[0].title, "A");
    assert_eq!(stack.entries()[1].title, "");
}

#[test]
fn push_in_middle_truncates_forward_history() {
    let mut stack = NavigationStack::new();
    for u in ["https://a.com", "https://b.com", "https://c.com"] {
        stack.push(HistoryEntry::new(u));
    }
    stack.go_back();
    stack.go_back();
    stack.push(HistoryEntry::new("https://z.com"));
    let urls: Vec<&str> = stack.entries().iter().map(|e| e.url.as_str()).collect();
    assert_eq!(urls, vec!["https://a.com", "https://z.com"]);
    assert_eq!(stack.current_index(), 1);
}

#[test]
fn with_title_keeps_other_fields() {
    let e = HistoryEntry::new("https://a.com").with_state(vec![7]).with_title("T");
    assert_eq!(e.url, "https://a.com");
    assert_eq!(e.title, "T");
    assert_eq!(e.state, vec![7]);
}
