use yap::filter::{filter_logs, matches_filter};
use yap::keys::KeyInput;
use yap::log_store::HttpLog;
use yap::viewer::{row_line, ProxyList};

fn entry(uri: &str) -> HttpLog {
    HttpLog {
        method: String::from("GET"),
        uri: String::from(uri),
        timestamp: String::from("2024-01-01T12:34:56+00:00"),
        time_hms: String::from("12:34:56"),
        path: String::from(uri),
    }
}

#[test]
fn filtering_is_case_insensitive_substring_match() {
    assert!(matches_filter("http://Example.COM/page", "example"));
    assert!(matches_filter("http://example.com/page", "EXAMPLE"));
    assert!(matches_filter("http://example.com/page", "le.com/pa"));
    assert!(!matches_filter("http://example.com/page", "other"));
}

#[test]
fn empty_filter_matches_everything() {
    assert!(matches_filter("http://example.com", ""));
    assert!(matches_filter("", ""));
    let logs = vec![entry("http://a"), entry("http://b")];
    let kept = filter_logs(&logs, "");
    assert_eq!(kept.len(), 2);
}

#[test]
fn filter_keeps_only_matching_entries_in_order() {
    let logs = vec![
        entry("http://alpha.example/x"),
        entry("http://beta.other/y"),
        entry("http://ALPHA.example/z"),
    ];
    let kept = filter_logs(&logs, "alpha");
    assert_eq!(kept.len(), 2);
    assert_eq!(kept[0].uri, "http://alpha.example/x");
    assert_eq!(kept[1].uri, "http://ALPHA.example/z");
}

#[test]
fn selection_moves_inside_filtered_bounds() {
    let mut v = ProxyList::new();
    v.reconcile(3);
    assert_eq!(v.selected_index, 0);
    assert!(v.handle_key(KeyInput::Down, 3));
    assert!(v.handle_key(KeyInput::Char('j'), 3));
    assert_eq!(v.selected_index, 2);
    assert!(!v.handle_key(KeyInput::Down, 3));
    assert_eq!(v.selected_index, 2);
    assert!(v.handle_key(KeyInput::Char('k'), 3));
    assert_eq!(v.selected_index, 1);
    assert!(v.handle_key(KeyInput::Up, 3));
    assert_eq!(v.selected_index, 0);
    assert!(!v.handle_key(KeyInput::Up, 3));
}

#[test]
fn selection_is_clamped_when_the_list_shrinks() {
    let mut v = ProxyList::new();
    v.reconcile(10);
    for _ in 0..7 {
        v.handle_key(KeyInput::Down, 10);
    }
    assert_eq!(v.selected_index, 7);
    v.reconcile(3);
    assert_eq!(v.selected_index, 2);
    assert_eq!(v.items_len, 3);
    v.reconcile(0);
    assert_eq!(v.items_len, 0);
}

#[test]
fn selection_follows_the_tail_when_it_sat_on_the_last_entry() {
    let mut v = ProxyList::new();
    v.reconcile(2);
    v.handle_key(KeyInput::Down, 2);
    assert_eq!(v.selected_index, 1);
    v.reconcile(3);
    assert_eq!(v.selected_index, 2);
    v.reconcile(5);
    assert_eq!(v.selected_index, 4);
}

#[test]
fn selection_keeps_its_index_when_not_at_the_tail() {
    let mut v = ProxyList::new();
    v.reconcile(5);
    v.handle_key(KeyInput::Down, 5);
    assert_eq!(v.selected_index, 1);
    v.reconcile(8);
    assert_eq!(v.selected_index, 1);
}

#[test]
fn popup_opens_on_valid_selection_and_closes_on_escape() {
    let mut v = ProxyList::new();
    v.reconcile(2);
    assert!(v.handle_key(KeyInput::Enter, 2));
    assert!(v.show_popup);
    assert!(!v.handle_key(KeyInput::Down, 2));
    assert!(v.show_popup);
    assert!(v.handle_key(KeyInput::Esc, 2));
    assert!(!v.show_popup);
    v.reconcile(0);
    assert!(!v.handle_key(KeyInput::Enter, 0));
    assert!(!v.show_popup);
}

#[test]
fn scrolling_keeps_the_selection_visible() {
    let mut v = ProxyList::new();
    v.set_visible_height(5);
    assert_eq!(v.visible_height, 3);
    v.reconcile(10);
    for _ in 0..4 {
        v.handle_key(KeyInput::Down, 10);
    }
    assert_eq!(v.selected_index, 4);
    assert_eq!(v.scroll_offset, 2);
    for _ in 0..4 {
        v.handle_key(KeyInput::Up, 10);
    }
    assert_eq!(v.selected_index, 0);
    assert_eq!(v.scroll_offset, 0);
}

#[test]
fn row_line_has_exact_layout() {
    let line = row_line(&entry("http://example.com/x"));
    assert_eq!(line, "[12:34:56] GET      http://example.com/x");
}

#[test]
fn scroll_content_length_counts_offscreen_rows() {
    let mut v = ProxyList::new();
    v.set_visible_height(4);
    v.reconcile(10);
    assert_eq!(v.scroll_content_length(), 8);
    v.reconcile(1);
    assert_eq!(v.scroll_content_length(), 0);
}

#[test]
fn frame_view_filters_and_follows_the_tail() {
    let mut v = ProxyList::new();
    let mut snapshot = vec![entry("http://alpha/1"), entry("http://beta/2")];
    let (rows, filtered) = v.frame_view(&snapshot, "", 12);
    assert_eq!(rows.len(), 2);
    assert_eq!(filtered.len(), 2);
    assert_eq!(rows[0], "[12:34:56] GET      http://alpha/1");

    v.handle_key(KeyInput::Down, 2);
    assert_eq!(v.selected_index, 1);
    snapshot.push(entry("http://alpha/3"));
    let (rows, _) = v.frame_view(&snapshot, "alpha", 12);
    assert_eq!(rows.len(), 2);
    assert_eq!(v.items_len, 2);
    assert_eq!(v.selected_index, 1);
}
