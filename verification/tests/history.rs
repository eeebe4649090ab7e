use rpsql::history::History;

fn chars(s: &str) -> Vec<char> {
    s.chars().collect()
}

#[test]
fn push_duplicate_once() {
    let mut h = History::new();
    h.push(&chars("select 1;"));
    h.push(&chars("select 1;"));
    assert_eq!(h.commands.len(), 1);
}

#[test]
fn push_distinct_entries_prepend() {
    let mut h = History::new();
    h.push(&chars("a"));
    h.push(&chars("b"));
    h.push(&chars("a"));
    assert_eq!(h.commands, vec![chars("a"), chars("b"), chars("a")]);
}

#[test]
fn prev_prev_next_returns_b() {
    let mut h = History::new();
    h.push(&chars("a"));
    h.push(&chars("b"));
    assert_eq!(h.prev(), Some(chars("b")));
    assert_eq!(h.prev(), Some(chars("a")));
    assert_eq!(h.next(), Some(chars("b")));
}

#[test]
fn next_without_navigation_signals_none() {
    let mut h = History::new();
    h.push(&chars("a"));
    assert_eq!(h.current_command(), -1);
    assert_eq!(h.next(), None);
    assert_eq!(h.current_command(), -1);
}

#[test]
fn prev_stops_at_oldest() {
    let mut h = History::new();
    h.push(&chars("a"));
    assert_eq!(h.prev(), Some(chars("a")));
    assert_eq!(h.prev(), None);
    assert_eq!(h.current_command(), 0);
}

#[test]
fn prev_on_empty_history_signals_none() {
    let mut h = History::new();
    assert_eq!(h.prev(), None);
}

#[test]
fn reset_index_returns_to_live_draft() {
    let mut h = History::new();
    h.push(&chars("a"));
    h.prev();
    h.reset_index();
    assert_eq!(h.current_command(), -1);
}

#[test]
fn accepts_refuses_adjacent_duplicate_only() {
    let mut h = History::new();
    assert!(h.accepts(&chars("a")));
    h.push(&chars("a"));
    assert!(!h.accepts(&chars("a")));
    assert!(h.accepts(&chars("b")));
}

#[test]
fn load_from_contents_skips_blank_lines() {
    let h = History::load_from_contents("select 1;\n\n   \nselect 2;\n");
    // pushed in file order, so the file's last line is the most recent
    assert_eq!(h.commands, vec![chars("select 2;"), chars("select 1;")]);
    assert_eq!(h.current_command(), -1);
}

#[test]
fn load_from_contents_suppresses_adjacent_duplicates() {
    let h = History::load_from_contents("a\na\nb\na\n");
    assert_eq!(h.commands, vec![chars("a"), chars("b"), chars("a")]);
}
