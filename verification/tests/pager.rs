use rpsql::ui::event::{Key, KeyEvent, TrueEvent};
use rpsql::ui::text_view::TextView;

fn ctrl(k: Key) -> TrueEvent {
    TrueEvent::KeyEvent(KeyEvent::Ctrl(k))
}

fn chars(s: &str) -> Vec<char> {
    s.chars().collect()
}

fn key(k: Key) -> TrueEvent {
    TrueEvent::KeyEvent(KeyEvent::Key(k))
}

fn rows(n: usize) -> Vec<Vec<char>> {
    (0..n).map(|i| chars(&format!("row {}", i))).collect()
}

#[test]
fn down_never_scrolls_past_content() {
    let mut tv = TextView::new(rows(100), 80, 20);
    for _ in 0..500 {
        let (again, _) = tv.handle_event(key(Key::Down));
        assert!(again);
        assert!(tv.y <= 80);
    }
    assert_eq!(tv.y, 80);
}

#[test]
fn up_stops_at_the_top() {
    let mut tv = TextView::new(rows(30), 80, 20);
    tv.handle_event(key(Key::Down));
    tv.handle_event(key(Key::Up));
    let (_, moved) = tv.handle_event(key(Key::Up));
    assert!(!moved);
    assert_eq!(tv.y, 0);
}

#[test]
fn short_content_does_not_scroll() {
    let mut tv = TextView::new(rows(5), 80, 20);
    let (again, moved) = tv.handle_event(key(Key::Down));
    assert!(again);
    assert!(!moved);
    assert_eq!(tv.y, 0);
}

#[test]
fn horizontal_moves_clamp_to_longest_visible_row() {
    let data = vec![chars("short"), chars("a much longer row of text")];
    let mut tv = TextView::new(data, 10, 20);
    // longest visible row has 25 characters; x stops once x + 10 reaches 25
    for _ in 0..50 {
        tv.handle_event(key(Key::Right));
    }
    assert_eq!(tv.x, 15);
    let (_, moved) = tv.handle_event(key(Key::Left));
    assert!(moved);
    assert_eq!(tv.x, 14);
}

#[test]
fn any_other_key_exits() {
    let mut tv = TextView::new(rows(3), 80, 20);
    let (again, _) = tv.handle_event(key(Key::Char('q')));
    assert!(!again);
    let (again, _) = tv.handle_event(key(Key::Esc));
    assert!(!again);
    // chords are keys too and exit as well
    let (again, _) = tv.handle_event(ctrl(Key::Char('c')));
    assert!(!again);
    let (again, _) = tv.handle_event(TrueEvent::KeyEvent(KeyEvent::Alt(Key::Char('x'))));
    assert!(!again);
    // a mouse event is not a key and keeps the view open
    let (again, moved) = tv.handle_event(TrueEvent::MouseEvent);
    assert!(again);
    assert!(!moved);
}

#[test]
fn vertical_move_reclamps_horizontal_offset() {
    let long = chars("012345678901234567890123456789"); // 30 characters
    let short = chars("012345678901234"); // 15 characters
    let mut tv = TextView::new(vec![long, short], 10, 1);
    for _ in 0..50 {
        tv.handle_event(key(Key::Right));
    }
    assert_eq!(tv.x, 20);
    // the window below holds only the 15-character row: x is pulled back
    tv.handle_event(key(Key::Down));
    assert_eq!(tv.y, 1);
    assert_eq!(tv.x, 5);
    // moving back up widens the window again; the offset stays put
    tv.handle_event(key(Key::Up));
    assert_eq!(tv.x, 5);
}

#[test]
fn vertical_move_into_narrow_window_resets_offset() {
    let long = chars("a much longer row of text");
    let tiny = chars("ab");
    let mut tv = TextView::new(vec![long, tiny], 10, 1);
    for _ in 0..50 {
        tv.handle_event(key(Key::Right));
    }
    assert_eq!(tv.x, 15);
    tv.handle_event(key(Key::Down));
    // the narrow window fits the viewport whole: back to the left edge
    assert_eq!(tv.x, 0);
}

#[test]
fn visible_window_cuts_rows_and_columns() {
    let data = vec![chars("0123456789"), chars("abcdef"), chars("x")];
    let mut tv = TextView::new(data, 4, 2);
    let win = tv.visible();
    assert_eq!(win, vec![chars("0123"), chars("abcd")]);
    tv.handle_event(key(Key::Down));
    let win = tv.visible();
    assert_eq!(win, vec![chars("abcd"), chars("x")]);
    tv.handle_event(key(Key::Right));
    let win = tv.visible();
    // a row that ends before the horizontal offset shows as empty
    assert_eq!(win, vec![chars("bcde"), vec![]]);
}
