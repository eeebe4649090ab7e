use rpsql::ui::TermPos;

fn type_str(tp: &mut TermPos, s: &str) {
    for c in s.chars() {
        tp.char(c);
    }
}

#[test]
fn insertions_accumulate_in_order() {
    let mut tp = TermPos::new(80, 24, 1);
    type_str(&mut tp, "select 1;");
    assert_eq!(tp.buffer, "select 1;".chars().collect::<Vec<char>>());
    assert_eq!(tp.current_index, 9);
}

#[test]
fn insert_then_backspace_roundtrip() {
    let mut tp = TermPos::new(80, 24, 1);
    type_str(&mut tp, "drop table tmp;");
    for _ in 0.."drop table tmp;".len() {
        tp.backspace();
    }
    assert!(tp.buffer.is_empty());
    assert_eq!(tp.current_index, 0);
    assert_eq!(tp.x, 4); // column right after the prompt
    assert_eq!(tp.d_y, 0);
}

#[test]
fn wrap_offset_after_jump_to_end() {
    // width 10, prompt 3, buffer 20 characters: floor((3 + 20) / 10) == 2
    let mut tp = TermPos::new(10, 24, 1);
    type_str(&mut tp, "aaaaaaaaaaaaaaaaaaaa");
    tp.beg();
    tp.end();
    assert_eq!(tp.current_index, 20);
    assert_eq!(tp.d_y, 2);
    assert_eq!(tp.x, (3 + 20) % 10 + 1);
}

#[test]
fn insert_wraps_at_right_edge() {
    let mut tp = TermPos::new(10, 24, 1);
    type_str(&mut tp, "abcdef"); // columns 5..=10
    assert_eq!(tp.x, 10);
    assert_eq!(tp.d_y, 0);
    tp.char('g'); // crosses the edge
    assert_eq!(tp.x, 1);
    assert_eq!(tp.d_y, 1);
    tp.left(); // back across the wrap boundary
    assert_eq!(tp.x, 10);
    assert_eq!(tp.d_y, 0);
    tp.right();
    assert_eq!(tp.x, 1);
    assert_eq!(tp.d_y, 1);
}

#[test]
fn vertical_moves_shift_by_viewport_width() {
    let mut tp = TermPos::new(10, 24, 1);
    type_str(&mut tp, "abcdefghijklmnopqrstuvwxyz"); // 26 chars, cursor at end
    assert_eq!(tp.current_index, 26);
    tp.up();
    assert_eq!(tp.current_index, 16);
    tp.up();
    assert_eq!(tp.current_index, 6);
    tp.up(); // no wrapped row above: jump to start
    assert_eq!(tp.current_index, 0);
    assert_eq!(tp.d_y, 0);
    tp.down();
    assert_eq!(tp.current_index, 10);
    tp.down();
    assert_eq!(tp.current_index, 20);
    tp.down(); // fewer than 10 chars left: jump to end
    assert_eq!(tp.current_index, 26);
}

#[test]
fn word_left_lands_on_words() {
    let mut tp = TermPos::new(80, 24, 1);
    type_str(&mut tp, "select  * from t");
    assert_eq!(tp.current_index, 16);
    tp.word_left();
    assert_eq!(tp.current_index, 15); // "t"
    tp.word_left();
    assert_eq!(tp.current_index, 10); // "from"
    tp.word_left();
    assert_eq!(tp.current_index, 8); // "*"
    tp.word_left();
    assert_eq!(tp.current_index, 0); // "select"
}

#[test]
fn word_right_lands_past_whitespace() {
    let mut tp = TermPos::new(80, 24, 1);
    type_str(&mut tp, "select  * from t");
    tp.beg();
    tp.word_right();
    assert_eq!(tp.current_index, 8); // "*"
    tp.word_right();
    assert_eq!(tp.current_index, 10); // "from"
    tp.word_right();
    assert_eq!(tp.current_index, 15); // "t"
    tp.word_right();
    assert_eq!(tp.current_index, 16); // end
}

#[test]
fn delete_removes_under_cursor() {
    let mut tp = TermPos::new(80, 24, 1);
    type_str(&mut tp, "abc");
    tp.beg();
    tp.delete();
    assert_eq!(tp.buffer, vec!['b', 'c']);
    assert_eq!(tp.current_index, 0);
}

#[test]
fn typing_past_bottom_scrolls() {
    // width 10, height 2, prompt on the bottom row
    let mut tp = TermPos::new(10, 2, 2);
    let mut scrolled_count: usize = 0;
    for c in "abcdefghijklm".chars() {
        if tp.char(c) {
            scrolled_count += 1;
        }
    }
    // the buffer now occupies a second row; the terminal scrolled once and
    // the prompt row moved up
    assert_eq!(scrolled_count, 1);
    assert_eq!(tp.y, 1);
}

#[test]
fn reset_empties_the_buffer() {
    let mut tp = TermPos::new(80, 24, 5);
    type_str(&mut tp, "abc");
    tp.reset();
    assert!(tp.buffer.is_empty());
    assert_eq!(tp.current_index, 0);
    assert_eq!(tp.d_y, 0);
    assert_eq!(tp.y, 5);
}
