use rpsql::history::History;
use rpsql::ui::event::{Key, KeyEvent, RawEvent, TrueEvent};
use rpsql::ui::event_loop::{input_step, Event};
use rpsql::ui::text_input::{TextInput, TextInputEvent};

fn chars(s: &str) -> Vec<char> {
    s.chars().collect()
}

fn key(k: Key) -> TrueEvent {
    TrueEvent::KeyEvent(KeyEvent::Key(k))
}

fn ctrl(k: Key) -> TrueEvent {
    TrueEvent::KeyEvent(KeyEvent::Ctrl(k))
}

#[test]
fn submit_records_history() {
    let mut ti = TextInput::new(80, 24, 1);
    let mut history = History::new();
    let mut saved: Vec<char> = Vec::new();
    for c in "select 1;".chars() {
        let r = input_step(&mut ti, &mut history, &mut saved, key(Key::Char(c)));
        assert_eq!(r.event, Event::Nothing);
        assert!(r.repaint);
    }
    let r = input_step(&mut ti, &mut history, &mut saved, key(Key::Char('\n')));
    assert_eq!(r.event, Event::Buffer("select 1;".to_string()));
    assert_eq!(r.persist, Some("select 1;".to_string()));
    assert_eq!(history.commands, vec![chars("select 1;")]);
    assert_eq!(history.current_command(), -1);
}

#[test]
fn submitting_the_same_line_twice_records_it_once() {
    let mut ti = TextInput::new(80, 24, 1);
    let mut history = History::new();
    let mut saved: Vec<char> = Vec::new();
    for _ in 0..2 {
        for c in "select 1;".chars() {
            input_step(&mut ti, &mut history, &mut saved, key(Key::Char(c)));
        }
        let r = input_step(&mut ti, &mut history, &mut saved, key(Key::Char('\n')));
        assert_eq!(r.event, Event::Buffer("select 1;".to_string()));
        // start the next line afresh, as the outer loop does
        ti = TextInput::new(80, 24, 1);
    }
    assert_eq!(history.commands, vec![chars("select 1;")]);
}

#[test]
fn empty_submission_is_not_recorded() {
    let mut ti = TextInput::new(80, 24, 1);
    let mut history = History::new();
    let mut saved: Vec<char> = Vec::new();
    let r = input_step(&mut ti, &mut history, &mut saved, key(Key::Char('\n')));
    assert_eq!(r.event, Event::Buffer(String::new()));
    assert_eq!(r.persist, None);
    assert!(history.commands.is_empty());
}

#[test]
fn quit_chord_cancels() {
    let mut ti = TextInput::new(80, 24, 1);
    let mut history = History::new();
    let mut saved: Vec<char> = Vec::new();
    let r = input_step(&mut ti, &mut history, &mut saved, ctrl(Key::Char('c')));
    assert_eq!(r.event, Event::Quit);
    let r = input_step(&mut ti, &mut history, &mut saved, ctrl(Key::Char('d')));
    assert_eq!(r.event, Event::Quit);
}

#[test]
fn history_navigation_saves_and_restores_the_draft() {
    let mut ti = TextInput::new(80, 24, 1);
    let mut history = History::new();
    history.push(&chars("old command"));
    let mut saved: Vec<char> = Vec::new();
    for c in "draft".chars() {
        input_step(&mut ti, &mut history, &mut saved, key(Key::Char(c)));
    }
    // ctrl-up splices in the stored entry and saves the draft
    let r = input_step(&mut ti, &mut history, &mut saved, ctrl(Key::Up));
    assert!(r.repaint);
    assert_eq!(ti.data(), chars("old command"));
    assert_eq!(saved, chars("draft"));
    // ctrl-down at the newest entry restores the draft
    let r = input_step(&mut ti, &mut history, &mut saved, ctrl(Key::Down));
    assert!(r.repaint);
    assert_eq!(ti.data(), chars("draft"));
}

#[test]
fn history_navigation_walks_older_and_newer() {
    let mut ti = TextInput::new(80, 24, 1);
    let mut history = History::new();
    history.push(&chars("first"));
    history.push(&chars("second"));
    let mut saved: Vec<char> = Vec::new();
    input_step(&mut ti, &mut history, &mut saved, ctrl(Key::Up));
    assert_eq!(ti.data(), chars("second"));
    input_step(&mut ti, &mut history, &mut saved, ctrl(Key::Up));
    assert_eq!(ti.data(), chars("first"));
    // no older entry: nothing changes
    let r = input_step(&mut ti, &mut history, &mut saved, ctrl(Key::Up));
    assert!(!r.repaint);
    assert_eq!(ti.data(), chars("first"));
    input_step(&mut ti, &mut history, &mut saved, ctrl(Key::Down));
    assert_eq!(ti.data(), chars("second"));
}

#[test]
fn handle_event_moves_and_requests() {
    let mut ti = TextInput::new(80, 24, 1);
    for c in "ab cd".chars() {
        ti.handle_event(key(Key::Char(c)));
    }
    let (r, _) = ti.handle_event(ctrl(Key::Left));
    assert_eq!(r, TextInputEvent::Nothing);
    assert_eq!(ti.tp.current_index, 3);
    let (r, _) = ti.handle_event(ctrl(Key::Up));
    assert_eq!(r, TextInputEvent::HistoryPrev);
    let (r, _) = ti.handle_event(ctrl(Key::Down));
    assert_eq!(r, TextInputEvent::HistoryNext);
    let (r, _) = ti.handle_event(key(Key::Char('\n')));
    match r {
        TextInputEvent::Buffer(raw, s) => {
            assert_eq!(raw, chars("ab cd"));
            assert_eq!(s, "ab cd");
        },
        other => panic!("expected a submission, got {:?}", other),
    }
}

#[test]
fn set_data_jumps_to_the_end() {
    let mut ti = TextInput::new(10, 24, 1);
    ti.set_data(chars("0123456789abc")); // 13 chars, prompt 3: wraps once
    assert_eq!(ti.data(), chars("0123456789abc"));
    assert_eq!(ti.tp.current_index, 13);
    assert_eq!(ti.tp.d_y, (3 + 13) / 10);
}

#[test]
fn normalizer_recognizes_ctrl_arrow_encodings() {
    for (bytes, expected) in [
        (vec![27u8, 91, 49, 59, 53, 67], Key::Right),
        (vec![27u8, 79, 99], Key::Right),
        (vec![27u8, 91, 49, 59, 53, 68], Key::Left),
        (vec![27u8, 79, 100], Key::Left),
        (vec![27u8, 91, 49, 59, 53, 65], Key::Up),
        (vec![27u8, 79, 97], Key::Up),
        (vec![27u8, 91, 49, 59, 53, 66], Key::Down),
        (vec![27u8, 79, 98], Key::Down),
    ] {
        let got = TrueEvent::from_raw_event(RawEvent::Unsupported(bytes));
        assert_eq!(got, TrueEvent::KeyEvent(KeyEvent::Ctrl(expected)));
    }
}

#[test]
fn normalizer_passes_unknown_sequences_through() {
    let got = TrueEvent::from_raw_event(RawEvent::Unsupported(vec![27u8, 91, 90]));
    assert_eq!(got, TrueEvent::Unsupported(vec![27u8, 91, 90]));
    let got = TrueEvent::from_raw_event(RawEvent::Key(Key::Ctrl('x')));
    assert_eq!(got, TrueEvent::KeyEvent(KeyEvent::Ctrl(Key::Char('x'))));
    let got = TrueEvent::from_raw_event(RawEvent::Key(Key::Alt('y')));
    assert_eq!(got, TrueEvent::KeyEvent(KeyEvent::Alt(Key::Char('y'))));
    let got = TrueEvent::from_raw_event(RawEvent::Key(Key::Esc));
    assert_eq!(got, TrueEvent::KeyEvent(KeyEvent::Key(Key::Esc)));
}
