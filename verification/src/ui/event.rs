//! Normalization of raw terminal input into a small semantic key-event
//! vocabulary.  Terminal emulators disagree on the escape sequences for
//! ctrl+arrow chords; the alternate encodings are recognized here and
//! nowhere else, so that the editing logic sees a single event per chord.

use vstd::prelude::*;

verus! {

/// A key as the terminal reports it.
#[derive(Debug, Clone, Copy, PartialEq, Eq)]
pub enum Key {
    Backspace,
    Left,
    Right,
    Up,
    Down,
    Home,
    End,
    PageUp,
    PageDown,
    BackTab,
    Delete,
    Insert,
    F(u8),
    Char(char),
    Alt(char),
    Ctrl(char),
    Null,
    Esc,
}

/// A raw input event as the terminal reader hands it over: a decoded key,
/// a mouse event (whose details the editor ignores), or an escape sequence
/// the reader did not recognize, passed through as its bytes.
#[derive(Debug, PartialEq, Eq)]
pub enum RawEvent {
    Key(Key),
    Mouse,
    Unsupported(Vec<u8>),
}

/// A normalized key event: a plain key or a control or alt chord.
#[derive(Debug, Clone, Copy, PartialEq, Eq)]
pub enum KeyEvent {
    Key(Key),
    Ctrl(Key),
    Alt(Key),
}

/// A normalized input event.
#[derive(Debug, PartialEq, Eq)]
pub enum TrueEvent {
    KeyEvent(KeyEvent),
    MouseEvent,
    Unsupported(Vec<u8>),
}

/// The two encodings of ctrl+right that terminal emulators emit.
pub open spec fn is_ctrl_right_seq(v: Seq<u8>) -> bool {
    v == seq![27u8, 91u8, 49u8, 59u8, 53u8, 67u8] || v == seq![27u8, 79u8, 99u8]
}

/// The two encodings of ctrl+left.
pub open spec fn is_ctrl_left_seq(v: Seq<u8>) -> bool {
    v == seq![27u8, 91u8, 49u8, 59u8, 53u8, 68u8] || v == seq![27u8, 79u8, 100u8]
}

/// The two encodings of ctrl+up.
pub open spec fn is_ctrl_up_seq(v: Seq<u8>) -> bool {
    v == seq![27u8, 91u8, 49u8, 59u8, 53u8, 65u8] || v == seq![27u8, 79u8, 97u8]
}

/// The two encodings of ctrl+down.
pub open spec fn is_ctrl_down_seq(v: Seq<u8>) -> bool {
    v == seq![27u8, 91u8, 49u8, 59u8, 53u8, 66u8] || v == seq![27u8, 79u8, 98u8]
}

/// What normalization yields for each raw event: control and alt keys
/// become chords, the known ctrl+arrow escape sequences become control
/// chords on the arrow keys, everything else passes through.
pub open spec fn normalize_spec(e: RawEvent) -> TrueEvent {
    match e {
        RawEvent::Key(k) => match k {
            Key::Ctrl(c) => TrueEvent::KeyEvent(KeyEvent::Ctrl(Key::Char(c))),
            Key::Alt(c) => TrueEvent::KeyEvent(KeyEvent::Alt(Key::Char(c))),
            _ => TrueEvent::KeyEvent(KeyEvent::Key(k)),
        },
        RawEvent::Mouse => TrueEvent::MouseEvent,
        RawEvent::Unsupported(v) => if is_ctrl_right_seq(v@) {
            TrueEvent::KeyEvent(KeyEvent::Ctrl(Key::Right))
        } else if is_ctrl_left_seq(v@) {
            TrueEvent::KeyEvent(KeyEvent::Ctrl(Key::Left))
        } else if is_ctrl_up_seq(v@) {
            TrueEvent::KeyEvent(KeyEvent::Ctrl(Key::Up))
        } else if is_ctrl_down_seq(v@) {
            TrueEvent::KeyEvent(KeyEvent::Ctrl(Key::Down))
        } else {
            TrueEvent::Unsupported(v)
        },
    }
}

/// Whether `v` holds exactly the six given bytes.
fn is_bytes6(v: &Vec<u8>, b0: u8, b1: u8, b2: u8, b3: u8, b4: u8, b5: u8) -> (r: bool)
    ensures
        r == (v@ == seq![b0, b1, b2, b3, b4, b5]),
{
    let r = v.len() == 6 && v[0] == b0 && v[1] == b1 && v[2] == b2 && v[3] == b3 && v[4] == b4
        && v[5] == b5;
    proof {
        let s = seq![b0, b1, b2, b3, b4, b5];
        assert(s.len() == 6 && s[0] == b0 && s[1] == b1 && s[2] == b2 && s[3] == b3 && s[4] == b4
            && s[5] == b5);
        if r {
            assert(v@ =~= s);
        }
    }
    r
}

/// Whether `v` holds exactly the three given bytes.
fn is_bytes3(v: &Vec<u8>, b0: u8, b1: u8, b2: u8) -> (r: bool)
    ensures
        r == (v@ == seq![b0, b1, b2]),
{
    let r = v.len() == 3 && v[0] == b0 && v[1] == b1 && v[2] == b2;
    proof {
        let s = seq![b0, b1, b2];
        assert(s.len() == 3 && s[0] == b0 && s[1] == b1 && s[2] == b2);
        if r {
            assert(v@ =~= s);
        }
    }
    r
}

impl TrueEvent {
    /// Normalizes one raw event.
    pub fn from_raw_event(event: RawEvent) -> (r: TrueEvent)
        ensures
            r == normalize_spec(event),
    {
        match event {
            RawEvent::Key(k) => match k {
                Key::Ctrl(c) => TrueEvent::KeyEvent(KeyEvent::Ctrl(Key::Char(c))),
                Key::Alt(c) => TrueEvent::KeyEvent(KeyEvent::Alt(Key::Char(c))),
                _ => TrueEvent::KeyEvent(KeyEvent::Key(k)),
            },
            RawEvent::Mouse => TrueEvent::MouseEvent,
            RawEvent::Unsupported(v) => {
                if is_bytes6(&v, 27, 91, 49, 59, 53, 67) || is_bytes3(&v, 27, 79, 99) {
                    TrueEvent::KeyEvent(KeyEvent::Ctrl(Key::Right))
                } else if is_bytes6(&v, 27, 91, 49, 59, 53, 68) || is_bytes3(&v, 27, 79, 100) {
                    TrueEvent::KeyEvent(KeyEvent::Ctrl(Key::Left))
                } else if is_bytes6(&v, 27, 91, 49, 59, 53, 65) || is_bytes3(&v, 27, 79, 97) {
                    TrueEvent::KeyEvent(KeyEvent::Ctrl(Key::Up))
                } else if is_bytes6(&v, 27, 91, 49, 59, 53, 66) || is_bytes3(&v, 27, 79, 98) {
                    TrueEvent::KeyEvent(KeyEvent::Ctrl(Key::Down))
                } else {
                    TrueEvent::Unsupported(v)
                }
            },
        }
    }
}

} // verus!
