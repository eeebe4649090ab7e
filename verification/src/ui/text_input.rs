//! The line editor: a state machine over normalized key events that owns
//! the edit buffer and its screen geometry.  Every event either mutates the
//! editor through the geometry tracker, emits a submission, a cancellation
//! or a history-navigation request, or is ignored.  The caller repaints and
//! replays the returned terminal effects; no output happens here.

use vstd::prelude::*;
use crate::chars::{clone_chars, string_from_chars};
pub use crate::ui::TermPos;
use crate::ui::{wrap_rows, word_left_target, word_right_target, PROMPT_LEN};
use crate::ui::event::{KeyEvent, Key, TrueEvent};

verus! {

/// What the editor hands back for one event.
#[derive(Debug, PartialEq)]
pub enum TextInputEvent {
    /// The session was cancelled with a quit chord.
    Quit,
    /// The caller should splice in the next older history entry.
    HistoryPrev,
    /// The caller should splice in the next newer history entry.
    HistoryNext,
    /// A newline submitted the buffer: its characters, and the same
    /// characters joined into a string.
    Buffer(Vec<char>, String),
    /// The event was consumed (or ignored) without ending the session.
    Nothing,
}

/// Terminal effects the caller must replay after an event: a scroll of one
/// line when typing ran past the bottom of the viewport, and a full screen
/// clear.
#[derive(Debug, Clone, Copy, PartialEq, Eq)]
pub struct EditFx {
    pub scrolled: bool,
    pub cleared: bool,
}

/// No terminal effect.
pub open spec fn fx_none() -> EditFx {
    EditFx { scrolled: false, cleared: false }
}

/// Both geometries hold the same state, field by field.
pub open spec fn same_state(a: TermPos, b: TermPos) -> bool {
    &&& a.buffer@ == b.buffer@
    &&& a.current_index == b.current_index
    &&& a.x == b.x
    &&& a.y == b.y
    &&& a.d_y == b.d_y
    &&& a.max_x == b.max_x
    &&& a.max_y == b.max_y
    &&& a.prompt_len == b.prompt_len
}

/// The event only moved the cursor, to `idx`: buffer and row are kept and
/// nothing was emitted.
pub open spec fn plain_move(
    pre: TermPos,
    post: TermPos,
    idx: int,
    r: (TextInputEvent, EditFx),
) -> bool {
    &&& post.buffer@ == pre.buffer@
    &&& post.y == pre.y
    &&& post.current_index == idx
    &&& r.0 matches TextInputEvent::Nothing
    &&& r.1 == fx_none()
}

/// The event was ignored: nothing changed and nothing was emitted.
pub open spec fn ignored(pre: TermPos, post: TermPos, r: (TextInputEvent, EditFx)) -> bool {
    &&& same_state(post, pre)
    &&& r.0 matches TextInputEvent::Nothing
    &&& r.1 == fx_none()
}

/// The editor's transition relation: what `handle_event` does to the
/// geometry `pre -> post` and what it returns, for each event.
pub open spec fn handle_spec(
    pre: TermPos,
    post: TermPos,
    event: TrueEvent,
    r: (TextInputEvent, EditFx),
) -> bool {
    (match event {
        TrueEvent::KeyEvent(ke) => match ke {
            KeyEvent::Key(k) => match k {
                Key::Char(c) => if c == '\n' {
                    &&& same_state(post, pre)
                    &&& (r.0 matches TextInputEvent::Buffer(raw, s) && raw@ == pre.buffer@ && s@ == pre.buffer@)
                    &&& r.1 == fx_none()
                } else if pre.prompt_len + pre.buffer@.len() < 0xFFFF {
                    &&& post.buffer@ == pre.buffer@.insert(
                        pre.current_index as int,
                        c,
                    )
                    &&& post.current_index == pre.current_index + 1
                    &&& r.1.scrolled == (pre.y as int + wrap_rows(
                        pre.prompt_len as int,
                        pre.buffer@.len() as int + 1,
                        pre.max_x as int,
                    ) > pre.max_y as int && pre.y > 1)
                    &&& post.y == if r.1.scrolled {
                        (pre.y - 1) as u16
                    } else {
                        pre.y
                    }
                    &&& !r.1.cleared
                    &&& r.0 matches TextInputEvent::Nothing
                } else {
                    ignored(pre, post, r)
                },
                Key::Backspace => {
                    &&& post.y == pre.y
                    &&& r.0 matches TextInputEvent::Nothing
                    &&& r.1 == fx_none()
                    &&& if pre.current_index > 0 {
                        post.buffer@ == pre.buffer@.remove(
                            pre.current_index - 1,
                        ) && post.current_index == pre.current_index
                            - 1
                    } else {
                        post.buffer@ == pre.buffer@
                            && post.current_index == 0
                    }
                },
                Key::Delete => {
                    &&& post.y == pre.y
                    &&& post.current_index == pre.current_index
                    &&& r.0 matches TextInputEvent::Nothing
                    &&& r.1 == fx_none()
                    &&& if pre.current_index < pre.buffer@.len() {
                        post.buffer@ == pre.buffer@.remove(
                            pre.current_index as int,
                        )
                    } else {
                        post.buffer@ == pre.buffer@
                    }
                },
                Key::Left => plain_move(
                    pre,
                    post,
                    if pre.current_index > 0 {
                        pre.current_index - 1
                    } else {
                        0
                    },
                    r,
                ),
                Key::Right => plain_move(
                    pre,
                    post,
                    if pre.current_index < pre.buffer@.len() {
                        pre.current_index + 1
                    } else {
                        pre.current_index as int
                    },
                    r,
                ),
                Key::Up => plain_move(
                    pre,
                    post,
                    if pre.d_y > 0 && pre.current_index >= pre.max_x as usize {
                        pre.current_index - pre.max_x as usize
                    } else {
                        0
                    },
                    r,
                ),
                Key::Down => plain_move(
                    pre,
                    post,
                    if (pre.current_index + pre.max_x as usize) < pre.buffer@.len() {
                        pre.current_index + pre.max_x as usize
                    } else {
                        pre.buffer@.len() as int
                    },
                    r,
                ),
                Key::Home => plain_move(pre, post, 0, r),
                Key::End => plain_move(
                    pre,
                    post,
                    pre.buffer@.len() as int,
                    r,
                ),
                Key::PageUp => plain_move(
                    pre,
                    post,
                    word_left_target(pre.buffer@, pre.current_index as int),
                    r,
                ),
                Key::PageDown => plain_move(
                    pre,
                    post,
                    word_right_target(pre.buffer@, pre.current_index as int),
                    r,
                ),
                _ => ignored(pre, post, r),
            },
            KeyEvent::Ctrl(k) => match k {
                Key::Char(c) => if c == 'c' || c == 'd' {
                    &&& same_state(post, pre)
                    &&& r.0 matches TextInputEvent::Quit
                    &&& r.1 == fx_none()
                } else if c == 'a' {
                    plain_move(pre, post, 0, r)
                } else if c == 'e' {
                    plain_move(
                        pre,
                        post,
                        pre.buffer@.len() as int,
                        r,
                    )
                } else if c == 'l' {
                    &&& post.buffer@ == pre.buffer@
                    &&& post.current_index == pre.current_index
                    &&& post.x == pre.x
                    &&& post.d_y == pre.d_y
                    &&& post.y == 1
                    &&& r.0 matches TextInputEvent::Nothing
                    &&& r.1 == EditFx { scrolled: false, cleared: true }
                } else {
                    ignored(pre, post, r)
                },
                Key::Left => plain_move(
                    pre,
                    post,
                    word_left_target(pre.buffer@, pre.current_index as int),
                    r,
                ),
                Key::Right => plain_move(
                    pre,
                    post,
                    word_right_target(pre.buffer@, pre.current_index as int),
                    r,
                ),
                Key::Up => {
                    &&& same_state(post, pre)
                    &&& r.0 matches TextInputEvent::HistoryPrev
                    &&& r.1 == fx_none()
                },
                Key::Down => {
                    &&& same_state(post, pre)
                    &&& r.0 matches TextInputEvent::HistoryNext
                    &&& r.1 == fx_none()
                },
                _ => ignored(pre, post, r),
            },
            KeyEvent::Alt(_) => ignored(pre, post, r),
        },
        _ => ignored(pre, post, r),
    })
}

/// The line editor: the geometry tracker with the edit buffer inside it.
pub struct TextInput {
    pub tp: TermPos,
}

impl TextInput {
    pub open spec fn wf(self) -> bool {
        self.tp.wf()
    }

    /// A fresh editor with an empty buffer, for a viewport of `max_x`
    /// columns and `max_y` rows, with the prompt on row `y`.
    pub fn new(max_x: u16, max_y: u16, y: u16) -> (r: TextInput)
        requires
            PROMPT_LEN < max_x as usize,
            1 <= y <= max_y,
        ensures
            r.wf(),
            r.tp.buffer@ == Seq::<char>::empty(),
            r.tp.current_index == 0,
            r.tp.y == y,
            r.tp.max_x == max_x,
            r.tp.max_y == max_y,
            r.tp.prompt_len == PROMPT_LEN,
    {
        TextInput { tp: TermPos::new(max_x, max_y, y) }
    }

    /// Consumes one normalized event.  Printable characters edit the
    /// buffer, a newline submits it, control chords cancel, clear, jump or
    /// ask for history; everything else is ignored.  The contract follows
    /// the event:
    ///
    /// * newline: the state is kept and `Buffer` carries the buffer, both
    ///   raw and joined;
    /// * a printable character is inserted at the cursor (ignored only when
    ///   the buffer has reached the viewport arithmetic's capacity);
    /// * backspace and delete remove around the cursor;
    /// * arrows, home, end, page and ctrl+arrow move the cursor;
    /// * ctrl-c and ctrl-d yield `Quit`; ctrl-l clears the screen;
    ///   ctrl-up and ctrl-down yield the history requests.
    pub fn handle_event(&mut self, event: TrueEvent) -> (r: (TextInputEvent, EditFx))
        requires
            old(self).wf(),
        ensures
            final(self).wf(),
            final(self).tp.same_frame(old(self).tp),
            handle_spec(old(self).tp, final(self).tp, event, r),
    {
        let mut fx = EditFx { scrolled: false, cleared: false };
        match event {
            TrueEvent::KeyEvent(ke) => {
                match ke {
                    KeyEvent::Key(k) => {
                        match k {
                            Key::Char(c) => {
                                if c == '\n' {
                                    let raw = clone_chars(&self.tp.buffer);
                                    let s = string_from_chars(&self.tp.buffer);
                                    return (TextInputEvent::Buffer(raw, s), fx);
                                } else {
                                    if self.tp.prompt_len + self.tp.buffer.len() < 0xFFFF {
                                        fx.scrolled = self.tp.char(c);
                                    }
                                }
                            },
                            Key::Backspace => self.tp.backspace(),
                            Key::Delete => self.tp.delete(),
                            Key::Left => self.tp.left(),
                            Key::Right => self.tp.right(),
                            Key::Up => self.tp.up(),
                            Key::Down => self.tp.down(),
                            Key::Home => self.tp.beg(),
                            Key::End => self.tp.end(),
                            Key::PageUp => self.tp.word_left(),
                            Key::PageDown => self.tp.word_right(),
                            _ => {},
                        }
                    },
                    KeyEvent::Ctrl(k) => {
                        match k {
                            Key::Char(c) => {
                                if c == 'c' || c == 'd' {
                                    return (TextInputEvent::Quit, fx);
                                } else if c == 'a' {
                                    self.tp.beg();
                                } else if c == 'e' {
                                    self.tp.end();
                                } else if c == 'l' {
                                    self.tp.clear_term();
                                    fx.cleared = true;
                                }
                            },
                            Key::Left => self.tp.word_left(),
                            Key::Right => self.tp.word_right(),
                            Key::Up => return (TextInputEvent::HistoryPrev, fx),
                            Key::Down => return (TextInputEvent::HistoryNext, fx),
                            _ => {},
                        }
                    },
                    KeyEvent::Alt(_) => {},
                }
            },
            _ => {},
        }
        (TextInputEvent::Nothing, fx)
    }

    /// The buffer's characters.
    pub fn data(&self) -> (r: Vec<char>)
        ensures
            r@ == self.tp.buffer@,
    {
        clone_chars(&self.tp.buffer)
    }

    /// Replaces the buffer (used when the caller splices in a history
    /// entry) and jumps to its end, recomputing the geometry.
    pub fn set_data(&mut self, d: Vec<char>)
        requires
            old(self).wf(),
            old(self).tp.prompt_len + d@.len() <= 0xFFFF,
        ensures
            final(self).wf(),
            final(self).tp.same_frame(old(self).tp),
            final(self).tp.buffer@ == d@,
            final(self).tp.current_index == d@.len(),
            final(self).tp.y == old(self).tp.y,
            final(self).tp.d_y as int == wrap_rows(
                old(self).tp.prompt_len as int,
                d@.len() as int,
                old(self).tp.max_x as int,
            ),
    {
        self.tp.current_index = 0;
        self.tp.d_y = 0;
        self.tp.x = (self.tp.prompt_len + 1) as u16;
        self.tp.buffer = d;
        self.tp.end();
    }
}

} // verus!
