//! One step of the outer input loop: the editor consumes an event, and the
//! history store is consulted or extended as the editor asks.  The caller
//! owns the loop itself — it blocks on the terminal for the next raw event,
//! repaints, and appends to the backing history file when a step says so.

use vstd::prelude::*;
use crate::chars::clone_chars;
use crate::chars::string_from_chars;
use crate::history::History;
use crate::history::MAX_HISTORY;
use crate::history::push_spec;
use crate::ui::event::{KeyEvent, Key, TrueEvent};
use crate::ui::text_input::{
    EditFx,
    TextInput,
    TextInputEvent,
    fx_none,
    handle_spec,
    same_state,
};

verus! {

/// What one step of the loop yields to the caller.
#[derive(Debug, PartialEq)]
pub enum Event {
    /// The session was cancelled.
    Quit,
    /// A line was submitted.
    Buffer(String),
    /// The loop goes on.
    Nothing,
}

/// One step's outcome: the loop event, a newly recorded history entry that
/// should be appended to the backing file, the terminal effects to replay,
/// and whether the prompt line must be repainted.
#[derive(Debug, PartialEq)]
pub struct StepResult {
    pub event: Event,
    pub persist: Option<String>,
    pub fx: EditFx,
    pub repaint: bool,
}

/// The step only edited (or ignored): the editor moved as `handle_spec`
/// says, history and saved draft are untouched, and the prompt is
/// repainted exactly when the event was a key event.
pub open spec fn edit_only(
    ti_pre: TextInput,
    ti_post: TextInput,
    h_pre: History,
    h_post: History,
    bs_pre: Seq<char>,
    bs_post: Seq<char>,
    event: TrueEvent,
    r: StepResult,
) -> bool {
    &&& handle_spec(ti_pre.tp, ti_post.tp, event, (TextInputEvent::Nothing, r.fx))
    &&& h_post.entries() == h_pre.entries()
    &&& h_post.current_command == h_pre.current_command
    &&& bs_post == bs_pre
    &&& r.event matches Event::Nothing
    &&& r.persist is None
    &&& r.repaint == (event matches TrueEvent::KeyEvent(_))
}

/// Feeds one normalized event through the editor and carries out what it
/// asks of the history store:
///
/// * ctrl-up saves the live draft on first use and splices in the next
///   older entry, when one exists;
/// * ctrl-down splices in the next newer entry, or restores the saved
///   draft when none is newer;
/// * a submitted non-empty line is pushed (adjacent duplicates are
///   suppressed) and handed back for persisting when newly recorded, and
///   the history cursor is reset;
/// * the quit chord ends the session;
/// * every other event only edits.
///
/// A history entry longer than the viewport arithmetic can track is left
/// unspliced, and a push onto a full history is skipped.
pub fn input_step(
    ti: &mut TextInput,
    history: &mut History,
    buffer_save: &mut Vec<char>,
    event: TrueEvent,
) -> (r: StepResult)
    requires
        old(ti).wf(),
        old(history).wf(),
    ensures
        final(ti).wf(),
        final(ti).tp.same_frame(old(ti).tp),
        final(history).wf(),
        (match event {
            TrueEvent::KeyEvent(ke) => match ke {
                KeyEvent::Ctrl(k) => match k {
                    Key::Up => {
                        &&& final(buffer_save)@ == if old(history).current_command == -1 {
                            old(ti).tp.buffer@
                        } else {
                            old(buffer_save)@
                        }
                        &&& final(history).entries() == old(history).entries()
                        &&& r.event matches Event::Nothing
                        &&& r.persist is None
                        &&& r.fx == fx_none()
                        &&& if old(history).current_command as int >= old(
                            history,
                        ).entries().len() - 1 {
                            &&& final(history).current_command == old(history).current_command
                            &&& same_state(final(ti).tp, old(ti).tp)
                            &&& r.repaint == false
                        } else {
                            ({
                                let e = old(history).entries()[old(
                                    history,
                                ).current_command as int + 1];
                                &&& final(history).current_command == old(
                                    history,
                                ).current_command + 1
                                &&& if e.len() + old(ti).tp.prompt_len <= 0xFFFF {
                                    &&& final(ti).tp.buffer@ == e
                                    &&& final(ti).tp.current_index == e.len()
                                    &&& final(ti).tp.y == old(ti).tp.y
                                    &&& r.repaint == true
                                } else {
                                    &&& same_state(final(ti).tp, old(ti).tp)
                                    &&& r.repaint == false
                                }
                            })
                        }
                    },
                    Key::Down => {
                        &&& final(buffer_save)@ == old(buffer_save)@
                        &&& final(history).entries() == old(history).entries()
                        &&& r.event matches Event::Nothing
                        &&& r.persist is None
                        &&& r.fx == fx_none()
                        &&& if old(history).current_command > 0 {
                            ({
                                let e = old(history).entries()[old(
                                    history,
                                ).current_command as int - 1];
                                &&& final(history).current_command == old(
                                    history,
                                ).current_command - 1
                                &&& if e.len() + old(ti).tp.prompt_len <= 0xFFFF {
                                    &&& final(ti).tp.buffer@ == e
                                    &&& final(ti).tp.current_index == e.len()
                                    &&& final(ti).tp.y == old(ti).tp.y
                                    &&& r.repaint == true
                                } else {
                                    &&& same_state(final(ti).tp, old(ti).tp)
                                    &&& r.repaint == false
                                }
                            })
                        } else {
                            &&& final(history).current_command == old(history).current_command
                            &&& if old(buffer_save)@.len() + old(ti).tp.prompt_len <= 0xFFFF {
                                &&& final(ti).tp.buffer@ == old(buffer_save)@
                                &&& final(ti).tp.current_index == old(buffer_save)@.len()
                                &&& final(ti).tp.y == old(ti).tp.y
                                &&& r.repaint == true
                            } else {
                                &&& same_state(final(ti).tp, old(ti).tp)
                                &&& r.repaint == false
                            }
                        }
                    },
                    Key::Char(c) => if c == 'c' || c == 'd' {
                        &&& same_state(final(ti).tp, old(ti).tp)
                        &&& final(history).entries() == old(history).entries()
                        &&& final(history).current_command == old(history).current_command
                        &&& final(buffer_save)@ == old(buffer_save)@
                        &&& r.event matches Event::Quit
                        &&& r.persist is None
                        &&& r.fx == fx_none()
                        &&& r.repaint == false
                    } else {
                        edit_only(
                            *old(ti),
                            *final(ti),
                            *old(history),
                            *final(history),
                            old(buffer_save)@,
                            final(buffer_save)@,
                            event,
                            r,
                        )
                    },
                    _ => edit_only(
                        *old(ti),
                        *final(ti),
                        *old(history),
                        *final(history),
                        old(buffer_save)@,
                        final(buffer_save)@,
                        event,
                        r,
                    ),
                },
                KeyEvent::Key(k) => match k {
                    Key::Char(c) => if c == '\n' {
                        ({
                            let raw = old(ti).tp.buffer@;
                            &&& same_state(final(ti).tp, old(ti).tp)
                            &&& final(buffer_save)@ == old(buffer_save)@
                            &&& final(history).current_command == -1
                            &&& (r.event matches Event::Buffer(s) && s@ == raw)
                            &&& r.fx == fx_none()
                            &&& r.repaint == false
                            &&& if raw.len() > 0 && old(history).entries().len() < MAX_HISTORY {
                                &&& final(history).entries() == push_spec(
                                    old(history).entries(),
                                    raw,
                                )
                                &&& if old(history).entries().len() == 0 || old(
                                    history,
                                ).entries()[0] != raw {
                                    r.persist matches Some(p) && p@ == raw
                                } else {
                                    r.persist is None
                                }
                            } else {
                                &&& final(history).entries() == old(history).entries()
                                &&& r.persist is None
                            }
                        })
                    } else {
                        edit_only(
                            *old(ti),
                            *final(ti),
                            *old(history),
                            *final(history),
                            old(buffer_save)@,
                            final(buffer_save)@,
                            event,
                            r,
                        )
                    },
                    _ => edit_only(
                        *old(ti),
                        *final(ti),
                        *old(history),
                        *final(history),
                        old(buffer_save)@,
                        final(buffer_save)@,
                        event,
                        r,
                    ),
                },
                KeyEvent::Alt(_) => edit_only(
                    *old(ti),
                    *final(ti),
                    *old(history),
                    *final(history),
                    old(buffer_save)@,
                    final(buffer_save)@,
                    event,
                    r,
                ),
            },
            _ => edit_only(
                *old(ti),
                *final(ti),
                *old(history),
                *final(history),
                old(buffer_save)@,
                final(buffer_save)@,
                event,
                r,
            ),
        }),
{
    let is_key = match &event {
        TrueEvent::KeyEvent(_) => true,
        _ => false,
    };
    let (res, fx) = ti.handle_event(event);
    match res {
        TextInputEvent::HistoryPrev => {
            if history.current_command() == -1 {
                *buffer_save = ti.data();
            }
            let mut repaint = false;
            match history.prev() {
                Some(b) => {
                    if b.len() <= 0xFFFF - ti.tp.prompt_len {
                        ti.set_data(b);
                        repaint = true;
                    }
                },
                None => {},
            }
            StepResult { event: Event::Nothing, persist: None, fx, repaint }
        },
        TextInputEvent::HistoryNext => {
            let mut repaint = false;
            if history.current_command() > -1 {
                match history.next() {
                    Some(b) => {
                        if b.len() <= 0xFFFF - ti.tp.prompt_len {
                            ti.set_data(b);
                            repaint = true;
                        }
                    },
                    None => {
                        let b = clone_chars(buffer_save);
                        if b.len() <= 0xFFFF - ti.tp.prompt_len {
                            ti.set_data(b);
                            repaint = true;
                        }
                    },
                }
            } else {
                let b = clone_chars(buffer_save);
                if b.len() <= 0xFFFF - ti.tp.prompt_len {
                    ti.set_data(b);
                    repaint = true;
                }
            }
            StepResult { event: Event::Nothing, persist: None, fx, repaint }
        },
        TextInputEvent::Quit => StepResult {
            event: Event::Quit,
            persist: None,
            fx,
            repaint: false,
        },
        TextInputEvent::Buffer(raw, s) => {
            let mut persist: Option<String> = None;
            if raw.len() > 0 && history.commands.len() < MAX_HISTORY {
                if history.accepts(&raw) {
                    persist = Some(string_from_chars(&raw));
                }
                history.push(&raw);
            }
            history.reset_index();
            StepResult { event: Event::Buffer(s), persist, fx, repaint: false }
        },
        TextInputEvent::Nothing => StepResult {
            event: Event::Nothing,
            persist: None,
            fx,
            repaint: is_key,
        },
    }
}

} // verus!
