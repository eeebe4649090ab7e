//! Scrollback history: an ordered store of previously committed buffers,
//! most recent first, with a browse cursor.

use vstd::prelude::*;
use crate::chars::{chars_eq, clone_chars, lines_spec, split_lines, to_char_vec};
use crate::ui::is_space_char;

verus! {

/// Largest number of entries the `i32` browse cursor can address.
pub const MAX_HISTORY: usize = 0x7FFF_FFFF;

/// The list after a push: the entry is prepended unless it repeats the most
/// recent entry, in which case the list is unchanged.
pub open spec fn push_spec(cmds: Seq<Seq<char>>, e: Seq<char>) -> Seq<Seq<char>> {
    if cmds.len() > 0 && cmds[0] == e {
        cmds
    } else {
        seq![e].add(cmds)
    }
}

/// A line whose characters are all whitespace; such lines are skipped when
/// the history is seeded from a backing file.
pub open spec fn is_blank_line(l: Seq<char>) -> bool {
    forall|i: int| 0 <= i < l.len() ==> is_space_char(l[i])
}

/// The list after seeding from `lines` in order: every non-blank line
/// pushed, blank lines skipped.
pub open spec fn load_spec(cmds: Seq<Seq<char>>, lines: Seq<Seq<char>>) -> Seq<Seq<char>>
    decreases lines.len(),
{
    if lines.len() == 0 {
        cmds
    } else if is_blank_line(lines[0]) {
        load_spec(cmds, lines.drop_first())
    } else {
        load_spec(push_spec(cmds, lines[0]), lines.drop_first())
    }
}

/// Ordered scrollback of committed buffers, most recent first.
/// `current_command` is the browse cursor: `-1` means the live draft is
/// shown, otherwise it indexes `commands`.
pub struct History {
    pub commands: Vec<Vec<char>>,
    pub current_command: i32,
}

impl History {
    /// The committed lines, most recent first.
    pub open spec fn entries(self) -> Seq<Seq<char>> {
        Seq::new(self.commands@.len(), |i: int| self.commands@[i]@)
    }

    /// The cursor stays in `[-1, len - 1]` and the list stays addressable
    /// by the cursor.
    pub open spec fn wf(self) -> bool {
        &&& -1 <= self.current_command as int
        &&& (self.current_command as int) < self.commands@.len() as int || self.current_command
            == -1
        &&& self.commands@.len() <= MAX_HISTORY
    }

    /// An empty history, showing the live draft.
    pub fn new() -> (r: History)
        ensures
            r.wf(),
            r.entries() == Seq::<Seq<char>>::empty(),
            r.current_command == -1,
    {
        let r = History { commands: Vec::new(), current_command: -1 };
        proof {
            assert(r.entries() =~= Seq::<Seq<char>>::empty());
        }
        r
    }

    /// The browse cursor: `-1` while the live draft is shown.
    pub fn current_command(&self) -> (r: i32)
        ensures
            r == self.current_command,
    {
        self.current_command
    }

    /// Steps the cursor to the next older entry and returns it; at the
    /// oldest entry (or with no entries) it signals that no further history
    /// exists and leaves the cursor alone.
    pub fn prev(&mut self) -> (r: Option<Vec<char>>)
        requires
            old(self).wf(),
        ensures
            final(self).wf(),
            final(self).entries() == old(self).entries(),
            old(self).current_command as int >= old(self).entries().len() - 1 ==> r is None
                && final(self).current_command == old(self).current_command,
            (old(self).current_command as int) < old(self).entries().len() - 1 ==> {
                &&& final(self).current_command == old(self).current_command + 1
                &&& r is Some
                &&& r->Some_0@ == old(self).entries()[old(self).current_command as int + 1]
            },
    {
        if self.current_command >= self.commands.len() as i32 - 1 {
            return None;
        }
        self.current_command = self.current_command + 1;
        let idx = self.current_command as usize;
        Some(clone_chars(&self.commands[idx]))
    }

    /// Steps the cursor back to the next newer entry and returns it; at the
    /// newest entry, or while the live draft is shown, it signals that no
    /// further history exists and leaves the cursor alone.
    pub fn next(&mut self) -> (r: Option<Vec<char>>)
        requires
            old(self).wf(),
        ensures
            final(self).wf(),
            final(self).entries() == old(self).entries(),
            old(self).current_command <= 0 ==> r is None && final(self).current_command == old(
                self,
            ).current_command,
            old(self).current_command > 0 ==> {
                &&& final(self).current_command == old(self).current_command - 1
                &&& r is Some
                &&& r->Some_0@ == old(self).entries()[old(self).current_command as int - 1]
            },
    {
        if self.current_command <= 0 {
            return None;
        }
        self.current_command = self.current_command - 1;
        let idx = self.current_command as usize;
        Some(clone_chars(&self.commands[idx]))
    }

    /// Whether `push` would record `buffer` as a new entry rather than
    /// suppress it as an adjacent duplicate.
    pub fn accepts(&self, buffer: &Vec<char>) -> (r: bool)
        ensures
            r == (self.entries().len() == 0 || self.entries()[0] != buffer@),
    {
        self.commands.len() == 0 || !chars_eq(&self.commands[0], buffer)
    }

    /// Prepends `buffer` unless it equals the most recent entry.
    pub fn push(&mut self, buffer: &Vec<char>)
        requires
            old(self).wf(),
            old(self).commands@.len() < MAX_HISTORY,
        ensures
            final(self).wf(),
            final(self).entries() == push_spec(old(self).entries(), buffer@),
            final(self).current_command == old(self).current_command,
    {
        if self.commands.len() == 0 || !chars_eq(&self.commands[0], buffer) {
            let ghost before = self.entries();
            self.commands.insert(0, clone_chars(buffer));
            proof {
                assert(self.entries() =~= seq![buffer@].add(before));
            }
        }
    }

    /// Puts the cursor back on the live draft; called after every
    /// successful submission.
    pub fn reset_index(&mut self)
        requires
            old(self).wf(),
        ensures
            final(self).wf(),
            final(self).entries() == old(self).entries(),
            final(self).current_command == -1,
    {
        self.current_command = -1;
    }

    /// Seeds a fresh history from the text of a backing file: every
    /// non-blank line is pushed in order, so the file's last line becomes
    /// the most recent entry.  Opening and reading the file is the caller's
    /// affair; so is appending to it later.
    pub fn load_from_contents(contents: &str) -> (r: History)
        requires
            contents@.len() < MAX_HISTORY as int - 1,
        ensures
            r.wf(),
            r.entries() == load_spec(Seq::<Seq<char>>::empty(), lines_spec(contents@)),
            r.current_command == -1,
    {
        let lines = split_lines(contents);
        let mut h = History::new();
        let ghost all = lines.deep_view();
        let mut k: usize = 0;
        proof {
            assert(all.skip(0) =~= all);
        }
        while k < lines.len()
            invariant
                h.wf(),
                h.current_command == -1,
                k <= lines@.len(),
                all == lines.deep_view(),
                all.len() <= contents@.len() + 1,
                h.commands@.len() <= k,
                load_spec(Seq::<Seq<char>>::empty(), all) == load_spec(
                    h.entries(),
                    all.skip(k as int),
                ),
                contents@.len() < MAX_HISTORY as int - 1,
            decreases lines@.len() - k,
        {
            let cs = to_char_vec(lines[k]);
            let blank = all_space(&cs);
            proof {
                assert(all.skip(k as int)[0] == cs@);
                assert(all.skip(k as int).drop_first() =~= all.skip(k as int + 1));
            }
            if !blank {
                let ghost before = h.entries();
                h.push(&cs);
                proof {
                    assert(h.entries().len() <= before.len() + 1);
                    assert(h.commands@.len() == h.entries().len());
                }
            }
            k = k + 1;
        }
        proof {
            assert(all.skip(all.len() as int) =~= Seq::<Seq<char>>::empty());
        }
        h
    }
}

/// Whether every character of `v` is whitespace.
pub fn all_space(v: &Vec<char>) -> (r: bool)
    ensures
        r == is_blank_line(v@),
{
    let mut k: usize = 0;
    while k < v.len()
        invariant
            k <= v@.len(),
            forall|i: int| 0 <= i < k ==> is_space_char(v@[i]),
        decreases v@.len() - k,
    {
        if !crate::ui::is_space(v[k]) {
            return false;
        }
        k = k + 1;
    }
    true
}

/// Pushing the same entry twice in a row changes nothing the second time:
/// the adjacent duplicate is suppressed.
pub proof fn lemma_push_idempotent(cmds: Seq<Seq<char>>, e: Seq<char>)
    ensures
        push_spec(push_spec(cmds, e), e) == push_spec(cmds, e),
{
    let once = push_spec(cmds, e);
    assert(once.len() > 0 && once[0] == e);
}

} // verus!
