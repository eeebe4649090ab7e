//! Geometry tracking for the line editor: the mapping between the logical
//! cursor index in the edit buffer and the physical (column, row) position
//! on screen under soft wrapping.

pub mod event;
pub mod event_loop;
pub mod text_input;
pub mod text_view;

use vstd::prelude::*;
use vstd::arithmetic::div_mod::lemma_fundamental_div_mod;

verus! {

/// Width of the prompt (`"$> "`) that precedes the buffer on screen.
pub const PROMPT_LEN: usize = 3;

/// The characters of the Unicode `White_Space` property, the set that
/// `char::is_whitespace` accepts.
pub open spec fn is_space_char(c: char) -> bool {
    ||| c == ' '
    ||| c == '\u{9}'
    ||| c == '\u{a}'
    ||| c == '\u{b}'
    ||| c == '\u{c}'
    ||| c == '\u{d}'
    ||| c == '\u{85}'
    ||| c == '\u{a0}'
    ||| c == '\u{1680}'
    ||| c == '\u{2000}'
    ||| c == '\u{2001}'
    ||| c == '\u{2002}'
    ||| c == '\u{2003}'
    ||| c == '\u{2004}'
    ||| c == '\u{2005}'
    ||| c == '\u{2006}'
    ||| c == '\u{2007}'
    ||| c == '\u{2008}'
    ||| c == '\u{2009}'
    ||| c == '\u{200a}'
    ||| c == '\u{2028}'
    ||| c == '\u{2029}'
    ||| c == '\u{202f}'
    ||| c == '\u{205f}'
    ||| c == '\u{3000}'
}

/// Decides whitespace exactly as `is_space_char` describes it.
pub fn is_space(c: char) -> (r: bool)
    ensures
        r == is_space_char(c),
{
    c == ' ' || c == '\u{9}' || c == '\u{a}' || c == '\u{b}' || c == '\u{c}' || c == '\u{d}'
        || c == '\u{85}' || c == '\u{a0}' || c == '\u{1680}' || c == '\u{2000}'
        || c == '\u{2001}' || c == '\u{2002}' || c == '\u{2003}' || c == '\u{2004}'
        || c == '\u{2005}' || c == '\u{2006}' || c == '\u{2007}' || c == '\u{2008}'
        || c == '\u{2009}' || c == '\u{200a}' || c == '\u{2028}' || c == '\u{2029}'
        || c == '\u{202f}' || c == '\u{205f}' || c == '\u{3000}'
}

/// Rows of the screen wholly consumed by the prompt together with a buffer
/// of length `l` at viewport width `w`.
pub open spec fn wrap_rows(p: int, l: int, w: int) -> int {
    (p + l) / w
}

/// What one character insertion does to buffer and cursor: the character
/// goes in at the cursor, the cursor moves past it.
pub open spec fn insert_step(b: Seq<char>, i: int, c: char) -> (Seq<char>, int) {
    (b.insert(i, c), i + 1)
}

/// What one backspace does to buffer and cursor: the character before the
/// cursor goes away and the cursor moves back, or nothing at the start.
pub open spec fn backspace_step(b: Seq<char>, i: int) -> (Seq<char>, int) {
    if i > 0 {
        (b.remove(i - 1), i - 1)
    } else {
        (b, i)
    }
}

/// Buffer and cursor after typing `cs` into an empty buffer, one
/// `insert_step` per character.
pub open spec fn typed(cs: Seq<char>) -> (Seq<char>, int)
    decreases cs.len(),
{
    if cs.len() == 0 {
        (Seq::empty(), 0)
    } else {
        let prev = typed(cs.drop_last());
        insert_step(prev.0, prev.1, cs.last())
    }
}

/// Buffer and cursor after `n` backspaces.
pub open spec fn erased(st: (Seq<char>, int), n: nat) -> (Seq<char>, int)
    decreases n,
{
    if n == 0 {
        st
    } else {
        erased(backspace_step(st.0, st.1), (n - 1) as nat)
    }
}

/// Typing any sequence of characters into an empty buffer — each inserted
/// at the cursor, as `char` inserts it — leaves the buffer holding exactly
/// that sequence, in order, with the cursor at its end.
pub proof fn lemma_insertions_accumulate(cs: Seq<char>)
    ensures
        typed(cs).0 == cs,
        typed(cs).1 == cs.len(),
    decreases cs.len(),
{
    if cs.len() == 0 {
        assert(typed(cs).0 =~= cs);
    } else {
        lemma_insertions_accumulate(cs.drop_last());
        assert(cs.drop_last().insert(cs.len() - 1, cs.last()) =~= cs);
    }
}

/// Backspacing as many times as there are characters before the cursor —
/// each a `backspace_step`, as `backspace` performs it — removes exactly
/// those characters and leaves the cursor at the start.
pub proof fn lemma_erase_prefix(b: Seq<char>, i: int)
    requires
        0 <= i <= b.len(),
    ensures
        erased((b, i), i as nat).0 == b.skip(i),
        erased((b, i), i as nat).1 == 0,
    decreases i,
{
    if i == 0 {
        assert(b.skip(0) =~= b);
    } else {
        lemma_erase_prefix(b.remove(i - 1), i - 1);
        assert(b.remove(i - 1).skip(i - 1) =~= b.skip(i));
    }
}

/// Round trip: typing a sequence and then backspacing once per character
/// ends with an empty buffer and the cursor at zero.
pub proof fn lemma_type_erase_round_trip(cs: Seq<char>)
    ensures
        erased(typed(cs), cs.len()).0 == Seq::<char>::empty(),
        erased(typed(cs), cs.len()).1 == 0,
{
    lemma_insertions_accumulate(cs);
    assert(typed(cs) == (cs, cs.len() as int));
    lemma_erase_prefix(cs, cs.len() as int);
    assert(cs.skip(cs.len() as int) =~= Seq::<char>::empty());
}

/// Crossing a wrap boundary rightward: the wrap offset stays small enough
/// for the next row, and the wrapping equation moves to the next multiple
/// of the width.
proof fn lemma_wrap_step(d: int, w: int, t: int)
    requires
        w >= 2,
        0 <= d,
        d * w <= t,
        t <= 0x10000,
    ensures
        d <= 0x8000,
        (d + 1) * w == d * w + w,
{
    assert(d <= 0x8000) by (nonlinear_arith)
        requires
            w >= 2,
            0 <= d,
            d * w <= t,
            t <= 0x10000,
    ;
    assert((d + 1) * w == d * w + w) by (nonlinear_arith);
}

/// Index of the start of the whitespace run that ends at `j` in `b`.
pub open spec fn skip_space_back(b: Seq<char>, j: int) -> int
    decreases j,
{
    if j <= 0 {
        0
    } else if is_space_char(b[j - 1]) {
        skip_space_back(b, j - 1)
    } else {
        j
    }
}

/// Index of the start of the word (non-whitespace run) that ends at `j` in
/// `b`.
pub open spec fn skip_word_back(b: Seq<char>, j: int) -> int
    decreases j,
{
    if j <= 0 {
        0
    } else if !is_space_char(b[j - 1]) {
        skip_word_back(b, j - 1)
    } else {
        j
    }
}

/// Where a word-left motion from index `i` lands: skip the whitespace run
/// before the cursor, then the word before that, to the word's first
/// character.
pub open spec fn word_left_target(b: Seq<char>, i: int) -> int {
    skip_word_back(b, skip_space_back(b, i))
}

/// Index just past the word (non-whitespace run) that starts at `j` in `b`.
pub open spec fn skip_word_fwd(b: Seq<char>, j: int) -> int
    decreases b.len() - j,
{
    if j >= b.len() {
        b.len() as int
    } else if !is_space_char(b[j]) {
        skip_word_fwd(b, j + 1)
    } else {
        j
    }
}

/// Index just past the whitespace run that starts at `j` in `b`.
pub open spec fn skip_space_fwd(b: Seq<char>, j: int) -> int
    decreases b.len() - j,
{
    if j >= b.len() {
        b.len() as int
    } else if is_space_char(b[j]) {
        skip_space_fwd(b, j + 1)
    } else {
        j
    }
}

/// Where a word-right motion from index `i` lands: skip the word under the
/// cursor, then the whitespace run after it, to the next word's first
/// character.
pub open spec fn word_right_target(b: Seq<char>, i: int) -> int {
    skip_space_fwd(b, skip_word_fwd(b, i))
}

/// Cursor geometry: the edit buffer, the logical cursor index, and the
/// physical position of the cursor on screen.
///
/// `x` is the physical column in `[1, max_x]`, `y` the physical row of the
/// buffer's first character, `d_y` how many soft-wrapped rows lie between
/// that row and the cursor.
pub struct TermPos {
    pub x: u16,
    pub y: u16,
    pub buffer: Vec<char>,
    pub current_index: usize,
    pub d_y: u16,
    pub max_x: u16,
    pub max_y: u16,
    pub prompt_len: usize,
}

impl TermPos {
    /// Well-formedness: the cursor lies inside the buffer, the physical
    /// position lies inside the viewport, and column and wrap offset agree
    /// with the cursor index through the wrapping arithmetic.
    pub open spec fn wf(self) -> bool {
        &&& 1 <= self.x <= self.max_x
        &&& 1 <= self.y <= self.max_y
        &&& 0 < self.prompt_len < self.max_x as usize
        &&& self.current_index <= self.buffer@.len()
        &&& self.prompt_len + self.buffer@.len() <= 0xFFFF
        &&& self.prompt_len as int + self.current_index as int == self.d_y as int
            * self.max_x as int + (self.x as int - 1)
    }

    /// The viewport dimensions and the prompt width never change during a
    /// session.
    pub open spec fn same_frame(self, other: Self) -> bool {
        &&& self.max_x == other.max_x
        &&& self.max_y == other.max_y
        &&& self.prompt_len == other.prompt_len
    }

    /// The column and the wrap offset are determined by the cursor index:
    /// the wrapping equation has exactly one solution with the column in
    /// `[1, max_x]`.
    pub proof fn lemma_geometry_determined(self)
        requires
            self.wf(),
        ensures
            self.d_y as int == (self.prompt_len + self.current_index) as int / self.max_x as int,
            self.x as int == (self.prompt_len + self.current_index) as int % self.max_x as int + 1,
    {
        let p = self.prompt_len as int + self.current_index as int;
        let w = self.max_x as int;
        lemma_fundamental_div_mod(p, w);
        vstd::arithmetic::div_mod::lemma_fundamental_div_mod_converse(
            p,
            w,
            self.d_y as int,
            self.x as int - 1,
        );
    }

    /// A fresh geometry for an empty buffer whose first row is `y`.
    pub fn new(max_x: u16, max_y: u16, y: u16) -> (r: TermPos)
        requires
            PROMPT_LEN < max_x as usize,
            1 <= y <= max_y,
        ensures
            r.wf(),
            r.buffer@ == Seq::<char>::empty(),
            r.current_index == 0,
            r.d_y == 0,
            r.x as int == PROMPT_LEN + 1,
            r.y == y,
            r.max_x == max_x,
            r.max_y == max_y,
            r.prompt_len == PROMPT_LEN,
    {
        TermPos {
            x: (PROMPT_LEN + 1) as u16,
            y,
            buffer: Vec::new(),
            current_index: 0,
            d_y: 0,
            max_x,
            max_y,
            prompt_len: PROMPT_LEN,
        }
    }

    /// Empties the buffer and puts the cursor back at the prompt, keeping
    /// the current row.
    pub fn reset(&mut self)
        requires
            old(self).wf(),
        ensures
            final(self).wf(),
            final(self).same_frame(*old(self)),
            final(self).buffer@ == Seq::<char>::empty(),
            final(self).current_index == 0,
            final(self).d_y == 0,
            final(self).y == old(self).y,
    {
        self.buffer = Vec::new();
        self.current_index = 0;
        self.d_y = 0;
        self.x = (self.prompt_len + 1) as u16;
    }

    /// Rows wholly consumed by prompt and buffer at the current width.
    pub fn _compute_max_dy(&self) -> (r: u16)
        requires
            self.prompt_len + self.buffer@.len() <= 0xFFFF,
            self.max_x >= 1,
        ensures
            r as int == wrap_rows(
                self.prompt_len as int,
                self.buffer@.len() as int,
                self.max_x as int,
            ),
    {
        ((self.prompt_len + self.buffer.len()) / (self.max_x as usize)) as u16
    }

    /// Inserts `c` at the cursor and advances the cursor one column,
    /// wrapping to the next row at the right edge.  Returns whether the
    /// terminal must scroll up one line to keep the buffer's last row
    /// inside the viewport.
    pub fn char(&mut self, c: char) -> (scrolled: bool)
        requires
            old(self).wf(),
            old(self).prompt_len + old(self).buffer@.len() < 0xFFFF,
        ensures
            final(self).wf(),
            final(self).same_frame(*old(self)),
            final(self).buffer@ == old(self).buffer@.insert(old(self).current_index as int, c),
            final(self).current_index == old(self).current_index + 1,
            (final(self).buffer@, final(self).current_index as int) == insert_step(
                old(self).buffer@,
                old(self).current_index as int,
                c,
            ),
            scrolled == (old(self).y as int + wrap_rows(
                old(self).prompt_len as int,
                old(self).buffer@.len() as int + 1,
                old(self).max_x as int,
            ) > old(self).max_y as int && old(self).y > 1),
            final(self).y == if scrolled {
                (old(self).y - 1) as u16
            } else {
                old(self).y
            },
    {
        self.buffer.insert(self.current_index, c);
        self.current_index = self.current_index + 1;
        if self.x == self.max_x {
            proof {
                lemma_wrap_step(self.d_y as int, self.max_x as int, 0x10000);
            }
            self.x = 1;
            self.d_y = self.d_y + 1;
        } else {
            self.x = self.x + 1;
        }
        let rows = self._compute_max_dy();
        if self.y as usize + rows as usize > self.max_y as usize && self.y > 1 {
            self.y = self.y - 1;
            true
        } else {
            false
        }
    }

    /// Moves the cursor one position left, crossing a wrap boundary to the
    /// right edge of the previous row; at the start of the buffer it does
    /// nothing.
    pub fn left(&mut self)
        requires
            old(self).wf(),
        ensures
            final(self).wf(),
            final(self).same_frame(*old(self)),
            final(self).buffer@ == old(self).buffer@,
            final(self).y == old(self).y,
            final(self).current_index == if old(self).current_index > 0 {
                (old(self).current_index - 1) as usize
            } else {
                0
            },
    {
        if self.current_index > 0 {
            self.current_index = self.current_index - 1;
            if self.x == 1 {
                proof {
                    assert((self.d_y as int - 1) * self.max_x as int == self.d_y as int
                        * self.max_x as int - self.max_x as int) by (nonlinear_arith);
                }
                self.x = self.max_x;
                self.d_y = self.d_y - 1;
            } else {
                self.x = self.x - 1;
            }
        }
    }

    /// Moves the cursor one position right, crossing a wrap boundary to the
    /// left edge of the next row; at the end of the buffer it does nothing.
    pub fn right(&mut self)
        requires
            old(self).wf(),
        ensures
            final(self).wf(),
            final(self).same_frame(*old(self)),
            final(self).buffer@ == old(self).buffer@,
            final(self).y == old(self).y,
            final(self).current_index == if old(self).current_index < old(self).buffer@.len() {
                old(self).current_index + 1
            } else {
                old(self).current_index as int
            },
    {
        if self.current_index < self.buffer.len() {
            self.current_index = self.current_index + 1;
            if self.x == self.max_x {
                proof {
                    lemma_wrap_step(self.d_y as int, self.max_x as int, 0x10000);
                }
                self.x = 1;
                self.d_y = self.d_y + 1;
            } else {
                self.x = self.x + 1;
            }
        }
    }

    /// Jump to the start of the buffer.
    pub fn beg(&mut self)
        requires
            old(self).wf(),
        ensures
            final(self).wf(),
            final(self).same_frame(*old(self)),
            final(self).buffer@ == old(self).buffer@,
            final(self).y == old(self).y,
            final(self).current_index == 0,
            final(self).d_y == 0,
            final(self).x as int == old(self).prompt_len + 1,
    {
        self.current_index = 0;
        self.x = (self.prompt_len + 1) as u16;
        self.d_y = 0;
    }

    /// Jump to the end of the buffer, recomputing column and wrap offset
    /// from the wrapping arithmetic.  After the jump the wrap offset equals
    /// `floor((prompt_len + buffer.len()) / max_x)`.
    pub fn end(&mut self)
        requires
            old(self).wf(),
        ensures
            final(self).wf(),
            final(self).same_frame(*old(self)),
            final(self).buffer@ == old(self).buffer@,
            final(self).y == old(self).y,
            final(self).current_index == old(self).buffer@.len(),
            final(self).d_y as int == wrap_rows(
                old(self).prompt_len as int,
                old(self).buffer@.len() as int,
                old(self).max_x as int,
            ),
            final(self).x as int == (old(self).prompt_len + old(self).buffer@.len()) as int
                % old(self).max_x as int + 1,
    {
        proof {
            lemma_fundamental_div_mod(
                self.prompt_len as int + self.buffer@.len() as int,
                self.max_x as int,
            );
            vstd::arithmetic::div_mod::lemma_mod_bound(
                self.prompt_len as int + self.buffer@.len() as int,
                self.max_x as int,
            );
        }
        self.current_index = self.buffer.len();
        self.x = ((self.prompt_len + self.buffer.len()) % (self.max_x as usize)) as u16 + 1;
        self.d_y = self._compute_max_dy();
        proof {
            vstd::arithmetic::mul::lemma_mul_is_commutative(self.d_y as int, self.max_x as int);
        }
    }

    /// Removes the character before the cursor and moves the cursor left;
    /// at the start of the buffer it does nothing.
    pub fn backspace(&mut self)
        requires
            old(self).wf(),
        ensures
            final(self).wf(),
            final(self).same_frame(*old(self)),
            final(self).y == old(self).y,
            old(self).current_index == 0 ==> final(self).buffer@ == old(self).buffer@
                && final(self).current_index == old(self).current_index,
            old(self).current_index > 0 ==> final(self).buffer@ == old(self).buffer@.remove(
                old(self).current_index - 1,
            ) && final(self).current_index == old(self).current_index - 1,
            (final(self).buffer@, final(self).current_index as int) == backspace_step(
                old(self).buffer@,
                old(self).current_index as int,
            ),
    {
        if self.current_index > 0 {
            self.left();
            self.buffer.remove(self.current_index);
        }
    }

    /// Removes the character under the cursor without moving the cursor; at
    /// the end of the buffer it does nothing.
    pub fn delete(&mut self)
        requires
            old(self).wf(),
        ensures
            final(self).wf(),
            final(self).same_frame(*old(self)),
            final(self).y == old(self).y,
            final(self).current_index == old(self).current_index,
            old(self).current_index == old(self).buffer@.len() ==> final(self).buffer@ == old(
                self,
            ).buffer@,
            old(self).current_index < old(self).buffer@.len() ==> final(self).buffer@ == old(
                self,
            ).buffer@.remove(old(self).current_index as int),
    {
        if self.current_index < self.buffer.len() {
            self.buffer.remove(self.current_index);
        }
    }

    /// Moves the cursor up one soft-wrapped row (back by exactly the
    /// viewport width) when one exists above; otherwise jumps to the start
    /// of the buffer.
    pub fn up(&mut self)
        requires
            old(self).wf(),
        ensures
            final(self).wf(),
            final(self).same_frame(*old(self)),
            final(self).buffer@ == old(self).buffer@,
            final(self).y == old(self).y,
            final(self).current_index == if old(self).d_y > 0 && old(self).current_index >= old(
                self,
            ).max_x as usize {
                old(self).current_index - old(self).max_x as usize
            } else {
                0
            },
    {
        if self.d_y > 0 && self.current_index >= self.max_x as usize {
            proof {
                assert((self.d_y as int - 1) * self.max_x as int == self.d_y as int
                    * self.max_x as int - self.max_x as int) by (nonlinear_arith);
            }
            self.current_index = self.current_index - self.max_x as usize;
            self.d_y = self.d_y - 1;
        } else {
            self.beg();
        }
    }

    /// Moves the cursor down one soft-wrapped row (forward by exactly the
    /// viewport width) when one exists below; otherwise jumps to the end of
    /// the buffer.
    pub fn down(&mut self)
        requires
            old(self).wf(),
        ensures
            final(self).wf(),
            final(self).same_frame(*old(self)),
            final(self).buffer@ == old(self).buffer@,
            final(self).y == old(self).y,
            final(self).current_index == if (old(self).current_index
                + old(self).max_x as usize) < old(self).buffer@.len() {
                old(self).current_index + old(self).max_x as usize
            } else {
                old(self).buffer@.len() as int
            },
    {
        if (self.current_index + self.max_x as usize) < self.buffer.len() {
            proof {
                lemma_wrap_step(self.d_y as int, self.max_x as int, 0x10000);
            }
            self.current_index = self.current_index + self.max_x as usize;
            self.d_y = self.d_y + 1;
        } else {
            self.end();
        }
    }

    /// Moves the cursor to the start of the word before it: the whitespace
    /// run before the cursor is skipped, then the word before that, by
    /// single-step left moves.
    pub fn word_left(&mut self)
        requires
            old(self).wf(),
        ensures
            final(self).wf(),
            final(self).same_frame(*old(self)),
            final(self).buffer@ == old(self).buffer@,
            final(self).y == old(self).y,
            final(self).current_index == word_left_target(
                old(self).buffer@,
                old(self).current_index as int,
            ),
    {
        let ghost b = self.buffer@;
        let ghost i0 = self.current_index as int;
        let mut j = self.current_index;
        while j > 0 && is_space(self.buffer[j - 1])
            invariant
                0 <= j <= self.buffer@.len(),
                j <= i0,
                self.buffer@ == b,
                skip_space_back(b, i0) == skip_space_back(b, j as int),
            decreases j,
        {
            j = j - 1;
        }
        assert(skip_space_back(b, i0) == j);
        while j > 0 && !is_space(self.buffer[j - 1])
            invariant
                0 <= j <= self.buffer@.len(),
                j <= i0,
                self.buffer@ == b,
                skip_word_back(b, skip_space_back(b, i0)) == skip_word_back(b, j as int),
            decreases j,
        {
            j = j - 1;
        }
        assert(word_left_target(b, i0) == j);
        while self.current_index > j
            invariant
                self.wf(),
                self.same_frame(*old(self)),
                self.buffer@ == b,
                self.y == old(self).y,
                j <= self.current_index,
            decreases self.current_index,
        {
            self.left();
        }
    }

    /// Moves the cursor to the start of the next word: the word under the
    /// cursor is skipped, then the whitespace run after it, by single-step
    /// right moves.
    pub fn word_right(&mut self)
        requires
            old(self).wf(),
        ensures
            final(self).wf(),
            final(self).same_frame(*old(self)),
            final(self).buffer@ == old(self).buffer@,
            final(self).y == old(self).y,
            final(self).current_index == word_right_target(
                old(self).buffer@,
                old(self).current_index as int,
            ),
    {
        let ghost b = self.buffer@;
        let ghost i0 = self.current_index as int;
        let mut j = self.current_index;
        while j < self.buffer.len() && !is_space(self.buffer[j])
            invariant
                0 <= j <= self.buffer@.len(),
                i0 <= j,
                self.buffer@ == b,
                skip_word_fwd(b, i0) == skip_word_fwd(b, j as int),
            decreases self.buffer@.len() - j,
        {
            j = j + 1;
        }
        assert(skip_word_fwd(b, i0) == j);
        while j < self.buffer.len() && is_space(self.buffer[j])
            invariant
                0 <= j <= self.buffer@.len(),
                i0 <= j,
                self.buffer@ == b,
                skip_space_fwd(b, skip_word_fwd(b, i0)) == skip_space_fwd(b, j as int),
            decreases self.buffer@.len() - j,
        {
            j = j + 1;
        }
        assert(word_right_target(b, i0) == j);
        while self.current_index < j
            invariant
                self.wf(),
                self.same_frame(*old(self)),
                self.buffer@ == b,
                self.y == old(self).y,
                j <= self.buffer@.len(),
                self.current_index <= j,
            decreases j - self.current_index,
        {
            self.right();
        }
    }

    /// After the screen is cleared the buffer's first row is the top row.
    pub fn clear_term(&mut self)
        requires
            old(self).wf(),
        ensures
            final(self).wf(),
            final(self).same_frame(*old(self)),
            final(self).buffer@ == old(self).buffer@,
            final(self).current_index == old(self).current_index,
            final(self).x == old(self).x,
            final(self).d_y == old(self).d_y,
            final(self).y == 1,
    {
        self.y = 1;
    }
}

} // verus!
