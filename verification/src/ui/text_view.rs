//! The pager: a read-only view over a fixed block of output rows, browsed
//! on the alternate screen.  It owns the view offset and clamps it to the
//! content; entering and leaving the alternate screen and painting the
//! visible window are the caller's affair.

use vstd::prelude::*;
use crate::ui::event::{KeyEvent, Key, TrueEvent};

verus! {

/// Rows beyond this the pager refuses at construction; keeps every offset
/// computation inside `usize`.
pub const MAX_VIEW_ROWS: usize = 0x4000_0000;

/// The largest row length in `rows[from..to]`.
pub open spec fn win_max(rows: Seq<Seq<char>>, from: int, to: int) -> int
    decreases to - from,
{
    if from >= to {
        0
    } else {
        let m = win_max(rows, from, to - 1);
        if rows[to - 1].len() > m {
            rows[to - 1].len() as int
        } else {
            m
        }
    }
}

/// The columns `[x, x + w)` of a row, empty when the row ends before `x`.
pub open spec fn col_slice(row: Seq<char>, x: int, w: int) -> Seq<char> {
    if x >= row.len() {
        Seq::empty()
    } else if x + w < row.len() {
        row.subrange(x, x + w)
    } else {
        row.subrange(x, row.len() as int)
    }
}

/// The horizontal offset after the window changed: kept when the window
/// still reaches it, pulled back to the last full window otherwise, and to
/// the left edge when the longest visible row fits the viewport.
pub open spec fn clamp_x(x: int, ml: int, w: int) -> int {
    if x + w <= ml {
        x
    } else if ml > w {
        ml - w
    } else {
        0
    }
}

/// A read-only, paginated view over a fixed block of rows.  `(x, y)` is
/// the view offset: `y` the first visible row, `x` the first visible
/// column.  `max_len` caches the longest row of the window at `y`.
pub struct TextView {
    pub data: Vec<Vec<char>>,
    pub x: usize,
    pub y: usize,
    pub max_x: u16,
    pub max_y: u16,
    pub max_len: usize,
}

impl TextView {
    /// The rows under view.
    pub open spec fn rows(self) -> Seq<Seq<char>> {
        Seq::new(self.data@.len(), |i: int| self.data@[i]@)
    }

    /// One past the last visible row.
    pub open spec fn view_end(self) -> int {
        if self.y + self.max_y as int <= self.rows().len() {
            self.y + self.max_y as int
        } else {
            self.rows().len() as int
        }
    }

    /// The view offset never scrolls past the content: the window always
    /// shows `max_y` rows when the content has that many, the horizontal
    /// offset stays within the current window's longest row, and the
    /// cached `max_len` belongs to the current window.
    pub open spec fn wf(self) -> bool {
        &&& self.y == 0 || self.y + self.max_y as int <= self.rows().len()
        &&& self.max_len as int == win_max(self.rows(), self.y as int, self.view_end())
        &&& self.x == 0 || self.x as int + self.max_x as int <= self.max_len as int
        &&& self.data@.len() <= MAX_VIEW_ROWS
    }

    /// A pager over `data` for a viewport of `max_x` columns and `max_y`
    /// rows, positioned at the top left corner.
    pub fn new(data: Vec<Vec<char>>, max_x: u16, max_y: u16) -> (r: TextView)
        requires
            data@.len() <= MAX_VIEW_ROWS,
        ensures
            r.wf(),
            r.rows() == ({
                let d = data@;
                Seq::new(d.len(), |i: int| d[i]@)
            }),
            r.x == 0,
            r.y == 0,
            r.max_x == max_x,
            r.max_y == max_y,
    {
        let mut tv = TextView { data, x: 0, y: 0, max_x, max_y, max_len: 0 };
        tv.max_len = tv._get_current_slice_max_len();
        tv
    }

    /// The longest row of the window at the current vertical offset.
    pub fn _get_current_slice_max_len(&self) -> (r: usize)
        requires
            self.y == 0 || self.y + self.max_y as int <= self.rows().len(),
            self.data@.len() <= MAX_VIEW_ROWS,
        ensures
            r as int == win_max(self.rows(), self.y as int, self.view_end()),
    {
        let end = if self.y + (self.max_y as usize) <= self.data.len() {
            self.y + self.max_y as usize
        } else {
            self.data.len()
        };
        let mut m: usize = 0;
        let mut k: usize = self.y;
        while k < end
            invariant
                self.y <= k <= end,
                end == self.view_end(),
                end <= self.data@.len(),
                m as int == win_max(self.rows(), self.y as int, k as int),
            decreases end - k,
        {
            if self.data[k].len() > m {
                m = self.data[k].len();
            }
            k = k + 1;
        }
        m
    }

    /// Consumes one event.  The four plain arrow keys move the view offset
    /// by one row or column, clamped to the content; a vertical move
    /// recomputes the horizontal bound for the new window and pulls the
    /// horizontal offset back inside it.  Any other key exits the view;
    /// mouse events and unrecognized byte sequences are not keys and are
    /// ignored.  Returns whether the view stays open and whether it must
    /// repaint.
    pub fn handle_event(&mut self, event: TrueEvent) -> (r: (bool, bool))
        requires
            old(self).wf(),
        ensures
            final(self).wf(),
            final(self).rows() == old(self).rows(),
            final(self).max_x == old(self).max_x,
            final(self).max_y == old(self).max_y,
            (match event {
                TrueEvent::KeyEvent(ke) => match ke {
                    KeyEvent::Key(k) => match k {
                        Key::Down => {
                            &&& r.0 == true
                            &&& if (old(self).y + old(self).max_y as int) < old(
                                self,
                            ).rows().len() {
                                &&& final(self).y == old(self).y + 1
                                &&& final(self).x as int == clamp_x(
                                    old(self).x as int,
                                    final(self).max_len as int,
                                    old(self).max_x as int,
                                )
                                &&& r.1 == true
                            } else {
                                &&& final(self).y == old(self).y
                                &&& final(self).x == old(self).x
                                &&& r.1 == false
                            }
                        },
                        Key::Up => {
                            &&& r.0 == true
                            &&& if old(self).y > 0 {
                                &&& final(self).y == old(self).y - 1
                                &&& final(self).x as int == clamp_x(
                                    old(self).x as int,
                                    final(self).max_len as int,
                                    old(self).max_x as int,
                                )
                                &&& r.1 == true
                            } else {
                                &&& final(self).y == old(self).y
                                &&& final(self).x == old(self).x
                                &&& r.1 == false
                            }
                        },
                        Key::Right => {
                            &&& r.0 == true
                            &&& final(self).y == old(self).y
                            &&& final(self).max_len == old(self).max_len
                            &&& if (old(self).x + old(self).max_x as int) < old(
                                self,
                            ).max_len as int {
                                final(self).x == old(self).x + 1 && r.1 == true
                            } else {
                                final(self).x == old(self).x && r.1 == false
                            }
                        },
                        Key::Left => {
                            &&& r.0 == true
                            &&& final(self).y == old(self).y
                            &&& final(self).max_len == old(self).max_len
                            &&& if old(self).x > 0 {
                                final(self).x == old(self).x - 1 && r.1 == true
                            } else {
                                final(self).x == old(self).x && r.1 == false
                            }
                        },
                        _ => r.0 == false && r.1 == false && final(self).x == old(self).x
                            && final(self).y == old(self).y,
                    },
                    _ => r.0 == false && r.1 == false && final(self).x == old(self).x
                        && final(self).y == old(self).y,
                },
                _ => r.0 == true && r.1 == false && final(self).x == old(self).x
                    && final(self).y == old(self).y,
            }),
    {
        let mut display = false;
        let mut again = true;
        match event {
            TrueEvent::KeyEvent(ke) => {
                match ke {
                    KeyEvent::Key(k) => {
                        match k {
                            Key::Down => {
                                if self.y + (self.max_y as usize) < self.data.len() {
                                    self.y = self.y + 1;
                                    display = true;
                                    self.max_len = self._get_current_slice_max_len();
                                    self.reclamp_x();
                                }
                            },
                            Key::Up => {
                                if self.y > 0 {
                                    self.y = self.y - 1;
                                    display = true;
                                    self.max_len = self._get_current_slice_max_len();
                                    self.reclamp_x();
                                }
                            },
                            Key::Right => {
                                if self.x < self.max_len && self.max_len - self.x > (
                                self.max_x as usize) {
                                    self.x = self.x + 1;
                                    display = true;
                                }
                            },
                            Key::Left => {
                                if self.x > 0 {
                                    self.x = self.x - 1;
                                    display = true;
                                }
                            },
                            _ => {
                                again = false;
                            },
                        }
                    },
                    _ => {
                        again = false;
                    },
                }
            },
            _ => {},
        }
        (again, display)
    }

    /// Pulls the horizontal offset back inside the current window after a
    /// vertical move changed the window's longest row.
    fn reclamp_x(&mut self)
        ensures
            final(self).x as int == clamp_x(
                old(self).x as int,
                old(self).max_len as int,
                old(self).max_x as int,
            ),
            final(self).x == 0 || final(self).x as int + final(self).max_x as int
                <= final(self).max_len as int,
            final(self).y == old(self).y,
            final(self).data == old(self).data,
            final(self).max_x == old(self).max_x,
            final(self).max_y == old(self).max_y,
            final(self).max_len == old(self).max_len,
    {
        let limit = if self.max_len > self.max_x as usize {
            self.max_len - self.max_x as usize
        } else {
            0
        };
        if self.x > limit {
            self.x = limit;
        }
    }

    /// The pager never scrolls past the content: with `R` rows under view
    /// and a viewport of `H` rows, the vertical offset never exceeds
    /// `R - H` (and never leaves the top when the content is shorter than
    /// the viewport).
    pub proof fn lemma_offset_never_past_content(self)
        requires
            self.wf(),
        ensures
            self.y as int <= if self.rows().len() >= self.max_y as int {
                self.rows().len() - self.max_y as int
            } else {
                0
            },
    {
    }

    /// The rows of the visible window, each cut to the visible columns: a
    /// row that ends before the horizontal offset shows as empty.
    pub fn visible(&self) -> (out: Vec<Vec<char>>)
        requires
            self.wf(),
        ensures
            out@.len() == self.view_end() - self.y as int,
            forall|k: int|
                0 <= k < out@.len() ==> out@[k]@ == col_slice(
                    self.rows()[self.y + k],
                    self.x as int,
                    self.max_x as int,
                ),
    {
        let end = if self.y + (self.max_y as usize) <= self.data.len() {
            self.y + self.max_y as usize
        } else {
            self.data.len()
        };
        let mut out: Vec<Vec<char>> = Vec::new();
        let mut k: usize = self.y;
        while k < end
            invariant
                self.wf(),
                self.y <= k <= end,
                end == self.view_end(),
                end <= self.data@.len(),
                out@.len() == k - self.y,
                forall|j: int|
                    0 <= j < out@.len() ==> out@[j]@ == col_slice(
                        self.rows()[self.y + j],
                        self.x as int,
                        self.max_x as int,
                    ),
            decreases end - k,
        {
            let row = &self.data[k];
            let mut cut: Vec<char> = Vec::new();
            if self.x < row.len() {
                let stop = if row.len() - self.x > (self.max_x as usize) {
                    self.x + self.max_x as usize
                } else {
                    row.len()
                };
                let mut c: usize = self.x;
                while c < stop
                    invariant
                        self.x <= c <= stop,
                        stop <= row@.len(),
                        cut@ == row@.subrange(self.x as int, c as int),
                    decreases stop - c,
                {
                    cut.push(row[c]);
                    proof {
                        assert(cut@ =~= row@.subrange(self.x as int, c as int + 1));
                    }
                    c = c + 1;
                }
            }
            proof {
                assert(cut@ == col_slice(self.rows()[k as int], self.x as int, self.max_x as int));
            }
            out.push(cut);
            k = k + 1;
        }
        out
    }
}

} // verus!
