//! Bounded cursor movement over a [`Buffer`].
//!
//! Every movement takes a repeat count `n`; `n == 0` jumps to the extremum
//! of the direction (first or last row, start or end of line).  Rows
//! saturate at the edges of the document and the column re-clamps to the
//! length of the line reached, so a well-formed buffer stays well-formed.

use vstd::prelude::*;

use crate::buffer::Buffer;
use crate::invariants::{
    lemma_move_down_wf, lemma_move_left_wf, lemma_move_right_wf, lemma_move_up_wf,
};
use crate::model::{buf_move_down, buf_move_left, buf_move_right, buf_move_up, buf_wf};
use crate::util::usize_sub;

verus! {

impl Buffer {
    /// Moves the cursor `n` rows up, saturating at the first row; `n == 0`
    /// jumps to the first row.  The column clamps to the row reached.
    pub fn up(&mut self, n: usize)
        requires
            buf_wf(old(self)@),
        ensures
            final(self)@ == buf_move_up(old(self)@, n as int),
            buf_wf(final(self)@),
    {
        let ghost b0 = self@;
        proof {
            lemma_move_up_wf(b0, n as int);
        }
        if n == 0 {
            self.cy = 0;
            let w = self.lines[0];
            if self.cx > w {
                self.cx = w;
            }
        } else if self.cy != 0 {
            self.cy = usize_sub(self.cy, n);
            let w = self.lines[self.cy];
            if self.cx > w {
                self.cx = w;
            }
        }
        proof {
            assert(self@ =~= buf_move_up(b0, n as int));
        }
    }

    /// Moves the cursor `n` rows down, stopping at the last row; `n == 0`
    /// jumps to the last row.  The column clamps to the row reached.
    pub fn down(&mut self, n: usize)
        requires
            buf_wf(old(self)@),
        ensures
            final(self)@ == buf_move_down(old(self)@, n as int),
            buf_wf(final(self)@),
    {
        let ghost b0 = self@;
        proof {
            lemma_move_down_wf(b0, n as int);
        }
        let last = self.lines.len() - 1;
        if n == 0 {
            self.cy = last;
        } else if n > last - self.cy {
            self.cy = last;
        } else {
            self.cy = self.cy + n;
        }
        let w = self.lines[self.cy];
        if self.cx > w {
            self.cx = w;
        }
        proof {
            assert(self@ =~= buf_move_down(b0, n as int));
        }
    }

    /// Moves the cursor `n` columns right; `n == 0` jumps to the end of the
    /// line.  A single step past the end wraps to the start of the next
    /// line except on the last line; a larger count clamps at the end.
    pub fn right(&mut self, n: usize)
        requires
            buf_wf(old(self)@),
        ensures
            final(self)@ == buf_move_right(old(self)@, n as int),
            buf_wf(final(self)@),
    {
        let ghost b0 = self@;
        proof {
            lemma_move_right_wf(b0, n as int);
        }
        let w = self.lines[self.cy];
        if n == 0 {
            self.cx = w;
        } else {
            let rem = w - self.cx;
            if (n != 1 && n >= rem) || (n > rem && self.cy == self.lines.len() - 1) {
                self.cx = w;
            } else if n > rem {
                self.cx = 0;
                self.cy = self.cy + 1;
            } else {
                self.cx = self.cx + n;
            }
        }
        proof {
            assert(self@ =~= buf_move_right(b0, n as int));
        }
    }

    /// Moves the cursor `n` columns left; `n == 0` jumps to the start of
    /// the line.  A single step past the start wraps to the end of the
    /// previous line except on the first line; a larger count clamps at the
    /// start.
    pub fn left(&mut self, n: usize)
        requires
            buf_wf(old(self)@),
        ensures
            final(self)@ == buf_move_left(old(self)@, n as int),
            buf_wf(final(self)@),
    {
        let ghost b0 = self@;
        proof {
            lemma_move_left_wf(b0, n as int);
        }
        if n == 0 {
            self.cx = 0;
        } else if (self.cy == 0 && n > self.cx) || (n != 1 && n > self.cx) {
            self.cx = 0;
        } else if n > self.cx {
            self.cx = self.lines[self.cy - 1];
            self.cy = self.cy - 1;
        } else {
            self.cx = self.cx - n;
        }
        proof {
            assert(self@ =~= buf_move_left(b0, n as int));
        }
    }
}

} // verus!
