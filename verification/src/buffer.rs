//! The editable text buffer: document content, per-line length index and
//! cursor, mutated by insertion, deletion and line splitting.
//!
//! Every method is specified against the model in [`crate::model`]: the
//! state after a call is exactly the corresponding model function applied to
//! the state before it, and well-formedness ([`buf_wf`]) is preserved.

use vstd::prelude::*;

use crate::invariants::{
    lemma_delete_before_wf, lemma_delete_line_wf, lemma_insert_char_wf, lemma_insert_line_wf,
    lemma_insert_text_snoc,
};
use crate::model::{
    buf_delete_before, buf_delete_line, buf_insert_char, buf_insert_line, buf_insert_text, buf_wf,
    cursor_offset, empty_buf, line_start, lines_view, BufView,
};
use crate::sums::{
    lemma_adjacent_lines_le_sum, lemma_cursor_offset_in_range, lemma_line_in_content,
    lemma_line_start_succ,
};

verus! {

/// A text document addressed by line and column.
///
/// `content` holds the whole document with single `'\n'` separators between
/// lines; `lines[i]` is the length of line `i` without its separator; the
/// cursor sits at column `cx` of line `cy`.
pub struct Buffer {
    /// The document text, one character per element.
    pub content: Vec<char>,
    /// Number of characters in each line, excluding separators.
    pub lines: Vec<usize>,
    /// Cursor column: an index into the current line, possibly one past its
    /// last character.
    pub cx: usize,
    /// Cursor row: an index into `lines`.
    pub cy: usize,
}

impl View for Buffer {
    type V = BufView;

    open spec fn view(&self) -> BufView {
        BufView {
            content: self.content@,
            lines: lines_view(self.lines@),
            cx: self.cx as int,
            cy: self.cy as int,
        }
    }
}

/// Updating an entry of the line index commutes with taking its view.
proof fn lemma_view_update(s: Seq<usize>, i: int, v: usize)
    requires
        0 <= i < s.len(),
    ensures
        lines_view(s.update(i, v)) == lines_view(s).update(i, v as int),
{
    assert(lines_view(s.update(i, v)) =~= lines_view(s).update(i, v as int));
}

/// Removing from the line index commutes with taking its view.
proof fn lemma_view_remove(s: Seq<usize>, i: int)
    requires
        0 <= i < s.len(),
    ensures
        lines_view(s.remove(i)) == lines_view(s).remove(i),
{
    assert(lines_view(s.remove(i)) =~= lines_view(s).remove(i));
}

impl Buffer {
    /// Creates an empty document: one line of length zero, cursor at its
    /// start.
    pub fn new() -> (b: Buffer)
        ensures
            b@ == empty_buf(),
            buf_wf(b@),
    {
        let content: Vec<char> = Vec::new();
        let mut lines: Vec<usize> = Vec::new();
        lines.push(0);
        let b = Buffer { content, lines, cx: 0, cy: 0 };
        proof {
            assert(b@.lines =~= empty_buf().lines);
            assert(b@ =~= empty_buf());
            crate::sums::lemma_sum_singleton(0);
        }
        b
    }

    /// Offset of the first character of the cursor's line inside `content`.
    fn line_offset(&self) -> (r: usize)
        requires
            buf_wf(self@),
        ensures
            r == line_start(self@.lines, self@.cy),
            r + self@.lines[self@.cy] + (self@.lines.len() - 1 - self@.cy) <= self@.content.len(),
    {
        let total = self.content.len();
        let mut acc: usize = 0;
        let mut i: usize = 0;
        while i < self.cy
            invariant
                buf_wf(self@),
                i <= self.cy,
                acc == line_start(self@.lines, i as int),
                total == self@.content.len(),
            decreases self.cy - i,
        {
            proof {
                lemma_line_in_content(self@, i as int);
                lemma_line_start_succ(self@.lines, i as int);
            }
            acc = acc + self.lines[i] + 1;
            i = i + 1;
        }
        proof {
            lemma_line_in_content(self@, self.cy as int);
        }
        acc
    }

    /// Absolute offset of the cursor inside `content`.
    pub fn cursor_pos(&self) -> (r: usize)
        requires
            buf_wf(self@),
        ensures
            r == cursor_offset(self@),
            r <= self@.content.len(),
    {
        proof {
            lemma_cursor_offset_in_range(self@);
        }
        let total = self.content.len();
        let off = self.line_offset();
        off + self.cx
    }

    /// Inserts one character other than the line separator at the cursor;
    /// the cursor advances past it.
    pub fn insert_char(&mut self, c: char)
        requires
            buf_wf(old(self)@),
            c != '\n',
            old(self)@.content.len() < usize::MAX,
        ensures
            final(self)@ == buf_insert_char(old(self)@, c),
            buf_wf(final(self)@),
    {
        let ghost b0 = self@;
        let ghost l0 = self.lines@;
        proof {
            lemma_insert_char_wf(b0, c);
            lemma_line_in_content(b0, b0.cy);
        }
        let pos = self.cursor_pos();
        self.content.insert(pos, c);
        let w = self.lines[self.cy];
        self.lines[self.cy] = w + 1;
        self.cx = self.cx + 1;
        proof {
            lemma_view_update(l0, b0.cy, (w + 1) as usize);
            assert(self@ =~= buf_insert_char(b0, c));
        }
    }

    /// Splits the cursor's line at the cursor: the tail of the line moves to
    /// a new line below and the cursor moves to its start.
    pub fn insert_line(&mut self)
        requires
            buf_wf(old(self)@),
            old(self)@.content.len() < usize::MAX,
        ensures
            final(self)@ == buf_insert_line(old(self)@),
            buf_wf(final(self)@),
    {
        let ghost b0 = self@;
        proof {
            lemma_insert_line_wf(b0);
            lemma_line_in_content(b0, b0.cy);
        }
        let pos = self.cursor_pos();
        self.content.insert(pos, '\n');
        let w = self.lines[self.cy];
        let moved = w - self.cx;
        self.lines[self.cy] = self.cx;
        self.lines.insert(self.cy + 1, moved);
        self.cy = self.cy + 1;
        self.cx = 0;
        proof {
            assert(self@ =~= buf_insert_line(b0));
        }
    }

    /// Inserts a string at the cursor, character by character: a `'\n'`
    /// splits the line, anything else lands in the current line.
    pub fn insert(&mut self, text: &str)
        requires
            buf_wf(old(self)@),
            old(self)@.content.len() + text@.len() <= usize::MAX,
        ensures
            final(self)@ == buf_insert_text(old(self)@, text@),
            buf_wf(final(self)@),
    {
        let ghost b0 = self@;
        let n = text.unicode_len();
        let mut i: usize = 0;
        while i < n
            invariant
                buf_wf(b0),
                n == text@.len(),
                i <= n,
                b0.content.len() + n <= usize::MAX,
                self@ == buf_insert_text(b0, text@.take(i as int)),
                buf_wf(self@),
                self@.content.len() == b0.content.len() + i,
            decreases n - i,
        {
            let c = text.get_char(i);
            proof {
                lemma_insert_text_snoc(b0, text@.take(i as int), c);
                assert(text@.take(i as int).push(c) =~= text@.take(i + 1));
                crate::invariants::lemma_insert_step_wf(self@, c);
            }
            if c == '\n' {
                self.insert_line();
            } else {
                self.insert_char(c);
            }
            i = i + 1;
        }
        proof {
            assert(text@.take(n as int) =~= text@);
        }
    }

    /// Backspace: removes the character before the cursor, joining the
    /// cursor's line with the one above when the cursor is at column zero;
    /// at the very start of the document nothing happens.
    pub fn delete(&mut self)
        requires
            buf_wf(old(self)@),
        ensures
            final(self)@ == buf_delete_before(old(self)@),
            buf_wf(final(self)@),
    {
        let ghost b0 = self@;
        let ghost l0 = self.lines@;
        proof {
            lemma_delete_before_wf(b0);
            lemma_cursor_offset_in_range(b0);
        }
        if self.cy == 0 && self.cx == 0 {
            return ;
        }
        let pos = self.cursor_pos();
        if self.cx == 0 {
            let prev = self.lines[self.cy - 1];
            let cur = self.lines[self.cy];
            proof {
                lemma_adjacent_lines_le_sum(b0.lines, b0.cy - 1);
            }
            let total = self.content.len();
            self.content.remove(pos - 1);
            self.lines[self.cy - 1] = prev + cur;
            self.lines.remove(self.cy);
            self.cx = prev;
            self.cy = self.cy - 1;
            proof {
                lemma_view_update(l0, b0.cy - 1, (prev + cur) as usize);
                lemma_view_remove(l0.update(b0.cy - 1, (prev + cur) as usize), b0.cy);
                assert(self@ =~= buf_delete_before(b0));
            }
        } else {
            self.content.remove(pos - 1);
            let wcur = self.lines[self.cy];
            self.lines[self.cy] = wcur - 1;
            self.cx = self.cx - 1;
            proof {
                lemma_view_update(l0, b0.cy, (wcur - 1) as usize);
                assert(self@ =~= buf_delete_before(b0));
            }
        }
    }

    /// Removes the cursor's line whole: a middle line goes with its
    /// trailing separator, the last of several lines with its leading
    /// separator, and the only line of the document is emptied in place.
    /// The cursor clamps to the remaining text.
    pub fn delete_line(&mut self)
        requires
            buf_wf(old(self)@),
        ensures
            final(self)@ == buf_delete_line(old(self)@),
            buf_wf(final(self)@),
    {
        let ghost b0 = self@;
        let ghost l0 = self.lines@;
        proof {
            lemma_delete_line_wf(b0);
            lemma_line_in_content(b0, b0.cy);
        }
        let len = self.lines.len();
        if len == 1 {
            self.content.clear();
            self.lines[0] = 0;
            self.cx = 0;
            proof {
                lemma_view_update(l0, 0, 0);
                assert(self@.lines =~= buf_delete_line(b0).lines);
                assert(self@ =~= buf_delete_line(b0));
            }
        } else {
            let start = self.line_offset();
            let w = self.lines[self.cy];
            if self.cy == len - 1 {
                self.content.truncate(start - 1);
                self.lines.remove(self.cy);
                self.cy = self.cy - 1;
                if self.cx > self.lines[self.cy] {
                    self.cx = self.lines[self.cy];
                }
                proof {
                    lemma_view_remove(l0, b0.cy);
                    assert(b0.content.subrange(0, line_start(b0.lines, b0.cy) - 1)
                        =~= b0.content.take(line_start(b0.lines, b0.cy) - 1));
                    assert(self@ =~= buf_delete_line(b0));
                }
            } else {
                let total = self.content.len();
                let ghost c0 = self.content@;
                let mut j: usize = 0;
                while j <= w
                    invariant
                        j <= w + 1,
                        total == c0.len(),
                        start + w + 1 <= c0.len(),
                        self.content@ == c0.take(start as int) + c0.skip(start + j),
                        self.lines@ == l0,
                        self.cx as int == b0.cx,
                        self.cy as int == b0.cy,
                        self.cy < self.lines.len(),
                        w == b0.lines[b0.cy],
                        start == line_start(b0.lines, b0.cy),
                    decreases w + 1 - j,
                {
                    proof {
                        assert((c0.take(start as int) + c0.skip(start + j)).remove(start as int)
                            =~= c0.take(start as int) + c0.skip(start + j + 1));
                    }
                    self.content.remove(start);
                    j = j + 1;
                }
                self.lines.remove(self.cy);
                if self.cx > self.lines[self.cy] {
                    self.cx = self.lines[self.cy];
                }
                proof {
                    lemma_view_remove(l0, b0.cy);
                    assert(self@ =~= buf_delete_line(b0));
                }
            }
        }
    }
}

} // verus!
