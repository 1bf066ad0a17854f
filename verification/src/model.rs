//! Mathematical model of the text buffer.
//!
//! A buffer is a sequence of characters (`content`) carrying the whole
//! document, together with a per-line length index (`lines`), and a cursor
//! given as a column (`cx`) within line `cy`.  Line breaks are single `'\n'`
//! characters embedded in `content`; `lines[i]` counts the characters of line
//! `i` excluding the separator.
//!
//! The well-formedness predicate [`buf_wf`] ties the three together: the
//! content length equals the sum of the line lengths plus one separator
//! between each pair of adjacent lines, there is always at least one line,
//! and the cursor sits on an existing line at a column no greater than that
//! line's length.
//!
//! Every buffer operation is described here as a function from model to
//! model; the executable methods of `Buffer` are proved to realise exactly
//! these functions.

use vstd::prelude::*;

verus! {

/// Ghost abstraction of a `Buffer`: document content, line-length index and
/// cursor position.
#[verifier::ext_equal]
pub ghost struct BufView {
    pub content: Seq<char>,
    pub lines: Seq<int>,
    pub cx: int,
    pub cy: int,
}

/// Sum of a sequence of integers.
pub open spec fn seq_sum(s: Seq<int>) -> int
    decreases s.len(),
{
    if s.len() == 0 {
        0
    } else {
        seq_sum(s.drop_last()) + s.last()
    }
}

/// The line-length index of a `Vec<usize>`, as mathematical integers.
pub open spec fn lines_view(s: Seq<usize>) -> Seq<int> {
    s.map_values(|x: usize| x as int)
}

/// Offset of the first character of line `row`: the lengths of all earlier
/// lines plus one separator per earlier line.
pub open spec fn line_start(lines: Seq<int>, row: int) -> int {
    seq_sum(lines.take(row)) + row
}

/// Absolute offset of the cursor inside the content.
pub open spec fn cursor_offset(b: BufView) -> int {
    line_start(b.lines, b.cy) + b.cx
}

/// Every line length is non-negative.
pub open spec fn lines_nonneg(lines: Seq<int>) -> bool {
    forall|i: int| 0 <= i < lines.len() ==> lines[i] >= 0
}

/// Well-formedness: the line index matches the content length, at least one
/// line exists, and the cursor is inside the document.
pub open spec fn buf_wf(b: BufView) -> bool {
    &&& lines_nonneg(b.lines)
    &&& b.lines.len() >= 1
    &&& b.content.len() == seq_sum(b.lines) + b.lines.len() - 1
    &&& 0 <= b.cy < b.lines.len()
    &&& 0 <= b.cx <= b.lines[b.cy]
}

/// The character at column `j` of line `i` (for `j == lines[i]`, the
/// separator that follows the line).
pub open spec fn line_char(b: BufView, i: int, j: int) -> char {
    b.content[line_start(b.lines, i) + j]
}

/// The separator structure of the content: a `'\n'` stands exactly at the
/// end of every line but the last, and nowhere inside a line.  Together
/// with [`buf_wf`] this pins where every line of the document lies.
pub open spec fn buf_sep(b: BufView) -> bool {
    &&& forall|i: int| 0 <= i < b.lines.len() - 1 ==> line_char(b, i, b.lines[i]) == '\n'
    &&& forall|i: int, j: int|
        0 <= i < b.lines.len() && 0 <= j < b.lines[i] ==> line_char(b, i, j) != '\n'
}

/// The empty document: one line of length zero, cursor at its start.
pub open spec fn empty_buf() -> BufView {
    BufView { content: Seq::empty(), lines: seq![0], cx: 0, cy: 0 }
}

/// Insert one non-separator character at the cursor; the cursor moves past it.
pub open spec fn buf_insert_char(b: BufView, c: char) -> BufView {
    BufView {
        content: b.content.insert(cursor_offset(b), c),
        lines: b.lines.update(b.cy, b.lines[b.cy] + 1),
        cx: b.cx + 1,
        cy: b.cy,
    }
}

/// Split line `cy` at the cursor: a separator enters the content, the tail of
/// the line moves to a new line below, and the cursor moves to its start.
pub open spec fn buf_insert_line(b: BufView) -> BufView {
    BufView {
        content: b.content.insert(cursor_offset(b), '\n'),
        lines: b.lines.update(b.cy, b.cx).insert(b.cy + 1, b.lines[b.cy] - b.cx),
        cx: 0,
        cy: b.cy + 1,
    }
}

/// Insert one unit of text: a separator splits the line, anything else lands
/// in the current line.
pub open spec fn buf_insert_step(b: BufView, c: char) -> BufView {
    if c == '\n' {
        buf_insert_line(b)
    } else {
        buf_insert_char(b, c)
    }
}

/// Insert a string character by character at the cursor.
pub open spec fn buf_insert_text(b: BufView, t: Seq<char>) -> BufView
    decreases t.len(),
{
    if t.len() == 0 {
        b
    } else {
        buf_insert_text(buf_insert_step(b, t[0]), t.skip(1))
    }
}

/// Backspace: at the very start of the document nothing happens; at the start
/// of a later line the separator before it is removed and the two lines join;
/// otherwise the character before the cursor is removed.
pub open spec fn buf_delete_before(b: BufView) -> BufView {
    if b.cx == 0 && b.cy == 0 {
        b
    } else if b.cx == 0 {
        BufView {
            content: b.content.remove(cursor_offset(b) - 1),
            lines: b.lines.update(b.cy - 1, b.lines[b.cy - 1] + b.lines[b.cy]).remove(b.cy),
            cx: b.lines[b.cy - 1],
            cy: b.cy - 1,
        }
    } else {
        BufView {
            content: b.content.remove(cursor_offset(b) - 1),
            lines: b.lines.update(b.cy, b.lines[b.cy] - 1),
            cx: b.cx - 1,
            cy: b.cy,
        }
    }
}

/// The smaller of two integers.
pub open spec fn min_i(a: int, b: int) -> int {
    if a <= b {
        a
    } else {
        b
    }
}

/// Remove line `cy` whole.  A middle line goes together with its trailing
/// separator, the last of several lines with its leading separator, and the
/// only line of the document is emptied in place.  The cursor row clamps to
/// the last remaining line and the column to that line's length.
pub open spec fn buf_delete_line(b: BufView) -> BufView {
    let w = b.lines[b.cy];
    let s = line_start(b.lines, b.cy);
    if b.lines.len() == 1 {
        BufView { content: Seq::empty(), lines: seq![0], cx: 0, cy: 0 }
    } else if b.cy == b.lines.len() - 1 {
        let lines2 = b.lines.remove(b.cy);
        BufView {
            content: b.content.take(s - 1),
            lines: lines2,
            cx: min_i(b.cx, lines2[b.cy - 1]),
            cy: b.cy - 1,
        }
    } else {
        let lines2 = b.lines.remove(b.cy);
        BufView {
            content: b.content.take(s) + b.content.skip(s + w + 1),
            lines: lines2,
            cx: min_i(b.cx, lines2[b.cy]),
            cy: b.cy,
        }
    }
}

/// Move up `n` rows, saturating at the first row; `n == 0` jumps to the first
/// row.  The column clamps to the length of the row reached.
pub open spec fn buf_move_up(b: BufView, n: int) -> BufView {
    if n == 0 {
        BufView { content: b.content, lines: b.lines, cx: min_i(b.cx, b.lines[0]), cy: 0 }
    } else if b.cy != 0 {
        let row = if n <= b.cy {
            b.cy - n
        } else {
            0
        };
        BufView { content: b.content, lines: b.lines, cx: min_i(b.cx, b.lines[row]), cy: row }
    } else {
        b
    }
}

/// Move down `n` rows, stopping at the last row; `n == 0` jumps to the last
/// row.  The column clamps to the length of the row reached.
pub open spec fn buf_move_down(b: BufView, n: int) -> BufView {
    let last = b.lines.len() - 1;
    let row = if n == 0 {
        last
    } else {
        min_i(b.cy + n, last)
    };
    BufView { content: b.content, lines: b.lines, cx: min_i(b.cx, b.lines[row]), cy: row }
}

/// Move right `n` columns.  `n == 0` jumps to the end of the line.  A
/// single-step move past the end wraps to the start of the next line except
/// on the last line; a larger count clamps at the end of the line.
pub open spec fn buf_move_right(b: BufView, n: int) -> BufView {
    let w = b.lines[b.cy];
    if n == 0 {
        BufView { content: b.content, lines: b.lines, cx: w, cy: b.cy }
    } else if (n != 1 && b.cx + n >= w) || (b.cx + n > w && b.cy == b.lines.len() - 1) {
        BufView { content: b.content, lines: b.lines, cx: w, cy: b.cy }
    } else if b.cx + n > w {
        BufView { content: b.content, lines: b.lines, cx: 0, cy: b.cy + 1 }
    } else {
        BufView { content: b.content, lines: b.lines, cx: b.cx + n, cy: b.cy }
    }
}

/// Move left `n` columns.  `n == 0` jumps to the start of the line.  A
/// single-step move past the start wraps to the end of the previous line
/// except on the first line; a larger count clamps at the start of the line.
pub open spec fn buf_move_left(b: BufView, n: int) -> BufView {
    if n == 0 {
        BufView { content: b.content, lines: b.lines, cx: 0, cy: b.cy }
    } else if (b.cy == 0 && n > b.cx) || (n != 1 && n > b.cx) {
        BufView { content: b.content, lines: b.lines, cx: 0, cy: b.cy }
    } else if n > b.cx {
        BufView { content: b.content, lines: b.lines, cx: b.lines[b.cy - 1], cy: b.cy - 1 }
    } else {
        BufView { content: b.content, lines: b.lines, cx: b.cx - n, cy: b.cy }
    }
}

} // verus!
