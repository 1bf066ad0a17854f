//! Preservation of buffer well-formedness: every buffer operation of the
//! model maps a well-formed buffer to a well-formed buffer.

use vstd::prelude::*;

use crate::model::{
    buf_delete_before, buf_delete_line, buf_insert_char, buf_insert_line, buf_insert_step,
    buf_insert_text, buf_move_down, buf_move_left, buf_move_right, buf_move_up, buf_wf,
    cursor_offset, line_start, lines_nonneg, seq_sum, BufView,
};
use crate::sums::{
    lemma_adjacent_lines_le_sum, lemma_cursor_offset_in_range, lemma_line_in_content,
    lemma_sum_insert, lemma_sum_nonneg, lemma_sum_remove, lemma_sum_singleton,
    lemma_sum_take_succ, lemma_sum_update,
};

verus! {

/// Inserting a plain character keeps the buffer well-formed and grows the
/// content by one.
pub proof fn lemma_insert_char_wf(b: BufView, c: char)
    requires
        buf_wf(b),
        c != '\n',
    ensures
        buf_wf(buf_insert_char(b, c)),
        buf_insert_char(b, c).content.len() == b.content.len() + 1,
{
    lemma_cursor_offset_in_range(b);
    lemma_sum_update(b.lines, b.cy, b.lines[b.cy] + 1);
}

/// Splitting a line keeps the buffer well-formed and grows the content by
/// one separator.
pub proof fn lemma_insert_line_wf(b: BufView)
    requires
        buf_wf(b),
    ensures
        buf_wf(buf_insert_line(b)),
        buf_insert_line(b).content.len() == b.content.len() + 1,
{
    lemma_cursor_offset_in_range(b);
    let mid = b.lines.update(b.cy, b.cx);
    lemma_sum_update(b.lines, b.cy, b.cx);
    lemma_sum_insert(mid, b.cy + 1, b.lines[b.cy] - b.cx);
}

/// One step of text insertion keeps the buffer well-formed.
pub proof fn lemma_insert_step_wf(b: BufView, c: char)
    requires
        buf_wf(b),
    ensures
        buf_wf(buf_insert_step(b, c)),
        buf_insert_step(b, c).content.len() == b.content.len() + 1,
{
    if c == '\n' {
        lemma_insert_line_wf(b);
    } else {
        lemma_insert_char_wf(b, c);
    }
}

/// Inserting a whole string keeps the buffer well-formed and grows the
/// content by its length.
pub proof fn lemma_insert_text_wf(b: BufView, t: Seq<char>)
    requires
        buf_wf(b),
    ensures
        buf_wf(buf_insert_text(b, t)),
        buf_insert_text(b, t).content.len() == b.content.len() + t.len(),
    decreases t.len(),
{
    if t.len() > 0 {
        lemma_insert_step_wf(b, t[0]);
        lemma_insert_text_wf(buf_insert_step(b, t[0]), t.skip(1));
    }
}

/// Text insertion one character at a time, taken from the back: inserting
/// `t` and then one more character is inserting `t.push(c)`.
pub proof fn lemma_insert_text_snoc(b: BufView, t: Seq<char>, c: char)
    ensures
        buf_insert_text(b, t.push(c)) == buf_insert_step(buf_insert_text(b, t), c),
    decreases t.len(),
{
    if t.len() == 0 {
        assert(t.push(c)[0] == c);
        assert(t.push(c).skip(1) =~= Seq::<char>::empty());
        assert(buf_insert_text(b, t.push(c)) == buf_insert_text(
            buf_insert_step(b, c),
            Seq::<char>::empty(),
        ));
        assert(buf_insert_text(buf_insert_step(b, c), Seq::<char>::empty()) == buf_insert_step(
            b,
            c,
        ));
        assert(buf_insert_text(b, t) == b);
    } else {
        assert(t.push(c)[0] == t[0]);
        assert(t.push(c).skip(1) =~= t.skip(1).push(c));
        lemma_insert_text_snoc(buf_insert_step(b, t[0]), t.skip(1), c);
    }
}

/// Backspace keeps the buffer well-formed.
pub proof fn lemma_delete_before_wf(b: BufView)
    requires
        buf_wf(b),
    ensures
        buf_wf(buf_delete_before(b)),
{
    if b.cx == 0 && b.cy == 0 {
    } else if b.cx == 0 {
        lemma_cursor_offset_in_range(b);
        let joined = b.lines[b.cy - 1] + b.lines[b.cy];
        let mid = b.lines.update(b.cy - 1, joined);
        lemma_sum_update(b.lines, b.cy - 1, joined);
        lemma_sum_remove(mid, b.cy);
        assert(mid[b.cy] == b.lines[b.cy]);
    } else {
        lemma_cursor_offset_in_range(b);
        lemma_sum_update(b.lines, b.cy, b.lines[b.cy] - 1);
    }
}

/// Deleting a line keeps the buffer well-formed.
pub proof fn lemma_delete_line_wf(b: BufView)
    requires
        buf_wf(b),
    ensures
        buf_wf(buf_delete_line(b)),
{
    let len = b.lines.len() as int;
    let w = b.lines[b.cy];
    let s = line_start(b.lines, b.cy);
    if len == 1 {
        lemma_sum_singleton(0);
        assert(seq![0int].len() == 1);
    } else if b.cy == len - 1 {
        lemma_line_in_content(b, b.cy);
        lemma_sum_remove(b.lines, b.cy);
        lemma_sum_take_succ(b.lines, len - 1);
        assert(b.lines.take(len) =~= b.lines);
        assert(b.lines.remove(len - 1) =~= b.lines.take(len - 1));
        let lines2 = b.lines.remove(b.cy);
        assert(lines_nonneg(lines2));
    } else {
        lemma_line_in_content(b, b.cy);
        lemma_sum_remove(b.lines, b.cy);
        let lines2 = b.lines.remove(b.cy);
        assert(lines_nonneg(lines2));
    }
}

/// Moving up keeps the buffer well-formed and leaves the text alone.
pub proof fn lemma_move_up_wf(b: BufView, n: int)
    requires
        buf_wf(b),
        n >= 0,
    ensures
        buf_wf(buf_move_up(b, n)),
{
}

/// Moving down keeps the buffer well-formed and leaves the text alone.
pub proof fn lemma_move_down_wf(b: BufView, n: int)
    requires
        buf_wf(b),
        n >= 0,
    ensures
        buf_wf(buf_move_down(b, n)),
{
}

/// Moving right keeps the buffer well-formed and leaves the text alone.
pub proof fn lemma_move_right_wf(b: BufView, n: int)
    requires
        buf_wf(b),
        n >= 0,
    ensures
        buf_wf(buf_move_right(b, n)),
{
}

/// Moving left keeps the buffer well-formed and leaves the text alone.
pub proof fn lemma_move_left_wf(b: BufView, n: int)
    requires
        buf_wf(b),
        n >= 0,
    ensures
        buf_wf(buf_move_left(b, n)),
{
}

} // verus!
