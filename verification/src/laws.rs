//! The library's laws: properties that hold across operations, stated over
//! the model and proved once and for all.
//!
//! - well-formedness (the line index matches the content, at least one line
//!   exists, the cursor is in bounds) is preserved by every single operation
//!   and hence by any sequence of operations and events; so is the stronger
//!   full consistency that adds the separator structure of the content;
//! - inserting separator-free text splices it into the content at the
//!   cursor and grows exactly the cursor's line;
//! - inserting a character and backspacing restores the buffer, as does
//!   splitting a line and backspacing at the start of the new line;
//! - `move_right(0)` always reaches the end of the line and `move_left(0)`
//!   its start;
//! - in Normal mode, `g` `g` from a clean pending stack homes the cursor,
//!   and `G` jumps to the end of the last line.

use vstd::prelude::*;

use crate::editor::{ed_step, ed_wf, EdView, Input, Mode};
use crate::invariants::{
    lemma_delete_before_wf, lemma_delete_line_wf, lemma_insert_line_wf, lemma_insert_step_wf,
    lemma_insert_text_wf, lemma_move_down_wf, lemma_move_left_wf, lemma_move_right_wf,
    lemma_move_up_wf,
};
use crate::model::{
    buf_delete_before, buf_delete_line, buf_insert_char, buf_insert_line, buf_insert_step,
    buf_insert_text, buf_move_down, buf_move_left, buf_move_right, buf_move_up, buf_wf,
    cursor_offset, line_start, BufView,
};
use crate::sums::{lemma_cursor_offset_in_range, lemma_sum_concat, lemma_sum_singleton};
use crate::util::{lemma_parse_count_nonneg, spec_parse_count};

verus! {

/// One buffer operation, for stating properties of whole histories.  A
/// character insertion goes through [`buf_insert_step`], so a separator
/// counts as a line split, exactly as [`crate::buffer::Buffer::insert`]
/// treats it.
pub enum BufOp {
    InsertChar(char),
    InsertLine,
    DeleteBefore,
    DeleteLine,
    MoveUp(usize),
    MoveDown(usize),
    MoveLeft(usize),
    MoveRight(usize),
}

/// Effect of one operation on the buffer model.
pub open spec fn apply_op(b: BufView, op: BufOp) -> BufView {
    match op {
        BufOp::InsertChar(c) => buf_insert_step(b, c),
        BufOp::InsertLine => buf_insert_line(b),
        BufOp::DeleteBefore => buf_delete_before(b),
        BufOp::DeleteLine => buf_delete_line(b),
        BufOp::MoveUp(n) => buf_move_up(b, n as int),
        BufOp::MoveDown(n) => buf_move_down(b, n as int),
        BufOp::MoveLeft(n) => buf_move_left(b, n as int),
        BufOp::MoveRight(n) => buf_move_right(b, n as int),
    }
}

/// Effect of a whole history of operations, first to last.
pub open spec fn run_ops(b: BufView, ops: Seq<BufOp>) -> BufView
    decreases ops.len(),
{
    if ops.len() == 0 {
        b
    } else {
        run_ops(apply_op(b, ops[0]), ops.skip(1))
    }
}

/// Every single buffer operation preserves well-formedness: the content
/// length matches the line index, at least one line remains, and the cursor
/// stays on a line at a column within it.
pub proof fn lemma_apply_op_wf(b: BufView, op: BufOp)
    requires
        buf_wf(b),
    ensures
        buf_wf(apply_op(b, op)),
{
    match op {
        BufOp::InsertChar(c) => lemma_insert_step_wf(b, c),
        BufOp::InsertLine => lemma_insert_line_wf(b),
        BufOp::DeleteBefore => lemma_delete_before_wf(b),
        BufOp::DeleteLine => lemma_delete_line_wf(b),
        BufOp::MoveUp(n) => lemma_move_up_wf(b, n as int),
        BufOp::MoveDown(n) => lemma_move_down_wf(b, n as int),
        BufOp::MoveLeft(n) => lemma_move_left_wf(b, n as int),
        BufOp::MoveRight(n) => lemma_move_right_wf(b, n as int),
    }
}

/// Any sequence of buffer operations started from a well-formed buffer
/// leaves a well-formed buffer: the invariants hold after every step.
pub proof fn lemma_run_ops_wf(b: BufView, ops: Seq<BufOp>)
    requires
        buf_wf(b),
    ensures
        buf_wf(run_ops(b, ops)),
    decreases ops.len(),
{
    if ops.len() > 0 {
        lemma_apply_op_wf(b, ops[0]);
        lemma_run_ops_wf(apply_op(b, ops[0]), ops.skip(1));
    }
}

/// Every event, in every mode, preserves editor well-formedness.
pub proof fn lemma_ed_step_wf(e: EdView, i: Input)
    requires
        ed_wf(e),
    ensures
        ed_wf(ed_step(e, i)),
{
    match e.mode {
        Mode::Insert => {
            match i {
                Input::Key(k) => {
                    match k {
                        crate::editor::Key::Tab => {
                            lemma_insert_text_wf(e.buf, seq![' ', ' ']);
                        },
                        crate::editor::Key::Left => lemma_move_left_wf(e.buf, 1),
                        crate::editor::Key::Down => lemma_move_down_wf(e.buf, 1),
                        crate::editor::Key::Up => lemma_move_up_wf(e.buf, 1),
                        crate::editor::Key::Right => lemma_move_right_wf(e.buf, 1),
                        crate::editor::Key::Return => lemma_insert_line_wf(e.buf),
                        crate::editor::Key::Backspace => lemma_delete_before_wf(e.buf),
                        _ => {},
                    }
                },
                Input::Text(t) => lemma_insert_text_wf(e.buf, t@),
                _ => {},
            }
        },
        Mode::Normal => {
            match i {
                Input::Key(k) => {
                    match k {
                        crate::editor::Key::Left => lemma_move_left_wf(e.buf, 1),
                        crate::editor::Key::Down => lemma_move_down_wf(e.buf, 1),
                        crate::editor::Key::Up => lemma_move_up_wf(e.buf, 1),
                        crate::editor::Key::Right => lemma_move_right_wf(e.buf, 1),
                        _ => {},
                    }
                },
                Input::Text(t) => {
                    if t@.len() == 1 {
                        lemma_normal_text_wf(e, t@[0]);
                    }
                },
                _ => {},
            }
        },
        Mode::Visual => {},
    }
}

/// Every single-character Normal-mode command preserves well-formedness.
proof fn lemma_normal_text_wf(e: EdView, c: char)
    requires
        ed_wf(e),
    ensures
        ed_wf(crate::editor::normal_text(e, c)),
{
    lemma_parse_count_nonneg(e.stack);
    let n = spec_parse_count(e.stack);
    if c == 'i' {
        lemma_move_left_wf(e.buf, 1);
    } else if c == 'I' {
        lemma_move_left_wf(e.buf, 0);
    } else if c == 'A' {
        lemma_move_right_wf(e.buf, 0);
    } else if c == 'o' {
        lemma_move_right_wf(e.buf, 0);
        lemma_insert_line_wf(buf_move_right(e.buf, 0));
    } else if c == 'O' {
        lemma_move_left_wf(e.buf, 0);
        lemma_insert_line_wf(buf_move_left(e.buf, 0));
        lemma_move_up_wf(buf_insert_line(buf_move_left(e.buf, 0)), 1);
    } else if c == 'h' {
        lemma_move_left_wf(e.buf, n);
    } else if c == 'j' {
        lemma_move_down_wf(e.buf, n);
    } else if c == 'k' {
        lemma_move_up_wf(e.buf, n);
    } else if c == 'l' {
        lemma_move_right_wf(e.buf, n);
    } else if c == 'g' {
        if e.stack == seq!['g'] {
            lemma_move_up_wf(e.buf, 0);
            lemma_move_left_wf(buf_move_up(e.buf, 0), 0);
        }
    } else if c == 'G' {
        lemma_move_down_wf(e.buf, 0);
        lemma_move_right_wf(buf_move_down(e.buf, 0), 0);
    } else if c == 'd' {
        if e.stack == seq!['d'] {
            lemma_delete_line_wf(e.buf);
        }
    }
}

/// Full consistency of a buffer: the counting invariants of [`buf_wf`]
/// together with the separator structure of [`crate::model::buf_sep`].
pub open spec fn buf_ok(b: BufView) -> bool {
    buf_wf(b) && crate::model::buf_sep(b)
}

/// A buffer whose text and line index agree with another's has the same
/// separator structure: the cursor plays no part in it.
proof fn lemma_sep_same_text(a: BufView, b: BufView)
    requires
        crate::model::buf_sep(a),
        b.content == a.content,
        b.lines == a.lines,
    ensures
        crate::model::buf_sep(b),
{
    assert forall|i: int| 0 <= i < b.lines.len() - 1 implies crate::model::line_char(
        b,
        i,
        b.lines[i],
    ) == '\n' by {
        assert(crate::model::line_char(a, i, a.lines[i]) == '\n');
    };
    assert forall|i: int, j: int|
        0 <= i < b.lines.len() && 0 <= j < b.lines[i] implies crate::model::line_char(b, i, j)
        != '\n' by {
        assert(crate::model::line_char(a, i, j) != '\n');
    };
}

/// Every single buffer operation preserves full consistency: counting
/// invariants and separator structure together.
pub proof fn lemma_apply_op_ok(b: BufView, op: BufOp)
    requires
        buf_ok(b),
    ensures
        buf_ok(apply_op(b, op)),
{
    lemma_apply_op_wf(b, op);
    match op {
        BufOp::InsertChar(c) => crate::separators::lemma_insert_step_sep(b, c),
        BufOp::InsertLine => crate::separators::lemma_insert_line_sep(b),
        BufOp::DeleteBefore => crate::separators::lemma_delete_before_sep(b),
        BufOp::DeleteLine => crate::separators::lemma_delete_line_sep(b),
        BufOp::MoveUp(n) => lemma_sep_same_text(b, buf_move_up(b, n as int)),
        BufOp::MoveDown(n) => lemma_sep_same_text(b, buf_move_down(b, n as int)),
        BufOp::MoveLeft(n) => lemma_sep_same_text(b, buf_move_left(b, n as int)),
        BufOp::MoveRight(n) => lemma_sep_same_text(b, buf_move_right(b, n as int)),
    }
}

/// Any sequence of buffer operations preserves full consistency.
pub proof fn lemma_run_ops_ok(b: BufView, ops: Seq<BufOp>)
    requires
        buf_ok(b),
    ensures
        buf_ok(run_ops(b, ops)),
    decreases ops.len(),
{
    if ops.len() > 0 {
        lemma_apply_op_ok(b, ops[0]);
        lemma_run_ops_ok(apply_op(b, ops[0]), ops.skip(1));
    }
}

/// Full consistency of an editor: its buffer is fully consistent.
pub open spec fn ed_ok(e: EdView) -> bool {
    buf_ok(e.buf)
}

/// Every event, in every mode, preserves full consistency of the editor's
/// buffer.
pub proof fn lemma_ed_step_ok(e: EdView, i: Input)
    requires
        ed_ok(e),
    ensures
        ed_ok(ed_step(e, i)),
{
    lemma_ed_step_wf(e, i);
    let e2 = ed_step(e, i);
    match e.mode {
        Mode::Insert => {
            match i {
                Input::Key(k) => {
                    match k {
                        crate::editor::Key::Tab => {
                            crate::separators::lemma_insert_text_sep(e.buf, seq![' ', ' ']);
                        },
                        crate::editor::Key::Left => lemma_sep_same_text(e.buf, e2.buf),
                        crate::editor::Key::Down => lemma_sep_same_text(e.buf, e2.buf),
                        crate::editor::Key::Up => lemma_sep_same_text(e.buf, e2.buf),
                        crate::editor::Key::Right => lemma_sep_same_text(e.buf, e2.buf),
                        crate::editor::Key::Return => crate::separators::lemma_insert_line_sep(
                            e.buf,
                        ),
                        crate::editor::Key::Backspace => crate::separators::lemma_delete_before_sep(
                            e.buf,
                        ),
                        _ => {},
                    }
                },
                Input::Text(t) => crate::separators::lemma_insert_text_sep(e.buf, t@),
                _ => {},
            }
        },
        Mode::Normal => {
            match i {
                Input::Key(k) => {
                    match k {
                        crate::editor::Key::Left => lemma_sep_same_text(e.buf, e2.buf),
                        crate::editor::Key::Down => lemma_sep_same_text(e.buf, e2.buf),
                        crate::editor::Key::Up => lemma_sep_same_text(e.buf, e2.buf),
                        crate::editor::Key::Right => lemma_sep_same_text(e.buf, e2.buf),
                        _ => {},
                    }
                },
                Input::Text(t) => {
                    if t@.len() == 1 {
                        lemma_normal_text_sep(e, t@[0]);
                    }
                },
                _ => {},
            }
        },
        Mode::Visual => {},
    }
}

/// Every single-character Normal-mode command preserves the separator
/// structure.
proof fn lemma_normal_text_sep(e: EdView, c: char)
    requires
        ed_ok(e),
    ensures
        crate::model::buf_sep(crate::editor::normal_text(e, c).buf),
{
    let b = e.buf;
    let b2 = crate::editor::normal_text(e, c).buf;
    if c == 'o' {
        lemma_move_right_wf(b, 0);
        lemma_sep_same_text(b, buf_move_right(b, 0));
        crate::separators::lemma_insert_line_sep(buf_move_right(b, 0));
    } else if c == 'O' {
        lemma_move_left_wf(b, 0);
        lemma_sep_same_text(b, buf_move_left(b, 0));
        crate::separators::lemma_insert_line_sep(buf_move_left(b, 0));
        lemma_sep_same_text(
            buf_insert_line(buf_move_left(b, 0)),
            buf_move_up(buf_insert_line(buf_move_left(b, 0)), 1),
        );
    } else if c == 'd' && e.stack == seq!['d'] {
        crate::separators::lemma_delete_line_sep(b);
    } else {
        lemma_sep_same_text(b, b2);
    }
}

/// Effect of a whole history of input events, first to last.
pub open spec fn ed_run(e: EdView, inputs: Seq<Input>) -> EdView
    decreases inputs.len(),
{
    if inputs.len() == 0 {
        e
    } else {
        ed_run(ed_step(e, inputs[0]), inputs.skip(1))
    }
}

/// Any sequence of input events started from a well-formed editor leaves a
/// well-formed editor: the buffer invariants and cursor bounds hold after
/// every event.
pub proof fn lemma_ed_run_wf(e: EdView, inputs: Seq<Input>)
    requires
        ed_wf(e),
    ensures
        ed_wf(ed_run(e, inputs)),
    decreases inputs.len(),
{
    if inputs.len() > 0 {
        lemma_ed_step_wf(e, inputs[0]);
        lemma_ed_run_wf(ed_step(e, inputs[0]), inputs.skip(1));
    }
}

/// Inserting text free of separators does exactly what the single-line
/// description says: the text is spliced into the content at the cursor's
/// offset, the cursor's line grows by the text's length, and the column
/// advances past the text.  Row and all other lines stay as they were.
pub proof fn lemma_insert_plain_text(b: BufView, t: Seq<char>)
    requires
        buf_wf(b),
        forall|k: int| 0 <= k < t.len() ==> t[k] != '\n',
    ensures
        buf_insert_text(b, t).content == b.content.take(cursor_offset(b)) + t + b.content.skip(
            cursor_offset(b),
        ),
        buf_insert_text(b, t).lines == b.lines.update(b.cy, b.lines[b.cy] + t.len()),
        buf_insert_text(b, t).cx == b.cx + t.len(),
        buf_insert_text(b, t).cy == b.cy,
    decreases t.len(),
{
    lemma_cursor_offset_in_range(b);
    let pos = cursor_offset(b);
    if t.len() == 0 {
        assert(b.content.take(pos) + t + b.content.skip(pos) =~= b.content);
        assert(b.lines.update(b.cy, b.lines[b.cy] + 0) =~= b.lines);
    } else {
        let b1 = buf_insert_char(b, t[0]);
        lemma_insert_step_wf(b, t[0]);
        assert(b1.lines.take(b.cy) =~= b.lines.take(b.cy));
        assert(cursor_offset(b1) == pos + 1);
        lemma_insert_plain_text(b1, t.skip(1));
        assert(b1.content =~= b.content.take(pos) + seq![t[0]] + b.content.skip(pos));
        assert(b1.content.take(pos + 1) =~= b.content.take(pos) + seq![t[0]]);
        assert(b1.content.skip(pos + 1) =~= b.content.skip(pos));
        assert(b1.content.take(pos + 1) + t.skip(1) + b1.content.skip(pos + 1) =~= b.content.take(
            pos,
        ) + t + b.content.skip(pos));
        assert(b1.lines.update(b.cy, b1.lines[b.cy] + t.skip(1).len()) =~= b.lines.update(
            b.cy,
            b.lines[b.cy] + t.len(),
        ));
        assert(buf_insert_text(b, t) == buf_insert_text(b1, t.skip(1)));
    }
}

/// Any sequence of input events preserves full consistency of the
/// editor's buffer.
pub proof fn lemma_ed_run_ok(e: EdView, inputs: Seq<Input>)
    requires
        ed_ok(e),
    ensures
        ed_ok(ed_run(e, inputs)),
    decreases inputs.len(),
{
    if inputs.len() > 0 {
        lemma_ed_step_ok(e, inputs[0]);
        lemma_ed_run_ok(ed_step(e, inputs[0]), inputs.skip(1));
    }
}

/// Removing an element just inserted gives back the original sequence.
proof fn lemma_insert_remove_cancel(s: Seq<char>, i: int, v: char)
    requires
        0 <= i <= s.len(),
    ensures
        s.insert(i, v).remove(i) == s,
{
    assert(s.insert(i, v).remove(i) =~= s);
}

/// Inserting one plain character and backspacing right after restores the
/// buffer exactly: content, line index and cursor.
pub proof fn lemma_insert_delete_roundtrip(b: BufView, c: char)
    requires
        buf_wf(b),
        c != '\n',
    ensures
        buf_delete_before(buf_insert_char(b, c)) == b,
{
    lemma_cursor_offset_in_range(b);
    let b2 = buf_insert_char(b, c);
    assert(b2.lines.take(b.cy) =~= b.lines.take(b.cy));
    assert(cursor_offset(b2) == cursor_offset(b) + 1);
    lemma_insert_remove_cancel(b.content, cursor_offset(b), c);
    assert(b2.lines.update(b.cy, b2.lines[b.cy] - 1) =~= b.lines);
    assert(buf_delete_before(b2) =~= b);
}

/// Splitting a line and backspacing at the start of the new line restores
/// the buffer exactly: content, line index and cursor.
pub proof fn lemma_split_join_roundtrip(b: BufView)
    requires
        buf_wf(b),
    ensures
        buf_delete_before(buf_insert_line(b)) == b,
{
    lemma_cursor_offset_in_range(b);
    let b2 = buf_insert_line(b);
    let mid = b.lines.update(b.cy, b.cx);
    mid.insert_ensures(b.cy + 1, b.lines[b.cy] - b.cx);
    assert(b2.lines[b.cy] == b.cx);
    assert(b2.lines[b.cy + 1] == b.lines[b.cy] - b.cx);
    assert(b2.lines.take(b.cy + 1) =~= b.lines.take(b.cy) + seq![b.cx]);
    lemma_sum_concat(b.lines.take(b.cy), seq![b.cx]);
    lemma_sum_singleton(b.cx);
    assert(line_start(b2.lines, b2.cy) == cursor_offset(b) + 1);
    assert(cursor_offset(b2) == cursor_offset(b) + 1);
    lemma_insert_remove_cancel(b.content, cursor_offset(b), '\n');
    assert(b2.lines.update(b.cy, b2.lines[b.cy] + b2.lines[b.cy + 1]).remove(b.cy + 1)
        =~= b.lines);
    assert(buf_delete_before(b2) =~= b);
}

/// `move_right(0)` puts the column at the end of the line, whatever column
/// it started from; the row does not change.
pub proof fn lemma_move_right_end(b: BufView)
    requires
        buf_wf(b),
    ensures
        buf_move_right(b, 0).cx == b.lines[b.cy],
        buf_move_right(b, 0).cy == b.cy,
{
}

/// `move_left(0)` puts the column at the start of the line, whatever column
/// it started from; the row does not change.
pub proof fn lemma_move_left_home(b: BufView)
    requires
        buf_wf(b),
    ensures
        buf_move_left(b, 0).cx == 0,
        buf_move_left(b, 0).cy == b.cy,
{
}

/// In Normal mode with nothing pending, the two-key command `g` `g` homes
/// the cursor to row 0, column 0, and changes nothing else.
pub proof fn lemma_gg_goes_home(e: EdView, g1: Input, g2: Input)
    requires
        ed_wf(e),
        e.mode == Mode::Normal,
        e.stack == Seq::<char>::empty(),
        g1 matches Input::Text(t1) && t1@ == seq!['g'],
        g2 matches Input::Text(t2) && t2@ == seq!['g'],
    ensures
        ed_step(ed_step(e, g1), g2).buf.cx == 0,
        ed_step(ed_step(e, g1), g2).buf.cy == 0,
        ed_step(ed_step(e, g1), g2).buf.content == e.buf.content,
        ed_step(ed_step(e, g1), g2).buf.lines == e.buf.lines,
        ed_step(ed_step(e, g1), g2).mode == Mode::Normal,
        ed_step(ed_step(e, g1), g2).stack == Seq::<char>::empty(),
{
    let e1 = ed_step(e, g1);
    assert(e.stack.push('g') =~= seq!['g']);
    assert(e1.stack == seq!['g']);
    let e2 = ed_step(e1, g2);
    assert(e2.buf == buf_move_left(buf_move_up(e.buf, 0), 0));
}

/// In Normal mode, `G` puts the cursor on the last row, at the end of that
/// row's line, and changes nothing else of the document.
pub proof fn lemma_big_g_goes_end(e: EdView, g: Input)
    requires
        ed_wf(e),
        e.mode == Mode::Normal,
        g matches Input::Text(t) && t@ == seq!['G'],
    ensures
        ed_step(e, g).buf.cy == e.buf.lines.len() - 1,
        ed_step(e, g).buf.cx == e.buf.lines[e.buf.lines.len() - 1],
        ed_step(e, g).buf.content == e.buf.content,
        ed_step(e, g).buf.lines == e.buf.lines,
        ed_step(e, g).mode == Mode::Normal,
        ed_step(e, g).stack == e.stack,
{
    let e2 = ed_step(e, g);
    assert(e2.buf == buf_move_right(buf_move_down(e.buf, 0), 0));
}

} // verus!
