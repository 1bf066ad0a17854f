//! Preservation of the separator structure: a `'\n'` stands exactly at the
//! end of every line but the last and nowhere inside a line
//! ([`buf_sep`]), and every buffer operation keeps it that way.
//!
//! With this, the column-zero case of backspace provably removes a
//! separator and every other case a plain character, which is what ties
//! the line index to the text it describes.

use vstd::prelude::*;

use crate::model::{
    buf_delete_before, buf_delete_line, buf_insert_char, buf_insert_line, buf_insert_step,
    buf_insert_text, buf_sep, buf_wf, cursor_offset, line_char, line_start, BufView,
};
use crate::sums::{
    lemma_cursor_offset_in_range, lemma_line_in_content, lemma_line_start_insert,
    lemma_line_start_mono, lemma_line_start_remove, lemma_line_start_succ,
    lemma_line_start_update,
};

verus! {

/// Inserting a plain character keeps the separator structure.
#[verifier::rlimit(100)]
#[verifier::spinoff_prover]
pub proof fn lemma_insert_char_sep(b: BufView, c: char)
    requires
        buf_wf(b),
        buf_sep(b),
        c != '\n',
    ensures
        buf_sep(buf_insert_char(b, c)),
{
    let b2 = buf_insert_char(b, c);
    let pos = cursor_offset(b);
    let l = b.lines[b.cy];
    lemma_cursor_offset_in_range(b);
    lemma_line_in_content(b, b.cy);
    assert forall|i: int| 0 <= i < b2.lines.len() - 1 implies line_char(b2, i, b2.lines[i])
        == '\n' by {
        lemma_line_start_update(b.lines, b.cy, l + 1, i);
        lemma_line_in_content(b, i);
        if i < b.cy {
            lemma_line_start_succ(b.lines, i);
            lemma_line_start_mono(b.lines, i + 1, b.cy);
            assert(line_char(b, i, b.lines[i]) == '\n');
        } else if i == b.cy {
            assert(line_char(b, i, b.lines[i]) == '\n');
        } else {
            lemma_line_start_succ(b.lines, b.cy);
            lemma_line_start_mono(b.lines, b.cy + 1, i);
            assert(line_char(b, i, b.lines[i]) == '\n');
        }
    };
    assert forall|i: int, j: int|
        0 <= i < b2.lines.len() && 0 <= j < b2.lines[i] implies line_char(b2, i, j) != '\n' by {
        lemma_line_start_update(b.lines, b.cy, l + 1, i);
        lemma_line_in_content(b, i);
        if i < b.cy {
            lemma_line_start_succ(b.lines, i);
            lemma_line_start_mono(b.lines, i + 1, b.cy);
            assert(line_char(b, i, j) != '\n');
        } else if i == b.cy {
            if j < b.cx {
                assert(line_char(b, i, j) != '\n');
            } else if j > b.cx {
                assert(line_char(b, i, j - 1) != '\n');
            }
        } else {
            lemma_line_start_succ(b.lines, b.cy);
            lemma_line_start_mono(b.lines, b.cy + 1, i);
            assert(line_char(b, i, j) != '\n');
        }
    };
}

/// Splitting a line keeps the separator structure: the new separator lands
/// exactly at the end of the shortened line.
pub proof fn lemma_insert_line_sep(b: BufView)
    requires
        buf_wf(b),
        buf_sep(b),
    ensures
        buf_sep(buf_insert_line(b)),
{
    lemma_insert_line_sep_ends(b);
    lemma_insert_line_sep_interior(b);
}

/// After a split, a separator stands at the end of every line but the last.
#[verifier::rlimit(100)]
#[verifier::spinoff_prover]
proof fn lemma_insert_line_sep_ends(b: BufView)
    requires
        buf_wf(b),
        buf_sep(b),
    ensures
        forall|i: int|
            0 <= i < buf_insert_line(b).lines.len() - 1 ==> line_char(
                buf_insert_line(b),
                i,
                buf_insert_line(b).lines[i],
            ) == '\n',
{
    let b2 = buf_insert_line(b);
    let pos = cursor_offset(b);
    let l = b.lines[b.cy];
    let mid = b.lines.update(b.cy, b.cx);
    lemma_cursor_offset_in_range(b);
    lemma_line_in_content(b, b.cy);
    assert forall|i: int| 0 <= i < b2.lines.len() - 1 implies line_char(b2, i, b2.lines[i])
        == '\n' by {
        lemma_line_start_update(b.lines, b.cy, b.cx, i);
        lemma_line_start_insert(mid, b.cy + 1, l - b.cx, i);
        if i < b.cy {
            lemma_line_start_update(b.lines, b.cy, b.cx, i + 1);
            lemma_line_in_content(b, i);
            lemma_line_start_succ(b.lines, i);
            lemma_line_start_mono(b.lines, i + 1, b.cy);
            assert(line_char(b, i, b.lines[i]) == '\n');
        } else if i == b.cy {
            assert(line_start(b2.lines, i) == line_start(b.lines, b.cy));
            assert(b2.lines[i] == b.cx);
        } else if i == b.cy + 1 {
            lemma_line_start_update(b.lines, b.cy, b.cx, b.cy + 1);
            assert(line_start(mid, b.cy + 1) == line_start(b.lines, b.cy + 1) + b.cx - l);
            lemma_line_start_succ(b.lines, b.cy);
            assert(line_char(b, b.cy, b.lines[b.cy]) == '\n');
        } else {
            lemma_line_start_update(b.lines, b.cy, b.cx, i - 1);
            assert(line_start(b2.lines, i) == line_start(b.lines, i - 1) + 1);
            lemma_line_in_content(b, i - 1);
            lemma_line_start_succ(b.lines, b.cy);
            lemma_line_start_mono(b.lines, b.cy + 1, i - 1);
            assert(line_char(b, i - 1, b.lines[i - 1]) == '\n');
        }
    };
}

/// After a split, no separator stands inside any line.
#[verifier::rlimit(100)]
#[verifier::spinoff_prover]
proof fn lemma_insert_line_sep_interior(b: BufView)
    requires
        buf_wf(b),
        buf_sep(b),
    ensures
        forall|i: int, j: int|
            0 <= i < buf_insert_line(b).lines.len() && 0 <= j < buf_insert_line(b).lines[i]
                ==> line_char(buf_insert_line(b), i, j) != '\n',
{
    let b2 = buf_insert_line(b);
    let pos = cursor_offset(b);
    let l = b.lines[b.cy];
    let mid = b.lines.update(b.cy, b.cx);
    lemma_cursor_offset_in_range(b);
    lemma_line_in_content(b, b.cy);
    assert forall|i: int, j: int|
        0 <= i < b2.lines.len() && 0 <= j < b2.lines[i] implies line_char(b2, i, j) != '\n' by {
        lemma_line_start_update(b.lines, b.cy, b.cx, i);
        lemma_line_start_insert(mid, b.cy + 1, l - b.cx, i);
        if i < b.cy {
            lemma_line_in_content(b, i);
            lemma_line_start_succ(b.lines, i);
            lemma_line_start_mono(b.lines, i + 1, b.cy);
            assert(line_char(b, i, j) != '\n');
        } else if i == b.cy {
            assert(line_start(b2.lines, i) == line_start(b.lines, b.cy));
            assert(line_char(b, b.cy, j) != '\n');
        } else if i == b.cy + 1 {
            lemma_line_start_update(b.lines, b.cy, b.cx, b.cy + 1);
            lemma_line_start_succ(b.lines, b.cy);
            assert(line_char(b, b.cy, b.cx + j) != '\n');
        } else {
            lemma_line_start_update(b.lines, b.cy, b.cx, i - 1);
            assert(line_start(b2.lines, i) == line_start(b.lines, i - 1) + 1);
            lemma_line_in_content(b, i - 1);
            lemma_line_start_succ(b.lines, b.cy);
            lemma_line_start_mono(b.lines, b.cy + 1, i - 1);
            assert(line_char(b, i - 1, j) != '\n');
        }
    };
}

/// Backspace keeps the separator structure, whether it removes a separator
/// (column zero) or a character inside a line.
pub proof fn lemma_delete_before_sep(b: BufView)
    requires
        buf_wf(b),
        buf_sep(b),
    ensures
        buf_sep(buf_delete_before(b)),
{
    if b.cx == 0 && b.cy == 0 {
    } else if b.cx == 0 {
        lemma_delete_join_sep(b);
    } else {
        lemma_delete_char_sep(b);
    }
}

/// The column-zero case of backspace: the separator between the cursor's
/// line and the one above goes, and the remaining separators still lie at
/// the ends of the joined index's lines.
proof fn lemma_delete_join_sep(b: BufView)
    requires
        buf_wf(b),
        buf_sep(b),
        b.cx == 0,
        0 < b.cy,
    ensures
        buf_sep(buf_delete_before(b)),
{
    lemma_delete_join_sep_ends(b);
    lemma_delete_join_sep_interior(b);
}

/// After a join, a separator stands at the end of every line but the last.
#[verifier::rlimit(100)]
#[verifier::spinoff_prover]
proof fn lemma_delete_join_sep_ends(b: BufView)
    requires
        buf_wf(b),
        buf_sep(b),
        b.cx == 0,
        0 < b.cy,
    ensures
        forall|i: int|
            0 <= i < buf_delete_before(b).lines.len() - 1 ==> line_char(
                buf_delete_before(b),
                i,
                buf_delete_before(b).lines[i],
            ) == '\n',
{
    let b2 = buf_delete_before(b);
    let pos = cursor_offset(b);
    let la = b.lines[b.cy - 1];
    let lc = b.lines[b.cy];
    let mid = b.lines.update(b.cy - 1, la + lc);
    lemma_cursor_offset_in_range(b);
    lemma_line_in_content(b, b.cy);
    lemma_line_in_content(b, b.cy - 1);
    lemma_line_start_succ(b.lines, b.cy - 1);
    assert forall|i: int| 0 <= i < b2.lines.len() - 1 implies line_char(b2, i, b2.lines[i])
        == '\n' by {
        lemma_line_start_update(b.lines, b.cy - 1, la + lc, i);
        lemma_line_start_remove(mid, b.cy, i);
        if i < b.cy - 1 {
            lemma_line_in_content(b, i);
            lemma_line_start_succ(b.lines, i);
            lemma_line_start_mono(b.lines, i + 1, b.cy - 1);
            assert(line_char(b, i, b.lines[i]) == '\n');
        } else if i == b.cy - 1 {
            lemma_line_start_succ(b.lines, b.cy);
            assert(line_char(b, b.cy, b.lines[b.cy]) == '\n');
        } else {
            lemma_line_start_update(b.lines, b.cy - 1, la + lc, i + 1);
            lemma_line_in_content(b, i + 1);
            lemma_line_start_succ(b.lines, b.cy);
            lemma_line_start_mono(b.lines, b.cy + 1, i + 1);
            assert(line_start(b2.lines, i) == line_start(b.lines, i + 1) - 1);
            assert(line_char(b, i + 1, b.lines[i + 1]) == '\n');
        }
    };
}

/// After a join, no separator stands inside any line.
#[verifier::rlimit(100)]
#[verifier::spinoff_prover]
proof fn lemma_delete_join_sep_interior(b: BufView)
    requires
        buf_wf(b),
        buf_sep(b),
        b.cx == 0,
        0 < b.cy,
    ensures
        forall|i: int, j: int|
            0 <= i < buf_delete_before(b).lines.len() && 0 <= j < buf_delete_before(b).lines[i]
                ==> line_char(buf_delete_before(b), i, j) != '\n',
{
    let b2 = buf_delete_before(b);
    let pos = cursor_offset(b);
    let la = b.lines[b.cy - 1];
    let lc = b.lines[b.cy];
    let mid = b.lines.update(b.cy - 1, la + lc);
    lemma_cursor_offset_in_range(b);
    lemma_line_in_content(b, b.cy);
    lemma_line_in_content(b, b.cy - 1);
    lemma_line_start_succ(b.lines, b.cy - 1);
    assert forall|i: int, j: int|
        0 <= i < b2.lines.len() && 0 <= j < b2.lines[i] implies line_char(b2, i, j) != '\n' by {
        lemma_line_start_update(b.lines, b.cy - 1, la + lc, i);
        lemma_line_start_remove(mid, b.cy, i);
        if i < b.cy - 1 {
            lemma_line_in_content(b, i);
            lemma_line_start_succ(b.lines, i);
            lemma_line_start_mono(b.lines, i + 1, b.cy - 1);
            assert(line_char(b, i, j) != '\n');
        } else if i == b.cy - 1 {
            if j < la {
                assert(line_char(b, b.cy - 1, j) != '\n');
            } else {
                assert(line_char(b, b.cy, j - la) != '\n');
            }
        } else {
            lemma_line_start_update(b.lines, b.cy - 1, la + lc, i + 1);
            lemma_line_in_content(b, i + 1);
            lemma_line_start_succ(b.lines, b.cy);
            lemma_line_start_mono(b.lines, b.cy + 1, i + 1);
            assert(line_start(b2.lines, i) == line_start(b.lines, i + 1) - 1);
            assert(line_char(b, i + 1, j) != '\n');
        }
    };
}

/// The in-line case of backspace: one character of the cursor's line goes
/// and every separator stays at its line's end.
#[verifier::rlimit(100)]
#[verifier::spinoff_prover]
proof fn lemma_delete_char_sep(b: BufView)
    requires
        buf_wf(b),
        buf_sep(b),
        0 < b.cx,
    ensures
        buf_sep(buf_delete_before(b)),
{
    let b2 = buf_delete_before(b);
    let pos = cursor_offset(b);
    let l = b.lines[b.cy];
    lemma_cursor_offset_in_range(b);
    lemma_line_in_content(b, b.cy);
    assert forall|i: int| 0 <= i < b2.lines.len() - 1 implies line_char(b2, i, b2.lines[i])
        == '\n' by {
        lemma_line_start_update(b.lines, b.cy, l - 1, i);
        lemma_line_in_content(b, i);
        if i < b.cy {
            lemma_line_start_succ(b.lines, i);
            lemma_line_start_mono(b.lines, i + 1, b.cy);
            assert(line_char(b, i, b.lines[i]) == '\n');
        } else if i == b.cy {
            assert(line_char(b, i, b.lines[i]) == '\n');
        } else {
            lemma_line_start_succ(b.lines, b.cy);
            lemma_line_start_mono(b.lines, b.cy + 1, i);
            assert(line_char(b, i, b.lines[i]) == '\n');
        }
    };
    assert forall|i: int, j: int|
        0 <= i < b2.lines.len() && 0 <= j < b2.lines[i] implies line_char(b2, i, j) != '\n' by {
        lemma_line_start_update(b.lines, b.cy, l - 1, i);
        lemma_line_in_content(b, i);
        if i < b.cy {
            lemma_line_start_succ(b.lines, i);
            lemma_line_start_mono(b.lines, i + 1, b.cy);
            assert(line_char(b, i, j) != '\n');
        } else if i == b.cy {
            if j < b.cx - 1 {
                assert(line_char(b, i, j) != '\n');
            } else {
                assert(line_char(b, i, j + 1) != '\n');
            }
        } else {
            lemma_line_start_succ(b.lines, b.cy);
            lemma_line_start_mono(b.lines, b.cy + 1, i);
            assert(line_char(b, i, j) != '\n');
        }
    };
}

/// Deleting a line whole keeps the separator structure.
pub proof fn lemma_delete_line_sep(b: BufView)
    requires
        buf_wf(b),
        buf_sep(b),
    ensures
        buf_sep(buf_delete_line(b)),
{
    let len = b.lines.len() as int;
    if len == 1 {
    } else if b.cy == len - 1 {
        lemma_delete_last_line_sep(b);
    } else {
        lemma_delete_middle_line_sep(b);
    }
}

/// Deleting the last of several lines keeps the separator structure: the
/// text that remains is an untouched prefix of the old content.
#[verifier::rlimit(100)]
#[verifier::spinoff_prover]
proof fn lemma_delete_last_line_sep(b: BufView)
    requires
        buf_wf(b),
        buf_sep(b),
        b.lines.len() >= 2,
        b.cy == b.lines.len() - 1,
    ensures
        buf_sep(buf_delete_line(b)),
{
    let b2 = buf_delete_line(b);
    let len = b.lines.len() as int;
    lemma_line_in_content(b, b.cy);
    assert forall|i: int| 0 <= i < b2.lines.len() - 1 implies line_char(b2, i, b2.lines[i])
        == '\n' by {
        lemma_line_start_remove(b.lines, b.cy, i);
        lemma_line_in_content(b, i);
        lemma_line_start_succ(b.lines, i);
        lemma_line_start_succ(b.lines, len - 2);
        lemma_line_start_mono(b.lines, i + 1, len - 2);
        assert(line_char(b, i, b.lines[i]) == '\n');
    };
    assert forall|i: int, j: int|
        0 <= i < b2.lines.len() && 0 <= j < b2.lines[i] implies line_char(b2, i, j) != '\n' by {
        lemma_line_start_remove(b.lines, b.cy, i);
        lemma_line_in_content(b, i);
        lemma_line_start_succ(b.lines, i);
        lemma_line_start_mono(b.lines, i + 1, len - 1);
        assert(line_char(b, i, j) != '\n');
    };
}

/// Deleting a middle line keeps the separator structure: the lines after
/// it shift left by the line and its separator.
#[verifier::rlimit(100)]
#[verifier::spinoff_prover]
proof fn lemma_delete_middle_line_sep(b: BufView)
    requires
        buf_wf(b),
        buf_sep(b),
        b.lines.len() >= 2,
        b.cy < b.lines.len() - 1,
    ensures
        buf_sep(buf_delete_line(b)),
{
    let b2 = buf_delete_line(b);
    let len = b.lines.len() as int;
    let w = b.lines[b.cy];
    let s = line_start(b.lines, b.cy);
    lemma_line_in_content(b, b.cy);
    assert forall|i: int| 0 <= i < b2.lines.len() - 1 implies line_char(b2, i, b2.lines[i])
        == '\n' by {
        lemma_line_start_remove(b.lines, b.cy, i);
        if i < b.cy {
            lemma_line_in_content(b, i);
            lemma_line_start_succ(b.lines, i);
            lemma_line_start_mono(b.lines, i + 1, b.cy);
            assert(line_char(b, i, b.lines[i]) == '\n');
        } else {
            lemma_line_in_content(b, i + 1);
            lemma_line_start_succ(b.lines, b.cy);
            lemma_line_start_mono(b.lines, b.cy + 1, i + 1);
            assert(line_start(b2.lines, i) == line_start(b.lines, i + 1) - w - 1);
            assert(line_char(b, i + 1, b.lines[i + 1]) == '\n');
        }
    };
    assert forall|i: int, j: int|
        0 <= i < b2.lines.len() && 0 <= j < b2.lines[i] implies line_char(b2, i, j) != '\n' by {
        lemma_line_start_remove(b.lines, b.cy, i);
        if i < b.cy {
            lemma_line_in_content(b, i);
            lemma_line_start_succ(b.lines, i);
            lemma_line_start_mono(b.lines, i + 1, b.cy);
            assert(line_char(b, i, j) != '\n');
        } else {
            lemma_line_in_content(b, i + 1);
            lemma_line_start_succ(b.lines, b.cy);
            lemma_line_start_mono(b.lines, b.cy + 1, i + 1);
            assert(line_start(b2.lines, i) == line_start(b.lines, i + 1) - w - 1);
            assert(line_char(b, i + 1, j) != '\n');
        }
    };
}

/// One step of text insertion keeps the separator structure.
pub proof fn lemma_insert_step_sep(b: BufView, c: char)
    requires
        buf_wf(b),
        buf_sep(b),
    ensures
        buf_sep(buf_insert_step(b, c)),
{
    if c == '\n' {
        lemma_insert_line_sep(b);
    } else {
        lemma_insert_char_sep(b, c);
    }
}

/// Inserting a whole string keeps the separator structure.
pub proof fn lemma_insert_text_sep(b: BufView, t: Seq<char>)
    requires
        buf_wf(b),
        buf_sep(b),
    ensures
        buf_sep(buf_insert_text(b, t)),
    decreases t.len(),
{
    if t.len() > 0 {
        lemma_insert_step_sep(b, t[0]);
        crate::invariants::lemma_insert_step_wf(b, t[0]);
        lemma_insert_text_sep(buf_insert_step(b, t[0]), t.skip(1));
    }
}

/// What backspace at column zero removes is a separator: under the
/// structural invariant, the character before the cursor's line really is
/// the `'\n'` that joins it to the line above.
pub proof fn lemma_join_removes_separator(b: BufView)
    requires
        buf_wf(b),
        buf_sep(b),
        b.cx == 0,
        0 < b.cy,
    ensures
        b.content[cursor_offset(b) - 1] == '\n',
{
    lemma_line_start_succ(b.lines, b.cy - 1);
    assert(line_char(b, b.cy - 1, b.lines[b.cy - 1]) == '\n');
}

/// What backspace inside a line removes is a plain character, never a
/// separator.
pub proof fn lemma_inline_removes_plain_char(b: BufView)
    requires
        buf_wf(b),
        buf_sep(b),
        0 < b.cx,
    ensures
        b.content[cursor_offset(b) - 1] != '\n',
{
    assert(line_char(b, b.cy, b.cx - 1) != '\n');
}

} // verus!
