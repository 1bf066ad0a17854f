//! Lemmas about [`seq_sum`] and [`line_start`]: how the sum of the line
//! index behaves under update, insert and remove, and how far into the
//! content a line can start.

use vstd::prelude::*;

use crate::model::{buf_wf, line_start, lines_nonneg, seq_sum, BufView};

verus! {

/// The sum of a concatenation is the sum of the parts.
pub proof fn lemma_sum_concat(a: Seq<int>, b: Seq<int>)
    ensures
        seq_sum(a + b) == seq_sum(a) + seq_sum(b),
    decreases b.len(),
{
    if b.len() == 0 {
        assert(a + b =~= a);
    } else {
        assert((a + b).drop_last() =~= a + b.drop_last());
        lemma_sum_concat(a, b.drop_last());
        assert((a + b).last() == b.last());
    }
}

/// The sum of a single element.
pub proof fn lemma_sum_singleton(v: int)
    ensures
        seq_sum(seq![v]) == v,
{
    assert(seq![v].drop_last() =~= Seq::<int>::empty());
    assert(seq_sum(Seq::<int>::empty()) == 0);
    assert(seq![v].last() == v);
}

/// A sequence of non-negative elements has a non-negative sum.
pub proof fn lemma_sum_nonneg(s: Seq<int>)
    requires
        lines_nonneg(s),
    ensures
        seq_sum(s) >= 0,
    decreases s.len(),
{
    if s.len() > 0 {
        assert(lines_nonneg(s.drop_last()));
        lemma_sum_nonneg(s.drop_last());
    }
}

/// Extending a prefix by one element adds that element to its sum.
pub proof fn lemma_sum_take_succ(s: Seq<int>, i: int)
    requires
        0 <= i < s.len(),
    ensures
        seq_sum(s.take(i + 1)) == seq_sum(s.take(i)) + s[i],
{
    assert(s.take(i + 1).drop_last() =~= s.take(i));
    assert(s.take(i + 1).last() == s[i]);
}

/// A prefix of a non-negative sequence sums to at most the whole.
pub proof fn lemma_sum_take_le(s: Seq<int>, i: int)
    requires
        lines_nonneg(s),
        0 <= i <= s.len(),
    ensures
        seq_sum(s.take(i)) <= seq_sum(s),
{
    assert(s =~= s.take(i) + s.skip(i));
    lemma_sum_concat(s.take(i), s.skip(i));
    assert(lines_nonneg(s.skip(i)));
    lemma_sum_nonneg(s.skip(i));
}

/// Updating one element changes the sum by the difference.
pub proof fn lemma_sum_update(s: Seq<int>, i: int, v: int)
    requires
        0 <= i < s.len(),
    ensures
        seq_sum(s.update(i, v)) == seq_sum(s) - s[i] + v,
{
    assert(s.update(i, v) =~= s.take(i) + seq![v] + s.skip(i + 1));
    assert(s =~= s.take(i) + seq![s[i]] + s.skip(i + 1));
    lemma_sum_concat(s.take(i) + seq![v], s.skip(i + 1));
    lemma_sum_concat(s.take(i), seq![v]);
    lemma_sum_concat(s.take(i) + seq![s[i]], s.skip(i + 1));
    lemma_sum_concat(s.take(i), seq![s[i]]);
    lemma_sum_singleton(v);
    lemma_sum_singleton(s[i]);
}

/// Inserting an element adds it to the sum.
pub proof fn lemma_sum_insert(s: Seq<int>, i: int, v: int)
    requires
        0 <= i <= s.len(),
    ensures
        seq_sum(s.insert(i, v)) == seq_sum(s) + v,
{
    assert(s.insert(i, v) =~= s.take(i) + seq![v] + s.skip(i));
    assert(s =~= s.take(i) + s.skip(i));
    lemma_sum_concat(s.take(i) + seq![v], s.skip(i));
    lemma_sum_concat(s.take(i), seq![v]);
    lemma_sum_concat(s.take(i), s.skip(i));
    lemma_sum_singleton(v);
}

/// Removing an element subtracts it from the sum.
pub proof fn lemma_sum_remove(s: Seq<int>, i: int)
    requires
        0 <= i < s.len(),
    ensures
        seq_sum(s.remove(i)) == seq_sum(s) - s[i],
{
    assert(s.remove(i) =~= s.take(i) + s.skip(i + 1));
    assert(s =~= s.take(i) + seq![s[i]] + s.skip(i + 1));
    lemma_sum_concat(s.take(i), s.skip(i + 1));
    lemma_sum_concat(s.take(i) + seq![s[i]], s.skip(i + 1));
    lemma_sum_concat(s.take(i), seq![s[i]]);
    lemma_sum_singleton(s[i]);
}

/// The start of the next line lies one separator past the end of this one.
pub proof fn lemma_line_start_succ(lines: Seq<int>, i: int)
    requires
        0 <= i < lines.len(),
    ensures
        line_start(lines, i + 1) == line_start(lines, i) + lines[i] + 1,
{
    lemma_sum_take_succ(lines, i);
}

/// A longer prefix of a non-negative sequence sums to at least as much.
pub proof fn lemma_sum_take_mono(s: Seq<int>, i: int, j: int)
    requires
        lines_nonneg(s),
        0 <= i <= j <= s.len(),
    ensures
        seq_sum(s.take(i)) <= seq_sum(s.take(j)),
{
    assert(s.take(j).take(i) =~= s.take(i));
    assert(lines_nonneg(s.take(j)));
    lemma_sum_take_le(s.take(j), i);
}

/// Line starts are ordered: an earlier line starts no later.
pub proof fn lemma_line_start_mono(s: Seq<int>, i: int, j: int)
    requires
        lines_nonneg(s),
        0 <= i <= j <= s.len(),
    ensures
        line_start(s, i) <= line_start(s, j),
{
    lemma_sum_take_mono(s, i, j);
}

/// How line starts shift when one line length changes: starts before and at
/// the changed line stay, later starts move by the difference.
pub proof fn lemma_line_start_update(s: Seq<int>, k: int, v: int, i: int)
    requires
        0 <= k < s.len(),
        0 <= i <= s.len(),
    ensures
        i <= k ==> line_start(s.update(k, v), i) == line_start(s, i),
        i > k ==> line_start(s.update(k, v), i) == line_start(s, i) + v - s[k],
{
    if i <= k {
        assert(s.update(k, v).take(i) =~= s.take(i));
    } else {
        assert(s.update(k, v).take(i) =~= s.take(i).update(k, v));
        lemma_sum_update(s.take(i), k, v);
    }
}

/// How line starts shift when a line is inserted: starts before and at the
/// insertion point stay, later starts gain the new line and its separator.
pub proof fn lemma_line_start_insert(s: Seq<int>, k: int, v: int, i: int)
    requires
        0 <= k <= s.len(),
        0 <= i <= s.len() + 1,
    ensures
        i <= k ==> line_start(s.insert(k, v), i) == line_start(s, i),
        i > k ==> line_start(s.insert(k, v), i) == line_start(s, i - 1) + v + 1,
{
    if i <= k {
        assert(s.insert(k, v).take(i) =~= s.take(i));
    } else {
        assert(s.insert(k, v).take(i) =~= s.take(i - 1).insert(k, v));
        lemma_sum_insert(s.take(i - 1), k, v);
    }
}

/// How line starts shift when a line is removed: starts before and at the
/// removed line stay, later starts lose that line and its separator.
pub proof fn lemma_line_start_remove(s: Seq<int>, k: int, i: int)
    requires
        0 <= k < s.len(),
        0 <= i <= s.len() - 1,
    ensures
        i <= k ==> line_start(s.remove(k), i) == line_start(s, i),
        i > k ==> line_start(s.remove(k), i) == line_start(s, i + 1) - s[k] - 1,
{
    if i <= k {
        assert(s.remove(k).take(i) =~= s.take(i));
    } else {
        assert(s.remove(k).take(i) =~= s.take(i + 1).remove(k));
        lemma_sum_remove(s.take(i + 1), k);
    }
}

/// Where line `i` sits inside a well-formed buffer: its start is at least
/// `i`, and its end leaves room for the separators of all later lines.
pub proof fn lemma_line_in_content(b: BufView, i: int)
    requires
        buf_wf(b),
        0 <= i < b.lines.len(),
    ensures
        i <= line_start(b.lines, i),
        line_start(b.lines, i) + b.lines[i] + (b.lines.len() - 1 - i) <= b.content.len(),
{
    assert(lines_nonneg(b.lines.take(i)));
    lemma_sum_nonneg(b.lines.take(i));
    lemma_sum_take_succ(b.lines, i);
    lemma_sum_take_le(b.lines, i + 1);
}

/// The cursor's absolute offset lies within the content, and strictly so
/// whenever any line follows the cursor's line.
pub proof fn lemma_cursor_offset_in_range(b: BufView)
    requires
        buf_wf(b),
    ensures
        b.cy <= line_start(b.lines, b.cy),
        line_start(b.lines, b.cy) + b.cx <= b.content.len() - (b.lines.len() - 1 - b.cy),
{
    lemma_line_in_content(b, b.cy);
}

/// Two adjacent line lengths together stay within the total sum.
pub proof fn lemma_adjacent_lines_le_sum(s: Seq<int>, i: int)
    requires
        lines_nonneg(s),
        0 <= i,
        i + 1 < s.len(),
    ensures
        s[i] + s[i + 1] <= seq_sum(s),
{
    lemma_sum_take_succ(s, i);
    lemma_sum_take_succ(s, i + 1);
    lemma_sum_take_le(s, i + 2);
    assert(lines_nonneg(s.take(i)));
    lemma_sum_nonneg(s.take(i));
}

} // verus!
