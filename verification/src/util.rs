//! Small helpers shared by the cursor movement and command code: saturating
//! subtraction and the parsing of a numeric repeat count.

use vstd::prelude::*;

verus! {

/// Subtracts `b` from `a`, saturating at `0` instead of underflowing.
pub fn usize_sub(a: usize, b: usize) -> (r: usize)
    ensures
        r == if a >= b { a - b } else { 0 },
{
    if a >= b {
        a - b
    } else {
        0
    }
}

/// Whether `c` is a decimal digit.
pub open spec fn is_digit(c: char) -> bool {
    48 <= c as u32 <= 57
}

/// The numeric value of a decimal digit.
pub open spec fn digit_val(c: char) -> int {
    c as u32 - 48
}

/// The number denoted by a sequence of decimal digits, most significant
/// first.
pub open spec fn dec_val(s: Seq<char>) -> int
    decreases s.len(),
{
    if s.len() == 0 {
        0
    } else {
        10 * dec_val(s.drop_last()) + digit_val(s.last())
    }
}

/// The digit part of a repeat count: everything after an optional leading
/// `'+'` sign.
pub open spec fn count_digits(s: Seq<char>) -> Seq<char> {
    if s.len() > 0 && s[0] == '+' {
        s.skip(1)
    } else {
        s
    }
}

/// Whether `s` spells a number: an optional `'+'` sign followed by at least
/// one decimal digit.
pub open spec fn is_count(s: Seq<char>) -> bool {
    let d = count_digits(s);
    d.len() > 0 && (forall|i: int| 0 <= i < d.len() ==> is_digit(d[i]))
}

/// The repeat count spelled by `s`: its numeric value where `s` is a number
/// that fits the machine, and the default `1` everywhere else.
pub open spec fn spec_parse_count(s: Seq<char>) -> int {
    if is_count(s) && dec_val(count_digits(s)) <= usize::MAX {
        dec_val(count_digits(s))
    } else {
        1
    }
}

/// A repeat count is never negative: a spelled number is made of digits,
/// and the fallback is `1`.
pub proof fn lemma_parse_count_nonneg(s: Seq<char>)
    ensures
        spec_parse_count(s) >= 0,
{
    if is_count(s) && dec_val(count_digits(s)) <= usize::MAX {
        lemma_dec_val_nonneg(count_digits(s));
    }
}

/// A sequence of digits denotes a non-negative number.
proof fn lemma_dec_val_nonneg(s: Seq<char>)
    requires
        forall|i: int| 0 <= i < s.len() ==> is_digit(s[i]),
    ensures
        dec_val(s) >= 0,
    decreases s.len(),
{
    if s.len() > 0 {
        lemma_dec_val_nonneg(s.drop_last());
    }
}

/// Reading one more digit multiplies the value by ten and adds the digit.
proof fn lemma_dec_val_step(s: Seq<char>, from: int, i: int)
    requires
        0 <= from <= i < s.len(),
    ensures
        dec_val(s.subrange(from, i + 1)) == 10 * dec_val(s.subrange(from, i)) + digit_val(s[i]),
{
    assert(s.subrange(from, i + 1).drop_last() =~= s.subrange(from, i));
    assert(s.subrange(from, i + 1).last() == s[i]);
}

/// A prefix of a digit sequence denotes at most the whole.
proof fn lemma_dec_val_prefix_le(s: Seq<char>, i: int)
    requires
        0 <= i <= s.len(),
        forall|k: int| 0 <= k < s.len() ==> is_digit(s[k]),
    ensures
        dec_val(s.take(i)) <= dec_val(s),
    decreases s.len() - i,
{
    if i == s.len() {
        assert(s.take(i) =~= s);
    } else {
        assert(forall|k: int| 0 <= k < s.drop_last().len() ==> is_digit(s.drop_last()[k]));
        lemma_dec_val_nonneg(s.drop_last());
        assert(s.take(i) =~= s.drop_last().take(i));
        lemma_dec_val_prefix_le(s.drop_last(), i);
        assert(10 * dec_val(s.drop_last()) >= dec_val(s.drop_last()));
    }
}

/// Parses a repeat count as the command interpreter needs it: the number
/// spelled by `s` (optional `'+'` sign, then decimal digits), or `1` where
/// `s` spells no number or one too large for the machine.
pub fn parse_count(s: &Vec<char>) -> (n: usize)
    ensures
        n == spec_parse_count(s@),
{
    let len = s.len();
    let mut start: usize = 0;
    if len > 0 && s[0] == '+' {
        start = 1;
    }
    if start == len {
        return 1;
    }
    let ghost d = count_digits(s@);
    proof {
        assert(d =~= s@.subrange(start as int, len as int));
    }
    let mut acc: usize = 0;
    let mut i: usize = start;
    while i < len
        invariant
            len == s@.len(),
            start <= i <= len,
            start < len,
            start == 0 || start == 1,
            start == 1 ==> len > 0 && s@[0] == '+',
            start == 0 ==> !(s@.len() > 0 && s@[0] == '+'),
            d == count_digits(s@),
            d == s@.subrange(start as int, len as int),
            forall|k: int| start <= k < i ==> is_digit(s@[k]),
            acc == dec_val(s@.subrange(start as int, i as int)),
        decreases len - i,
    {
        let c = s[i];
        let cv = c as u32;
        if cv < 48 || cv > 57 {
            proof {
                assert(!is_digit(d[i - start]));
            }
            return 1;
        }
        let dg = (cv - 48) as usize;
        proof {
            lemma_dec_val_step(s@, start as int, i as int);
        }
        if acc > (usize::MAX - dg) / 10 {
            proof {
                assert(10 * acc + dg > usize::MAX) by (nonlinear_arith)
                    requires
                        acc > (usize::MAX - dg) / 10,
                        dg <= 9,
                ;
                let p = s@.subrange(start as int, i + 1);
                assert(dec_val(p) > usize::MAX);
                if is_count(s@) {
                    assert(p =~= d.take(i + 1 - start));
                    lemma_dec_val_prefix_le(d, i + 1 - start);
                }
            }
            return 1;
        }
        proof {
            assert(acc * 10 + dg <= usize::MAX) by (nonlinear_arith)
                requires
                    acc <= (usize::MAX - dg) / 10,
                    dg <= 9,
            ;
        }
        acc = acc * 10 + dg;
        i = i + 1;
    }
    proof {
        assert(s@.subrange(start as int, len as int) =~= d);
        assert(is_count(s@));
    }
    acc
}

} // verus!
