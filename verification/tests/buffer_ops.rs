use echo_core::buffer::Buffer;

fn chars(s: &str) -> Vec<char> {
    s.chars().collect()
}

fn index_is_consistent(b: &Buffer) {
    let sum: usize = b.lines.iter().sum();
    assert_eq!(b.content.len(), sum + b.lines.len() - 1);
    assert!(b.lines.len() >= 1);
    assert!(b.cy < b.lines.len());
    assert!(b.cx <= b.lines[b.cy]);
}

#[test]
fn new_buffer_is_one_empty_line() {
    let b = Buffer::new();
    assert_eq!(b.content, chars(""));
    assert_eq!(b.lines, vec![0]);
    assert_eq!((b.cy, b.cx), (0, 0));
    index_is_consistent(&b);
}

#[test]
fn insert_single_char_mid_line() {
    // buffer "ab", cursor (0,1); insert("X") gives "aXb", cursor (0,2),
    // line lengths [3]
    let mut b = Buffer::new();
    b.insert("ab");
    b.left(1);
    assert_eq!((b.cy, b.cx), (0, 1));
    b.insert("X");
    assert_eq!(b.content, chars("aXb"));
    assert_eq!((b.cy, b.cx), (0, 2));
    assert_eq!(b.lines, vec![3]);
    index_is_consistent(&b);
}

#[test]
fn insert_line_splits_at_cursor() {
    // buffer "abcd", cursor (0,2); insert_line gives "ab\ncd",
    // line lengths [2, 2], cursor (1,0)
    let mut b = Buffer::new();
    b.insert("abcd");
    b.left(2);
    assert_eq!((b.cy, b.cx), (0, 2));
    b.insert_line();
    assert_eq!(b.content, chars("ab\ncd"));
    assert_eq!(b.lines, vec![2, 2]);
    assert_eq!((b.cy, b.cx), (1, 0));
    index_is_consistent(&b);
}

#[test]
fn insert_line_at_end_adds_empty_line() {
    let mut b = Buffer::new();
    b.insert("ab");
    b.insert_line();
    assert_eq!(b.content, chars("ab\n"));
    assert_eq!(b.lines, vec![2, 0]);
    assert_eq!((b.cy, b.cx), (1, 0));
    index_is_consistent(&b);
}

#[test]
fn insert_decomposes_embedded_separators() {
    let mut b = Buffer::new();
    b.insert("x\ny");
    assert_eq!(b.content, chars("x\ny"));
    assert_eq!(b.lines, vec![1, 1]);
    assert_eq!((b.cy, b.cx), (1, 1));
    index_is_consistent(&b);
}

#[test]
fn delete_removes_char_before_cursor() {
    let mut b = Buffer::new();
    b.insert("abc");
    b.delete();
    assert_eq!(b.content, chars("ab"));
    assert_eq!(b.lines, vec![2]);
    assert_eq!((b.cy, b.cx), (0, 2));
    index_is_consistent(&b);
}

#[test]
fn delete_at_origin_is_a_no_op() {
    let mut b = Buffer::new();
    b.insert("abc");
    b.left(0);
    b.delete();
    assert_eq!(b.content, chars("abc"));
    assert_eq!(b.lines, vec![3]);
    assert_eq!((b.cy, b.cx), (0, 0));
}

#[test]
fn delete_at_line_start_joins_lines() {
    let mut b = Buffer::new();
    b.insert("ab\ncd");
    b.left(2);
    assert_eq!((b.cy, b.cx), (1, 0));
    b.delete();
    assert_eq!(b.content, chars("abcd"));
    assert_eq!(b.lines, vec![4]);
    assert_eq!((b.cy, b.cx), (0, 2));
    index_is_consistent(&b);
}

#[test]
fn insert_then_delete_round_trips() {
    // inserting one character and backspacing restores content and cursor
    let mut b = Buffer::new();
    b.insert("hello\nworld");
    b.up(1);
    b.left(2);
    let content0 = b.content.clone();
    let lines0 = b.lines.clone();
    let pos0 = (b.cy, b.cx);
    b.insert_char('Z');
    b.delete();
    assert_eq!(b.content, content0);
    assert_eq!(b.lines, lines0);
    assert_eq!((b.cy, b.cx), pos0);
}

#[test]
fn split_then_join_round_trips() {
    // insert_line then backspace at the new line's start restores the
    // original line and cursor
    let mut b = Buffer::new();
    b.insert("abcdef");
    b.left(2);
    let content0 = b.content.clone();
    let lines0 = b.lines.clone();
    let pos0 = (b.cy, b.cx);
    b.insert_line();
    assert_eq!((b.cy, b.cx), (1, 0));
    b.delete();
    assert_eq!(b.content, content0);
    assert_eq!(b.lines, lines0);
    assert_eq!((b.cy, b.cx), pos0);
}

#[test]
fn delete_line_middle_takes_trailing_separator() {
    let mut b = Buffer::new();
    b.insert("a\nb\nc");
    b.up(1);
    b.left(1);
    assert_eq!((b.cy, b.cx), (1, 0));
    b.delete_line();
    assert_eq!(b.content, chars("a\nc"));
    assert_eq!(b.lines, vec![1, 1]);
    assert_eq!((b.cy, b.cx), (1, 0));
    index_is_consistent(&b);
}

#[test]
fn delete_line_last_takes_leading_separator() {
    let mut b = Buffer::new();
    b.insert("a\nbc");
    assert_eq!((b.cy, b.cx), (1, 2));
    b.delete_line();
    assert_eq!(b.content, chars("a"));
    assert_eq!(b.lines, vec![1]);
    assert_eq!((b.cy, b.cx), (0, 1));
    index_is_consistent(&b);
}

#[test]
fn delete_line_only_line_empties_document() {
    let mut b = Buffer::new();
    b.insert("abc");
    b.delete_line();
    assert_eq!(b.content, chars(""));
    assert_eq!(b.lines, vec![0]);
    assert_eq!((b.cy, b.cx), (0, 0));
    index_is_consistent(&b);
}

#[test]
fn delete_line_clamps_column_of_shorter_survivor() {
    let mut b = Buffer::new();
    b.insert("abcde\nxy\nz");
    b.up(2);
    b.right(0);
    assert_eq!((b.cy, b.cx), (0, 5));
    b.delete_line();
    assert_eq!(b.content, chars("xy\nz"));
    assert_eq!(b.lines, vec![2, 1]);
    assert_eq!((b.cy, b.cx), (0, 2));
    index_is_consistent(&b);
}

#[test]
fn cursor_pos_counts_separators() {
    let mut b = Buffer::new();
    b.insert("ab\ncde\nf");
    // cursor is at the very end: offset 3 + 4 + 1
    assert_eq!(b.cursor_pos(), 8);
    b.up(1);
    // row 1 starts at offset 3; the column stays 1
    assert_eq!(b.cursor_pos(), 4);
    b.left(0);
    assert_eq!(b.cursor_pos(), 3);
}

#[test]
fn invariants_hold_after_a_mixed_history() {
    let mut b = Buffer::new();
    b.insert("fn main() {\n    body\n}");
    index_is_consistent(&b);
    b.up(1);
    index_is_consistent(&b);
    b.insert_line();
    index_is_consistent(&b);
    b.delete();
    index_is_consistent(&b);
    b.down(0);
    index_is_consistent(&b);
    b.delete_line();
    index_is_consistent(&b);
    b.insert("tail");
    index_is_consistent(&b);
    b.left(7);
    index_is_consistent(&b);
    b.delete();
    index_is_consistent(&b);
}
