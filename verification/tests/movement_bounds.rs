use echo_core::buffer::Buffer;

fn two_lines() -> Buffer {
    // "abc" over "defgh", cursor left at the end: (1,5)
    let mut b = Buffer::new();
    b.insert("abc\ndefgh");
    b
}

#[test]
fn right_zero_jumps_to_end_of_line() {
    let mut b = two_lines();
    b.up(1);
    b.left(2);
    assert_eq!((b.cy, b.cx), (0, 1));
    b.right(0);
    assert_eq!((b.cy, b.cx), (0, 3));
}

#[test]
fn left_zero_jumps_to_start_of_line() {
    let mut b = two_lines();
    b.left(0);
    assert_eq!((b.cy, b.cx), (1, 0));
}

#[test]
fn right_single_step_wraps_to_next_line() {
    let mut b = two_lines();
    b.up(1);
    b.right(0);
    assert_eq!((b.cy, b.cx), (0, 3));
    b.right(1);
    assert_eq!((b.cy, b.cx), (1, 0));
}

#[test]
fn right_larger_count_clamps_at_line_end() {
    let mut b = two_lines();
    b.up(1);
    b.left(0);
    b.right(2);
    assert_eq!((b.cy, b.cx), (0, 2));
    b.right(5);
    assert_eq!((b.cy, b.cx), (0, 3));
}

#[test]
fn right_on_last_line_never_wraps() {
    let mut b = two_lines();
    b.right(1);
    assert_eq!((b.cy, b.cx), (1, 5));
}

#[test]
fn left_single_step_wraps_to_previous_line_end() {
    let mut b = two_lines();
    b.left(0);
    b.left(1);
    assert_eq!((b.cy, b.cx), (0, 3));
}

#[test]
fn left_larger_count_clamps_at_line_start() {
    let mut b = two_lines();
    b.left(4);
    assert_eq!((b.cy, b.cx), (1, 1));
    b.left(4);
    assert_eq!((b.cy, b.cx), (1, 0));
}

#[test]
fn up_saturates_at_first_row_and_clamps_column() {
    let mut b = two_lines();
    b.up(7);
    assert_eq!((b.cy, b.cx), (0, 3));
}

#[test]
fn up_zero_jumps_to_first_row() {
    let mut b = Buffer::new();
    b.insert("ab\ncdef\nghij");
    assert_eq!((b.cy, b.cx), (2, 4));
    b.up(0);
    assert_eq!((b.cy, b.cx), (0, 2));
}

#[test]
fn down_zero_jumps_to_last_row() {
    let mut b = Buffer::new();
    b.insert("abcd\nef");
    b.up(1);
    b.right(0);
    assert_eq!((b.cy, b.cx), (0, 4));
    b.down(0);
    assert_eq!((b.cy, b.cx), (1, 2));
}

#[test]
fn down_stops_at_last_row_and_clamps_column() {
    let mut b = Buffer::new();
    b.insert("abcde\nfg");
    b.up(1);
    b.right(0);
    b.down(9);
    assert_eq!((b.cy, b.cx), (1, 2));
}

#[test]
fn movement_never_leaves_the_document() {
    let mut b = Buffer::new();
    b.insert("one\ntwo three\n\nfour");
    let moves: [(u8, usize); 12] = [
        (0, 0),
        (1, 3),
        (2, 100),
        (3, 1),
        (0, 2),
        (3, 0),
        (2, 1),
        (1, 0),
        (0, 1),
        (2, 2),
        (3, 7),
        (1, 1),
    ];
    for (dir, n) in moves {
        match dir {
            0 => b.up(n),
            1 => b.down(n),
            2 => b.left(n),
            _ => b.right(n),
        }
        assert!(b.cy < b.lines.len());
        assert!(b.cx <= b.lines[b.cy]);
    }
}
