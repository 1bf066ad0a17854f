use echo_core::util::{parse_count, usize_sub};

#[test]
fn usize_sub_subtracts_when_it_can() {
    assert_eq!(usize_sub(7, 3), 4);
    assert_eq!(usize_sub(3, 3), 0);
}

#[test]
fn usize_sub_saturates_at_zero() {
    assert_eq!(usize_sub(3, 7), 0);
    assert_eq!(usize_sub(0, 1), 0);
}

#[test]
fn parse_count_reads_decimal_digits() {
    assert_eq!(parse_count(&vec!['4', '2']), 42);
    assert_eq!(parse_count(&vec!['7']), 7);
    assert_eq!(parse_count(&vec!['0']), 0);
    assert_eq!(parse_count(&vec!['0', '0', '7']), 7);
}

#[test]
fn parse_count_accepts_a_leading_plus() {
    assert_eq!(parse_count(&vec!['+', '5']), 5);
}

#[test]
fn parse_count_defaults_to_one_on_nonsense() {
    assert_eq!(parse_count(&vec![]), 1);
    assert_eq!(parse_count(&vec!['+']), 1);
    assert_eq!(parse_count(&vec!['a']), 1);
    assert_eq!(parse_count(&vec!['4', 'x']), 1);
    assert_eq!(parse_count(&vec!['-', '4']), 1);
    assert_eq!(parse_count(&vec![' ', '4']), 1);
}

#[test]
fn parse_count_defaults_to_one_on_overflow() {
    let huge: Vec<char> = "99999999999999999999999999".chars().collect();
    assert_eq!(parse_count(&huge), 1);
}

#[test]
fn parse_count_takes_the_largest_machine_number() {
    let max_str = usize::MAX.to_string();
    let digits: Vec<char> = max_str.chars().collect();
    assert_eq!(parse_count(&digits), usize::MAX);
}
