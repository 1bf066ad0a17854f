use echo_core::theme::{Color, Theme};

#[test]
fn default_theme_is_black_on_white_cursor() {
    let t = Theme::default();
    assert_eq!(t.bg.get(), [0, 0, 0, 255]);
    assert_eq!(t.fg.get(), [255, 255, 255, 255]);
    assert_eq!(t.cs.get(), [255, 255, 255, 255]);
}

#[test]
fn color_new_set_get_round_trip() {
    let mut c = Color::new(1, 2, 3, 4);
    assert_eq!(c.get(), [1, 2, 3, 4]);
    c.set(9, 8, 7, 6);
    assert_eq!(c.get(), [9, 8, 7, 6]);
}

#[test]
fn six_digit_code_sets_background() {
    let mut t = Theme::default();
    assert!(t.set_hex_bg("#030e8c").is_ok());
    assert_eq!(t.bg.get(), [3, 14, 140, 255]);
    // the other colors stay put
    assert_eq!(t.fg.get(), [255, 255, 255, 255]);
    assert_eq!(t.cs.get(), [255, 255, 255, 255]);
}

#[test]
fn leading_hash_is_optional() {
    let mut t = Theme::default();
    assert!(t.set_hex_fg("fa0a1e").is_ok());
    assert_eq!(t.fg.get(), [250, 10, 30, 255]);
}

#[test]
fn three_digit_code_doubles_each_digit() {
    let mut t = Theme::default();
    assert!(t.set_hex_bg("#abc").is_ok());
    assert_eq!(t.bg.get(), [170, 187, 204, 255]);
}

#[test]
fn upper_case_digits_are_accepted() {
    let mut t = Theme::default();
    assert!(t.set_hex_fg("#FF00AA").is_ok());
    assert_eq!(t.fg.get(), [255, 0, 170, 255]);
}

#[test]
fn cursor_color_takes_its_own_alpha() {
    let mut t = Theme::default();
    assert!(t.set_hex_cs("#ffffff", 123).is_ok());
    assert_eq!(t.cs.get(), [255, 255, 255, 123]);
}

#[test]
fn wrong_length_is_rejected_and_changes_nothing() {
    let mut t = Theme::default();
    assert!(t.set_hex_bg("#ab").is_err());
    assert!(t.set_hex_bg("abcd").is_err());
    assert!(t.set_hex_bg("").is_err());
    assert_eq!(t.bg.get(), [0, 0, 0, 255]);
}

#[test]
fn non_hex_digits_are_rejected() {
    let mut t = Theme::default();
    assert!(t.set_hex_bg("#gggggg").is_err());
    assert!(t.set_hex_bg("xyz").is_err());
    assert_eq!(t.bg.get(), [0, 0, 0, 255]);
}

#[test]
fn non_ascii_codes_are_rejected() {
    let mut t = Theme::default();
    assert!(t.set_hex_bg("ööö").is_err());
    assert_eq!(t.bg.get(), [0, 0, 0, 255]);
}

#[test]
fn signed_pairs_parse_as_their_radix_value() {
    // u8::from_str_radix tolerates a sign inside a two-digit group
    let mut t = Theme::default();
    assert!(t.set_hex_bg("+a0b1c").is_ok());
    assert_eq!(t.bg.get(), [10, 11, 28, 255]);
    // a minus sign is not accepted for an unsigned component
    assert!(t.set_hex_fg("ff-0aa").is_err());
    assert_eq!(t.fg.get(), [255, 255, 255, 255]);
}
