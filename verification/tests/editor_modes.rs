use echo_core::editor::{Editor, Input, Key, Mode, WindowEvent};

fn chars(s: &str) -> Vec<char> {
    s.chars().collect()
}

fn text(s: &str) -> Input {
    Input::Text(s.to_string())
}

fn editor_with(content: &str) -> Editor {
    let mut ed = Editor::new();
    ed.buffer.insert(content);
    ed
}

#[test]
fn new_editor_starts_in_normal_mode() {
    let ed = Editor::new();
    assert_eq!(ed.mode, Mode::Normal);
    assert!(ed.cmd_stack.is_empty());
    assert_eq!(ed.buffer.content, chars(""));
    assert_eq!(ed.buffer.lines, vec![0]);
}

#[test]
fn i_enters_insert_mode_one_step_left() {
    let mut ed = editor_with("abc");
    ed.event(text("i"));
    assert_eq!(ed.mode, Mode::Insert);
    assert_eq!((ed.buffer.cy, ed.buffer.cx), (0, 2));
}

#[test]
fn capital_i_enters_insert_mode_at_line_start() {
    let mut ed = editor_with("abc");
    ed.event(text("I"));
    assert_eq!(ed.mode, Mode::Insert);
    assert_eq!((ed.buffer.cy, ed.buffer.cx), (0, 0));
}

#[test]
fn a_enters_insert_mode_in_place() {
    let mut ed = editor_with("abc");
    ed.buffer.left(1);
    ed.event(text("a"));
    assert_eq!(ed.mode, Mode::Insert);
    assert_eq!((ed.buffer.cy, ed.buffer.cx), (0, 2));
}

#[test]
fn capital_a_enters_insert_mode_at_line_end() {
    let mut ed = editor_with("abc");
    ed.buffer.left(0);
    ed.event(text("A"));
    assert_eq!(ed.mode, Mode::Insert);
    assert_eq!((ed.buffer.cy, ed.buffer.cx), (0, 3));
}

#[test]
fn o_opens_a_line_below() {
    let mut ed = editor_with("ab");
    ed.buffer.left(1);
    ed.event(text("o"));
    assert_eq!(ed.mode, Mode::Insert);
    assert_eq!(ed.buffer.content, chars("ab\n"));
    assert_eq!(ed.buffer.lines, vec![2, 0]);
    assert_eq!((ed.buffer.cy, ed.buffer.cx), (1, 0));
}

#[test]
fn capital_o_opens_a_line_above() {
    let mut ed = editor_with("ab");
    ed.event(text("O"));
    assert_eq!(ed.mode, Mode::Insert);
    assert_eq!(ed.buffer.content, chars("\nab"));
    assert_eq!(ed.buffer.lines, vec![0, 2]);
    assert_eq!((ed.buffer.cy, ed.buffer.cx), (0, 0));
}

#[test]
fn v_enters_visual_mode_and_escape_leaves_it() {
    let mut ed = editor_with("ab");
    ed.event(text("v"));
    assert_eq!(ed.mode, Mode::Visual);
    // visual mode is inert apart from Escape
    ed.event(text("x"));
    assert_eq!(ed.mode, Mode::Visual);
    assert_eq!(ed.buffer.content, chars("ab"));
    ed.event(Input::Key(Key::Escape));
    assert_eq!(ed.mode, Mode::Normal);
}

#[test]
fn escape_leaves_insert_mode() {
    let mut ed = editor_with("ab");
    ed.event(text("a"));
    assert_eq!(ed.mode, Mode::Insert);
    ed.event(Input::Key(Key::Escape));
    assert_eq!(ed.mode, Mode::Normal);
}

#[test]
fn insert_mode_text_enters_the_buffer() {
    let mut ed = Editor::new();
    ed.event(text("a"));
    ed.event(text("hi"));
    ed.event(Input::Key(Key::Return));
    ed.event(text("yo"));
    assert_eq!(ed.buffer.content, chars("hi\nyo"));
    assert_eq!(ed.buffer.lines, vec![2, 2]);
    assert_eq!((ed.buffer.cy, ed.buffer.cx), (1, 2));
}

#[test]
fn insert_mode_tab_inserts_two_spaces() {
    let mut ed = Editor::new();
    ed.event(text("a"));
    ed.event(Input::Key(Key::Tab));
    assert_eq!(ed.buffer.content, chars("  "));
    assert_eq!(ed.buffer.lines, vec![2]);
}

#[test]
fn insert_mode_backspace_deletes() {
    let mut ed = editor_with("abc");
    ed.event(text("a"));
    ed.event(Input::Key(Key::Backspace));
    assert_eq!(ed.buffer.content, chars("ab"));
}

#[test]
fn insert_mode_arrows_move_by_one() {
    let mut ed = editor_with("abc\ndef");
    ed.event(text("a"));
    ed.event(Input::Key(Key::Up));
    assert_eq!((ed.buffer.cy, ed.buffer.cx), (0, 3));
    ed.event(Input::Key(Key::Left));
    assert_eq!((ed.buffer.cy, ed.buffer.cx), (0, 2));
    ed.event(Input::Key(Key::Down));
    assert_eq!((ed.buffer.cy, ed.buffer.cx), (1, 2));
    ed.event(Input::Key(Key::Right));
    assert_eq!((ed.buffer.cy, ed.buffer.cx), (1, 3));
}

#[test]
fn normal_mode_hjkl_move_the_cursor() {
    let mut ed = editor_with("abc\ndef");
    ed.event(text("k"));
    assert_eq!((ed.buffer.cy, ed.buffer.cx), (0, 3));
    ed.event(text("h"));
    assert_eq!((ed.buffer.cy, ed.buffer.cx), (0, 2));
    ed.event(text("j"));
    assert_eq!((ed.buffer.cy, ed.buffer.cx), (1, 2));
    ed.event(text("l"));
    assert_eq!((ed.buffer.cy, ed.buffer.cx), (1, 3));
}

#[test]
fn digits_prefix_a_repeat_count() {
    let mut ed = editor_with("abcdefgh");
    ed.buffer.left(0);
    ed.event(text("3"));
    assert_eq!(ed.cmd_stack, vec!['3']);
    ed.event(text("l"));
    assert_eq!((ed.buffer.cy, ed.buffer.cx), (0, 3));
    assert!(ed.cmd_stack.is_empty());
}

#[test]
fn zero_count_moves_to_the_extremum() {
    let mut ed = editor_with("abcdefgh");
    ed.buffer.left(0);
    ed.event(text("0"));
    ed.event(text("l"));
    assert_eq!((ed.buffer.cy, ed.buffer.cx), (0, 8));
}

#[test]
fn unparseable_count_defaults_to_one() {
    let mut ed = editor_with("abcdefgh");
    ed.buffer.left(0);
    ed.event(text("x"));
    ed.event(text("9"));
    ed.event(text("l"));
    assert_eq!((ed.buffer.cy, ed.buffer.cx), (0, 1));
}

#[test]
fn oversized_count_defaults_to_one() {
    let mut ed = editor_with("abcdefgh");
    ed.buffer.left(0);
    for _ in 0..30 {
        ed.event(text("9"));
    }
    ed.event(text("l"));
    assert_eq!((ed.buffer.cy, ed.buffer.cx), (0, 1));
}

#[test]
fn dd_deletes_the_current_line() {
    // buffer "a\nb\nc", cursor (1,0); d d leaves "a\nc" with the cursor on
    // row 1
    let mut ed = editor_with("a\nb\nc");
    ed.buffer.up(1);
    ed.buffer.left(0);
    assert_eq!((ed.buffer.cy, ed.buffer.cx), (1, 0));
    ed.event(text("d"));
    assert_eq!(ed.cmd_stack, vec!['d']);
    assert_eq!(ed.buffer.content, chars("a\nb\nc"));
    ed.event(text("d"));
    assert_eq!(ed.buffer.content, chars("a\nc"));
    assert_eq!(ed.buffer.lines, vec![1, 1]);
    assert_eq!((ed.buffer.cy, ed.buffer.cx), (1, 0));
    assert!(ed.cmd_stack.is_empty());
}

#[test]
fn dd_on_last_line_moves_cursor_up() {
    let mut ed = editor_with("a\nb");
    ed.event(text("d"));
    ed.event(text("d"));
    assert_eq!(ed.buffer.content, chars("a"));
    assert_eq!(ed.buffer.lines, vec![1]);
    assert_eq!((ed.buffer.cy, ed.buffer.cx), (0, 1));
}

#[test]
fn dd_with_a_stale_prefix_only_accumulates() {
    let mut ed = editor_with("a\nb");
    ed.event(text("5"));
    ed.event(text("d"));
    ed.event(text("d"));
    assert_eq!(ed.buffer.content, chars("a\nb"));
    assert_eq!(ed.cmd_stack, vec!['5', 'd', 'd']);
}

#[test]
fn gg_homes_the_cursor() {
    // from any position, g g moves to (0,0)
    let mut ed = editor_with("abc\ndef\nghi");
    ed.event(text("g"));
    assert_eq!(ed.cmd_stack, vec!['g']);
    ed.event(text("g"));
    assert_eq!((ed.buffer.cy, ed.buffer.cx), (0, 0));
    assert!(ed.cmd_stack.is_empty());
    assert_eq!(ed.buffer.content, chars("abc\ndef\nghi"));
}

#[test]
fn capital_g_jumps_to_the_end() {
    // after g g, a G puts the cursor on the last row at its line's end
    let mut ed = editor_with("abc\ndefgh");
    ed.event(text("g"));
    ed.event(text("g"));
    assert_eq!((ed.buffer.cy, ed.buffer.cx), (0, 0));
    ed.event(text("G"));
    assert_eq!((ed.buffer.cy, ed.buffer.cx), (1, 5));
    assert_eq!(ed.mode, Mode::Normal);
}

#[test]
fn multi_character_text_only_accumulates_its_first_character() {
    let mut ed = editor_with("abc");
    ed.event(text("dd"));
    assert_eq!(ed.cmd_stack, vec!['d']);
    assert_eq!(ed.buffer.content, chars("abc"));
}

#[test]
fn empty_text_changes_nothing() {
    let mut ed = editor_with("abc");
    ed.event(text(""));
    assert!(ed.cmd_stack.is_empty());
    assert_eq!(ed.buffer.content, chars("abc"));
}

#[test]
fn handle_event_routes_window_traffic() {
    let mut ed = editor_with("ab");
    assert_eq!(ed.handle_event(Input::Quit), WindowEvent::Quit);
    assert_eq!(ed.handle_event(Input::MouseWheel), WindowEvent::RenderBuffer);
    assert_eq!(ed.handle_event(Input::Other), WindowEvent::RenderBuffer);
    assert_eq!(ed.handle_event(Input::Key(Key::Left)), WindowEvent::Nothing);
    assert_eq!((ed.buffer.cy, ed.buffer.cx), (0, 1));
    assert_eq!(ed.handle_event(text("i")), WindowEvent::Nothing);
    assert_eq!(ed.mode, Mode::Insert);
}

#[test]
fn cursor_pos_follows_the_session() {
    let mut ed = Editor::new();
    assert_eq!(ed.cursor_pos(), 0);
    ed.event(text("a"));
    ed.event(text("ab"));
    ed.event(Input::Key(Key::Return));
    ed.event(text("c"));
    assert_eq!(ed.cursor_pos(), 4);
}
