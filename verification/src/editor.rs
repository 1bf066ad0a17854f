//! The modal command interpreter: a mode (Normal, Insert or Visual), a
//! pending-keystroke accumulator for multi-key commands and numeric repeat
//! counts, and the buffer they act on.
//!
//! One discrete input event at a time enters through [`Editor::event`] or
//! [`Editor::handle_event`]; the whole effect of an event is the spec
//! function [`ed_step`] applied to the state before it.

use vstd::prelude::*;

use crate::buffer::Buffer;
use crate::model::{
    buf_delete_before, buf_delete_line, buf_insert_line, buf_insert_text, buf_move_down,
    buf_move_left, buf_move_right, buf_move_up, buf_wf, empty_buf, BufView,
};
use crate::util::spec_parse_count;

verus! {

/// The interpreter's mode.
#[derive(Clone, Copy, PartialEq, Eq, Structural, Debug)]
pub enum Mode {
    Insert,
    Normal,
    Visual,
}

/// Logical identity of a pressed key, as the surrounding event loop decodes
/// it.  Keys the interpreter does not react to arrive as `Other`.
#[derive(Clone, Copy, PartialEq, Eq, Structural, Debug)]
pub enum Key {
    Escape,
    Backspace,
    Return,
    Tab,
    Left,
    Right,
    Up,
    Down,
    Other,
}

/// One discrete input event: a request to quit, a key press, one unit of
/// decoded text, a scroll, or anything else.
#[derive(Clone, Debug)]
pub enum Input {
    Quit,
    Key(Key),
    Text(String),
    MouseWheel,
    Other,
}

/// What the window loop should do after an event was consumed.
#[derive(Clone, Copy, PartialEq, Eq, Structural, Debug)]
pub enum WindowEvent {
    Quit,
    Nothing,
    RenderBuffer,
}

/// Ghost abstraction of an [`Editor`]: mode, pending keystrokes and buffer.
#[verifier::ext_equal]
pub ghost struct EdView {
    pub mode: Mode,
    pub stack: Seq<char>,
    pub buf: BufView,
}

/// Well-formedness of an editor: its buffer is well-formed.
pub open spec fn ed_wf(e: EdView) -> bool {
    buf_wf(e.buf)
}

/// The editor as a session starts: Normal mode, nothing pending, an empty
/// document.
pub open spec fn initial_editor() -> EdView {
    EdView { mode: Mode::Normal, stack: Seq::empty(), buf: empty_buf() }
}

/// How many characters an input can add to the content: the bound a caller
/// must leave free below the machine limit.
pub open spec fn input_growth(i: Input) -> int {
    match i {
        Input::Text(t) => t@.len() as int,
        Input::Key(k) => match k {
            Key::Tab => 2,
            Key::Return => 1,
            _ => 0,
        },
        _ => 0,
    }
}

/// Pushes the first character of a text unit onto the pending stack;
/// empty text leaves the state alone.
pub open spec fn stacked(e: EdView, t: Seq<char>) -> EdView {
    if t.len() == 0 {
        e
    } else {
        EdView { mode: e.mode, stack: e.stack.push(t[0]), buf: e.buf }
    }
}

/// Effect of a single-character text command in Normal mode.
pub open spec fn normal_text(e: EdView, c: char) -> EdView {
    if c == 'i' {
        EdView { mode: Mode::Insert, stack: e.stack, buf: buf_move_left(e.buf, 1) }
    } else if c == 'I' {
        EdView { mode: Mode::Insert, stack: e.stack, buf: buf_move_left(e.buf, 0) }
    } else if c == 'a' {
        EdView { mode: Mode::Insert, stack: e.stack, buf: e.buf }
    } else if c == 'A' {
        EdView { mode: Mode::Insert, stack: e.stack, buf: buf_move_right(e.buf, 0) }
    } else if c == 'o' {
        EdView { mode: Mode::Insert, stack: e.stack, buf: buf_insert_line(buf_move_right(e.buf, 0)) }
    } else if c == 'O' {
        EdView {
            mode: Mode::Insert,
            stack: e.stack,
            buf: buf_move_up(buf_insert_line(buf_move_left(e.buf, 0)), 1),
        }
    } else if c == 'v' || c == 'V' {
        EdView { mode: Mode::Visual, stack: e.stack, buf: e.buf }
    } else if c == 'h' {
        EdView {
            mode: e.mode,
            stack: Seq::empty(),
            buf: buf_move_left(e.buf, spec_parse_count(e.stack)),
        }
    } else if c == 'j' {
        EdView {
            mode: e.mode,
            stack: Seq::empty(),
            buf: buf_move_down(e.buf, spec_parse_count(e.stack)),
        }
    } else if c == 'k' {
        EdView {
            mode: e.mode,
            stack: Seq::empty(),
            buf: buf_move_up(e.buf, spec_parse_count(e.stack)),
        }
    } else if c == 'l' {
        EdView {
            mode: e.mode,
            stack: Seq::empty(),
            buf: buf_move_right(e.buf, spec_parse_count(e.stack)),
        }
    } else if c == 'g' {
        if e.stack == seq!['g'] {
            EdView {
                mode: e.mode,
                stack: Seq::empty(),
                buf: buf_move_left(buf_move_up(e.buf, 0), 0),
            }
        } else {
            EdView { mode: e.mode, stack: e.stack.push('g'), buf: e.buf }
        }
    } else if c == 'G' {
        EdView { mode: e.mode, stack: e.stack, buf: buf_move_right(buf_move_down(e.buf, 0), 0) }
    } else if c == 'd' {
        if e.stack == seq!['d'] {
            EdView { mode: e.mode, stack: Seq::empty(), buf: buf_delete_line(e.buf) }
        } else {
            EdView { mode: e.mode, stack: e.stack.push('d'), buf: e.buf }
        }
    } else {
        EdView { mode: e.mode, stack: e.stack.push(c), buf: e.buf }
    }
}

/// Effect of one event in Normal mode.
pub open spec fn normal_step(e: EdView, i: Input) -> EdView {
    match i {
        Input::Key(k) => match k {
            Key::Escape => EdView { mode: Mode::Normal, stack: e.stack, buf: e.buf },
            Key::Left => EdView { mode: e.mode, stack: e.stack, buf: buf_move_left(e.buf, 1) },
            Key::Down => EdView { mode: e.mode, stack: e.stack, buf: buf_move_down(e.buf, 1) },
            Key::Up => EdView { mode: e.mode, stack: e.stack, buf: buf_move_up(e.buf, 1) },
            Key::Right => EdView { mode: e.mode, stack: e.stack, buf: buf_move_right(e.buf, 1) },
            _ => e,
        },
        Input::Text(t) => {
            if t@.len() == 1 {
                normal_text(e, t@[0])
            } else {
                stacked(e, t@)
            }
        },
        _ => e,
    }
}

/// Effect of one event in Insert mode.
pub open spec fn insert_step(e: EdView, i: Input) -> EdView {
    match i {
        Input::Key(k) => match k {
            Key::Escape => EdView { mode: Mode::Normal, stack: e.stack, buf: e.buf },
            Key::Tab => EdView {
                mode: e.mode,
                stack: e.stack,
                buf: buf_insert_text(e.buf, seq![' ', ' ']),
            },
            Key::Left => EdView { mode: e.mode, stack: e.stack, buf: buf_move_left(e.buf, 1) },
            Key::Down => EdView { mode: e.mode, stack: e.stack, buf: buf_move_down(e.buf, 1) },
            Key::Up => EdView { mode: e.mode, stack: e.stack, buf: buf_move_up(e.buf, 1) },
            Key::Right => EdView { mode: e.mode, stack: e.stack, buf: buf_move_right(e.buf, 1) },
            Key::Return => EdView { mode: e.mode, stack: e.stack, buf: buf_insert_line(e.buf) },
            Key::Backspace => EdView {
                mode: e.mode,
                stack: e.stack,
                buf: buf_delete_before(e.buf),
            },
            Key::Other => e,
        },
        Input::Text(t) => EdView {
            mode: e.mode,
            stack: e.stack,
            buf: buf_insert_text(e.buf, t@),
        },
        _ => e,
    }
}

/// Effect of one event in Visual mode: only leaving the mode is wired up.
pub open spec fn visual_step(e: EdView, i: Input) -> EdView {
    match i {
        Input::Key(k) => match k {
            Key::Escape => EdView { mode: Mode::Normal, stack: e.stack, buf: e.buf },
            _ => e,
        },
        _ => e,
    }
}

/// Effect of one event on the editor, whatever its mode.
pub open spec fn ed_step(e: EdView, i: Input) -> EdView {
    match e.mode {
        Mode::Insert => insert_step(e, i),
        Mode::Normal => normal_step(e, i),
        Mode::Visual => visual_step(e, i),
    }
}

/// What an event asks of the window loop, independent of the editor state.
pub open spec fn window_event_of(i: Input) -> WindowEvent {
    match i {
        Input::Quit => WindowEvent::Quit,
        Input::Key(_) => WindowEvent::Nothing,
        Input::Text(_) => WindowEvent::Nothing,
        Input::MouseWheel => WindowEvent::RenderBuffer,
        Input::Other => WindowEvent::RenderBuffer,
    }
}

/// The editing session: mode, pending keystrokes and the buffer they act
/// on.
pub struct Editor {
    /// Current interpreter mode.
    pub mode: Mode,
    /// Pending keystrokes: digits of a repeat count or the first half of a
    /// two-key command.
    pub cmd_stack: Vec<char>,
    /// The document and cursor.
    pub buffer: Buffer,
}

impl View for Editor {
    type V = EdView;

    open spec fn view(&self) -> EdView {
        EdView { mode: self.mode, stack: self.cmd_stack@, buf: self.buffer@ }
    }
}

impl Editor {
    /// Creates a session over an empty document, starting in Normal mode.
    pub fn new() -> (ed: Editor)
        ensures
            ed@ == initial_editor(),
            ed_wf(ed@),
    {
        let ed = Editor { mode: Mode::Normal, cmd_stack: Vec::new(), buffer: Buffer::new() };
        proof {
            assert(ed@ =~= initial_editor());
        }
        ed
    }

    /// Absolute offset of the cursor inside the content.
    pub fn cursor_pos(&self) -> (r: usize)
        requires
            ed_wf(self@),
        ensures
            r == crate::model::cursor_offset(self@.buf),
    {
        self.buffer.cursor_pos()
    }

    /// Moves the cursor up; see [`Buffer::up`].
    pub fn move_up(&mut self, n: usize)
        requires
            ed_wf(old(self)@),
        ensures
            final(self)@ == (EdView {
                buf: buf_move_up(old(self)@.buf, n as int),
                ..old(self)@
            }),
            ed_wf(final(self)@),
    {
        self.buffer.up(n);
    }

    /// Moves the cursor down; see [`Buffer::down`].
    pub fn move_down(&mut self, n: usize)
        requires
            ed_wf(old(self)@),
        ensures
            final(self)@ == (EdView {
                buf: buf_move_down(old(self)@.buf, n as int),
                ..old(self)@
            }),
            ed_wf(final(self)@),
    {
        self.buffer.down(n);
    }

    /// Moves the cursor right; see [`Buffer::right`].
    pub fn move_right(&mut self, n: usize)
        requires
            ed_wf(old(self)@),
        ensures
            final(self)@ == (EdView {
                buf: buf_move_right(old(self)@.buf, n as int),
                ..old(self)@
            }),
            ed_wf(final(self)@),
    {
        self.buffer.right(n);
    }

    /// Moves the cursor left; see [`Buffer::left`].
    pub fn move_left(&mut self, n: usize)
        requires
            ed_wf(old(self)@),
        ensures
            final(self)@ == (EdView {
                buf: buf_move_left(old(self)@.buf, n as int),
                ..old(self)@
            }),
            ed_wf(final(self)@),
    {
        self.buffer.left(n);
    }

    /// Inserts text at the cursor; see [`Buffer::insert`].
    pub fn insert(&mut self, text: &str)
        requires
            ed_wf(old(self)@),
            old(self)@.buf.content.len() + text@.len() <= usize::MAX,
        ensures
            final(self)@ == (EdView {
                buf: buf_insert_text(old(self)@.buf, text@),
                ..old(self)@
            }),
            ed_wf(final(self)@),
    {
        self.buffer.insert(text);
    }

    /// Splits the cursor's line at the cursor; see [`Buffer::insert_line`].
    pub fn insert_line(&mut self)
        requires
            ed_wf(old(self)@),
            old(self)@.buf.content.len() < usize::MAX,
        ensures
            final(self)@ == (EdView { buf: buf_insert_line(old(self)@.buf), ..old(self)@ }),
            ed_wf(final(self)@),
    {
        self.buffer.insert_line();
    }

    /// Removes the character before the cursor; see [`Buffer::delete`].
    pub fn delete(&mut self)
        requires
            ed_wf(old(self)@),
        ensures
            final(self)@ == (EdView { buf: buf_delete_before(old(self)@.buf), ..old(self)@ }),
            ed_wf(final(self)@),
    {
        self.buffer.delete();
    }

    /// Consumes one event according to the current mode.
    pub fn event(&mut self, i: Input)
        requires
            ed_wf(old(self)@),
            old(self)@.buf.content.len() + input_growth(i) <= usize::MAX,
        ensures
            final(self)@ == ed_step(old(self)@, i),
            ed_wf(final(self)@),
    {
        match self.mode {
            Mode::Insert => self.insert_mode(i),
            Mode::Normal => self.normal_mode(i),
            Mode::Visual => self.visual_mode(i),
        }
    }

    /// Consumes one event and tells the window loop what to do next: quit
    /// requests pass through, keys and text go to the interpreter, anything
    /// else asks for a redraw.
    pub fn handle_event(&mut self, i: Input) -> (r: WindowEvent)
        requires
            ed_wf(old(self)@),
            old(self)@.buf.content.len() + input_growth(i) <= usize::MAX,
        ensures
            final(self)@ == ed_step(old(self)@, i),
            ed_wf(final(self)@),
            r == window_event_of(i),
    {
        match i {
            Input::Quit => WindowEvent::Quit,
            Input::MouseWheel => WindowEvent::RenderBuffer,
            Input::Other => WindowEvent::RenderBuffer,
            other => {
                self.event(other);
                WindowEvent::Nothing
            },
        }
    }

    /// Insert mode: Escape leaves, Tab indents, arrows move by one, Return
    /// splits the line, Backspace deletes, decoded text enters the buffer.
    fn insert_mode(&mut self, i: Input)
        requires
            ed_wf(old(self)@),
            old(self)@.buf.content.len() + input_growth(i) <= usize::MAX,
        ensures
            final(self)@ == insert_step(old(self)@, i),
            ed_wf(final(self)@),
    {
        let ghost e0 = self@;
        match i {
            Input::Key(k) => match k {
                Key::Escape => {
                    self.mode = Mode::Normal;
                },
                Key::Tab => {
                    proof {
                        reveal_strlit("  ");
                        assert("  "@ =~= seq![' ', ' ']);
                    }
                    self.buffer.insert("  ");
                },
                Key::Left => {
                    self.buffer.left(1);
                },
                Key::Down => {
                    self.buffer.down(1);
                },
                Key::Up => {
                    self.buffer.up(1);
                },
                Key::Right => {
                    self.buffer.right(1);
                },
                Key::Return => {
                    self.buffer.insert_line();
                },
                Key::Backspace => {
                    self.buffer.delete();
                },
                Key::Other => {},
            },
            Input::Text(t) => {
                self.buffer.insert(t.as_str());
            },
            _ => {},
        }
    }

    /// Normal mode: the command table of the interpreter.  Single text
    /// characters select commands, digits accumulate a repeat count, and
    /// `gg` / `dd` complete over the pending stack.
    fn normal_mode(&mut self, i: Input)
        requires
            ed_wf(old(self)@),
            old(self)@.buf.content.len() + input_growth(i) <= usize::MAX,
        ensures
            final(self)@ == normal_step(old(self)@, i),
            ed_wf(final(self)@),
    {
        let ghost e0 = self@;
        match i {
            Input::Key(k) => match k {
                Key::Escape => {
                    self.mode = Mode::Normal;
                },
                Key::Left => {
                    self.buffer.left(1);
                },
                Key::Down => {
                    self.buffer.down(1);
                },
                Key::Up => {
                    self.buffer.up(1);
                },
                Key::Right => {
                    self.buffer.right(1);
                },
                _ => {},
            },
            Input::Text(t) => {
                let len = t.as_str().unicode_len();
                if len == 1 {
                    let c = t.as_str().get_char(0);
                    if c == 'i' {
                        self.buffer.left(1);
                        self.mode = Mode::Insert;
                    } else if c == 'I' {
                        self.buffer.left(0);
                        self.mode = Mode::Insert;
                    } else if c == 'a' {
                        self.mode = Mode::Insert;
                    } else if c == 'A' {
                        self.buffer.right(0);
                        self.mode = Mode::Insert;
                    } else if c == 'o' {
                        self.buffer.right(0);
                        self.buffer.insert_line();
                        self.mode = Mode::Insert;
                    } else if c == 'O' {
                        self.buffer.left(0);
                        self.buffer.insert_line();
                        self.buffer.up(1);
                        self.mode = Mode::Insert;
                    } else if c == 'v' || c == 'V' {
                        self.mode = Mode::Visual;
                    } else if c == 'h' {
                        let n = crate::util::parse_count(&self.cmd_stack);
                        self.buffer.left(n);
                        self.cmd_stack.clear();
                    } else if c == 'j' {
                        let n = crate::util::parse_count(&self.cmd_stack);
                        self.buffer.down(n);
                        self.cmd_stack.clear();
                    } else if c == 'k' {
                        let n = crate::util::parse_count(&self.cmd_stack);
                        self.buffer.up(n);
                        self.cmd_stack.clear();
                    } else if c == 'l' {
                        let n = crate::util::parse_count(&self.cmd_stack);
                        self.buffer.right(n);
                        self.cmd_stack.clear();
                    } else if c == 'g' {
                        if self.cmd_stack.len() == 1 && self.cmd_stack[0] == 'g' {
                            proof {
                                assert(e0.stack =~= seq!['g']);
                            }
                            self.buffer.up(0);
                            self.buffer.left(0);
                            self.cmd_stack.clear();
                        } else {
                            proof {
                                assert(e0.stack != seq!['g']);
                            }
                            self.cmd_stack.push(c);
                        }
                    } else if c == 'G' {
                        self.buffer.down(0);
                        self.buffer.right(0);
                    } else if c == 'd' {
                        if self.cmd_stack.len() == 1 && self.cmd_stack[0] == 'd' {
                            proof {
                                assert(e0.stack =~= seq!['d']);
                            }
                            self.buffer.delete_line();
                            self.cmd_stack.clear();
                        } else {
                            proof {
                                assert(e0.stack != seq!['d']);
                            }
                            self.cmd_stack.push(c);
                        }
                    } else {
                        self.cmd_stack.push(c);
                    }
                } else {
                    self.stack_cmd(t.as_str());
                }
            },
            _ => {},
        }
    }

    /// Visual mode: only Escape, back to Normal, is wired up.
    fn visual_mode(&mut self, i: Input)
        requires
            ed_wf(old(self)@),
        ensures
            final(self)@ == visual_step(old(self)@, i),
            ed_wf(final(self)@),
    {
        match i {
            Input::Key(k) => match k {
                Key::Escape => {
                    self.mode = Mode::Normal;
                },
                _ => {},
            },
            _ => {},
        }
    }

    /// Pushes the first character of an unrecognised command onto the
    /// pending stack, for later use as a repeat count or command prefix.
    fn stack_cmd(&mut self, cmd: &str)
        ensures
            final(self)@ == stacked(old(self)@, cmd@),
    {
        let n = cmd.unicode_len();
        if n > 0 {
            let c = cmd.get_char(0);
            self.cmd_stack.push(c);
        }
    }
}

} // verus!
