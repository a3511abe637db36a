//! The command line at the bottom of the screen: a single line of text with
//! a cursor, and what a finished line asks for.

use vstd::prelude::*;
use crate::navigation::Key;
use crate::text::string_of;

verus! {

/// The text and cursor after one key on a single-line editor: a character
/// goes in at the cursor, which moves past it; backspace removes the
/// character before the cursor; left and right move the cursor within the
/// text; other keys change nothing.
pub open spec fn line_step(s: Seq<char>, k: int, key: Key) -> (Seq<char>, int) {
    match key {
        Key::Char(c) => (s.insert(k, c), k + 1),
        Key::Backspace => if k > 0 {
            (s.remove(k - 1), k - 1)
        } else {
            (s, k)
        },
        Key::Left => if k > 0 {
            (s, k - 1)
        } else {
            (s, k)
        },
        Key::Right => if k < s.len() {
            (s, k + 1)
        } else {
            (s, k)
        },
        _ => (s, k),
    }
}

/// What a finished command line asks for.
#[derive(Clone, Copy, Debug, PartialEq, Eq, Structural)]
pub enum CommandAction {
    /// `:w`: save the sheet.
    Save,
    /// A line starting with `/`: search.
    Search,
    /// Anything else.
    Nothing,
}

/// What the line `s` asks for.
pub open spec fn action_of(s: Seq<char>) -> CommandAction {
    if s == seq![':', 'w'] {
        CommandAction::Save
    } else if s.len() > 0 && s[0] == '/' {
        CommandAction::Search
    } else {
        CommandAction::Nothing
    }
}

/// The command line: its text and the cursor within it.
#[derive(Debug)]
pub struct Command {
    input: Vec<char>,
    cursor_pos: usize,
}

impl View for Command {
    type V = (Seq<char>, int);

    closed spec fn view(&self) -> (Seq<char>, int) {
        (self.input@, self.cursor_pos as int)
    }
}

impl Command {
    /// Well-formed: the cursor lies within the text.
    pub open spec fn wf(&self) -> bool {
        0 <= self@.1 <= self@.0.len()
    }

    /// An empty command line.
    pub fn new() -> (c: Self)
        ensures
            c.wf(),
            c@ == (Seq::<char>::empty(), 0int),
    {
        Self { cursor_pos: 0, input: Vec::new() }
    }

    /// The text of the line.
    pub fn input(&self) -> (s: String)
        ensures
            s@ == self@.0,
    {
        string_of(&self.input)
    }

    /// The number of characters on the line.
    pub fn len(&self) -> (n: usize)
        ensures
            n == self@.0.len(),
    {
        self.input.len()
    }

    /// The cursor, as a count of characters before it.
    pub fn cursor_pos(&self) -> (k: usize)
        ensures
            k == self@.1,
    {
        self.cursor_pos
    }

    /// Empties the line.
    pub fn clear(&mut self)
        ensures
            final(self).wf(),
            final(self)@ == (Seq::<char>::empty(), 0int),
    {
        self.input = Vec::new();
        self.cursor_pos = 0;
    }

    /// Applies one key to the line (see `line_step`).
    pub fn write_text(&mut self, key: Key)
        requires
            old(self).wf(),
            key is Char ==> old(self)@.0.len() + 1 <= usize::MAX,
        ensures
            final(self).wf(),
            final(self)@ == line_step(old(self)@.0, old(self)@.1, key),
    {
        match key {
            Key::Char(c) => {
                self.input.insert(self.cursor_pos, c);
                self.cursor_pos = self.cursor_pos + 1;
            },
            Key::Backspace => {
                if self.cursor_pos > 0 {
                    self.input.remove(self.cursor_pos - 1);
                    self.cursor_pos = self.cursor_pos - 1;
                }
            },
            Key::Left => {
                if self.cursor_pos > 0 {
                    self.cursor_pos = self.cursor_pos - 1;
                }
            },
            Key::Right => {
                if self.cursor_pos < self.input.len() {
                    self.cursor_pos = self.cursor_pos + 1;
                }
            },
            _ => {},
        }
    }

    /// What the line asks for (see `action_of`).
    pub fn action(&self) -> (a: CommandAction)
        ensures
            a == action_of(self@.0),
    {
        if self.input.len() == 2 && self.input[0] == ':' && self.input[1] == 'w' {
            assert(self@.0 =~= seq![':', 'w']);
            CommandAction::Save
        } else if self.input.len() > 0 && self.input[0] == '/' {
            CommandAction::Search
        } else {
            proof {
                if self@.0 == seq![':', 'w'] {
                    assert(self@.0[0] == ':' && self@.0[1] == 'w');
                }
            }
            CommandAction::Nothing
        }
    }
}

} // verus!
