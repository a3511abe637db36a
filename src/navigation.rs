//! Moving the active cell, and editing one cell's text in place.

use vstd::prelude::*;
use crate::text::{chars_of, string_of};

verus! {

/// A key press, as far as the grid and the editors tell keys apart.
#[derive(Clone, Copy, Debug, PartialEq, Eq, Structural)]
pub enum Key {
    Up,
    Down,
    Left,
    Right,
    Enter,
    Tab,
    Esc,
    Backspace,
    Char(char),
    Other,
}

/// The cell that navigation and editing act on.
#[derive(Clone, Copy, Debug, PartialEq, Eq, Structural)]
pub struct ActiveCell {
    pub row: usize,
    pub col: usize,
}

/// Where a directional key moves the active cell in a `rows` by `cols`
/// grid: one step along its axis, or nowhere at an edge.
pub open spec fn nav_step(a: ActiveCell, key: Key, rows: int, cols: int) -> ActiveCell {
    match key {
        Key::Up => if a.row > 0 {
            ActiveCell { row: (a.row - 1) as usize, col: a.col }
        } else {
            a
        },
        Key::Down => if a.row + 1 < rows {
            ActiveCell { row: (a.row + 1) as usize, col: a.col }
        } else {
            a
        },
        Key::Left => if a.col > 0 {
            ActiveCell { row: a.row, col: (a.col - 1) as usize }
        } else {
            a
        },
        Key::Right => if a.col + 1 < cols {
            ActiveCell { row: a.row, col: (a.col + 1) as usize }
        } else {
            a
        },
        _ => a,
    }
}

impl ActiveCell {
    /// The active cell at `(row, col)`.
    pub fn set(row: usize, col: usize) -> (a: Self)
        ensures
            a == (ActiveCell { row, col }),
    {
        Self { row, col }
    }

    /// One row up, unless already in the first row.
    pub fn move_up(&mut self)
        ensures
            *final(self) == nav_step(*old(self), Key::Up, 0, 0),
    {
        if self.row > 0 {
            self.row = self.row - 1;
        }
    }

    /// One row down, unless already in the last of `rows` rows.
    pub fn move_down(&mut self, rows: usize)
        ensures
            *final(self) == nav_step(*old(self), Key::Down, rows as int, 0),
    {
        if rows > 0 && self.row < rows - 1 {
            self.row = self.row + 1;
        }
    }

    /// One column left, unless already in the first column.
    pub fn move_left(&mut self)
        ensures
            *final(self) == nav_step(*old(self), Key::Left, 0, 0),
    {
        if self.col > 0 {
            self.col = self.col - 1;
        }
    }

    /// One column right, unless already in the last of `cols` columns.
    pub fn move_right(&mut self, cols: usize)
        ensures
            *final(self) == nav_step(*old(self), Key::Right, 0, cols as int),
    {
        if cols > 0 && self.col < cols - 1 {
            self.col = self.col + 1;
        }
    }
}

/// Characters kept free at the end of a line: typing on a line longer than
/// the cell's width less this margin starts a new line.
pub const WRAP_MARGIN: usize = 2;

/// The number of characters after the last line break of `s`.
pub open spec fn last_line_len(s: Seq<char>) -> int
    decreases s.len(),
{
    if s.len() == 0 {
        0
    } else if s.last() == '\n' {
        0
    } else {
        last_line_len(s.drop_last()) + 1
    }
}

/// Whether the last line of `s` is too long for a cell `width` wide.
pub open spec fn wraps(s: Seq<char>, width: int) -> bool {
    last_line_len(s) > width - WRAP_MARGIN
}

/// Typing `c` into text `s` with the cursor at `k`: when the last line is
/// already too long a line break is appended first (a cursor at the end
/// stays at the end), then `c` goes in at the cursor, which moves past it.
pub open spec fn insert_spec(s: Seq<char>, k: int, c: char, width: int) -> (Seq<char>, int) {
    let (s1, k1) = if wraps(s, width) {
        (
            s.push('\n'),
            if k == s.len() {
                k + 1
            } else {
                k
            },
        )
    } else {
        (s, k)
    };
    (s1.insert(k1, c), k1 + 1)
}

/// The text and cursor after one editing key; keys that do not edit leave
/// both as they are.
pub open spec fn edit_step(s: Seq<char>, k: int, key: Key, width: int) -> (Seq<char>, int) {
    match key {
        Key::Char(c) => insert_spec(s, k, c, width),
        Key::Backspace => if k > 0 {
            (s.remove(k - 1), k - 1)
        } else {
            (s, k)
        },
        Key::Left => if k > 0 {
            (s, k - 1)
        } else {
            (s, k)
        },
        Key::Right => if k < s.len() {
            (s, k + 1)
        } else {
            (s, k)
        },
        _ => (s, k),
    }
}

/// The text of the cell being edited, and the cursor within it, counted in
/// characters.
#[derive(Debug)]
pub struct EditSession {
    active_text: Vec<char>,
    cursor_offset: usize,
}

impl View for EditSession {
    type V = (Seq<char>, int);

    closed spec fn view(&self) -> (Seq<char>, int) {
        (self.active_text@, self.cursor_offset as int)
    }
}

impl EditSession {
    /// Well-formed: the cursor lies within the text.
    pub open spec fn wf(&self) -> bool {
        0 <= self@.1 <= self@.0.len()
    }

    /// Starts editing `text` with the cursor after its last character.
    pub fn open(text: &str) -> (e: EditSession)
        ensures
            e.wf(),
            e@ == (text@, text@.len() as int),
    {
        let active_text = chars_of(text);
        let n = active_text.len();
        EditSession { active_text, cursor_offset: n }
    }

    /// The text as it stands.
    pub fn active_text(&self) -> (s: String)
        ensures
            s@ == self@.0,
    {
        string_of(&self.active_text)
    }

    /// The cursor, as a count of characters before it.
    pub fn cursor_offset(&self) -> (k: usize)
        ensures
            k == self@.1,
    {
        self.cursor_offset
    }

    /// The number of characters in the text.
    pub fn text_len(&self) -> (n: usize)
        ensures
            n == self@.0.len(),
    {
        self.active_text.len()
    }

    /// The length of the text's last line.
    fn last_line_length(&self) -> (n: usize)
        ensures
            n == last_line_len(self@.0),
    {
        let ghost s = self.active_text@;
        let mut i = self.active_text.len();
        assert(s.subrange(0, s.len() as int) =~= s);
        while i > 0 && self.active_text[i - 1] != '\n'
            invariant
                i <= s.len(),
                s == self.active_text@,
                last_line_len(s) == last_line_len(s.subrange(0, i as int)) + (s.len() - i),
            decreases i,
        {
            let ghost p = s.subrange(0, i as int);
            assert(p.drop_last() =~= s.subrange(0, i - 1));
            i = i - 1;
        }
        proof {
            if i > 0 {
                assert(s.subrange(0, i as int).last() == s[i - 1]);
            }
        }
        self.active_text.len() - i
    }

    /// Applies one editing key to the text and cursor; `width` is the cell's
    /// width, which decides when typing wraps.
    pub fn apply(&mut self, key: Key, width: usize)
        requires
            old(self).wf(),
            key is Char ==> old(self)@.0.len() + 2 <= usize::MAX,
        ensures
            final(self).wf(),
            final(self)@ == edit_step(old(self)@.0, old(self)@.1, key, width as int),
    {
        match key {
            Key::Char(c) => {
                let lll = self.last_line_length();
                if width < WRAP_MARGIN || lll > width - WRAP_MARGIN {
                    let at_end = self.cursor_offset == self.active_text.len();
                    self.active_text.push('\n');
                    if at_end {
                        self.cursor_offset = self.cursor_offset + 1;
                    }
                }
                self.active_text.insert(self.cursor_offset, c);
                self.cursor_offset = self.cursor_offset + 1;
            },
            Key::Backspace => {
                if self.cursor_offset > 0 {
                    self.active_text.remove(self.cursor_offset - 1);
                    self.cursor_offset = self.cursor_offset - 1;
                }
            },
            Key::Left => {
                if self.cursor_offset > 0 {
                    self.cursor_offset = self.cursor_offset - 1;
                }
            },
            Key::Right => {
                if self.cursor_offset < self.active_text.len() {
                    self.cursor_offset = self.cursor_offset + 1;
                }
            },
            _ => {},
        }
    }
}

} // verus!
