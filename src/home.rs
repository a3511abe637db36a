//! The home screen: the list of sheets, one of them selected.

use vstd::prelude::*;
use crate::navigation::Key;

verus! {

/// A stored sheet, known by its name.
#[derive(Debug)]
pub struct Sheet {
    pub name: String,
}

/// Where `Up` and `Down` move the selection in a list of `n` sheets: one
/// step, wrapping around at either end; other keys, or an empty list,
/// leave it.
pub open spec fn select_step(selected: int, n: int, key: Key) -> int {
    if n == 0 {
        selected
    } else {
        match key {
            Key::Up => if selected == 0 {
                n - 1
            } else {
                selected - 1
            },
            Key::Down => if selected + 1 >= n {
                0
            } else {
                selected + 1
            },
            _ => selected,
        }
    }
}

/// The list of sheets and which one is selected.
#[derive(Debug)]
pub struct Home {
    sheets: Vec<Sheet>,
    selected: usize,
}

impl Home {
    /// The names of the sheets, in order.
    pub closed spec fn names(&self) -> Seq<Seq<char>> {
        self.sheets@.map_values(|s: Sheet| s.name@)
    }

    /// The number of sheets.
    pub open spec fn count(&self) -> int {
        self.names().len() as int
    }

    /// The position of the selected sheet.
    pub closed spec fn selection(&self) -> int {
        self.selected as int
    }

    /// Well-formed: a selection inside the list, or the first position of
    /// an empty one.
    pub open spec fn wf(&self) -> bool {
        0 <= self.selection() && (self.selection() < self.count() || self.selection() == 0)
    }

    /// A home screen listing `sheets`, the first one selected.
    pub fn new(sheets: Vec<Sheet>) -> (h: Self)
        ensures
            h.wf(),
            h.names() == sheets@.map_values(|s: Sheet| s.name@),
            h.selection() == 0,
    {
        Self { sheets, selected: 0 }
    }

    /// The sheets listed.
    pub fn sheets(&self) -> (s: &Vec<Sheet>)
        ensures
            s@.map_values(|s: Sheet| s.name@) == self.names(),
    {
        &self.sheets
    }

    /// The position of the selected sheet.
    pub fn selected(&self) -> (i: usize)
        ensures
            i == self.selection(),
    {
        self.selected
    }

    /// The selected sheet, unless the list is empty.
    pub fn selected_sheet(&self) -> (s: Option<&Sheet>)
        requires
            self.wf(),
        ensures
            s is Some <==> self.count() > 0,
            s matches Some(s) ==> s.name@ == self.names()[self.selection()],
    {
        if self.selected < self.sheets.len() {
            Some(&self.sheets[self.selected])
        } else {
            None
        }
    }

    /// Replaces the list, as after a sheet was created; the selection stays
    /// where it was if the new list reaches it, else goes to the first.
    pub fn set_sheets(&mut self, sheets: Vec<Sheet>)
        ensures
            final(self).wf(),
            final(self).names() == sheets@.map_values(|s: Sheet| s.name@),
            final(self).selection() == (if old(self).selection() < sheets@.len() {
                old(self).selection()
            } else {
                0
            }),
    {
        if self.selected >= sheets.len() {
            self.selected = 0;
        }
        self.sheets = sheets;
    }

    /// Moves the selection (see `select_step`).
    pub fn handle_key(&mut self, key: Key)
        requires
            old(self).wf(),
        ensures
            final(self).wf(),
            final(self).names() == old(self).names(),
            final(self).selection() == select_step(old(self).selection(), old(self).count(), key),
    {
        let n = self.sheets.len();
        if n == 0 {
            return;
        }
        match key {
            Key::Up => {
                if self.selected == 0 {
                    self.selected = n - 1;
                } else {
                    self.selected = self.selected - 1;
                }
            },
            Key::Down => {
                if self.selected + 1 >= n {
                    self.selected = 0;
                } else {
                    self.selected = self.selected + 1;
                }
            },
            _ => {},
        }
    }
}

} // verus!
