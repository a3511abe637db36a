//! A sheet being worked on: its grid, the active cell, and the edit session
//! while one cell is being edited. Keys drive it through two states,
//! browsing and editing.

use vstd::prelude::*;
use crate::address::CellAddress;
use crate::evaluation::is_grid;
use crate::grid::{
    Cell, CellGrid, blank, display_spec, exported, lemma_load_shape, load_spec, with_text,
};
use crate::navigation::{ActiveCell, EditSession, Key, edit_step, nav_step};
use crate::storage::{decode_entries, encode_entries, encoded, keyed_entries};

verus! {

/// Terminal columns taken by the row labels left of the grid.
pub const AXIS_WIDTH: u16 = 5;

/// Terminal rows taken by the column labels above the grid.
pub const AXIS_HEIGHT: u16 = 2;

/// How many cells of size `cell` fit in `total` terminal units once `axis`
/// units are set aside for labels; at least one.
pub open spec fn cells_fitting(total: u16, axis: u16, cell: usize) -> int {
    let room: int = if total > axis {
        total - axis
    } else {
        0
    };
    if room / (cell as int) >= 1 {
        room / (cell as int)
    } else {
        1
    }
}

/// Whether another character can be typed into `s`.
pub open spec fn room_to_type(s: Seq<char>) -> bool {
    s.len() + 2 <= usize::MAX
}

/// A sheet on screen: its cells, the active cell, and, while a cell is
/// being edited, that cell's text and cursor.
#[derive(Debug)]
pub struct Spreadsheet {
    id: String,
    grid: CellGrid,
    active_cell: ActiveCell,
    edit: Option<EditSession>,
    cell_width: usize,
    cell_height: usize,
}

/// What a browsing key does: a direction moves the active cell, clamped at
/// the edges; `Enter` opens the active cell for editing with the cursor at
/// the end of its text; other keys do nothing. While editing, nothing.
pub open spec fn browse_post(before: Spreadsheet, after: Spreadsheet, key: Key) -> bool {
    &&& after.cells() == before.cells()
    &&& after.width() == before.width()
    &&& after.sheet_id() == before.sheet_id()
    &&& match before.editing() {
        Some(_) => after.active() == before.active() && after.editing() == before.editing(),
        None => if key == Key::Enter {
            let t = before.cells()[before.active().row as int][before.active().col as int];
            after.active() == before.active() && after.editing() == Some((t, t.len() as int))
        } else {
            &&& after.active() == nav_step(
                before.active(),
                key,
                before.cells().len() as int,
                before.cells()[0].len() as int,
            )
            &&& after.editing() is None
        },
    }
}

/// What an editing key does: `Tab` or `Esc` writes the text back into the
/// active cell and ends the edit; other keys edit the text and cursor (see
/// `edit_step`), except that typing into a text of the largest size is
/// ignored. While browsing, nothing.
pub open spec fn edit_post(before: Spreadsheet, after: Spreadsheet, key: Key) -> bool {
    &&& after.active() == before.active()
    &&& after.width() == before.width()
    &&& after.sheet_id() == before.sheet_id()
    &&& match before.editing() {
        None => after.cells() == before.cells() && after.editing() is None,
        Some(e) => if key == Key::Tab || key == Key::Esc {
            &&& after.editing() is None
            &&& after.cells() == with_text(
                before.cells(),
                CellAddress { row: before.active().row, col: before.active().col },
                e.0,
            )
        } else {
            &&& after.cells() == before.cells()
            &&& after.editing() == Some(
                if key is Char && !room_to_type(e.0) {
                    e
                } else {
                    edit_step(e.0, e.1, key, before.width())
                },
            )
        },
    }
}

impl Spreadsheet {
    /// The name of the sheet.
    pub closed spec fn sheet_id(&self) -> Seq<char> {
        self.id@
    }

    /// The text of every cell.
    pub closed spec fn cells(&self) -> Seq<Seq<Seq<char>>> {
        self.grid@
    }

    /// The active cell.
    pub closed spec fn active(&self) -> ActiveCell {
        self.active_cell
    }

    /// The text and cursor being edited, while editing.
    pub closed spec fn editing(&self) -> Option<(Seq<char>, int)> {
        match self.edit {
            Some(e) => Some(e@),
            None => None,
        }
    }

    /// The width of a cell on screen, which decides when typing wraps.
    pub closed spec fn width(&self) -> int {
        self.cell_width as int
    }

    /// The height of a cell on screen, in lines.
    pub closed spec fn height(&self) -> int {
        self.cell_height as int
    }

    /// Well-formed: a grid, the active cell inside it, and the cursor inside
    /// the edited text.
    pub open spec fn wf(&self) -> bool {
        &&& is_grid(self.cells())
        &&& self.active().row < self.cells().len()
        &&& self.active().col < self.cells()[0].len()
        &&& match self.editing() {
            Some(e) => 0 <= e.1 <= e.0.len(),
            None => true,
        }
    }

    proof fn lemma_grid_wf(&self)
        requires
            self.wf(),
        ensures
            self.grid.wf(),
            self.edit matches Some(e) ==> e.wf(),
    {
    }

    /// A sheet of `rows` by `cols` empty cells, browsing from the first cell.
    pub fn with_dimensions(rows: usize, cols: usize, cell_width: usize, cell_height: usize) -> (s: Self)
        requires
            rows >= 1,
            cols >= 1,
            rows * cols <= usize::MAX,
        ensures
            s.wf(),
            s.cells() == blank(rows as int, cols as int),
            s.active() == (ActiveCell { row: 0, col: 0 }),
            s.editing() is None,
            s.width() == cell_width,
            s.height() == cell_height,
            s.sheet_id() == Seq::<char>::empty(),
    {
        Spreadsheet {
            id: String::new(),
            grid: CellGrid::new(rows, cols),
            active_cell: ActiveCell::set(0, 0),
            edit: None,
            cell_width,
            cell_height,
        }
    }

    /// A sheet with as many cells of the given size as fit in a terminal of
    /// `width` by `height`, beside the row and column labels; at least one
    /// row and one column.
    pub fn new(cell_width: usize, cell_height: usize, width: u16, height: u16) -> (s: Self)
        requires
            cell_width >= 1,
            cell_height >= 1,
        ensures
            s.wf(),
            s.cells() == blank(
                cells_fitting(height, AXIS_HEIGHT, cell_height),
                cells_fitting(width, AXIS_WIDTH, cell_width),
            ),
            s.active() == (ActiveCell { row: 0, col: 0 }),
            s.editing() is None,
            s.width() == cell_width,
            s.height() == cell_height,
    {
        let room_h: usize = if height > AXIS_HEIGHT {
            (height - AXIS_HEIGHT) as usize
        } else {
            0
        };
        let room_w: usize = if width > AXIS_WIDTH {
            (width - AXIS_WIDTH) as usize
        } else {
            0
        };
        let rows = if room_h / cell_height >= 1 {
            room_h / cell_height
        } else {
            1
        };
        let cols = if room_w / cell_width >= 1 {
            room_w / cell_width
        } else {
            1
        };
        assert(rows <= 65535 && cols <= 65535) by (nonlinear_arith)
            requires
                room_h <= 65535,
                room_w <= 65535,
                cell_height >= 1,
                cell_width >= 1,
                rows == (if room_h / cell_height >= 1 {
                    room_h / cell_height
                } else {
                    1
                }),
                cols == (if room_w / cell_width >= 1 {
                    room_w / cell_width
                } else {
                    1
                }),
        ;
        assert(rows * cols <= 65535 * 65535) by (nonlinear_arith)
            requires
                rows <= 65535,
                cols <= 65535,
        ;
        Self::with_dimensions(rows, cols, cell_width, cell_height)
    }

    /// The name of the sheet.
    pub fn id(&self) -> (s: &str)
        ensures
            s@ == self.sheet_id(),
    {
        self.id.as_str()
    }

    /// Names the sheet, as when another sheet is opened in it.
    pub fn set_id(&mut self, id: String)
        ensures
            final(self).sheet_id() == id@,
            final(self).cells() == old(self).cells(),
            final(self).active() == old(self).active(),
            final(self).editing() == old(self).editing(),
            final(self).width() == old(self).width(),
    {
        self.id = id;
    }

    /// The number of rows.
    pub fn rows(&self) -> (n: usize)
        requires
            self.wf(),
        ensures
            n == self.cells().len(),
    {
        self.grid.rows()
    }

    /// The number of columns.
    pub fn cols(&self) -> (n: usize)
        requires
            self.wf(),
        ensures
            n == self.cells()[0].len(),
    {
        self.grid.cols()
    }

    /// The grid.
    pub fn grid(&self) -> (g: &CellGrid)
        ensures
            g@ == self.cells(),
    {
        &self.grid
    }

    /// The active cell's position.
    pub fn active_cell(&self) -> (a: ActiveCell)
        ensures
            a == self.active(),
    {
        self.active_cell
    }

    /// Whether a cell is being edited.
    pub fn is_editing(&self) -> (b: bool)
        ensures
            b == self.editing() is Some,
    {
        self.edit.is_some()
    }

    /// The edit session, while editing.
    pub fn edit_session(&self) -> (e: Option<&EditSession>)
        ensures
            match e {
                Some(e) => self.editing() == Some(e@),
                None => self.editing() is None,
            },
    {
        self.edit.as_ref()
    }

    /// The width of a cell on screen.
    pub fn cell_width(&self) -> (w: usize)
        ensures
            w == self.width(),
    {
        self.cell_width
    }

    /// The height of a cell on screen.
    pub fn cell_height(&self) -> (h: usize)
        ensures
            h == self.height(),
    {
        self.cell_height
    }

    /// The active cell.
    pub fn get_active_cell(&self) -> (c: &Cell)
        requires
            self.wf(),
        ensures
            c@ == self.cells()[self.active().row as int][self.active().col as int],
    {
        self.grid.get(self.active_cell.row, self.active_cell.col)
    }

    /// What the cell at `(row, col)` shows (see `CellGrid::display_value`).
    pub fn display_value(&self, row: usize, col: usize) -> (r: String)
        requires
            self.wf(),
            row < self.cells().len(),
            col < self.cells()[0].len(),
        ensures
            r@ == display_spec(self.cells(), row as int, col as int),
    {
        self.grid.display_value(row, col)
    }

    /// Replaces the text of the cell at `(row, col)`; a coordinate outside
    /// the grid fails and changes nothing.
    pub fn set_value(&mut self, row: usize, col: usize, value: &str) -> (r: Result<(), crate::error::SheetError>)
        requires
            old(self).wf(),
        ensures
            final(self).wf(),
            final(self).active() == old(self).active(),
            final(self).editing() == old(self).editing(),
            r is Ok ==> final(self).cells() == with_text(
                old(self).cells(),
                CellAddress { row, col },
                value@,
            ),
            r is Err ==> final(self).cells() == old(self).cells(),
            r is Ok <==> row < old(self).cells().len() && col < old(self).cells()[0].len(),
    {
        self.grid.set_text(row, col, value.to_string())
    }

    /// Opens the active cell for editing, with the cursor at the end of its
    /// text; does nothing while already editing.
    pub fn enter_text(&mut self)
        requires
            old(self).wf(),
        ensures
            final(self).wf(),
            browse_post(*old(self), *final(self), Key::Enter),
    {
        if self.edit.is_none() {
            let cell = self.grid.get(self.active_cell.row, self.active_cell.col);
            self.edit = Some(EditSession::open(cell.text()));
        }
    }

    /// Handles a key while browsing (see `browse_post`).
    pub fn handle_key_press(&mut self, key: Key)
        requires
            old(self).wf(),
        ensures
            final(self).wf(),
            browse_post(*old(self), *final(self), key),
    {
        if self.edit.is_some() {
            return;
        }
        let rows = self.grid.rows();
        let cols = self.grid.cols();
        match key {
            Key::Up => self.active_cell.move_up(),
            Key::Down => self.active_cell.move_down(rows),
            Key::Left => self.active_cell.move_left(),
            Key::Right => self.active_cell.move_right(cols),
            Key::Enter => self.enter_text(),
            _ => {},
        }
    }

    /// Handles a key while editing (see `edit_post`).
    pub fn write_text(&mut self, key: Key)
        requires
            old(self).wf(),
        ensures
            final(self).wf(),
            edit_post(*old(self), *final(self), key),
    {
        let width = self.cell_width;
        match self.edit.take() {
            None => {},
            Some(mut session) => {
                proof {
                    self.lemma_grid_wf();
                }
                if key == Key::Tab || key == Key::Esc {
                    let text = session.active_text();
                    let _ = self.grid.set_text(self.active_cell.row, self.active_cell.col, text);
                } else {
                    let typing = match key {
                        Key::Char(_) => true,
                        _ => false,
                    };
                    if !(typing && session.text_len() > usize::MAX - 2) {
                        session.apply(key, width);
                    }
                    self.edit = Some(session);
                }
            },
        }
    }

    /// Handles a key in whichever state the sheet is in.
    pub fn focus(&mut self, key: Key)
        requires
            old(self).wf(),
        ensures
            final(self).wf(),
            old(self).editing() is Some ==> edit_post(*old(self), *final(self), key),
            old(self).editing() is None ==> browse_post(*old(self), *final(self), key),
    {
        if self.edit.is_some() {
            self.write_text(key);
        } else {
            self.handle_key_press(key);
        }
    }

    /// A fresh grid of this sheet's size holding the stored entries whose
    /// key names a cell inside it; other entries are left out.
    pub fn fill_all_cells(&self, cells: &Vec<(String, String)>) -> (g: CellGrid)
        requires
            self.wf(),
        ensures
            g.wf(),
            g@ == load_spec(
                blank(self.cells().len() as int, self.cells()[0].len() as int),
                keyed_entries(cells@),
            ),
    {
        let mut g = CellGrid::new(self.grid.rows(), self.grid.cols());
        let entries = decode_entries(cells);
        g.bulk_load(&entries);
        g
    }

    /// Replaces the cells by the stored entries (see `fill_all_cells`); the
    /// active cell and any edit are kept.
    pub fn load_cells(&mut self, cells: Vec<(String, String)>)
        requires
            old(self).wf(),
        ensures
            final(self).wf(),
            final(self).cells() == load_spec(
                blank(old(self).cells().len() as int, old(self).cells()[0].len() as int),
                keyed_entries(cells@),
            ),
            final(self).active() == old(self).active(),
            final(self).editing() == old(self).editing(),
    {
        let g = self.fill_all_cells(&cells);
        proof {
            let b = blank(self.cells().len() as int, self.cells()[0].len() as int);
            assert(b[0].len() == self.cells()[0].len());
            lemma_load_shape(b, keyed_entries(cells@));
            assert(g@[0].len() == b[0].len());
        }
        self.grid = g;
    }

    /// The non-empty cells as entries to store, keyed `"{row}:{col}"`, in
    /// row-major order.
    pub fn export_cells(&self) -> (r: Vec<(String, String)>)
        requires
            self.wf(),
        ensures
            exists|e: Seq<(CellAddress, String)>| exported(self.cells(), e) && encoded(e, r@),
    {
        let e = self.grid.bulk_export();
        encode_entries(&e)
    }
}

} // verus!
