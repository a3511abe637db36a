//! The grid: a fixed rectangle of cells, each holding raw text and the
//! formula parsed from it.

use vstd::prelude::*;
use crate::address::CellAddress;
use crate::error::SheetError;
use crate::text::decimal_string;
use crate::evaluation::{FormulaHandler, cached_view, eval_range, evaluate, in_grid, is_grid};
use crate::formulas::{FormulaType, ParsedFormula, parse_formula, parse_spec, parsed_formula};

verus! {

/// The formula a cell keeps, as a value.
pub open spec fn kept_view(f: Option<ParsedFormula>) -> Option<(FormulaType, Seq<CellAddress>)> {
    match f {
        Some(f) => Some(f@),
        None => None,
    }
}

/// One cell: its raw text, and the formula parsed from it when the text is a
/// well-formed formula.
#[derive(Debug)]
pub struct Cell {
    text: String,
    formula: Option<ParsedFormula>,
}

impl View for Cell {
    type V = Seq<char>;

    closed spec fn view(&self) -> Seq<char> {
        self.text@
    }
}

impl Cell {
    #[verifier::type_invariant]
    spec fn formula_is_cached(&self) -> bool {
        kept_view(self.formula) == parsed_formula(parse_spec(self.text@))
    }

    /// A cell holding `text`, with its formula parsed.
    pub fn new(text: String) -> (c: Cell)
        ensures
            c@ == text@,
    {
        let formula = match parse_formula(text.as_str()) {
            Some(Ok(f)) => Some(f),
            _ => None,
        };
        Cell { text, formula }
    }

    /// The raw text.
    pub fn text(&self) -> (t: &str)
        ensures
            t@ == self@,
    {
        self.text.as_str()
    }

    /// The formula parsed from the text, when it is a well-formed formula.
    pub fn formula(&self) -> (f: Option<&ParsedFormula>)
        ensures
            cached_view(f) == parsed_formula(parse_spec(self@)),
    {
        proof {
            use_type_invariant(self);
        }
        self.formula.as_ref()
    }
}

/// A grid of `rows` by `cols` empty cells.
pub open spec fn blank(rows: int, cols: int) -> Seq<Seq<Seq<char>>> {
    Seq::new(rows as nat, |r: int| Seq::new(cols as nat, |c: int| Seq::<char>::empty()))
}

/// The grid `t` with the text at `a` replaced by `s`.
pub open spec fn with_text(t: Seq<Seq<Seq<char>>>, a: CellAddress, s: Seq<char>) -> Seq<Seq<Seq<char>>> {
    t.update(a.row as int, t[a.row as int].update(a.col as int, s))
}

/// The grid `t` after each entry in turn has set its cell's text; entries
/// outside the grid are skipped.
pub open spec fn load_spec(t: Seq<Seq<Seq<char>>>, entries: Seq<(CellAddress, String)>) -> Seq<
    Seq<Seq<char>>,
>
    decreases entries.len(),
{
    if entries.len() == 0 {
        t
    } else {
        let before = load_spec(t, entries.drop_last());
        let e = entries.last();
        if in_grid(before, e.0) {
            with_text(before, e.0, e.1@)
        } else {
            before
        }
    }
}

/// The address of row `row`, column `col`.
pub open spec fn address_of(row: int, col: int) -> CellAddress {
    CellAddress { row: row as usize, col: col as usize }
}

/// Whether `a` comes before `b` in row-major order.
pub open spec fn precedes(a: CellAddress, b: CellAddress) -> bool {
    a.row < b.row || (a.row == b.row && a.col < b.col)
}

/// Whether `entries` lists exactly the non-empty cells of `t`, with their
/// text, in row-major order.
pub open spec fn exported(t: Seq<Seq<Seq<char>>>, entries: Seq<(CellAddress, String)>) -> bool {
    &&& forall|i: int|
        0 <= i < entries.len() ==> {
            let e = #[trigger] entries[i];
            &&& in_grid(t, e.0)
            &&& e.1@ == t[e.0.row as int][e.0.col as int]
            &&& e.1@.len() > 0
        }
    &&& forall|i: int, j: int|
        0 <= i < j < entries.len() ==> precedes(#[trigger] entries[i].0, #[trigger] entries[j].0)
    &&& forall|r: int, c: int|
        0 <= r < t.len() && 0 <= c < t[0].len() && (#[trigger] t[r][c]).len() > 0 ==> exists|i: int|
            0 <= i < entries.len() && entries[i].0 == address_of(r, c)
}

/// Loading keeps the grid's shape.
pub proof fn lemma_load_shape(t: Seq<Seq<Seq<char>>>, entries: Seq<(CellAddress, String)>)
    requires
        is_grid(t),
    ensures
        load_spec(t, entries).len() == t.len(),
        forall|r: int| 0 <= r < t.len() ==> (#[trigger] load_spec(t, entries)[r]).len() == t[r].len(),
    decreases entries.len(),
{
    if entries.len() > 0 {
        lemma_load_shape(t, entries.drop_last());
    }
}

/// After loading entries for distinct cells, a cell holds the text of the
/// entry for it, or its old text when there is none.
pub proof fn lemma_load_cell(t: Seq<Seq<Seq<char>>>, entries: Seq<(CellAddress, String)>, r: int, c: int)
    requires
        is_grid(t),
        0 <= r < t.len(),
        0 <= c < t[0].len(),
        forall|i: int, j: int|
            0 <= i < j < entries.len() ==> #[trigger] entries[i].0 != #[trigger] entries[j].0,
    ensures
        forall|i: int|
            0 <= i < entries.len() && (#[trigger] entries[i]).0 == address_of(r, c) ==> load_spec(
                t,
                entries,
            )[r][c] == entries[i].1@,
        (forall|i: int| 0 <= i < entries.len() ==> (#[trigger] entries[i]).0 != address_of(r, c))
            ==> load_spec(t, entries)[r][c] == t[r][c],
    decreases entries.len(),
{
    if entries.len() > 0 {
        let init = entries.drop_last();
        assert forall|i: int, j: int| 0 <= i < j < init.len() implies #[trigger] init[i].0
            != #[trigger] init[j].0 by {
            assert(init[i] == entries[i] && init[j] == entries[j]);
        }
        lemma_load_cell(t, init, r, c);
        lemma_load_shape(t, init);
        let before = load_spec(t, init);
        let e = entries.last();
        assert(before[r].len() == t[0].len());
        assert(before[0].len() == t[0].len());
        let l = load_spec(t, entries);
        if e.0 == address_of(r, c) {
            assert(in_grid(before, e.0));
            assert(l[r][c] == e.1@);
        } else {
            assert(l[r][c] == before[r][c]);
        }
        assert forall|i: int|
            0 <= i < entries.len() && (#[trigger] entries[i]).0 == address_of(r, c) implies l[r][c]
            == entries[i].1@ by {
            if i < entries.len() - 1 {
                assert(init[i] == entries[i]);
                assert(entries[i].0 != entries[entries.len() - 1].0);
            }
        }
        if forall|i: int| 0 <= i < entries.len() ==> (#[trigger] entries[i]).0 != address_of(r, c) {
            assert forall|i: int| 0 <= i < init.len() implies (#[trigger] init[i]).0 != address_of(
                r,
                c,
            ) by {
                assert(init[i] == entries[i]);
            }
            assert(entries[entries.len() - 1] == e);
        }
    }
}

/// Exporting a grid's non-empty cells and loading them into a blank grid of
/// the same size gives back the same grid.
pub proof fn lemma_export_load_round_trip(t: Seq<Seq<Seq<char>>>, entries: Seq<(CellAddress, String)>)
    requires
        is_grid(t),
        exported(t, entries),
    ensures
        load_spec(blank(t.len() as int, t[0].len() as int), entries) == t,
{
    let b = blank(t.len() as int, t[0].len() as int);
    let l = load_spec(b, entries);
    assert(b[0].len() == t[0].len());
    assert(is_grid(b));
    lemma_load_shape(b, entries);
    assert forall|i: int, j: int| 0 <= i < j < entries.len() implies #[trigger] entries[i].0
        != #[trigger] entries[j].0 by {
        assert(precedes(entries[i].0, entries[j].0));
    }
    assert forall|r: int| 0 <= r < t.len() implies #[trigger] l[r] =~= t[r] by {
        assert(t[r].len() == t[0].len());
        assert forall|c: int| 0 <= c < t[r].len() implies #[trigger] l[r][c] == t[r][c] by {
            lemma_load_cell(b, entries, r, c);
            if t[r][c].len() > 0 {
                let i = choose|i: int| 0 <= i < entries.len() && entries[i].0 == address_of(r, c);
                assert(entries[i].1@ == t[r][c]);
            } else {
                assert forall|i: int| 0 <= i < entries.len() implies (#[trigger] entries[i]).0
                    != address_of(r, c) by {
                    if entries[i].0 == address_of(r, c) {
                        assert(entries[i].1@.len() > 0);
                    }
                }
                assert(t[r][c] =~= b[r][c]);
            }
        }
    }
    assert(l =~= t);
}

/// What a cell shows when its formula fails to evaluate.
pub open spec fn error_marker() -> Seq<char> {
    seq!['E', 'r', 'r', 'o', 'r']
}

/// What a cell shows: its formula's value, the error marker when that
/// formula fails, or its raw text when it holds no formula.
pub open spec fn display_spec(t: Seq<Seq<Seq<char>>>, row: int, col: int) -> Seq<char> {
    match parsed_formula(parse_spec(t[row][col])) {
        Some(f) => match eval_range(t, f.0, f.1, Set::empty()) {
            Ok(v) => decimal_string(v),
            Err(_) => error_marker(),
        },
        None => t[row][col],
    }
}

/// A rectangular grid of cells, fixed in size when it is made.
#[derive(Debug)]
pub struct CellGrid {
    cells: Vec<Vec<Cell>>,
}

impl View for CellGrid {
    type V = Seq<Seq<Seq<char>>>;

    closed spec fn view(&self) -> Seq<Seq<Seq<char>>> {
        Seq::new(self.cells@.len(), |r: int| Seq::new(self.cells@[r]@.len(), |c: int| self.cells@[r]@[c]@))
    }
}

impl FormulaHandler for CellGrid {
    open spec fn texts(&self) -> Seq<Seq<Seq<char>>> {
        self@
    }

    fn row_count(&self) -> (n: usize) {
        self.cells.len()
    }

    fn col_count(&self) -> (n: usize) {
        self.cells[0].len()
    }

    fn cell_text(&self, row: usize, col: usize) -> (t: &String) {
        assert(self@[row as int].len() == self@[0].len());
        &self.cells[row][col].text
    }

    fn cell_formula(&self, row: usize, col: usize) -> (f: Option<&ParsedFormula>) {
        assert(self@[row as int].len() == self@[0].len());
        self.cells[row][col].formula()
    }
}

impl CellGrid {
    /// Well-formed: at least one row and one column, every row as long as
    /// the first.
    pub open spec fn wf(&self) -> bool {
        is_grid(self@)
    }

    /// A grid of `rows` by `cols` empty cells.
    pub fn new(rows: usize, cols: usize) -> (g: CellGrid)
        requires
            rows >= 1,
            cols >= 1,
            rows * cols <= usize::MAX,
        ensures
            g@ == blank(rows as int, cols as int),
    {
        let mut cells: Vec<Vec<Cell>> = Vec::new();
        let mut r: usize = 0;
        while r < rows
            invariant
                r <= rows,
                cells@.len() == r,
                forall|i: int| 0 <= i < r ==> (#[trigger] cells@[i])@.len() == cols,
                forall|i: int, j: int|
                    0 <= i < r && 0 <= j < cols ==> (#[trigger] cells@[i]@[j])@.len() == 0,
            decreases rows - r,
        {
            let mut row: Vec<Cell> = Vec::new();
            let mut c: usize = 0;
            while c < cols
                invariant
                    c <= cols,
                    row@.len() == c,
                    forall|j: int| 0 <= j < c ==> (#[trigger] row@[j])@.len() == 0,
                decreases cols - c,
            {
                row.push(Cell::new(String::new()));
                c = c + 1;
            }
            cells.push(row);
            r = r + 1;
        }
        let g = CellGrid { cells };
        assert(g@ =~= blank(rows as int, cols as int)) by {
            assert forall|i: int| 0 <= i < rows implies g@[i] =~= blank(rows as int, cols as int)[i] by {
                assert(cells@[i]@.len() == cols);
                assert forall|j: int| 0 <= j < cols implies g@[i][j] =~= Seq::<char>::empty() by {
                    assert(cells@[i]@[j]@.len() == 0);
                }
            }
        }
        g
    }

    /// The number of rows.
    pub fn rows(&self) -> (n: usize)
        requires
            self.wf(),
        ensures
            n == self@.len(),
    {
        self.cells.len()
    }

    /// The number of columns.
    pub fn cols(&self) -> (n: usize)
        requires
            self.wf(),
        ensures
            n == self@[0].len(),
    {
        self.cells[0].len()
    }

    /// The cell at `(row, col)`.
    pub fn get(&self, row: usize, col: usize) -> (c: &Cell)
        requires
            self.wf(),
            row < self@.len(),
            col < self@[0].len(),
        ensures
            c@ == self@[row as int][col as int],
    {
        assert(self@[row as int].len() == self@[0].len());
        &self.cells[row][col]
    }

    /// Replaces the text at `(row, col)` and parses it anew; a coordinate
    /// outside the grid fails and changes nothing.
    pub fn set_text(&mut self, row: usize, col: usize, text: String) -> (r: Result<(), SheetError>)
        requires
            old(self).wf(),
        ensures
            final(self).wf(),
            in_grid(old(self)@, CellAddress { row, col }) ==> r is Ok && final(self)@ == with_text(
                old(self)@,
                CellAddress { row, col },
                text@,
            ),
            !in_grid(old(self)@, CellAddress { row, col }) ==> r == Err::<(), SheetError>(
                SheetError::OutOfBounds,
            ) && final(self)@ == old(self)@,
    {
        if row >= self.cells.len() || col >= self.cells[0].len() {
            return Err(SheetError::OutOfBounds);
        }
        assert(self@[row as int].len() == self@[0].len());
        let ghost before = self@;
        self.cells[row][col] = Cell::new(text);
        assert(self@ =~= with_text(before, CellAddress { row, col }, text@)) by {
            assert forall|i: int| 0 <= i < self@.len() implies self@[i] =~= with_text(
                before,
                CellAddress { row, col },
                text@,
            )[i] by {}
        }
        Ok(())
    }

    /// Sets the text of every entry's cell in turn; entries outside the grid
    /// are skipped.
    pub fn bulk_load(&mut self, entries: &Vec<(CellAddress, String)>)
        requires
            old(self).wf(),
        ensures
            final(self).wf(),
            final(self)@ == load_spec(old(self)@, entries@),
    {
        let ghost start = self@;
        let mut i: usize = 0;
        assert(entries@.subrange(0, 0) =~= Seq::<(CellAddress, String)>::empty());
        while i < entries.len()
            invariant
                i <= entries.len(),
                self.wf(),
                self@ == load_spec(start, entries@.subrange(0, i as int)),
            decreases entries.len() - i,
        {
            let ghost next = entries@.subrange(0, i + 1);
            assert(next.drop_last() =~= entries@.subrange(0, i as int));
            let e = &entries[i];
            let _ = self.set_text(e.0.row, e.0.col, e.1.clone());
            i = i + 1;
        }
        assert(entries@.subrange(0, entries.len() as int) =~= entries@);
    }

    /// Every cell with non-empty text, with its address, in row-major order.
    pub fn bulk_export(&self) -> (r: Vec<(CellAddress, String)>)
        requires
            self.wf(),
        ensures
            exported(self@, r@),
    {
        let ghost t = self@;
        let rows = self.rows();
        let cols = self.cols();
        let mut out: Vec<(CellAddress, String)> = Vec::new();
        let mut r: usize = 0;
        while r < rows
            invariant
                t == self@,
                self.wf(),
                rows == t.len(),
                cols == t[0].len(),
                r <= rows,
                forall|i: int|
                    0 <= i < out@.len() ==> {
                        let e = #[trigger] out@[i];
                        &&& in_grid(t, e.0)
                        &&& e.1@ == t[e.0.row as int][e.0.col as int]
                        &&& e.1@.len() > 0
                        &&& e.0.row < r
                    },
                forall|i: int, j: int|
                    0 <= i < j < out@.len() ==> precedes(#[trigger] out@[i].0, #[trigger] out@[j].0),
                forall|rr: int, cc: int|
                    0 <= rr < r && 0 <= cc < cols && (#[trigger] t[rr][cc]).len() > 0 ==> exists|i: int|
                        0 <= i < out@.len() && out@[i].0 == address_of(rr, cc),
            decreases rows - r,
        {
            let mut c: usize = 0;
            while c < cols
                invariant
                    t == self@,
                    self.wf(),
                    rows == t.len(),
                    cols == t[0].len(),
                    r < rows,
                    c <= cols,
                    forall|i: int|
                        0 <= i < out@.len() ==> {
                            let e = #[trigger] out@[i];
                            &&& in_grid(t, e.0)
                            &&& e.1@ == t[e.0.row as int][e.0.col as int]
                            &&& e.1@.len() > 0
                            &&& precedes(e.0, address_of(r as int, c as int))
                        },
                    forall|i: int, j: int|
                        0 <= i < j < out@.len() ==> precedes(#[trigger] out@[i].0, #[trigger] out@[j].0),
                    forall|rr: int, cc: int|
                        0 <= rr < t.len() && 0 <= cc < cols && (rr < r || (rr == r && cc < c)) && (
                        #[trigger] t[rr][cc]).len() > 0 ==> exists|i: int|
                            0 <= i < out@.len() && out@[i].0 == address_of(rr, cc),
                decreases cols - c,
            {
                let cell = self.get(r, c);
                let text = cell.text();
                if !text.is_empty() {
                    let ghost before = out@;
                    let a = CellAddress { row: r, col: c };
                    out.push((a, text.to_string()));
                    assert forall|rr: int, cc: int|
                        0 <= rr < t.len() && 0 <= cc < cols && (rr < r || (rr == r && cc < c + 1))
                            && (#[trigger] t[rr][cc]).len() > 0 implies exists|i: int|
                        0 <= i < out@.len() && out@[i].0 == address_of(rr, cc) by {
                        if rr == r && cc == c {
                            assert(out@[out@.len() - 1].0 == a);
                        } else {
                            let i = choose|i: int|
                                0 <= i < before.len() && before[i].0 == address_of(rr, cc);
                            assert(out@[i] == before[i]);
                        }
                    }
                } else {
                    assert(text@.len() == 0);
                }
                c = c + 1;
            }
            r = r + 1;
        }
        out
    }

    /// What the cell at `(row, col)` shows: its formula's value, the error
    /// marker when the formula fails, or its raw text.
    pub fn display_value(&self, row: usize, col: usize) -> (r: String)
        requires
            self.wf(),
            row < self@.len(),
            col < self@[0].len(),
        ensures
            r@ == display_spec(self@, row as int, col as int),
    {
        let cell = self.get(row, col);
        match cell.formula() {
            Some(f) => match evaluate(f, self) {
                Ok(v) => v,
                Err(_) => {
                    let m = String::from_str("Error");
                    proof {
                        reveal_strlit("Error");
                        assert(m@ =~= error_marker());
                    }
                    m
                },
            },
            None => cell.text().to_string(),
        }
    }
}

} // verus!
