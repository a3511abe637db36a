//! Evaluating formulas against a grid: each cell read contributes a number,
//! formulas that read formulas are followed, and cycles are caught.

use vstd::prelude::*;
use crate::address::CellAddress;
use crate::error::SheetError;
use crate::formulas::{FormulaType, ParsedFormula, parse_spec, parsed_formula};
use crate::text::{all_digits, chars_of, decimal_string, digits_value, format_i64, parse_decimal};
use vstd::set_lib::{lemma_int_range, lemma_len_subset, set_int_range};

verus! {

/// The integer that a cell's text spells: an optional `+` or `-`, then
/// decimal digits, within the range of a 64-bit signed integer.
pub open spec fn numeric_value(s: Seq<char>) -> Option<int> {
    if s.len() > 0 && (s[0] == '-' || s[0] == '+') {
        let m = digits_value(s.drop_first());
        let v = if s[0] == '-' {
            -m
        } else {
            m
        };
        if all_digits(s.drop_first()) && i64::MIN <= v <= i64::MAX {
            Some(v)
        } else {
            None
        }
    } else if all_digits(s) && digits_value(s) <= i64::MAX {
        Some(digits_value(s))
    } else {
        None
    }
}

/// The integer that `text` spells, if any (see `numeric_value`).
pub fn parse_number(text: &str) -> (r: Option<i64>)
    ensures
        match (r, numeric_value(text@)) {
            (Some(x), Some(v)) => x == v,
            (None, None) => true,
            _ => false,
        },
{
    let cs = chars_of(text);
    let n = cs.len();
    if n > 0 && (cs[0] == '-' || cs[0] == '+') {
        let negative = cs[0] == '-';
        assert(cs@.drop_first() =~= cs@.subrange(1, n as int));
        let limit: u64 = if negative {
            9223372036854775808
        } else {
            9223372036854775807
        };
        match parse_decimal(&cs, 1, n, limit) {
            Some(m) => {
                if negative {
                    Some((-(m as i128)) as i64)
                } else {
                    Some(m as i64)
                }
            },
            None => None,
        }
    } else {
        assert(cs@.subrange(0, n as int) =~= cs@);
        match parse_decimal(&cs, 0, n, 9223372036854775807) {
            Some(m) => Some(m as i64),
            None => None,
        }
    }
}

/// The value an operation starts from, and that a non-numeric cell adds.
pub open spec fn identity(op: FormulaType) -> int {
    if op == FormulaType::Product {
        1
    } else {
        0
    }
}

/// One step of an aggregate.
pub open spec fn combine(op: FormulaType, acc: int, x: int) -> int {
    if op == FormulaType::Product {
        acc * x
    } else {
        acc + x
    }
}

/// Whether the operation can be evaluated.
pub open spec fn evaluable(op: FormulaType) -> bool {
    op == FormulaType::Sum || op == FormulaType::Product
}

/// Whether `t` is a grid: at least one row and one column, every row as long
/// as the first, and its cells countable in a `usize`.
pub open spec fn is_grid(t: Seq<Seq<Seq<char>>>) -> bool {
    &&& t.len() >= 1
    &&& t[0].len() >= 1
    &&& forall|r: int| 0 <= r < t.len() ==> (#[trigger] t[r]).len() == t[0].len()
    &&& t.len() <= usize::MAX
    &&& t[0].len() <= usize::MAX
    &&& t.len() * t[0].len() <= usize::MAX
}

/// The number of cells of a grid.
pub open spec fn cell_count(t: Seq<Seq<Seq<char>>>) -> int {
    (t.len() * t[0].len()) as int
}

/// Whether `a` lies inside the grid `t`.
pub open spec fn in_grid(t: Seq<Seq<Seq<char>>>, a: CellAddress) -> bool {
    a.row < t.len() && a.col < t[0].len()
}

/// The row-major position of `a` in the grid `t`.
pub open spec fn cell_index(t: Seq<Seq<Seq<char>>>, a: CellAddress) -> int {
    a.row * t[0].len() + a.col
}

/// Whether `visiting` is a set of cell positions of the grid `t`.
pub open spec fn evaluation_state(t: Seq<Seq<Seq<char>>>, visiting: Set<int>) -> bool {
    is_grid(t) && visiting.finite() && visiting.subset_of(set_int_range(0, cell_count(t)))
}

/// The row-major position of a cell of the grid lies among its cells.
pub proof fn lemma_cell_index(t: Seq<Seq<Seq<char>>>, a: CellAddress)
    requires
        is_grid(t),
        in_grid(t, a),
    ensures
        0 <= cell_index(t, a) < cell_count(t),
{
    let rows = t.len() as int;
    let cols = t[0].len() as int;
    let r = a.row as int;
    let c = a.col as int;
    assert(0 <= r * cols + c < rows * cols) by (nonlinear_arith)
        requires
            0 <= r < rows,
            0 <= c < cols,
    ;
}

/// Adding an unvisited cell to the visited ones leaves fewer to visit.
pub proof fn lemma_visit(t: Seq<Seq<Seq<char>>>, visiting: Set<int>, i: int)
    requires
        evaluation_state(t, visiting),
        0 <= i < cell_count(t),
        !visiting.contains(i),
    ensures
        evaluation_state(t, visiting.insert(i)),
        visiting.insert(i).len() == visiting.len() + 1,
        visiting.insert(i).len() <= cell_count(t),
{
    lemma_int_range(0, cell_count(t));
    lemma_len_subset(visiting.insert(i), set_int_range(0, cell_count(t)));
}

/// The value of the aggregate `op` over `range`, when the cells in
/// `visiting` are being evaluated further up: every cell read must be in the
/// grid and not among them, and no partial result may leave the `i64` range.
pub open spec fn eval_range(
    t: Seq<Seq<Seq<char>>>,
    op: FormulaType,
    range: Seq<CellAddress>,
    visiting: Set<int>,
) -> Result<int, SheetError>
    decreases cell_count(t) - visiting.len(), range.len() + 1,
    when evaluation_state(t, visiting)
{
    if !evaluable(op) {
        Err(SheetError::UnsupportedOperation)
    } else if range.len() == 0 {
        Ok(identity(op))
    } else {
        match eval_range(t, op, range.drop_last(), visiting) {
            Err(e) => Err(e),
            Ok(acc) => match eval_cell(t, range.last(), visiting) {
                Err(e) => Err(e),
                Ok(v) => {
                    let x = match v {
                        Some(x) => x,
                        None => identity(op),
                    };
                    let r = combine(op, acc, x);
                    if i64::MIN <= r <= i64::MAX {
                        Ok(r)
                    } else {
                        Err(SheetError::Overflow)
                    }
                },
            },
        }
    }
}

/// The number that cell `a` contributes: its formula's value when it holds
/// one, else the integer its text spells, if any.
pub open spec fn eval_cell(t: Seq<Seq<Seq<char>>>, a: CellAddress, visiting: Set<int>) -> Result<
    Option<int>,
    SheetError,
>
    decreases cell_count(t) - visiting.len(), 0int,
    when evaluation_state(t, visiting)
{
    if !in_grid(t, a) {
        Err(SheetError::OutOfBounds)
    } else if visiting.contains(cell_index(t, a)) {
        Err(SheetError::CircularReference)
    } else {
        match parsed_formula(parse_spec(t[a.row as int][a.col as int])) {
            Some(f) => {
                proof {
                    lemma_cell_index(t, a);
                    lemma_visit(t, visiting, cell_index(t, a));
                }
                match eval_range(t, f.0, f.1, visiting.insert(cell_index(t, a))) {
                    Ok(v) => Ok(Some(v)),
                    Err(e) => Err(e),
                }
            },
            None => Ok(numeric_value(t[a.row as int][a.col as int])),
        }
    }
}

/// The formula parsed from the text of cell `a`, when there is one.
pub open spec fn formula_at(t: Seq<Seq<Seq<char>>>, a: CellAddress) -> (FormulaType, Seq<CellAddress>) {
    parsed_formula(parse_spec(t[a.row as int][a.col as int]))->0
}

/// Whether cell `b` lies in the grid and holds a formula that reads some
/// cell of `s`.
pub open spec fn reads_into(t: Seq<Seq<Seq<char>>>, s: Set<CellAddress>, b: CellAddress) -> bool {
    &&& in_grid(t, b)
    &&& parsed_formula(parse_spec(t[b.row as int][b.col as int])) is Some
    &&& exists|j: int|
        0 <= j < formula_at(t, b).1.len() && s.contains(#[trigger] formula_at(t, b).1[j])
}

/// Whether cell `c` lies in the grid and holds no formula.
pub open spec fn plain(t: Seq<Seq<Seq<char>>>, c: CellAddress) -> bool {
    in_grid(t, c) && parsed_formula(parse_spec(t[c.row as int][c.col as int])) is None
}

/// Whether no cell without a formula is among the cells being evaluated.
pub open spec fn marks_formulas_only(t: Seq<Seq<Seq<char>>>, visiting: Set<int>) -> bool {
    forall|c: CellAddress| plain(t, c) ==> !visiting.contains(#[trigger] cell_index(t, c))
}

/// Whether cell `b` lies in the grid and holds an evaluable formula whose
/// range reads a cell of `s` at position `j`, after cells without formulas
/// whose aggregate stays within range.
pub open spec fn reaches_at(t: Seq<Seq<Seq<char>>>, s: Set<CellAddress>, b: CellAddress, j: int) -> bool {
    &&& in_grid(t, b)
    &&& parsed_formula(parse_spec(t[b.row as int][b.col as int])) is Some
    &&& evaluable(formula_at(t, b).0)
    &&& 0 <= j < formula_at(t, b).1.len()
    &&& s.contains(formula_at(t, b).1[j])
    &&& forall|i: int| 0 <= i < j ==> plain(t, #[trigger] formula_at(t, b).1[i])
    &&& eval_range(t, formula_at(t, b).0, formula_at(t, b).1.subrange(0, j), Set::empty()) is Ok
}

/// Whether cell `b` reaches a cell of `s` (see `reaches_at`).
pub open spec fn reaches_into(t: Seq<Seq<Seq<char>>>, s: Set<CellAddress>, b: CellAddress) -> bool {
    exists|j: int| reaches_at(t, s, b, j)
}

/// Two cells of a grid at the same row-major position are the same cell.
pub proof fn lemma_cell_index_injective(t: Seq<Seq<Seq<char>>>, a: CellAddress, b: CellAddress)
    requires
        is_grid(t),
        in_grid(t, a),
        in_grid(t, b),
        cell_index(t, a) == cell_index(t, b),
    ensures
        a == b,
{
    let cols = t[0].len() as int;
    let (ra, ca, rb, cb) = (a.row as int, a.col as int, b.row as int, b.col as int);
    assert(ra == rb) by (nonlinear_arith)
        requires
            ra * cols + ca == rb * cols + cb,
            0 <= ca < cols,
            0 <= cb < cols,
            0 <= ra,
            0 <= rb,
    {
        if ra < rb {
            assert(ra * cols + ca < (ra + 1) * cols);
            assert((ra + 1) * cols <= rb * cols);
        } else if rb < ra {
            assert(rb * cols + cb < (rb + 1) * cols);
            assert((rb + 1) * cols <= ra * cols);
        }
    }
}

/// Marking a cell that holds a formula keeps plain cells unmarked.
pub proof fn lemma_mark_formula_cell(t: Seq<Seq<Seq<char>>>, visiting: Set<int>, b: CellAddress)
    requires
        is_grid(t),
        in_grid(t, b),
        parsed_formula(parse_spec(t[b.row as int][b.col as int])) is Some,
        marks_formulas_only(t, visiting),
    ensures
        marks_formulas_only(t, visiting.insert(cell_index(t, b))),
{
    assert forall|c: CellAddress| plain(t, c) implies !visiting.insert(cell_index(t, b)).contains(
        #[trigger] cell_index(t, c),
    ) by {
        if cell_index(t, c) == cell_index(t, b) {
            lemma_cell_index_injective(t, c, b);
        }
    }
}

/// A range of cells without formulas, none of them being evaluated, has the
/// same value whatever is being evaluated further up.
pub proof fn lemma_plain_range(
    t: Seq<Seq<Seq<char>>>,
    op: FormulaType,
    range: Seq<CellAddress>,
    visiting: Set<int>,
)
    requires
        evaluation_state(t, visiting),
        marks_formulas_only(t, visiting),
        forall|i: int| 0 <= i < range.len() ==> plain(t, #[trigger] range[i]),
    ensures
        evaluation_state(t, Set::empty()),
        eval_range(t, op, range, visiting) == eval_range(t, op, range, Set::empty()),
    decreases range.len(),
{
    lemma_int_range(0, cell_count(t));
    assert(Set::<int>::empty().subset_of(set_int_range(0, cell_count(t))));
    if range.len() > 0 {
        let init = range.drop_last();
        assert forall|i: int| 0 <= i < init.len() implies plain(t, #[trigger] init[i]) by {
            assert(init[i] == range[i]);
        }
        lemma_plain_range(t, op, init, visiting);
        let c = range.last();
        assert(plain(t, c));
        assert(!visiting.contains(cell_index(t, c)));
        assert(eval_cell(t, c, visiting) == eval_cell(t, c, Set::empty()));
    }
}

/// A formula that reaches a cell of `s` whose evaluation fails with a
/// circular reference fails with it too.
pub proof fn lemma_reach_error(
    t: Seq<Seq<Seq<char>>>,
    s: Set<CellAddress>,
    a: CellAddress,
    j: int,
    visiting: Set<int>,
)
    requires
        evaluation_state(t, visiting),
        marks_formulas_only(t, visiting),
        reaches_at(t, s, a, j),
        eval_cell(t, formula_at(t, a).1[j], visiting) == Err::<Option<int>, SheetError>(
            SheetError::CircularReference,
        ),
    ensures
        eval_range(t, formula_at(t, a).0, formula_at(t, a).1, visiting) == Err::<int, SheetError>(
            SheetError::CircularReference,
        ),
{
    let f = formula_at(t, a);
    let p = f.1.subrange(0, j);
    assert forall|i: int| 0 <= i < p.len() implies plain(t, #[trigger] p[i]) by {
        assert(p[i] == f.1[i]);
    }
    lemma_plain_range(t, f.0, p, visiting);
    let q = f.1.subrange(0, j + 1);
    assert(q.drop_last() =~= p);
    assert(q.last() == f.1[j]);
    assert(eval_range(t, f.0, q, visiting) == Err::<int, SheetError>(
        SheetError::CircularReference,
    ));
    lemma_prefix_error(t, f.0, f.1, visiting, j + 1);
}

/// Evaluating a cell of a cycle fails with a circular reference, when each
/// cell of the cycle reads the next one after cells without formulas whose
/// aggregate stays within range. This holds for the top-level evaluation
/// (nothing being evaluated yet) and at every depth below it.
pub proof fn lemma_circular(
    t: Seq<Seq<Seq<char>>>,
    s: Set<CellAddress>,
    a: CellAddress,
    visiting: Set<int>,
)
    requires
        evaluation_state(t, visiting),
        marks_formulas_only(t, visiting),
        forall|b: CellAddress| #[trigger] s.contains(b) ==> reaches_into(t, s, b),
        s.contains(a),
    ensures
        eval_cell(t, a, visiting) == Err::<Option<int>, SheetError>(
            SheetError::CircularReference,
        ),
        eval_range(t, formula_at(t, a).0, formula_at(t, a).1, visiting) == Err::<int, SheetError>(
            SheetError::CircularReference,
        ),
    decreases cell_count(t) - visiting.len(),
{
    assert(reaches_into(t, s, a));
    let j = choose|j: int| reaches_at(t, s, a, j);
    let f = formula_at(t, a);
    let b = f.1[j];
    assert(reaches_into(t, s, b));
    lemma_cell_index(t, b);
    if !visiting.contains(cell_index(t, b)) {
        lemma_formula_cell(t, b, visiting);
        lemma_mark_formula_cell(t, visiting, b);
        lemma_circular(t, s, b, visiting.insert(cell_index(t, b)));
    }
    lemma_reach_error(t, s, a, j, visiting);
    lemma_cell_index(t, a);
    if !visiting.contains(cell_index(t, a)) {
        lemma_formula_cell(t, a, visiting);
        lemma_mark_formula_cell(t, visiting, a);
        let inner = visiting.insert(cell_index(t, a));
        if !inner.contains(cell_index(t, b)) {
            lemma_formula_cell(t, b, inner);
            lemma_mark_formula_cell(t, inner, b);
            lemma_circular(t, s, b, inner.insert(cell_index(t, b)));
        }
        lemma_reach_error(t, s, a, j, inner);
    }
}

/// An error at some cell of a range is an error of the whole range.
pub proof fn lemma_cell_error(
    t: Seq<Seq<Seq<char>>>,
    op: FormulaType,
    range: Seq<CellAddress>,
    j: int,
    visiting: Set<int>,
)
    requires
        evaluation_state(t, visiting),
        0 <= j < range.len(),
        eval_cell(t, range[j], visiting) is Err,
    ensures
        eval_range(t, op, range, visiting) is Err,
{
    let prefix = range.subrange(0, j + 1);
    assert(prefix.drop_last() =~= range.subrange(0, j));
    assert(prefix.last() == range[j]);
    assert(eval_range(t, op, prefix, visiting) is Err);
    lemma_prefix_error(t, op, range, visiting, j + 1);
}

/// A cell of the grid that holds a formula, and is not being evaluated
/// further up, has the value of that formula.
pub proof fn lemma_formula_cell(t: Seq<Seq<Seq<char>>>, a: CellAddress, visiting: Set<int>)
    requires
        evaluation_state(t, visiting),
        in_grid(t, a),
        !visiting.contains(cell_index(t, a)),
        parsed_formula(parse_spec(t[a.row as int][a.col as int])) is Some,
    ensures
        evaluation_state(t, visiting.insert(cell_index(t, a))),
        visiting.insert(cell_index(t, a)).len() == visiting.len() + 1,
        visiting.insert(cell_index(t, a)).len() <= cell_count(t),
        eval_cell(t, a, visiting) == (match eval_range(
            t,
            formula_at(t, a).0,
            formula_at(t, a).1,
            visiting.insert(cell_index(t, a)),
        ) {
            Ok(v) => Ok::<Option<int>, SheetError>(Some(v)),
            Err(e) => Err(e),
        }),
{
    lemma_cell_index(t, a);
    lemma_visit(t, visiting, cell_index(t, a));
}

/// A cell whose formula depends on itself, directly or through other
/// formulas, never evaluates to a value: evaluation ends in an error.
pub proof fn lemma_cycle_fails(
    t: Seq<Seq<Seq<char>>>,
    s: Set<CellAddress>,
    a: CellAddress,
    visiting: Set<int>,
)
    requires
        evaluation_state(t, visiting),
        forall|b: CellAddress| #[trigger] s.contains(b) ==> reads_into(t, s, b),
        s.contains(a),
    ensures
        eval_cell(t, a, visiting) is Err,
        eval_range(t, formula_at(t, a).0, formula_at(t, a).1, visiting) is Err,
    decreases cell_count(t) - visiting.len(),
{
    assert(reads_into(t, s, a));
    let f = formula_at(t, a);
    let j = choose|j: int| 0 <= j < f.1.len() && s.contains(#[trigger] f.1[j]);
    let b = f.1[j];
    assert(reads_into(t, s, b));
    lemma_cell_index(t, b);
    if !visiting.contains(cell_index(t, b)) {
        lemma_formula_cell(t, b, visiting);
        lemma_cycle_fails(t, s, b, visiting.insert(cell_index(t, b)));
    }
    lemma_cell_error(t, f.0, f.1, j, visiting);
    lemma_cell_index(t, a);
    if !visiting.contains(cell_index(t, a)) {
        lemma_formula_cell(t, a, visiting);
        let inner = visiting.insert(cell_index(t, a));
        if !inner.contains(cell_index(t, b)) {
            lemma_formula_cell(t, b, inner);
            lemma_cycle_fails(t, s, b, inner.insert(cell_index(t, b)));
        }
        lemma_cell_error(t, f.0, f.1, j, inner);
    }
}

/// The formula cached for a cell, as a value.
pub open spec fn cached_view(f: Option<&ParsedFormula>) -> Option<(FormulaType, Seq<CellAddress>)> {
    match f {
        Some(f) => Some(f@),
        None => None,
    }
}

/// What formula evaluation reads from a grid: the text of each cell and the
/// formula parsed from it.
pub trait FormulaHandler {
    /// The text of every cell, row by row.
    spec fn texts(&self) -> Seq<Seq<Seq<char>>>;

    /// The number of rows.
    fn row_count(&self) -> (n: usize)
        requires
            is_grid(self.texts()),
        ensures
            n == self.texts().len(),
    ;

    /// The number of columns.
    fn col_count(&self) -> (n: usize)
        requires
            is_grid(self.texts()),
        ensures
            n == self.texts()[0].len(),
    ;

    /// The text of a cell.
    fn cell_text(&self, row: usize, col: usize) -> (t: &String)
        requires
            is_grid(self.texts()),
            row < self.texts().len(),
            col < self.texts()[0].len(),
        ensures
            t@ == self.texts()[row as int][col as int],
    ;

    /// The formula parsed from a cell's text, if it parsed.
    fn cell_formula(&self, row: usize, col: usize) -> (f: Option<&ParsedFormula>)
        requires
            is_grid(self.texts()),
            row < self.texts().len(),
            col < self.texts()[0].len(),
        ensures
            cached_view(f) == parsed_formula(parse_spec(self.texts()[row as int][col as int])),
    ;
}

/// The positions marked in `marks`.
pub open spec fn marked(marks: Seq<bool>) -> Set<int> {
    Set::new(|i: int| 0 <= i < marks.len() && marks[i])
}

pub proof fn lemma_marked(marks: Seq<bool>)
    ensures
        marked(marks).finite(),
        marked(marks).subset_of(set_int_range(0, marks.len() as int)),
{
    lemma_int_range(0, marks.len() as int);
    lemma_len_subset(marked(marks), set_int_range(0, marks.len() as int));
}

/// An error met on a prefix of a range is the error of the whole range.
pub proof fn lemma_prefix_error(
    t: Seq<Seq<Seq<char>>>,
    op: FormulaType,
    range: Seq<CellAddress>,
    visiting: Set<int>,
    k: int,
)
    requires
        evaluation_state(t, visiting),
        0 <= k <= range.len(),
        eval_range(t, op, range.subrange(0, k), visiting) is Err,
    ensures
        eval_range(t, op, range, visiting) == eval_range(t, op, range.subrange(0, k), visiting),
    decreases range.len() - k,
{
    if k < range.len() {
        assert(range.drop_last().subrange(0, k) =~= range.subrange(0, k));
        lemma_prefix_error(t, op, range.drop_last(), visiting, k);
    } else {
        assert(range.subrange(0, k) =~= range);
    }
}

/// The value of a cell as a number: `Ok(None)` for text that is no number.
fn eval_cell_exec<G: FormulaHandler>(
    grid: &G,
    a: CellAddress,
    marks: &mut Vec<bool>,
    Ghost(visiting): Ghost<Set<int>>,
) -> (r: Result<Option<i64>, SheetError>)
    requires
        is_grid(grid.texts()),
        old(marks).len() == cell_count(grid.texts()),
        visiting == marked(old(marks)@),
    ensures
        final(marks)@ == old(marks)@,
        match (r, eval_cell(grid.texts(), a, visiting)) {
            (Ok(Some(x)), Ok(Some(v))) => x == v,
            (Ok(None), Ok(None)) => true,
            (Err(e1), Err(e2)) => e1 == e2,
            _ => false,
        },
    decreases cell_count(grid.texts()) - visiting.len(), 0int,
{
    let ghost t = grid.texts();
    proof {
        lemma_marked(marks@);
    }
    let rows = grid.row_count();
    let cols = grid.col_count();
    if a.row >= rows || a.col >= cols {
        return Err(SheetError::OutOfBounds);
    }
    proof {
        lemma_cell_index(t, a);
    }
    let i = a.row * cols + a.col;
    if marks[i] {
        return Err(SheetError::CircularReference);
    }
    match grid.cell_formula(a.row, a.col) {
        Some(f) => {
            proof {
                lemma_visit(t, visiting, i as int);
            }
            let ghost before = marks@;
            marks.set(i, true);
            assert(marked(marks@) =~= visiting.insert(i as int));
            let r = eval_range_exec(
                grid,
                f.operation,
                &f.range,
                marks,
                Ghost(visiting.insert(i as int)),
            );
            marks.set(i, false);
            assert(marks@ =~= before);
            match r {
                Ok(v) => Ok(Some(v)),
                Err(e) => Err(e),
            }
        },
        None => Ok(parse_number(grid.cell_text(a.row, a.col).as_str())),
    }
}

/// The aggregate `op` over `range`, with the cells marked in `marks` being
/// evaluated further up.
fn eval_range_exec<G: FormulaHandler>(
    grid: &G,
    op: FormulaType,
    range: &Vec<CellAddress>,
    marks: &mut Vec<bool>,
    Ghost(visiting): Ghost<Set<int>>,
) -> (r: Result<i64, SheetError>)
    requires
        is_grid(grid.texts()),
        old(marks).len() == cell_count(grid.texts()),
        visiting == marked(old(marks)@),
    ensures
        final(marks)@ == old(marks)@,
        match (r, eval_range(grid.texts(), op, range@, visiting)) {
            (Ok(x), Ok(v)) => x == v,
            (Err(e1), Err(e2)) => e1 == e2,
            _ => false,
        },
    decreases cell_count(grid.texts()) - visiting.len(), range.len() + 1,
{
    let ghost t = grid.texts();
    proof {
        lemma_marked(marks@);
    }
    if !(op == FormulaType::Sum || op == FormulaType::Product) {
        return Err(SheetError::UnsupportedOperation);
    }
    let ghost start = marks@;
    let mut acc: i64 = if op == FormulaType::Product {
        1
    } else {
        0
    };
    let mut k: usize = 0;
    assert(range@.subrange(0, 0) =~= Seq::<CellAddress>::empty());
    while k < range.len()
        invariant
            k <= range.len(),
            is_grid(t),
            t == grid.texts(),
            evaluation_state(t, visiting),
            marks@ == start,
            start == old(marks)@,
            start.len() == cell_count(t),
            visiting == marked(start),
            evaluable(op),
            eval_range(t, op, range@.subrange(0, k as int), visiting) == Ok::<int, SheetError>(
                acc as int,
            ),
        decreases range.len() - k,
    {
        let ghost pre = range@.subrange(0, k as int);
        let ghost next = range@.subrange(0, k + 1);
        assert(next.drop_last() =~= pre);
        assert(next.last() == range@[k as int]);
        let v = eval_cell_exec(grid, range[k], marks, Ghost(visiting));
        let x: i64 = match v {
            Ok(Some(x)) => x,
            Ok(None) => if op == FormulaType::Product {
                1
            } else {
                0
            },
            Err(e) => {
                proof {
                    lemma_prefix_error(t, op, range@, visiting, k + 1);
                }
                return Err(e);
            },
        };
        let wide: i128 = if op == FormulaType::Product {
            assert(-0x8000_0000_0000_0000 * 0x8000_0000_0000_0000 <= (acc as int) * (x as int)
                <= 0x8000_0000_0000_0000 * 0x8000_0000_0000_0000) by (nonlinear_arith)
                requires
                    i64::MIN <= acc <= i64::MAX,
                    i64::MIN <= x <= i64::MAX,
            ;
            (acc as i128) * (x as i128)
        } else {
            (acc as i128) + (x as i128)
        };
        if wide < i64::MIN as i128 || wide > i64::MAX as i128 {
            assert(eval_range(t, op, next, visiting) == Err::<int, SheetError>(SheetError::Overflow));
            proof {
                lemma_prefix_error(t, op, range@, visiting, k + 1);
            }
            return Err(SheetError::Overflow);
        }
        acc = wide as i64;
        k = k + 1;
    }
    assert(range@.subrange(0, range.len() as int) =~= range@);
    Ok(acc)
}

/// Evaluates a formula against a grid. A cell read contributes its own
/// formula's value when it holds one, else the integer its text spells, else
/// the operation's identity (0 for a sum, 1 for a product).
pub fn evaluate<G: FormulaHandler>(formula: &ParsedFormula, grid: &G) -> (r: Result<String, SheetError>)
    requires
        is_grid(grid.texts()),
    ensures
        match eval_range(grid.texts(), formula.operation, formula.range@, Set::empty()) {
            Ok(v) => r is Ok && r->Ok_0@ == decimal_string(v),
            Err(e) => r == Err::<String, SheetError>(e),
        },
{
    let n = grid.row_count() * grid.col_count();
    let mut marks: Vec<bool> = Vec::new();
    let mut i: usize = 0;
    while i < n
        invariant
            i <= n,
            marks@ == Seq::new(i as nat, |j: int| false),
        decreases n - i,
    {
        marks.push(false);
        assert(marks@ =~= Seq::new((i + 1) as nat, |j: int| false));
        i = i + 1;
    }
    assert(marked(marks@) =~= Set::<int>::empty());
    match eval_range_exec(grid, formula.operation, &formula.range, &mut marks, Ghost(Set::empty())) {
        Ok(v) => Ok(format_i64(v)),
        Err(e) => Err(e),
    }
}

} // verus!
