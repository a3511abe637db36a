//! The formula language: `=OP(START:END)`, where `OP` aggregates the cells of
//! an axis-aligned range, and its parser.

use vstd::prelude::*;
use crate::address::{CellAddress, resolve_chars, resolve_spec};
use crate::error::SheetError;
use crate::text::chars_of;

verus! {

/// The aggregate operations that a formula can name.
#[derive(Clone, Copy, Debug, PartialEq, Eq, Structural)]
pub enum FormulaType {
    Sum,
    Product,
    Difference,
    Quotient,
}

/// A formula that parsed: its operation and the addresses it reads, in order.
#[derive(Debug)]
pub struct ParsedFormula {
    pub operation: FormulaType,
    pub range: Vec<CellAddress>,
}

impl View for ParsedFormula {
    type V = (FormulaType, Seq<CellAddress>);

    open spec fn view(&self) -> (FormulaType, Seq<CellAddress>) {
        (self.operation, self.range@)
    }
}

/// The index of the first `c` in `s`, or `s.len()` when there is none.
pub open spec fn find_char(s: Seq<char>, c: char) -> int
    decreases s.len(),
{
    if s.len() == 0 {
        0
    } else if s[0] == c {
        0
    } else {
        1 + find_char(s.drop_first(), c)
    }
}

/// The operation that a name spells, compared case-sensitively.
pub open spec fn operation_of(name: Seq<char>) -> Option<FormulaType> {
    if name == seq!['S', 'U', 'M'] {
        Some(FormulaType::Sum)
    } else if name == seq!['P', 'R', 'O', 'D', 'U', 'C', 'T'] {
        Some(FormulaType::Product)
    } else if name == seq!['D', 'I', 'F', 'F', 'E', 'R', 'E', 'N', 'C', 'E'] {
        Some(FormulaType::Difference)
    } else if name == seq!['Q', 'U', 'O', 'T', 'I', 'E', 'N', 'T'] {
        Some(FormulaType::Quotient)
    } else {
        None
    }
}

pub open spec fn min_of(a: usize, b: usize) -> usize {
    if a <= b {
        a
    } else {
        b
    }
}

pub open spec fn max_of(a: usize, b: usize) -> usize {
    if a <= b {
        b
    } else {
        a
    }
}

/// The cell at position `k` along a row (`horizontal`) or a column whose
/// other coordinate is `fixed`.
pub open spec fn axis_cell(horizontal: bool, fixed: usize, k: int) -> CellAddress {
    if horizontal {
        CellAddress { row: fixed, col: k as usize }
    } else {
        CellAddress { row: k as usize, col: fixed }
    }
}

/// The cells from position `lo` to `hi` inclusive along a row or a column.
pub open spec fn axis_range(horizontal: bool, fixed: usize, lo: usize, hi: usize) -> Seq<CellAddress> {
    Seq::new((hi - lo + 1) as nat, |j: int| axis_cell(horizontal, fixed, lo + j))
}

/// The cells from `start` to `end` inclusive along the axis they share, in
/// increasing order; `None` when they share neither row nor column.
pub open spec fn range_between(start: CellAddress, end: CellAddress) -> Option<Seq<CellAddress>> {
    if start.row == end.row {
        Some(axis_range(true, start.row, min_of(start.col, end.col), max_of(start.col, end.col)))
    } else if start.col == end.col {
        Some(axis_range(false, start.col, min_of(start.row, end.row), max_of(start.row, end.row)))
    } else {
        None
    }
}

/// A range between two aligned addresses holds one address per step from
/// the lower to the higher index along their axis, in strictly increasing
/// order, all on the shared row (or column).
pub proof fn lemma_range_shape(start: CellAddress, end: CellAddress)
    requires
        start.row == end.row || start.col == end.col,
    ensures
        range_between(start, end) is Some,
        ({
            let r = range_between(start, end)->0;
            if start.row == end.row {
                &&& r.len() == max_of(start.col, end.col) - min_of(start.col, end.col) + 1
                &&& r.len() == (if end.col >= start.col {
                    end.col - start.col
                } else {
                    start.col - end.col
                }) + 1
                &&& r[0].col == min_of(start.col, end.col)
                &&& r[r.len() - 1].col == max_of(start.col, end.col)
                &&& forall|i: int| 0 <= i < r.len() ==> (#[trigger] r[i]).row == start.row
                &&& forall|i: int, j: int|
                    0 <= i < j < r.len() ==> (#[trigger] r[i]).col < (#[trigger] r[j]).col
            } else {
                &&& r.len() == max_of(start.row, end.row) - min_of(start.row, end.row) + 1
                &&& r.len() == (if end.row >= start.row {
                    end.row - start.row
                } else {
                    start.row - end.row
                }) + 1
                &&& r[0].row == min_of(start.row, end.row)
                &&& r[r.len() - 1].row == max_of(start.row, end.row)
                &&& forall|i: int| 0 <= i < r.len() ==> (#[trigger] r[i]).col == start.col
                &&& forall|i: int, j: int|
                    0 <= i < j < r.len() ==> (#[trigger] r[i]).row < (#[trigger] r[j]).row
            }
        }),
{
}

/// The range that the inside of `OP( ... )` spells: two references split
/// by the only `:`.
pub open spec fn interior_spec(inner: Seq<char>) -> Result<Seq<CellAddress>, SheetError> {
    let n = inner.len() as int;
    let k = find_char(inner, ':');
    if k == n || find_char(inner.subrange(k + 1, n), ':') != n - k - 1 {
        Err(SheetError::InvalidRange)
    } else {
        match resolve_spec(inner.subrange(0, k)) {
            Err(e) => Err(e),
            Ok(start) => match resolve_spec(inner.subrange(k + 1, n)) {
                Err(e) => Err(e),
                Ok(end) => match range_between(start, end) {
                    Some(r) => Ok(r),
                    None => Err(SheetError::InvalidRange),
                },
            },
        }
    }
}

/// What a cell's text means as a formula: `None` when it does not start with
/// `=`, else the parsed operation and range, or why they do not parse.
#[verifier::opaque]
pub open spec fn parse_spec(s: Seq<char>) -> Option<Result<(FormulaType, Seq<CellAddress>), SheetError>> {
    if s.len() == 0 || s[0] != '=' {
        None
    } else {
        let body = s.drop_first();
        let p = find_char(body, '(');
        match operation_of(body.subrange(0, p)) {
            None => Some(Err(SheetError::UnknownOperation)),
            Some(op) => {
                let rest = body.subrange(p + 1, body.len() as int);
                if p == body.len() || rest.len() == 0 || rest.last() != ')' {
                    Some(Err(SheetError::InvalidRange))
                } else {
                    match interior_spec(rest.drop_last()) {
                        Err(e) => Some(Err(e)),
                        Ok(r) => Some(Ok((op, r))),
                    }
                }
            },
        }
    }
}

/// The view of a parse result.
pub open spec fn parsed_view(r: Option<Result<ParsedFormula, SheetError>>) -> Option<
    Result<(FormulaType, Seq<CellAddress>), SheetError>,
> {
    match r {
        None => None,
        Some(Err(e)) => Some(Err(e)),
        Some(Ok(f)) => Some(Ok(f@)),
    }
}

/// The formula that parsed, if any: the part of a parse result a cell keeps.
pub open spec fn parsed_formula(p: Option<Result<(FormulaType, Seq<CellAddress>), SheetError>>) -> Option<
    (FormulaType, Seq<CellAddress>),
> {
    match p {
        Some(Ok(f)) => Some(f),
        _ => None,
    }
}

pub proof fn lemma_find_char(s: Seq<char>, c: char, k: int)
    requires
        0 <= k <= s.len(),
        forall|j: int| 0 <= j < k ==> s[j] != c,
        k < s.len() ==> s[k] == c,
    ensures
        find_char(s, c) == k,
    decreases s.len(),
{
    if s.len() > 0 && k > 0 {
        let t = s.drop_first();
        assert forall|j: int| 0 <= j < k - 1 implies t[j] != c by {
            assert(t[j] == s[j + 1]);
        }
        if k < s.len() {
            assert(t[k - 1] == s[k]);
        }
        lemma_find_char(t, c, k - 1);
    }
}

/// The position of the first `c` in `cs[lo..hi]`, or `hi` when there is none.
pub fn find_in(cs: &Vec<char>, lo: usize, hi: usize, c: char) -> (k: usize)
    requires
        lo <= hi <= cs.len(),
    ensures
        lo <= k <= hi,
        k - lo == find_char(cs@.subrange(lo as int, hi as int), c),
{
    let ghost s = cs@.subrange(lo as int, hi as int);
    let mut i = lo;
    while i < hi && cs[i] != c
        invariant
            lo <= i <= hi <= cs.len(),
            s == cs@.subrange(lo as int, hi as int),
            forall|j: int| 0 <= j < i - lo ==> s[j] != c,
        decreases hi - i,
    {
        assert(s[i - lo] == cs@[i as int]);
        i = i + 1;
    }
    proof {
        if i < hi {
            assert(s[i - lo] == cs@[i as int]);
        }
        lemma_find_char(s, c, i - lo);
    }
    i
}

/// Whether `cs[lo..hi]` spells exactly `word`.
fn spells(cs: &Vec<char>, lo: usize, hi: usize, word: &[char]) -> (r: bool)
    requires
        lo <= hi <= cs.len(),
    ensures
        r == (cs@.subrange(lo as int, hi as int) == word@),
{
    let ghost s = cs@.subrange(lo as int, hi as int);
    if hi - lo != word.len() {
        assert(s.len() != word@.len());
        return false;
    }
    let mut i: usize = 0;
    while i < word.len()
        invariant
            hi - lo == word.len(),
            lo <= hi <= cs.len(),
            s == cs@.subrange(lo as int, hi as int),
            forall|j: int| 0 <= j < i ==> s[j] == word@[j],
        decreases word.len() - i,
    {
        if cs[lo + i] != word[i] {
            assert(s[i as int] != word@[i as int]);
            return false;
        }
        i = i + 1;
    }
    assert(s =~= word@);
    true
}

/// The operation that `cs[lo..hi]` names, if any.
fn operation_named(cs: &Vec<char>, lo: usize, hi: usize) -> (r: Option<FormulaType>)
    requires
        lo <= hi <= cs.len(),
    ensures
        r == operation_of(cs@.subrange(lo as int, hi as int)),
{
    proof {
        assert(['S', 'U', 'M']@ =~= seq!['S', 'U', 'M']);
        assert(['P', 'R', 'O', 'D', 'U', 'C', 'T']@ =~= seq!['P', 'R', 'O', 'D', 'U', 'C', 'T']);
        assert(['D', 'I', 'F', 'F', 'E', 'R', 'E', 'N', 'C', 'E']@ =~= seq![
            'D',
            'I',
            'F',
            'F',
            'E',
            'R',
            'E',
            'N',
            'C',
            'E',
        ]);
        assert(['Q', 'U', 'O', 'T', 'I', 'E', 'N', 'T']@ =~= seq![
            'Q',
            'U',
            'O',
            'T',
            'I',
            'E',
            'N',
            'T',
        ]);
    }
    if spells(cs, lo, hi, &['S', 'U', 'M']) {
        Some(FormulaType::Sum)
    } else if spells(cs, lo, hi, &['P', 'R', 'O', 'D', 'U', 'C', 'T']) {
        Some(FormulaType::Product)
    } else if spells(cs, lo, hi, &['D', 'I', 'F', 'F', 'E', 'R', 'E', 'N', 'C', 'E']) {
        Some(FormulaType::Difference)
    } else if spells(cs, lo, hi, &['Q', 'U', 'O', 'T', 'I', 'E', 'N', 'T']) {
        Some(FormulaType::Quotient)
    } else {
        None
    }
}

/// The addresses from `start` to `end`, both included, along the row or the
/// column they share, in increasing order; `None` for a diagonal pair.
pub fn convert_range(start: CellAddress, end: CellAddress) -> (r: Option<Vec<CellAddress>>)
    ensures
        match range_between(start, end) {
            Some(s) => r is Some && r->0@ == s,
            None => r is None,
        },
{
    let horizontal = start.row == end.row;
    if !horizontal && start.col != end.col {
        return None;
    }
    let (a, b) = if horizontal {
        (start.col, end.col)
    } else {
        (start.row, end.row)
    };
    let lo = if a <= b {
        a
    } else {
        b
    };
    let hi = if a <= b {
        b
    } else {
        a
    };
    let fixed = if horizontal {
        start.row
    } else {
        start.col
    };
    let mut v: Vec<CellAddress> = Vec::new();
    let mut i = lo;
    if horizontal {
        v.push(CellAddress { row: start.row, col: i });
    } else {
        v.push(CellAddress { row: i, col: start.col });
    }
    assert(v@ =~= axis_range(horizontal, fixed, lo, i));
    while i < hi
        invariant
            lo <= i <= hi,
            v@ =~= axis_range(horizontal, fixed, lo, i),
            fixed == (if horizontal {
                start.row
            } else {
                start.col
            }),
            horizontal ==> (lo == min_of(start.col, end.col) && hi == max_of(start.col, end.col)),
            !horizontal ==> (lo == min_of(start.row, end.row) && hi == max_of(start.row, end.row)),
        decreases hi - i,
    {
        let ghost prev = v@;
        i = i + 1;
        if horizontal {
            v.push(CellAddress { row: start.row, col: i });
        } else {
            v.push(CellAddress { row: i, col: start.col });
        }
        assert(v@ =~= axis_range(horizontal, fixed, lo, i)) by {
            assert forall|j: int| 0 <= j < i - lo implies v@[j] == axis_cell(horizontal, fixed, lo + j) by {
                assert(v@[j] == prev[j]);
            }
        }
    }
    Some(v)
}

/// The range that `cs[lo..hi]` spells, the inside of `OP( ... )`.
fn parse_interior(cs: &Vec<char>, lo: usize, hi: usize) -> (r: Result<Vec<CellAddress>, SheetError>)
    requires
        lo <= hi <= cs.len(),
    ensures
        match interior_spec(cs@.subrange(lo as int, hi as int)) {
            Ok(s) => r is Ok && r->Ok_0@ == s,
            Err(e) => r == Err::<Vec<CellAddress>, SheetError>(e),
        },
{
    let ghost inner = cs@.subrange(lo as int, hi as int);
    let k = find_in(cs, lo, hi, ':');
    if k == hi {
        return Err(SheetError::InvalidRange);
    }
    let k2 = find_in(cs, k + 1, hi, ':');
    assert(inner.subrange(k - lo + 1, hi - lo) =~= cs@.subrange(k + 1, hi as int));
    if k2 != hi {
        return Err(SheetError::InvalidRange);
    }
    assert(inner.subrange(0, k - lo) =~= cs@.subrange(lo as int, k as int));
    let start = match resolve_chars(cs, lo, k) {
        Ok(a) => a,
        Err(e) => {
            return Err(e);
        },
    };
    let end = match resolve_chars(cs, k + 1, hi) {
        Ok(a) => a,
        Err(e) => {
            return Err(e);
        },
    };
    match convert_range(start, end) {
        Some(v) => Ok(v),
        None => Err(SheetError::InvalidRange),
    }
}

/// Parses a cell's text as a formula `=OP(START:END)`. Text that does not
/// start with `=` is no formula (`None`); one that does but is malformed
/// gives the reason.
pub fn parse_formula(text: &str) -> (r: Option<Result<ParsedFormula, SheetError>>)
    ensures
        parsed_view(r) == parse_spec(text@),
{
    reveal(parse_spec);
    let cs = chars_of(text);
    let n = cs.len();
    if n == 0 || cs[0] != '=' {
        return None;
    }
    let ghost body = cs@.drop_first();
    assert(body =~= cs@.subrange(1, n as int));
    let p = find_in(&cs, 1, n, '(');
    assert(body.subrange(0, p - 1) =~= cs@.subrange(1, p as int));
    let op = match operation_named(&cs, 1, p) {
        Some(op) => op,
        None => {
            return Some(Err(SheetError::UnknownOperation));
        },
    };
    let ghost rest = body.subrange(p as int, body.len() as int);
    if p == n || p + 1 == n || cs[n - 1] != ')' {
        proof {
            if p < n && p + 1 < n {
                assert(rest.last() == cs@[n - 1]);
            }
        }
        return Some(Err(SheetError::InvalidRange));
    }
    assert(rest.drop_last() =~= cs@.subrange(p + 1, n - 1));
    match parse_interior(&cs, p + 1, n - 1) {
        Ok(v) => Some(Ok(ParsedFormula { operation: op, range: v })),
        Err(e) => Some(Err(e)),
    }
}

} // verus!
