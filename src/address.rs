//! Cell coordinates and the references that name them (`A1`, `b12`).

use vstd::prelude::*;
use crate::error::SheetError;
use crate::text::{all_digits, digits_value, chars_of, parse_decimal};

verus! {

/// A zero-based `(row, col)` position in a grid.
#[derive(Clone, Copy, Debug, PartialEq, Eq, Structural)]
pub struct CellAddress {
    pub row: usize,
    pub col: usize,
}

/// The zero-based column that an ASCII letter names, either case.
pub open spec fn letter_index(c: char) -> Option<int> {
    if 'A' <= c && c <= 'Z' {
        Some((c as int) - ('A' as int))
    } else if 'a' <= c && c <= 'z' {
        Some((c as int) - ('a' as int))
    } else {
        None
    }
}

/// What a reference names: one column letter, then a one-based row number.
pub open spec fn resolve_spec(t: Seq<char>) -> Result<CellAddress, SheetError> {
    let digits = t.subrange(1, t.len() as int);
    if t.len() >= 2 && letter_index(t[0]) is Some && all_digits(digits) && 1 <= digits_value(
        digits,
    ) <= usize::MAX {
        Ok(
            CellAddress {
                row: (digits_value(digits) - 1) as usize,
                col: letter_index(t[0])->0 as usize,
            },
        )
    } else {
        Err(SheetError::InvalidReference)
    }
}

/// The one-based position of an ASCII letter in the alphabet, either case.
pub fn letter_pos(letter: char) -> (r: Option<u32>)
    ensures
        r == (match letter_index(letter) {
            Some(i) => Some((i + 1) as u32),
            None => None::<u32>,
        }),
{
    if 'A' <= letter && letter <= 'Z' {
        Some(letter as u32 - 'A' as u32 + 1)
    } else if 'a' <= letter && letter <= 'z' {
        Some(letter as u32 - 'a' as u32 + 1)
    } else {
        None
    }
}

/// Resolves the reference spelled by `cs[lo..hi]`.
pub fn resolve_chars(cs: &Vec<char>, lo: usize, hi: usize) -> (r: Result<CellAddress, SheetError>)
    requires
        lo <= hi <= cs.len(),
    ensures
        r == resolve_spec(cs@.subrange(lo as int, hi as int)),
{
    let ghost t = cs@.subrange(lo as int, hi as int);
    if hi - lo < 2 {
        return Err(SheetError::InvalidReference);
    }
    assert(t[0] == cs@[lo as int]);
    let col = match letter_pos(cs[lo]) {
        Some(p) => p - 1,
        None => {
            return Err(SheetError::InvalidReference);
        },
    };
    assert(t.subrange(1, t.len() as int) =~= cs@.subrange(lo + 1, hi as int));
    let ghost digits = cs@.subrange(lo + 1, hi as int);
    match parse_decimal(cs, lo + 1, hi, usize::MAX as u64) {
        Some(v) => {
            assert(v == digits_value(digits));
            assert(all_digits(digits));
            if v == 0 {
                Err(SheetError::InvalidReference)
            } else {
                Ok(CellAddress { row: (v - 1) as usize, col: col as usize })
            }
        },
        None => Err(SheetError::InvalidReference),
    }
}

/// Resolves a reference such as `B12` (row 11, column 1). A letter past `Z`,
/// a missing or zero row number, or anything else fails.
pub fn resolve(token: &str) -> (r: Result<CellAddress, SheetError>)
    ensures
        r == resolve_spec(token@),
{
    let cs = chars_of(token);
    assert(cs@.subrange(0, cs@.len() as int) =~= cs@);
    resolve_chars(&cs, 0, cs.len())
}

} // verus!
