//! How a sheet's cells are keyed in a flat key-value store: each non-empty
//! cell under the key `"{row}:{col}"`, all of a sheet's cells under
//! `"spreadsheet:{id}"`.

use vstd::prelude::*;
use crate::address::CellAddress;
use crate::formulas::{find_char, find_in, lemma_find_char};
use crate::text::{
    all_digits, chars_of, decimal_chars, decimal_digits, digit_char, digit_value, digits_value,
    is_digit, parse_decimal, string_of,
};

verus! {

/// The key of the cell at `a`: its row, `:`, its column, both in decimal.
pub open spec fn cell_key_spec(a: CellAddress) -> Seq<char> {
    decimal_digits(a.row as nat) + seq![':'] + decimal_digits(a.col as nat)
}

/// The cell that a key names: decimal digits, `:`, decimal digits, each
/// number within `usize`.
pub open spec fn parse_key_spec(s: Seq<char>) -> Option<CellAddress> {
    let k = find_char(s, ':');
    let r = s.subrange(0, k);
    let c = s.subrange(k + 1, s.len() as int);
    if k < s.len() && all_digits(r) && all_digits(c) && digits_value(r) <= usize::MAX
        && digits_value(c) <= usize::MAX {
        Some(CellAddress { row: digits_value(r) as usize, col: digits_value(c) as usize })
    } else {
        None
    }
}

/// The stored entries that name a cell, as addresses, in order; entries
/// whose key names no cell are left out.
pub open spec fn keyed_entries(es: Seq<(String, String)>) -> Seq<(CellAddress, String)>
    decreases es.len(),
{
    if es.len() == 0 {
        Seq::empty()
    } else {
        let init = keyed_entries(es.drop_last());
        match parse_key_spec(es.last().0@) {
            Some(a) => init.push((a, es.last().1)),
            None => init,
        }
    }
}

/// Whether `r` holds the entries `e` with each address written as its key.
pub open spec fn encoded(e: Seq<(CellAddress, String)>, r: Seq<(String, String)>) -> bool {
    &&& r.len() == e.len()
    &&& forall|i: int|
        0 <= i < r.len() ==> (#[trigger] r[i]).0@ == cell_key_spec(e[i].0) && r[i].1@ == e[i].1@
}

/// The decimal spelling of a number is a run of digits that spells it back.
pub proof fn lemma_decimal_digits(n: nat)
    ensures
        all_digits(decimal_digits(n)),
        digits_value(decimal_digits(n)) == n,
    decreases n,
{
    let s = decimal_digits(n);
    if n < 10 {
        assert(s.drop_last() =~= Seq::<char>::empty());
        assert(is_digit(s[0]));
        assert(s.last() == digit_char(n as int));
        assert(digit_value(digit_char(n as int)) == n);
        assert(digits_value(s) == digits_value(s.drop_last()) * 10 + digit_value(s.last()));
    } else {
        lemma_decimal_digits(n / 10);
        let t = decimal_digits(n / 10);
        assert(s.drop_last() =~= t);
        assert forall|i: int| 0 <= i < s.len() implies is_digit(#[trigger] s[i]) by {
            if i < t.len() {
                assert(s[i] == t[i]);
            }
        }
        assert(s.last() == digit_char((n % 10) as int));
        assert(digit_value(digit_char((n % 10) as int)) == n % 10);
        assert(digits_value(s) == digits_value(t) * 10 + n % 10);
        assert((n / 10) * 10 + n % 10 == n);
    }
}

/// A cell's key names that cell.
pub proof fn lemma_cell_key_round_trip(a: CellAddress)
    ensures
        parse_key_spec(cell_key_spec(a)) == Some(a),
{
    let r = decimal_digits(a.row as nat);
    let c = decimal_digits(a.col as nat);
    let s = cell_key_spec(a);
    lemma_decimal_digits(a.row as nat);
    lemma_decimal_digits(a.col as nat);
    assert forall|j: int| 0 <= j < r.len() implies s[j] != ':' by {
        assert(s[j] == r[j]);
        assert(is_digit(r[j]));
    }
    assert(s[r.len() as int] == ':');
    lemma_find_char(s, ':', r.len() as int);
    assert(s.subrange(0, r.len() as int) =~= r);
    assert(s.subrange(r.len() as int + 1, s.len() as int) =~= c);
}

/// The key of the cell at `a`, such as `"3:1"`.
pub fn cell_key(a: CellAddress) -> (s: String)
    ensures
        s@ == cell_key_spec(a),
{
    let mut cs = decimal_chars(a.row as u64);
    cs.push(':');
    let col = decimal_chars(a.col as u64);
    let mut i: usize = 0;
    let ghost head = cs@;
    while i < col.len()
        invariant
            i <= col.len(),
            cs@ == head + col@.subrange(0, i as int),
        decreases col.len() - i,
    {
        cs.push(col[i]);
        assert(head + col@.subrange(0, i + 1) =~= (head + col@.subrange(0, i as int)).push(
            col@[i as int],
        ));
        i = i + 1;
    }
    assert(col@.subrange(0, col.len() as int) =~= col@);
    string_of(&cs)
}

/// The cell that a key such as `"3:1"` names, if it names one.
pub fn parse_cell_key(key: &str) -> (r: Option<CellAddress>)
    ensures
        r == parse_key_spec(key@),
{
    let cs = chars_of(key);
    let n = cs.len();
    let k = find_in(&cs, 0, n, ':');
    assert(cs@.subrange(0, n as int) =~= cs@);
    if k == n {
        return None;
    }
    let row = parse_decimal(&cs, 0, k, usize::MAX as u64);
    let col = parse_decimal(&cs, k + 1, n, usize::MAX as u64);
    match (row, col) {
        (Some(r), Some(c)) => Some(CellAddress { row: r as usize, col: c as usize }),
        _ => None,
    }
}

/// The key under which the sheet `sheet_id` keeps its cells.
pub fn sheet_key(sheet_id: &str) -> (s: String)
    ensures
        s@ == seq!['s', 'p', 'r', 'e', 'a', 'd', 's', 'h', 'e', 'e', 't', ':'] + sheet_id@,
{
    let prefix = String::from_str("spreadsheet:");
    proof {
        reveal_strlit("spreadsheet:");
    }
    assert(prefix@ =~= seq!['s', 'p', 'r', 'e', 'a', 'd', 's', 'h', 'e', 'e', 't', ':']);
    prefix.concat(sheet_id)
}

/// The stored entries whose key names a cell, with that cell's address.
pub fn decode_entries(es: &Vec<(String, String)>) -> (r: Vec<(CellAddress, String)>)
    ensures
        r@ == keyed_entries(es@),
{
    let mut out: Vec<(CellAddress, String)> = Vec::new();
    let mut i: usize = 0;
    assert(es@.subrange(0, 0) =~= Seq::<(String, String)>::empty());
    while i < es.len()
        invariant
            i <= es.len(),
            out@ == keyed_entries(es@.subrange(0, i as int)),
        decreases es.len() - i,
    {
        let ghost next = es@.subrange(0, i + 1);
        assert(next.drop_last() =~= es@.subrange(0, i as int));
        let e = &es[i];
        match parse_cell_key(e.0.as_str()) {
            Some(a) => {
                out.push((a, e.1.clone()));
            },
            None => {},
        }
        i = i + 1;
    }
    assert(es@.subrange(0, es.len() as int) =~= es@);
    out
}

/// The entries with each address written as its key, ready to be stored.
pub fn encode_entries(e: &Vec<(CellAddress, String)>) -> (r: Vec<(String, String)>)
    ensures
        encoded(e@, r@),
{
    let mut out: Vec<(String, String)> = Vec::new();
    let mut i: usize = 0;
    while i < e.len()
        invariant
            i <= e.len(),
            out@.len() == i,
            forall|j: int|
                0 <= j < i ==> (#[trigger] out@[j]).0@ == cell_key_spec(e@[j].0) && out@[j].1@
                    == e@[j].1@,
        decreases e.len() - i,
    {
        out.push((cell_key(e[i].0), e[i].1.clone()));
        i = i + 1;
    }
    out
}

} // verus!
