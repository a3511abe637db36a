use rusty_sheets::address::{letter_pos, resolve, CellAddress};
use rusty_sheets::error::SheetError;

#[test]
fn resolve_b12() {
    assert_eq!(resolve("B12"), Ok(CellAddress { row: 11, col: 1 }));
}

#[test]
fn resolve_is_case_insensitive() {
    assert_eq!(resolve("b12"), Ok(CellAddress { row: 11, col: 1 }));
    assert_eq!(resolve("z1"), Ok(CellAddress { row: 0, col: 25 }));
}

#[test]
fn resolve_rejects_digits_first_and_empty() {
    assert_eq!(resolve("12B"), Err(SheetError::InvalidReference));
    assert_eq!(resolve(""), Err(SheetError::InvalidReference));
}

#[test]
fn resolve_rejects_other_shapes() {
    for token in ["A", "A0", "AA1", "A1x", "1", "?3", "A-1", "A 1"] {
        assert_eq!(resolve(token), Err(SheetError::InvalidReference), "{}", token);
    }
}

#[test]
fn resolve_keeps_leading_zeros_and_large_rows() {
    assert_eq!(resolve("C007"), Ok(CellAddress { row: 6, col: 2 }));
    assert_eq!(resolve("A100000"), Ok(CellAddress { row: 99999, col: 0 }));
    assert_eq!(
        resolve("A99999999999999999999999"),
        Err(SheetError::InvalidReference)
    );
}

#[test]
fn letter_positions() {
    assert_eq!(letter_pos('A'), Some(1));
    assert_eq!(letter_pos('z'), Some(26));
    assert_eq!(letter_pos('m'), Some(13));
    assert_eq!(letter_pos('1'), None);
    assert_eq!(letter_pos('é'), None);
}
