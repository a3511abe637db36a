use rusty_sheets::address::CellAddress;
use rusty_sheets::error::SheetError;
use rusty_sheets::evaluation::parse_number;
use rusty_sheets::formulas::{convert_range, parse_formula, FormulaType};

fn at(row: usize, col: usize) -> CellAddress {
    CellAddress { row, col }
}

#[test]
fn parse_sum_over_column() {
    match parse_formula("=SUM(A1:A3)") {
        Some(Ok(f)) => {
            assert_eq!(f.operation, FormulaType::Sum);
            assert_eq!(f.range, vec![at(0, 0), at(1, 0), at(2, 0)]);
        }
        other => panic!("unexpected {:?}", other),
    }
}

#[test]
fn parse_plain_text_is_no_formula() {
    assert!(parse_formula("hello").is_none());
    assert!(parse_formula("").is_none());
    assert!(parse_formula("12").is_none());
}

#[test]
fn parse_unknown_operation() {
    assert!(matches!(
        parse_formula("=FOO(A1:A2)"),
        Some(Err(SheetError::UnknownOperation))
    ));
    assert!(matches!(
        parse_formula("=sum(A1:A2)"),
        Some(Err(SheetError::UnknownOperation))
    ));
}

#[test]
fn parse_invalid_ranges() {
    for text in [
        "=SUM(A1A3)",
        "=SUM(A1:B2)",
        "=SUM(A1:A3",
        "=SUM",
        "=SUM(A1:A2:A3)",
        "=PRODUCT()",
    ] {
        assert!(
            matches!(parse_formula(text), Some(Err(SheetError::InvalidRange))),
            "{}",
            text
        );
    }
}

#[test]
fn parse_invalid_reference() {
    assert!(matches!(
        parse_formula("=SUM(A1:1A)"),
        Some(Err(SheetError::InvalidReference))
    ));
    assert!(matches!(
        parse_formula("=SUM(:A2)"),
        Some(Err(SheetError::InvalidReference))
    ));
}

#[test]
fn parse_all_operations() {
    let cases = [
        ("=SUM(A1:A2)", FormulaType::Sum),
        ("=PRODUCT(A1:A2)", FormulaType::Product),
        ("=DIFFERENCE(A1:A2)", FormulaType::Difference),
        ("=QUOTIENT(A1:A2)", FormulaType::Quotient),
    ];
    for (text, op) in cases {
        match parse_formula(text) {
            Some(Ok(f)) => assert_eq!(f.operation, op),
            other => panic!("{}: {:?}", text, other),
        }
    }
}

#[test]
fn parse_reversed_and_horizontal_ranges() {
    match parse_formula("=SUM(A3:A1)") {
        Some(Ok(f)) => assert_eq!(f.range, vec![at(0, 0), at(1, 0), at(2, 0)]),
        other => panic!("{:?}", other),
    }
    match parse_formula("=PRODUCT(C2:A2)") {
        Some(Ok(f)) => assert_eq!(f.range, vec![at(1, 0), at(1, 1), at(1, 2)]),
        other => panic!("{:?}", other),
    }
    match parse_formula("=SUM(B2:B2)") {
        Some(Ok(f)) => assert_eq!(f.range, vec![at(1, 1)]),
        other => panic!("{:?}", other),
    }
}

#[test]
fn range_has_one_address_per_step() {
    let r = convert_range(at(4, 2), at(4, 5)).unwrap();
    assert_eq!(r, vec![at(4, 2), at(4, 3), at(4, 4), at(4, 5)]);
    let r = convert_range(at(7, 1), at(3, 1)).unwrap();
    assert_eq!(r.len(), 5);
    assert_eq!(r[0], at(3, 1));
    assert_eq!(r[4], at(7, 1));
    assert!(r.windows(2).all(|w| w[0].row < w[1].row));
}

#[test]
fn range_refuses_diagonal() {
    assert!(convert_range(at(0, 0), at(1, 1)).is_none());
}

#[test]
fn numbers_in_text() {
    assert_eq!(parse_number("42"), Some(42));
    assert_eq!(parse_number("-7"), Some(-7));
    assert_eq!(parse_number("+3"), Some(3));
    assert_eq!(parse_number("007"), Some(7));
    assert_eq!(parse_number("abc"), None);
    assert_eq!(parse_number(""), None);
    assert_eq!(parse_number("-"), None);
    assert_eq!(parse_number("1.5"), None);
    assert_eq!(parse_number("9223372036854775807"), Some(i64::MAX));
    assert_eq!(parse_number("9223372036854775808"), None);
    assert_eq!(parse_number("-9223372036854775808"), Some(i64::MIN));
    assert_eq!(parse_number("-9223372036854775809"), None);
}
