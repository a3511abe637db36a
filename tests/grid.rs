use rusty_sheets::address::CellAddress;
use rusty_sheets::error::SheetError;
use rusty_sheets::evaluation::evaluate;
use rusty_sheets::formulas::{parse_formula, ParsedFormula};
use rusty_sheets::grid::CellGrid;

fn formula(text: &str) -> ParsedFormula {
    match parse_formula(text) {
        Some(Ok(f)) => f,
        other => panic!("{}: {:?}", text, other),
    }
}

fn grid_with(rows: usize, cols: usize, texts: &[(usize, usize, &str)]) -> CellGrid {
    let mut g = CellGrid::new(rows, cols);
    for (r, c, t) in texts {
        g.set_text(*r, *c, t.to_string()).unwrap();
    }
    g
}

#[test]
fn sum_treats_empty_as_zero() {
    let g = grid_with(3, 3, &[(0, 0, "1"), (1, 0, "2"), (2, 0, "")]);
    assert_eq!(evaluate(&formula("=SUM(A1:A3)"), &g), Ok("3".to_string()));
}

#[test]
fn product_of_two_cells() {
    let g = grid_with(3, 3, &[(0, 0, "2"), (1, 0, "3")]);
    assert_eq!(evaluate(&formula("=PRODUCT(A1:A2)"), &g), Ok("6".to_string()));
}

#[test]
fn product_treats_text_as_one() {
    let g = grid_with(3, 3, &[(0, 0, "4"), (0, 1, "pears"), (0, 2, "5")]);
    assert_eq!(evaluate(&formula("=PRODUCT(A1:C1)"), &g), Ok("20".to_string()));
}

#[test]
fn negative_sums_render_with_sign() {
    let g = grid_with(2, 2, &[(0, 0, "-5"), (1, 0, "-3")]);
    assert_eq!(evaluate(&formula("=SUM(A1:A2)"), &g), Ok("-8".to_string()));
}

#[test]
fn self_reference_is_circular() {
    let g = grid_with(3, 3, &[(0, 0, "=SUM(A1:A1)")]);
    assert_eq!(
        evaluate(&formula("=SUM(A1:A1)"), &g),
        Err(SheetError::CircularReference)
    );
    assert_eq!(g.display_value(0, 0), "Error");
}

#[test]
fn mutual_reference_is_circular() {
    let g = grid_with(3, 3, &[(0, 0, "=SUM(B1:B1)"), (0, 1, "=SUM(A1:A1)")]);
    assert_eq!(
        evaluate(&formula("=SUM(A1:B1)"), &g),
        Err(SheetError::CircularReference)
    );
    assert_eq!(g.display_value(0, 1), "Error");
}

#[test]
fn formulas_read_other_formulas() {
    let g = grid_with(
        3,
        3,
        &[(0, 0, "2"), (1, 0, "5"), (0, 1, "=SUM(A1:A2)"), (1, 1, "=PRODUCT(A1:B1)")],
    );
    assert_eq!(g.display_value(0, 1), "7");
    assert_eq!(g.display_value(1, 1), "14");
}

#[test]
fn unsupported_operations_fail() {
    let g = grid_with(2, 2, &[(0, 0, "=DIFFERENCE(B1:B2)")]);
    assert_eq!(
        evaluate(&formula("=QUOTIENT(B1:B2)"), &g),
        Err(SheetError::UnsupportedOperation)
    );
    assert_eq!(g.display_value(0, 0), "Error");
}

#[test]
fn ranges_outside_the_grid_fail() {
    let g = CellGrid::new(3, 3);
    assert_eq!(
        evaluate(&formula("=SUM(A1:A9)"), &g),
        Err(SheetError::OutOfBounds)
    );
}

#[test]
fn sums_that_overflow_fail() {
    let g = grid_with(2, 2, &[(0, 0, "9223372036854775807"), (1, 0, "1")]);
    assert_eq!(evaluate(&formula("=SUM(A1:A2)"), &g), Err(SheetError::Overflow));
}

#[test]
fn display_shows_raw_text_without_formula() {
    let g = grid_with(2, 2, &[(0, 0, "hello"), (0, 1, "=SUM(A1A2)"), (1, 0, "=FOO(A1:A2)")]);
    assert_eq!(g.display_value(0, 0), "hello");
    assert_eq!(g.display_value(0, 1), "=SUM(A1A2)");
    assert_eq!(g.display_value(1, 0), "=FOO(A1:A2)");
    assert_eq!(g.display_value(1, 1), "");
}

#[test]
fn set_text_caches_formula() {
    let mut g = CellGrid::new(2, 2);
    g.set_text(0, 0, "=SUM(B1:B2)".to_string()).unwrap();
    assert!(g.get(0, 0).formula().is_some());
    assert_eq!(g.get(0, 0).text(), "=SUM(B1:B2)");
    g.set_text(0, 0, "plain".to_string()).unwrap();
    assert!(g.get(0, 0).formula().is_none());
    assert_eq!(g.get(0, 0).text(), "plain");
}

#[test]
fn set_text_out_of_bounds() {
    let mut g = CellGrid::new(2, 3);
    assert_eq!(g.set_text(2, 0, "x".to_string()), Err(SheetError::OutOfBounds));
    assert_eq!(g.set_text(0, 3, "x".to_string()), Err(SheetError::OutOfBounds));
    assert!(g.bulk_export().is_empty());
}

#[test]
fn new_grid_is_blank() {
    let g = CellGrid::new(2, 3);
    assert_eq!(g.rows(), 2);
    assert_eq!(g.cols(), 3);
    for r in 0..2 {
        for c in 0..3 {
            assert_eq!(g.get(r, c).text(), "");
        }
    }
}

#[test]
fn export_then_load_round_trip() {
    let g = grid_with(
        3,
        4,
        &[(2, 3, "last"), (0, 1, "=SUM(A1:A3)"), (1, 0, "7"), (0, 2, "x"), (0, 2, "")],
    );
    let entries = g.bulk_export();
    assert_eq!(
        entries
            .iter()
            .map(|(a, t)| (a.row, a.col, t.as_str()))
            .collect::<Vec<_>>(),
        vec![(0, 1, "=SUM(A1:A3)"), (1, 0, "7"), (2, 3, "last")]
    );
    let mut fresh = CellGrid::new(3, 4);
    fresh.bulk_load(&entries);
    for r in 0..3 {
        for c in 0..4 {
            assert_eq!(fresh.get(r, c).text(), g.get(r, c).text());
        }
    }
    assert_eq!(fresh.display_value(0, 1), "7");
}

#[test]
fn bulk_load_drops_entries_outside() {
    let mut g = CellGrid::new(2, 2);
    g.bulk_load(&vec![
        (CellAddress { row: 1, col: 1 }, "in".to_string()),
        (CellAddress { row: 5, col: 0 }, "out".to_string()),
        (CellAddress { row: 0, col: 2 }, "out".to_string()),
    ]);
    assert_eq!(g.get(1, 1).text(), "in");
    assert_eq!(g.bulk_export().len(), 1);
}

#[test]
fn two_cell_cycle_is_circular() {
    let g = grid_with(3, 3, &[(0, 0, "=SUM(A2:A2)"), (1, 0, "=SUM(A1:A1)")]);
    let f = ParsedFormula {
        operation: rusty_sheets::formulas::FormulaType::Sum,
        range: vec![CellAddress { row: 0, col: 0 }],
    };
    assert_eq!(evaluate(&f, &g), Err(SheetError::CircularReference));
    assert_eq!(g.display_value(0, 0), "Error");
    assert_eq!(g.display_value(1, 0), "Error");
}

#[test]
fn cycle_after_plain_cells_is_circular() {
    let g = grid_with(3, 3, &[(0, 0, "4"), (1, 0, "x"), (2, 0, "=SUM(A1:A3)")]);
    assert_eq!(
        evaluate(&formula("=PRODUCT(C1:C1)"), &g),
        Ok("1".to_string())
    );
    assert_eq!(
        evaluate(&formula("=SUM(A3:A3)"), &g),
        Err(SheetError::CircularReference)
    );
}

#[test]
fn overflow_before_a_cycle_wins() {
    let g = grid_with(
        3,
        3,
        &[(0, 0, "9223372036854775807"), (1, 0, "1"), (2, 0, "=SUM(A1:A3)")],
    );
    assert_eq!(
        evaluate(&formula("=SUM(A3:A3)"), &g),
        Err(SheetError::Overflow)
    );
}
