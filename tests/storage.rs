use rusty_sheets::address::CellAddress;
use rusty_sheets::storage::{cell_key, decode_entries, encode_entries, parse_cell_key, sheet_key};

#[test]
fn cell_keys() {
    assert_eq!(cell_key(CellAddress { row: 3, col: 1 }), "3:1");
    assert_eq!(cell_key(CellAddress { row: 0, col: 120 }), "0:120");
}

#[test]
fn parse_cell_keys() {
    assert_eq!(parse_cell_key("3:1"), Some(CellAddress { row: 3, col: 1 }));
    assert_eq!(parse_cell_key("10:0"), Some(CellAddress { row: 10, col: 0 }));
    for bad in ["", "31", "3:", ":1", "3:x", "3:1:2", "-1:2"] {
        assert_eq!(parse_cell_key(bad), None, "{}", bad);
    }
}

#[test]
fn sheet_keys() {
    assert_eq!(sheet_key("Profits"), "spreadsheet:Profits");
}

#[test]
fn entries_encode_and_decode() {
    let e = vec![
        (CellAddress { row: 1, col: 2 }, "a".to_string()),
        (CellAddress { row: 7, col: 0 }, "b".to_string()),
    ];
    let stored = encode_entries(&e);
    assert_eq!(
        stored,
        vec![
            ("1:2".to_string(), "a".to_string()),
            ("7:0".to_string(), "b".to_string())
        ]
    );
    assert_eq!(decode_entries(&stored), e);
}
