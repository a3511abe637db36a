use rusty_sheets::navigation::{ActiveCell, EditSession, Key};
use rusty_sheets::spreadsheet::Spreadsheet;

fn sheet() -> Spreadsheet {
    Spreadsheet::with_dimensions(3, 4, 12, 3)
}

#[test]
fn corner_moves_up_and_left_stay() {
    let mut s = sheet();
    s.handle_key_press(Key::Up);
    assert_eq!(s.active_cell(), ActiveCell::set(0, 0));
    s.handle_key_press(Key::Left);
    assert_eq!(s.active_cell(), ActiveCell::set(0, 0));
}

#[test]
fn moves_stop_at_far_edges() {
    let mut s = sheet();
    for _ in 0..10 {
        s.handle_key_press(Key::Down);
        s.handle_key_press(Key::Right);
    }
    assert_eq!(s.active_cell(), ActiveCell::set(2, 3));
    s.handle_key_press(Key::Up);
    s.handle_key_press(Key::Left);
    assert_eq!(s.active_cell(), ActiveCell::set(1, 2));
}

#[test]
fn active_cell_moves_on_its_own_axis() {
    let mut a = ActiveCell::set(1, 1);
    a.move_up();
    assert_eq!(a, ActiveCell::set(0, 1));
    a.move_up();
    assert_eq!(a, ActiveCell::set(0, 1));
    a.move_down(3);
    assert_eq!(a, ActiveCell::set(1, 1));
    a.move_right(2);
    assert_eq!(a, ActiveCell::set(1, 1));
    a.move_left();
    assert_eq!(a, ActiveCell::set(1, 0));
    a.move_left();
    assert_eq!(a, ActiveCell::set(1, 0));
    a.move_down(2);
    assert_eq!(a, ActiveCell::set(1, 0));
}

#[test]
fn backspace_on_empty_then_insert() {
    let mut s = sheet();
    s.handle_key_press(Key::Enter);
    assert!(s.is_editing());
    s.write_text(Key::Backspace);
    let e = s.edit_session().unwrap();
    assert_eq!(e.active_text(), "");
    assert_eq!(e.cursor_offset(), 0);
    s.write_text(Key::Char('x'));
    let e = s.edit_session().unwrap();
    assert_eq!(e.active_text(), "x");
    assert_eq!(e.cursor_offset(), 1);
}

#[test]
fn editing_starts_at_end_and_commits() {
    let mut s = sheet();
    s.set_value(0, 1, "ab").unwrap();
    s.focus(Key::Right);
    s.focus(Key::Enter);
    assert_eq!(s.edit_session().unwrap().cursor_offset(), 2);
    s.focus(Key::Left);
    s.focus(Key::Char('é'));
    s.focus(Key::Right);
    s.focus(Key::Right);
    s.focus(Key::Char('c'));
    s.focus(Key::Up);
    assert_eq!(s.edit_session().unwrap().active_text(), "aébc");
    assert_eq!(s.edit_session().unwrap().cursor_offset(), 4);
    s.focus(Key::Tab);
    assert!(!s.is_editing());
    assert_eq!(s.get_active_cell().text(), "aébc");
    assert_eq!(s.active_cell(), ActiveCell::set(0, 1));
}

#[test]
fn committed_formula_is_evaluated() {
    let mut s = sheet();
    s.set_value(0, 0, "4").unwrap();
    s.set_value(1, 0, "5").unwrap();
    s.handle_key_press(Key::Right);
    s.enter_text();
    for c in "=SUM(A1:A2)".chars() {
        s.write_text(Key::Char(c));
    }
    s.write_text(Key::Esc);
    assert_eq!(s.display_value(0, 1), "9");
}

#[test]
fn keys_go_to_the_right_state() {
    let mut s = sheet();
    s.write_text(Key::Char('q'));
    assert!(!s.is_editing());
    assert_eq!(s.get_active_cell().text(), "");
    s.handle_key_press(Key::Enter);
    s.handle_key_press(Key::Down);
    assert_eq!(s.active_cell(), ActiveCell::set(0, 0));
}

#[test]
fn typing_wraps_long_lines() {
    let mut e = EditSession::open("abc");
    e.apply(Key::Char('d'), 4);
    assert_eq!(e.active_text(), "abc\nd");
    assert_eq!(e.cursor_offset(), 5);
    e.apply(Key::Char('e'), 4);
    assert_eq!(e.active_text(), "abc\nde");
    e.apply(Key::Char('f'), 4);
    assert_eq!(e.active_text(), "abc\ndef");
    e.apply(Key::Char('g'), 4);
    assert_eq!(e.active_text(), "abc\ndef\ng");
}

#[test]
fn cursor_stays_within_text() {
    let mut e = EditSession::open("hi");
    e.apply(Key::Right, 12);
    assert_eq!(e.cursor_offset(), 2);
    e.apply(Key::Left, 12);
    e.apply(Key::Left, 12);
    e.apply(Key::Left, 12);
    assert_eq!(e.cursor_offset(), 0);
    e.apply(Key::Backspace, 12);
    assert_eq!(e.active_text(), "hi");
    e.apply(Key::Right, 12);
    e.apply(Key::Backspace, 12);
    assert_eq!(e.active_text(), "i");
    assert_eq!(e.cursor_offset(), 0);
}

#[test]
fn size_from_terminal() {
    let s = Spreadsheet::new(12, 3, 80, 24);
    assert_eq!(s.rows(), 7);
    assert_eq!(s.cols(), 6);
    let tiny = Spreadsheet::new(12, 3, 3, 1);
    assert_eq!(tiny.rows(), 1);
    assert_eq!(tiny.cols(), 1);
}

#[test]
fn store_and_reload_a_sheet() {
    let mut s = sheet();
    s.set_value(0, 0, "1").unwrap();
    s.set_value(2, 3, "=SUM(A1:A3)").unwrap();
    let stored = s.export_cells();
    assert_eq!(
        stored,
        vec![
            ("0:0".to_string(), "1".to_string()),
            ("2:3".to_string(), "=SUM(A1:A3)".to_string())
        ]
    );
    let mut t = sheet();
    let mut with_noise = stored.clone();
    with_noise.push(("9:9".to_string(), "far".to_string()));
    with_noise.push(("bad".to_string(), "key".to_string()));
    t.load_cells(with_noise);
    assert_eq!(t.export_cells(), stored);
    assert_eq!(t.display_value(2, 3), "1");
}
