use rusty_sheets::command::{Command, CommandAction};
use rusty_sheets::home::{Home, Sheet};
use rusty_sheets::modes::{route, AppAction, AppMode};
use rusty_sheets::navigation::Key;

fn sheets(names: &[&str]) -> Vec<Sheet> {
    names
        .iter()
        .map(|n| Sheet {
            name: n.to_string(),
        })
        .collect()
}

#[test]
fn home_selection_wraps() {
    let mut h = Home::new(sheets(&["a", "b", "c"]));
    assert_eq!(h.selected(), 0);
    h.handle_key(Key::Up);
    assert_eq!(h.selected(), 2);
    h.handle_key(Key::Down);
    assert_eq!(h.selected(), 0);
    h.handle_key(Key::Down);
    assert_eq!(h.selected_sheet().unwrap().name, "b");
    h.handle_key(Key::Enter);
    assert_eq!(h.selected(), 1);
}

#[test]
fn empty_home_does_not_move() {
    let mut h = Home::new(Vec::new());
    h.handle_key(Key::Up);
    h.handle_key(Key::Down);
    assert_eq!(h.selected(), 0);
    assert!(h.selected_sheet().is_none());
    h.set_sheets(sheets(&["x"]));
    assert_eq!(h.selected_sheet().unwrap().name, "x");
}

#[test]
fn command_line_editing() {
    let mut c = Command::new();
    assert_eq!(c.input(), "");
    c.write_text(Key::Char(':'));
    c.write_text(Key::Char('x'));
    c.write_text(Key::Left);
    c.write_text(Key::Char('w'));
    assert_eq!(c.input(), ":wx");
    assert_eq!(c.cursor_pos(), 2);
    c.write_text(Key::Right);
    c.write_text(Key::Backspace);
    assert_eq!(c.input(), ":w");
    assert_eq!(c.action(), CommandAction::Save);
    c.clear();
    assert_eq!(c.len(), 0);
    c.write_text(Key::Backspace);
    assert_eq!(c.cursor_pos(), 0);
}

#[test]
fn command_actions() {
    let mut c = Command::new();
    for ch in "/total".chars() {
        c.write_text(Key::Char(ch));
    }
    assert_eq!(c.action(), CommandAction::Search);
    c.clear();
    for ch in ":q".chars() {
        c.write_text(Key::Char(ch));
    }
    assert_eq!(c.action(), CommandAction::Nothing);
}

#[test]
fn routing_between_screens() {
    assert_eq!(
        route(AppMode::Home, Key::Enter, false, 0),
        (AppMode::Normal, AppAction::OpenSelectedSheet)
    );
    assert_eq!(
        route(AppMode::Home, Key::Char('+'), false, 0),
        (AppMode::Home, AppAction::CreateSheet)
    );
    assert_eq!(route(AppMode::Home, Key::Esc, false, 0), (AppMode::Home, AppAction::Exit));
    assert_eq!(
        route(AppMode::Normal, Key::Char(':'), false, 0),
        (AppMode::Command, AppAction::OpenCommandLine)
    );
    assert_eq!(
        route(AppMode::Normal, Key::Char(':'), true, 0),
        (AppMode::Normal, AppAction::SheetKey)
    );
    assert_eq!(
        route(AppMode::Normal, Key::Esc, false, 0),
        (AppMode::Home, AppAction::ShowHome)
    );
    assert_eq!(
        route(AppMode::Command, Key::Enter, false, 2),
        (AppMode::Normal, AppAction::RunCommand)
    );
    assert_eq!(
        route(AppMode::Command, Key::Backspace, false, 1),
        (AppMode::Normal, AppAction::LeaveCommandLine)
    );
    assert_eq!(
        route(AppMode::Home, Key::Char(':'), false, 0),
        (AppMode::Command, AppAction::OpenCommandLine)
    );
    assert_eq!(
        route(AppMode::Normal, Key::Esc, true, 0),
        (AppMode::Home, AppAction::CommitAndShowHome)
    );
    assert_eq!(
        route(AppMode::Normal, Key::Char('x'), true, 0),
        (AppMode::Normal, AppAction::SheetKey)
    );
    assert_eq!(
        route(AppMode::Command, Key::Backspace, false, 3),
        (AppMode::Command, AppAction::CommandKey)
    );
}

#[test]
fn escape_from_command_line_goes_home() {
    assert_eq!(
        route(AppMode::Command, Key::Esc, false, 1),
        (AppMode::Home, AppAction::ShowHome)
    );
    assert_eq!(
        route(AppMode::Command, Key::Esc, false, 4),
        (AppMode::Home, AppAction::ShowHome)
    );
}
