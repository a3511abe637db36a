//! Which part of the screen has the keyboard, and what each key asks the
//! program to do there.

use vstd::prelude::*;
use crate::navigation::Key;

verus! {

/// The part of the screen that has the keyboard.
#[derive(Clone, Copy, Debug, PartialEq, Eq, Structural)]
pub enum AppMode {
    /// The sheet: browsing or editing cells.
    Normal,
    /// The command line.
    Command,
    /// The list of sheets.
    Home,
}

/// What the program does with a key.
#[derive(Clone, Copy, Debug, PartialEq, Eq, Structural)]
pub enum AppAction {
    /// Nothing.
    Nothing,
    /// Hand the key to the sheet.
    SheetKey,
    /// Hand the key to the command line.
    CommandKey,
    /// Hand the key to the list of sheets.
    HomeKey,
    /// Start a command line holding `:`.
    OpenCommandLine,
    /// Carry out the command line and close it.
    RunCommand,
    /// Close the command line without carrying it out.
    LeaveCommandLine,
    /// Ask for a name and create a sheet under it.
    CreateSheet,
    /// Load the selected sheet into the grid.
    OpenSelectedSheet,
    /// Close the command line, if it is open, and show the list of sheets.
    ShowHome,
    /// Hand `Esc` to the sheet, which writes the edited text back into its
    /// cell, then show the list of sheets.
    CommitAndShowHome,
    /// Quit.
    Exit,
}

/// The mode after `key` and what to do with it. On the list, `Enter` opens
/// the selected sheet, `+` creates one, `:` opens the command line, `Esc`
/// quits and the arrows move the selection. On the sheet, while a cell is
/// being edited `Esc` ends the edit and shows the list and every other key
/// goes to the cell; otherwise `:` opens the command line, `Esc` shows the
/// list, and other keys go to the sheet. On the command line, `Enter` runs
/// it, `Esc` closes it and shows the list, erasing its last character closes
/// it, and other keys edit it.
pub open spec fn route_spec(mode: AppMode, key: Key, editing: bool, command_len: int) -> (
    AppMode,
    AppAction,
) {
    match mode {
        AppMode::Home => match key {
            Key::Enter => (AppMode::Normal, AppAction::OpenSelectedSheet),
            Key::Char(c) => if c == '+' {
                (AppMode::Home, AppAction::CreateSheet)
            } else if c == ':' {
                (AppMode::Command, AppAction::OpenCommandLine)
            } else {
                (AppMode::Home, AppAction::Nothing)
            },
            Key::Esc => (AppMode::Home, AppAction::Exit),
            Key::Up => (AppMode::Home, AppAction::HomeKey),
            Key::Down => (AppMode::Home, AppAction::HomeKey),
            _ => (AppMode::Home, AppAction::Nothing),
        },
        AppMode::Normal => if editing {
            match key {
                Key::Esc => (AppMode::Home, AppAction::CommitAndShowHome),
                _ => (AppMode::Normal, AppAction::SheetKey),
            }
        } else {
            match key {
                Key::Char(c) => if c == ':' {
                    (AppMode::Command, AppAction::OpenCommandLine)
                } else {
                    (AppMode::Normal, AppAction::SheetKey)
                },
                Key::Esc => (AppMode::Home, AppAction::ShowHome),
                _ => (AppMode::Normal, AppAction::SheetKey),
            }
        },
        AppMode::Command => match key {
            Key::Enter => (AppMode::Normal, AppAction::RunCommand),
            Key::Esc => (AppMode::Home, AppAction::ShowHome),
            Key::Backspace => if command_len <= 1 {
                (AppMode::Normal, AppAction::LeaveCommandLine)
            } else {
                (AppMode::Command, AppAction::CommandKey)
            },
            _ => (AppMode::Command, AppAction::CommandKey),
        },
    }
}

/// The mode after `key` and what to do with it (see `route_spec`);
/// `editing` tells whether a cell is being edited, `command_len` how many
/// characters the command line holds.
pub fn route(mode: AppMode, key: Key, editing: bool, command_len: usize) -> (r: (AppMode, AppAction))
    ensures
        r == route_spec(mode, key, editing, command_len as int),
{
    match mode {
        AppMode::Home => match key {
            Key::Enter => (AppMode::Normal, AppAction::OpenSelectedSheet),
            Key::Char(c) => if c == '+' {
                (AppMode::Home, AppAction::CreateSheet)
            } else if c == ':' {
                (AppMode::Command, AppAction::OpenCommandLine)
            } else {
                (AppMode::Home, AppAction::Nothing)
            },
            Key::Esc => (AppMode::Home, AppAction::Exit),
            Key::Up => (AppMode::Home, AppAction::HomeKey),
            Key::Down => (AppMode::Home, AppAction::HomeKey),
            _ => (AppMode::Home, AppAction::Nothing),
        },
        AppMode::Normal => if editing {
            match key {
                Key::Esc => (AppMode::Home, AppAction::CommitAndShowHome),
                _ => (AppMode::Normal, AppAction::SheetKey),
            }
        } else {
            match key {
                Key::Char(c) => if c == ':' {
                    (AppMode::Command, AppAction::OpenCommandLine)
                } else {
                    (AppMode::Normal, AppAction::SheetKey)
                },
                Key::Esc => (AppMode::Home, AppAction::ShowHome),
                _ => (AppMode::Normal, AppAction::SheetKey),
            }
        },
        AppMode::Command => match key {
            Key::Enter => (AppMode::Normal, AppAction::RunCommand),
            Key::Esc => (AppMode::Home, AppAction::ShowHome),
            Key::Backspace => if command_len <= 1 {
                (AppMode::Normal, AppAction::LeaveCommandLine)
            } else {
                (AppMode::Command, AppAction::CommandKey)
            },
            _ => (AppMode::Command, AppAction::CommandKey),
        },
    }
}

} // verus!
