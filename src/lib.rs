//! A terminal spreadsheet's core: a rectangular grid of text cells, cell
//! references such as `B12`, a small formula language that aggregates a row
//! or column range, and the browse / edit state machine that drives it.

pub mod address;
pub mod command;
pub mod error;
pub mod evaluation;
pub mod formulas;
pub mod grid;
pub mod home;
pub mod modes;
pub mod navigation;
pub mod spreadsheet;
pub mod storage;
pub mod text;
