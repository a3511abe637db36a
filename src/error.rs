//! The ways in which a reference, a formula or a grid access can fail.

use vstd::prelude::*;

verus! {

/// Why a cell reference, a formula or a grid access was refused.
#[derive(Clone, Copy, Debug, PartialEq, Eq, Structural)]
pub enum SheetError {
    /// A cell reference is not a letter followed by a row number from 1.
    InvalidReference,
    /// A formula's range is missing its `:` or its closing `)`, or is diagonal.
    InvalidRange,
    /// A formula names an operation that the language does not have.
    UnknownOperation,
    /// A formula names an operation that parses but cannot be evaluated.
    UnsupportedOperation,
    /// A formula reads, directly or through other formulas, its own cell.
    CircularReference,
    /// A coordinate lies outside the grid.
    OutOfBounds,
    /// An aggregate left the range of a 64-bit signed integer.
    Overflow,
}

} // verus!
