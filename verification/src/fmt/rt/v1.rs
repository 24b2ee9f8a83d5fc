//! The formatting specification of one argument: which argument, and the
//! fill, alignment, flags, width and precision to format it with.

use vstd::prelude::*;

verus! {

/// Alignment requested by a format specification.
#[derive(Copy, Clone, Debug, PartialEq, Eq, Structural)]
pub enum Alignment {
    /// Contents are left-aligned.
    Left,
    /// Contents are right-aligned.
    Right,
    /// Contents are centered.
    Center,
    /// No alignment was requested.
    Unknown,
}

/// A width or a precision: given, taken from an argument, or not given.
#[derive(Copy, Clone, Debug, PartialEq, Eq, Structural)]
pub enum Count {
    /// The count itself.
    Is(usize),
    /// The count held by the argument at this index.
    Param(usize),
    /// The count held by the next argument.
    NextParam,
    /// No count.
    Implied,
}

/// Which argument a specification formats.
#[derive(Copy, Clone, Debug, PartialEq, Eq, Structural)]
pub enum Position {
    /// The next argument.
    Next,
    /// The argument at this index.
    At(usize),
}

/// How to format an argument.
#[derive(Copy, Clone, Debug, PartialEq, Eq, Structural)]
pub struct FormatSpec {
    pub fill: char,
    pub align: Alignment,
    pub flags: u32,
    pub precision: Count,
    pub width: Count,
}

/// One placeholder of a format string: which argument, formatted how.
#[derive(Copy, Clone, Debug, PartialEq, Eq, Structural)]
pub struct Argument {
    pub position: Position,
    pub format: FormatSpec,
}

} // verus!
