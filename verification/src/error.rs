//! The ways in which lexing and parsing fail, and the one diagnostic that is
//! not a failure.

use vstd::prelude::*;

verus! {

/// Why a text cannot be turned into tokens.
#[derive(Clone, Copy, Debug, PartialEq, Eq, Structural)]
pub enum LexFault {
    /// A `.` was read while a `-` was still waiting for its `>`.
    InvalidSymbolGroup,
    /// A run of digits denotes a number above `u32::MAX`.
    NumberOverflow,
}

/// A fatal lexing error together with the place where it arose.
///
/// For [`LexFault::InvalidSymbolGroup`] the position is the index of the
/// character that could not complete the symbol; for
/// [`LexFault::NumberOverflow`] it is the index of the first digit of the
/// number. Positions count characters, not bytes, from zero.
#[derive(Clone, Copy, Debug, PartialEq, Eq, Structural)]
pub struct LexError {
    pub fault: LexFault,
    pub position: usize,
}

/// A character that belongs to no token and is not white space. It is reported
/// and otherwise ignored.
#[derive(Clone, Copy, Debug, PartialEq, Eq, Structural)]
pub struct StrayChar {
    pub character: char,
    pub position: usize,
}

/// Use of a name that has not been declared.
#[derive(Clone, Copy, Debug, PartialEq, Eq, Structural)]
pub enum ReferenceError {
    /// A type name that is neither an alias, nor a table, nor built in.
    UnknownType,
    /// A ratio names a table that has not been declared before it.
    UnknownTable,
}

/// A declaration that is structurally wrong.
#[derive(Clone, Copy, Debug, PartialEq, Eq, Structural)]
pub enum SchemaError {
    /// No property of a table carries the primary-key marker.
    MissingPrimaryKey,
    /// More than one property of a table carries the primary-key marker.
    DuplicatePrimaryKey,
    /// What follows `->` is neither a count nor a table name with a count.
    InvalidRatioSyntax,
    /// The count of a ratio is opened but not closed as `(n)` or `(a..b)`.
    InvalidRatioSpecifier,
}

/// Why a token sequence cannot be turned into a schema.
#[derive(Clone, Copy, Debug, PartialEq, Eq, Structural)]
pub enum ParseFault {
    Reference(ReferenceError),
    Schema(SchemaError),
}

/// A fatal parse error together with the index of the token it is about.
#[derive(Clone, Copy, Debug, PartialEq, Eq, Structural)]
pub struct ParseError {
    pub fault: ParseFault,
    pub position: usize,
}

} // verus!
