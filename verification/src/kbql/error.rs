//! What can be wrong with a query.

use vstd::prelude::*;

verus! {

/// The kind of violation that ended a parse, named by what the grammar would
/// have accepted at that point.
#[derive(Clone, Copy, Debug, PartialEq, Eq, Structural)]
pub enum ErrorKind {
    /// A character that starts no token and is not whitespace.
    UnrecognizedCharacter,
    /// A `"` that no later `"` closes.
    UnterminatedString,
    /// A number without a fraction that does not fit in 64 signed bits.
    IntegerOutOfRange,
    /// A term was needed: a number, a string, a lookup, `not` or `(`.
    ExpectedTerm,
    /// An identifier was needed after the `.` of a lookup.
    ExpectedIdentifier,
    /// A `)` was needed to close a parenthesized expression.
    ExpectedRightParen,
    /// After a complete expression only an operator, `returning` or the end
    /// of the query can follow.
    ExpectedOperatorOrEnd,
    /// After a term of the `returning` list only `,` or the end of the query
    /// can follow.
    ExpectedCommaOrEnd,
    /// `not` and `(` are nested more deeply than the limit allows.
    NestingTooDeep,
}

/// What each kind of violation is called.
pub open spec fn kind_description(kind: ErrorKind) -> Seq<char> {
    match kind {
        ErrorKind::UnrecognizedCharacter => "unrecognized character"@,
        ErrorKind::UnterminatedString => "unterminated string"@,
        ErrorKind::IntegerOutOfRange => "number out of range"@,
        ErrorKind::ExpectedTerm => "expected a term"@,
        ErrorKind::ExpectedIdentifier => "expected an identifier"@,
        ErrorKind::ExpectedRightParen => "expected `)`"@,
        ErrorKind::ExpectedOperatorOrEnd =>
            "expected an operator, `returning` or the end of the query"@,
        ErrorKind::ExpectedCommaOrEnd => "expected `,` or the end of the query"@,
        ErrorKind::NestingTooDeep => "nested too deeply"@,
    }
}

impl ErrorKind {
    /// What the violation is called.
    pub fn description(&self) -> (words: &'static str)
        ensures
            words@ == kind_description(*self),
    {
        match self {
            ErrorKind::UnrecognizedCharacter => "unrecognized character",
            ErrorKind::UnterminatedString => "unterminated string",
            ErrorKind::IntegerOutOfRange => "number out of range",
            ErrorKind::ExpectedTerm => "expected a term",
            ErrorKind::ExpectedIdentifier => "expected an identifier",
            ErrorKind::ExpectedRightParen => "expected `)`",
            ErrorKind::ExpectedOperatorOrEnd =>
                "expected an operator, `returning` or the end of the query",
            ErrorKind::ExpectedCommaOrEnd => "expected `,` or the end of the query",
            ErrorKind::NestingTooDeep => "nested too deeply",
        }
    }
}

} // verus!
