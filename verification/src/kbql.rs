//! KBQL, the query language of the issue search.
//!
//! A query is a boolean expression over the fields of a record, optionally
//! followed by `returning` and the list of terms that the caller wants back:
//!
//! ```text
//! query      = expression [ "returning" term { "," term } ]
//! expression = comparison { ("and" | "or") comparison }
//! comparison = term { "is" ["not"] term }
//! term       = number | string | lookup | "not" term | "(" expression ")"
//! lookup     = identifier { "." identifier }
//! ```
//!
//! `and` and `or` have the same precedence, and so have `is` and `is not`:
//! a chain of them nests to the left, whatever operators it holds.
//!
//! The words `and`, `or`, `is`, `not` and `returning` are never
//! identifiers, and a word is read as far as its letters, digits and `_`
//! go: `nothing` is an identifier. In a quoted string `\"` stands for `"`
//! and every other character, a backslash included, for itself. A number
//! with a fraction is kept as it is spelled; a number without one must fit
//! in 64 signed bits. `not` and `(` may stand inside one another only as
//! deep as a limit allows.
//!
//! [`parser`] reads a query, [`printer`] writes one, [`grammar`] says what
//! reading means, and [`laws`] and [`roundtrip`] say what holds of both.

pub mod ast;
pub mod error;
pub mod token;
pub mod lexer;
pub mod grammar;
pub mod parser;
pub mod shape;
pub mod soundness;
pub mod completeness;
pub mod laws;
pub mod printer;
pub mod roundtrip;
