//! The grammar of a query over its tokens, as a mathematical function from a
//! token list to the tree it stands for or to the first violation.

use crate::kbql::ast::combine;
use crate::kbql::ast::fold_left;
use crate::kbql::ast::ExpressionView;
use crate::kbql::ast::LiteralView;
use crate::kbql::ast::Operator;
use crate::kbql::ast::QueryView;
use crate::kbql::ast::TermView;
use crate::kbql::error::ErrorKind;
use crate::kbql::token::lex;
use crate::kbql::token::tokens_of;
use crate::kbql::token::LexemeView;
use crate::kbql::token::TokenView;
use crate::text::byte_offset;
use crate::text::column_of;
use crate::text::line_of;
use vstd::prelude::*;

verus! {

/// What reading one production from a position gives: its value and the
/// position after it, or the kind of the violation and the token it is at.
pub ghost enum Parsed<T> {
    Success { value: T, next: int },
    Failure { kind: ErrorKind, at: int },
}

/// The operands of a chain after its first: each with the operator before it.
pub type Chain = Seq<(Operator, ExpressionView)>;

/// The token at `pos`; beyond the list, the end of the text.
pub open spec fn token_at(tokens: Seq<TokenView>, pos: int) -> TokenView {
    if 0 <= pos < tokens.len() {
        tokens[pos]
    } else {
        TokenView::End
    }
}

/// The kind of violation that an unwanted token at `pos` is: where no token
/// could be read there, the reason for that; else what the grammar wanted.
pub open spec fn violation(tokens: Seq<TokenView>, pos: int, wanted: ErrorKind) -> ErrorKind {
    match token_at(tokens, pos) {
        TokenView::Invalid(kind) => kind,
        _ => wanted,
    }
}

/// The chain that stands for `lhs` followed by the operands of `tail`.
pub open spec fn fold_onto(lhs: ExpressionView, tail: Parsed<Chain>) -> Parsed<ExpressionView> {
    match tail {
        Parsed::Success { value, next } => Parsed::Success { value: fold_left(lhs, value), next },
        Parsed::Failure { kind, at } => Parsed::Failure { kind, at },
    }
}

/// The list that stands for `terms` followed by the terms of `tail`.
pub open spec fn extend_with(terms: Seq<TermView>, tail: Parsed<Seq<TermView>>) -> Parsed<
    Seq<TermView>,
> {
    match tail {
        Parsed::Success { value, next } => Parsed::Success { value: terms + value, next },
        Parsed::Failure { kind, at } => Parsed::Failure { kind, at },
    }
}

/// Folding a chain to the left is the same as joining its first operand to
/// what stands before it and folding the rest.
pub proof fn lemma_fold_left_front(
    first: ExpressionView,
    head: (Operator, ExpressionView),
    rest: Chain,
)
    ensures
        fold_left(first, seq![head] + rest) == fold_left(combine(head.0, first, head.1), rest),
    decreases rest.len(),
{
    let chain = seq![head] + rest;
    if rest.len() == 0 {
        assert(chain.drop_last() =~= Seq::<(Operator, ExpressionView)>::empty());
        assert(chain.last() == head);
        assert(fold_left(first, chain.drop_last()) == first);
        assert(fold_left(combine(head.0, first, head.1), rest) == combine(head.0, first, head.1));
    } else {
        lemma_fold_left_front(first, head, rest.drop_last());
        assert(chain.drop_last() =~= seq![head] + rest.drop_last());
        assert(chain.last() == rest.last());
    }
}

/// The rest of a lookup after its first identifier: `{ "." identifier }`.
pub open spec fn parse_lookup_tail(tokens: Seq<TokenView>, pos: int, path: Seq<Seq<char>>) -> Parsed<
    Seq<Seq<char>>,
>
    decreases tokens.len() - pos,
{
    if token_at(tokens, pos) is Dot {
        match token_at(tokens, pos + 1) {
            TokenView::Identifier(name) => parse_lookup_tail(tokens, pos + 2, path.push(name)),
            _ => Parsed::Failure {
                kind: violation(tokens, pos + 1, ErrorKind::ExpectedIdentifier),
                at: pos + 1,
            },
        }
    } else {
        Parsed::Success { value: path, next: pos }
    }
}

/// `term = number | string | lookup | "not" term | "(" expression ")"`,
/// with `depth` more levels of `not` and `(` allowed.
pub open spec fn parse_term(tokens: Seq<TokenView>, pos: int, depth: nat) -> Parsed<TermView>
    decreases tokens.len() - pos, 0int,
{
    match token_at(tokens, pos) {
        TokenView::Integer(value) => Parsed::Success {
            value: TermView::Literal(LiteralView::Integer(value)),
            next: pos + 1,
        },
        TokenView::Float(text) => Parsed::Success {
            value: TermView::Literal(LiteralView::Float(text)),
            next: pos + 1,
        },
        TokenView::String(text) => Parsed::Success {
            value: TermView::Literal(LiteralView::String(text)),
            next: pos + 1,
        },
        TokenView::Identifier(name) => match parse_lookup_tail(tokens, pos + 1, seq![name]) {
            Parsed::Success { value, next } => Parsed::Success { value: TermView::Lookup(value), next },
            Parsed::Failure { kind, at } => Parsed::Failure { kind, at },
        },
        TokenView::Not => if depth == 0 {
            Parsed::Failure { kind: ErrorKind::NestingTooDeep, at: pos }
        } else {
            match parse_term(tokens, pos + 1, (depth - 1) as nat) {
                Parsed::Success { value, next } => Parsed::Success {
                    value: TermView::Not(Box::new(value)),
                    next,
                },
                Parsed::Failure { kind, at } => Parsed::Failure { kind, at },
            }
        },
        TokenView::LeftParen => if depth == 0 {
            Parsed::Failure { kind: ErrorKind::NestingTooDeep, at: pos }
        } else {
            match parse_expression(tokens, pos + 1, (depth - 1) as nat) {
                Parsed::Success { value, next } => if token_at(tokens, next) is RightParen {
                    Parsed::Success { value: TermView::Expression(Box::new(value)), next: next + 1 }
                } else {
                    Parsed::Failure {
                        kind: violation(tokens, next, ErrorKind::ExpectedRightParen),
                        at: next,
                    }
                },
                Parsed::Failure { kind, at } => Parsed::Failure { kind, at },
            }
        },
        TokenView::Invalid(kind) => Parsed::Failure { kind, at: pos },
        _ => Parsed::Failure { kind: ErrorKind::ExpectedTerm, at: pos },
    }
}

/// The operands of a comparison after its first term: `{ "is" ["not"] term }`.
/// `not` right after `is` always belongs to the operator.
pub open spec fn parse_comparison_tail(tokens: Seq<TokenView>, pos: int, depth: nat) -> Parsed<Chain>
    decreases tokens.len() - pos, 1int,
{
    if token_at(tokens, pos) is Is {
        let negated = token_at(tokens, pos + 1) is Not;
        let operator = if negated {
            Operator::IsNot
        } else {
            Operator::Is
        };
        let operand_at = if negated {
            pos + 2
        } else {
            pos + 1
        };
        match parse_term(tokens, operand_at, depth) {
            Parsed::Success { value, next } => if operand_at < next <= tokens.len() {
                match parse_comparison_tail(tokens, next, depth) {
                    Parsed::Success { value: rest, next: end } => Parsed::Success {
                        value: seq![(operator, ExpressionView::Term(value))] + rest,
                        next: end,
                    },
                    Parsed::Failure { kind, at } => Parsed::Failure { kind, at },
                }
            } else {
                Parsed::Failure { kind: ErrorKind::ExpectedTerm, at: operand_at }
            },
            Parsed::Failure { kind, at } => Parsed::Failure { kind, at },
        }
    } else {
        Parsed::Success { value: Seq::empty(), next: pos }
    }
}

/// `comparison = term { "is" ["not"] term }`, folded to the left.
pub open spec fn parse_comparison(tokens: Seq<TokenView>, pos: int, depth: nat) -> Parsed<
    ExpressionView,
>
    decreases tokens.len() - pos, 2int,
{
    match parse_term(tokens, pos, depth) {
        Parsed::Success { value: first, next } => if pos < next <= tokens.len() {
            match parse_comparison_tail(tokens, next, depth) {
                Parsed::Success { value: rest, next: end } => Parsed::Success {
                    value: fold_left(ExpressionView::Term(first), rest),
                    next: end,
                },
                Parsed::Failure { kind, at } => Parsed::Failure { kind, at },
            }
        } else {
            Parsed::Failure { kind: ErrorKind::ExpectedTerm, at: pos }
        },
        Parsed::Failure { kind, at } => Parsed::Failure { kind, at },
    }
}

/// The operands of an expression after its first comparison:
/// `{ ("and" | "or") comparison }`.
pub open spec fn parse_logical_tail(tokens: Seq<TokenView>, pos: int, depth: nat) -> Parsed<Chain>
    decreases tokens.len() - pos, 3int,
{
    let token = token_at(tokens, pos);
    if token is And || token is Or {
        let operator = if token is And {
            Operator::And
        } else {
            Operator::Or
        };
        match parse_comparison(tokens, pos + 1, depth) {
            Parsed::Success { value, next } => if pos + 1 < next <= tokens.len() {
                match parse_logical_tail(tokens, next, depth) {
                    Parsed::Success { value: rest, next: end } => Parsed::Success {
                        value: seq![(operator, value)] + rest,
                        next: end,
                    },
                    Parsed::Failure { kind, at } => Parsed::Failure { kind, at },
                }
            } else {
                Parsed::Failure { kind: ErrorKind::ExpectedTerm, at: pos + 1 }
            },
            Parsed::Failure { kind, at } => Parsed::Failure { kind, at },
        }
    } else {
        Parsed::Success { value: Seq::empty(), next: pos }
    }
}

/// `expression = comparison { ("and" | "or") comparison }`, folded to the
/// left with no precedence between `and` and `or`.
pub open spec fn parse_expression(tokens: Seq<TokenView>, pos: int, depth: nat) -> Parsed<
    ExpressionView,
>
    decreases tokens.len() - pos, 4int,
{
    match parse_comparison(tokens, pos, depth) {
        Parsed::Success { value: first, next } => if pos < next <= tokens.len() {
            match parse_logical_tail(tokens, next, depth) {
                Parsed::Success { value: rest, next: end } => Parsed::Success {
                    value: fold_left(first, rest),
                    next: end,
                },
                Parsed::Failure { kind, at } => Parsed::Failure { kind, at },
            }
        } else {
            Parsed::Failure { kind: ErrorKind::ExpectedTerm, at: pos }
        },
        Parsed::Failure { kind, at } => Parsed::Failure { kind, at },
    }
}

/// The terms of a `returning` list after its first, up to the end of the
/// query: `{ "," term }`.
pub open spec fn parse_returning_tail(tokens: Seq<TokenView>, pos: int, depth: nat) -> Parsed<
    Seq<TermView>,
>
    decreases tokens.len() - pos,
{
    let token = token_at(tokens, pos);
    if token is Comma {
        match parse_term(tokens, pos + 1, depth) {
            Parsed::Success { value, next } => if pos + 1 < next <= tokens.len() {
                match parse_returning_tail(tokens, next, depth) {
                    Parsed::Success { value: rest, next: end } => Parsed::Success {
                        value: seq![value] + rest,
                        next: end,
                    },
                    Parsed::Failure { kind, at } => Parsed::Failure { kind, at },
                }
            } else {
                Parsed::Failure { kind: ErrorKind::ExpectedTerm, at: pos + 1 }
            },
            Parsed::Failure { kind, at } => Parsed::Failure { kind, at },
        }
    } else if token is End {
        Parsed::Success { value: Seq::empty(), next: pos }
    } else {
        Parsed::Failure { kind: violation(tokens, pos, ErrorKind::ExpectedCommaOrEnd), at: pos }
    }
}

/// `query = expression [ "returning" term { "," term } ]`, which must take
/// all the tokens up to the end of the text.
pub open spec fn parse_query(tokens: Seq<TokenView>, depth: nat) -> Parsed<QueryView> {
    match parse_expression(tokens, 0, depth) {
        Parsed::Success { value: expression, next } => match token_at(tokens, next) {
            TokenView::End => Parsed::Success {
                value: QueryView { expression, returning: Seq::empty() },
                next,
            },
            TokenView::Returning => match parse_term(tokens, next + 1, depth) {
                Parsed::Success { value: first, next: after } => match parse_returning_tail(
                    tokens,
                    after,
                    depth,
                ) {
                    Parsed::Success { value: rest, next: end } => Parsed::Success {
                        value: QueryView { expression, returning: seq![first] + rest },
                        next: end,
                    },
                    Parsed::Failure { kind, at } => Parsed::Failure { kind, at },
                },
                Parsed::Failure { kind, at } => Parsed::Failure { kind, at },
            },
            _ => Parsed::Failure {
                kind: violation(tokens, next, ErrorKind::ExpectedOperatorOrEnd),
                at: next,
            },
        },
        Parsed::Failure { kind, at } => Parsed::Failure { kind, at },
    }
}

/// Where and why a parse ended, in terms of the text.
pub ghost struct ParseErrorView {
    pub kind: ErrorKind,
    /// The text of the token at which the violation was found; empty at the
    /// end of the text.
    pub found: Seq<char>,
    /// The position of that token, in characters.
    pub position: int,
    /// The same position in bytes of UTF-8.
    pub offset: int,
    /// The line of the position, counted from 0.
    pub line: int,
    /// The column of the position, counted from 0 in characters.
    pub column: int,
}

/// How an error reads: what was wanted, the byte at which it was not found,
/// and what was found there.
pub open spec fn error_message(error: ParseErrorView) -> Seq<char> {
    crate::kbql::error::kind_description(error.kind) + " at byte "@ + crate::text::decimal_text(
        error.offset,
    ) + if error.found.len() == 0 {
        ", found the end of the query"@
    } else {
        ", found `"@ + error.found + "`"@
    }
}

/// The place in `s` from which the lexeme at index `at` was read; beyond the
/// list, the end of the text.
pub open spec fn lexeme_at(s: Seq<char>, lexemes: Seq<LexemeView>, at: int) -> LexemeView {
    if 0 <= at < lexemes.len() && 0 <= lexemes[at].start <= lexemes[at].end <= s.len() {
        lexemes[at]
    } else {
        LexemeView { token: TokenView::End, start: s.len() as int, end: s.len() as int }
    }
}

/// The error that a violation of `kind` at the lexeme with index `at` is.
pub open spec fn error_at(
    s: Seq<char>,
    lexemes: Seq<LexemeView>,
    kind: ErrorKind,
    at: int,
) -> ParseErrorView {
    let lexeme = lexeme_at(s, lexemes, at);
    ParseErrorView {
        kind,
        found: s.subrange(lexeme.start, lexeme.end),
        position: lexeme.start,
        offset: byte_offset(s, lexeme.start) as int,
        line: line_of(s, lexeme.start) as int,
        column: column_of(s, lexeme.start) as int,
    }
}

/// What the text `s` parses to, with at most `depth` levels of `not` and `(`
/// inside one another: the query, or the first violation in reading order.
pub open spec fn parse_source(s: Seq<char>, depth: nat) -> Result<QueryView, ParseErrorView> {
    let lexemes = lex(s);
    match parse_query(tokens_of(lexemes), depth) {
        Parsed::Success { value, .. } => Ok(value),
        Parsed::Failure { kind, at } => Err(error_at(s, lexemes, kind, at)),
    }
}

} // verus!
