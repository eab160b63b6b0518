//! What the trees of the grammar look like, and the tokens that spell a tree.
//!
//! The grammar gives every tree exactly one spelling in tokens: the rules
//! here say which trees it can give (their shape), how deep `not` and `(`
//! stand in one another (their nesting), and which tokens spell them.

use crate::kbql::ast::ExpressionView;
use crate::kbql::ast::LiteralView;
use crate::kbql::ast::QueryView;
use crate::kbql::ast::TermView;
use crate::kbql::grammar::token_at;
use crate::kbql::token::TokenView;
use vstd::prelude::*;

verus! {

/// The number of tokens that spell a term.
pub open spec fn term_width(term: TermView) -> nat
    decreases term,
{
    match term {
        TermView::Literal(_) => 1,
        TermView::Lookup(path) => if path.len() == 0 {
            0
        } else {
            (2 * path.len() - 1) as nat
        },
        TermView::Expression(inner) => expression_width(*inner) + 2,
        TermView::Not(inner) => term_width(*inner) + 1,
    }
}

/// The number of tokens that spell an expression.
pub open spec fn expression_width(expression: ExpressionView) -> nat
    decreases expression,
{
    match expression {
        ExpressionView::Term(term) => term_width(term),
        ExpressionView::Is(lhs, rhs) => expression_width(*lhs) + 1 + expression_width(*rhs),
        ExpressionView::IsNot(lhs, rhs) => expression_width(*lhs) + 2 + expression_width(*rhs),
        ExpressionView::And(lhs, rhs) => expression_width(*lhs) + 1 + expression_width(*rhs),
        ExpressionView::Or(lhs, rhs) => expression_width(*lhs) + 1 + expression_width(*rhs),
    }
}

/// Whether the tokens from `pos` on spell the lookup `path`: its
/// identifiers in order, with a `.` between each two.
pub open spec fn spells_path(tokens: Seq<TokenView>, pos: int, path: Seq<Seq<char>>) -> bool {
    &&& path.len() > 0
    &&& forall|i: int|
        0 <= i < path.len() ==> #[trigger] token_at(tokens, pos + 2 * i) == TokenView::Identifier(
            path[i],
        )
    &&& forall|i: int|
        0 <= i < path.len() - 1 ==> #[trigger] token_at(tokens, pos + 2 * i + 1) is Dot
}

/// Whether the tokens from `pos` on spell `term`.
pub open spec fn spells_term(tokens: Seq<TokenView>, pos: int, term: TermView) -> bool
    decreases term,
{
    match term {
        TermView::Literal(LiteralView::Integer(value)) => token_at(tokens, pos)
            == TokenView::Integer(value),
        TermView::Literal(LiteralView::Float(text)) => token_at(tokens, pos) == TokenView::Float(
            text,
        ),
        TermView::Literal(LiteralView::String(text)) => token_at(tokens, pos) == TokenView::String(
            text,
        ),
        TermView::Lookup(path) => spells_path(tokens, pos, path),
        TermView::Expression(inner) => {
            &&& token_at(tokens, pos) is LeftParen
            &&& spells_expression(tokens, pos + 1, *inner)
            &&& token_at(tokens, pos + 1 + expression_width(*inner)) is RightParen
        },
        TermView::Not(inner) => {
            &&& token_at(tokens, pos) is Not
            &&& spells_term(tokens, pos + 1, *inner)
        },
    }
}

/// Whether the tokens from `pos` on spell `expression`.
pub open spec fn spells_expression(
    tokens: Seq<TokenView>,
    pos: int,
    expression: ExpressionView,
) -> bool
    decreases expression,
{
    match expression {
        ExpressionView::Term(term) => spells_term(tokens, pos, term),
        ExpressionView::Is(lhs, rhs) => {
            &&& spells_expression(tokens, pos, *lhs)
            &&& token_at(tokens, pos + expression_width(*lhs)) is Is
            &&& spells_expression(tokens, pos + expression_width(*lhs) + 1, *rhs)
        },
        ExpressionView::IsNot(lhs, rhs) => {
            &&& spells_expression(tokens, pos, *lhs)
            &&& token_at(tokens, pos + expression_width(*lhs)) is Is
            &&& token_at(tokens, pos + expression_width(*lhs) + 1) is Not
            &&& spells_expression(tokens, pos + expression_width(*lhs) + 2, *rhs)
        },
        ExpressionView::And(lhs, rhs) => {
            &&& spells_expression(tokens, pos, *lhs)
            &&& token_at(tokens, pos + expression_width(*lhs)) is And
            &&& spells_expression(tokens, pos + expression_width(*lhs) + 1, *rhs)
        },
        ExpressionView::Or(lhs, rhs) => {
            &&& spells_expression(tokens, pos, *lhs)
            &&& token_at(tokens, pos + expression_width(*lhs)) is Or
            &&& spells_expression(tokens, pos + expression_width(*lhs) + 1, *rhs)
        },
    }
}

/// Whether the grammar can give `term`: a lookup has at least one
/// identifier, and what stands inside `not` and `(` has the shape of its
/// own rule.
pub open spec fn is_term_shape(term: TermView) -> bool
    decreases term, 0int,
{
    match term {
        TermView::Literal(_) => true,
        TermView::Lookup(path) => path.len() > 0,
        TermView::Expression(inner) => is_expression_shape(*inner),
        TermView::Not(inner) => is_term_shape(*inner),
    }
}

/// Whether the grammar can give `expression` as a comparison: a term, or a
/// comparison joined by `is` or `is not` to a term. After `is` stands no
/// `not` term, since `is not` reads as one operator.
pub open spec fn is_comparison_shape(expression: ExpressionView) -> bool
    decreases expression, 1int,
{
    match expression {
        ExpressionView::Term(term) => is_term_shape(term),
        ExpressionView::Is(lhs, rhs) => {
            &&& is_comparison_shape(*lhs)
            &&& *rhs matches ExpressionView::Term(term)
            &&& is_term_shape(term)
            &&& !(term is Not)
        },
        ExpressionView::IsNot(lhs, rhs) => {
            &&& is_comparison_shape(*lhs)
            &&& *rhs matches ExpressionView::Term(term)
            &&& is_term_shape(term)
        },
        _ => false,
    }
}

/// Whether the grammar can give `expression`: a comparison, or an
/// expression joined by `and` or `or` to a comparison.
pub open spec fn is_expression_shape(expression: ExpressionView) -> bool
    decreases expression, 2int,
{
    match expression {
        ExpressionView::And(lhs, rhs) => is_expression_shape(*lhs) && is_comparison_shape(*rhs),
        ExpressionView::Or(lhs, rhs) => is_expression_shape(*lhs) && is_comparison_shape(*rhs),
        _ => is_comparison_shape(expression),
    }
}

/// The larger of two numbers.
pub open spec fn larger(a: nat, b: nat) -> nat {
    if a >= b {
        a
    } else {
        b
    }
}

/// How many `not` and `(` stand inside one another in `term`, at most.
pub open spec fn term_nesting(term: TermView) -> nat
    decreases term,
{
    match term {
        TermView::Literal(_) => 0,
        TermView::Lookup(_) => 0,
        TermView::Expression(inner) => expression_nesting(*inner) + 1,
        TermView::Not(inner) => term_nesting(*inner) + 1,
    }
}

/// How many `not` and `(` stand inside one another in `expression`, at most.
pub open spec fn expression_nesting(expression: ExpressionView) -> nat
    decreases expression,
{
    match expression {
        ExpressionView::Term(term) => term_nesting(term),
        ExpressionView::Is(lhs, rhs) => larger(expression_nesting(*lhs), expression_nesting(*rhs)),
        ExpressionView::IsNot(lhs, rhs) => larger(
            expression_nesting(*lhs),
            expression_nesting(*rhs),
        ),
        ExpressionView::And(lhs, rhs) => larger(expression_nesting(*lhs), expression_nesting(*rhs)),
        ExpressionView::Or(lhs, rhs) => larger(expression_nesting(*lhs), expression_nesting(*rhs)),
    }
}

/// The number of tokens that spell the first `count` terms of a list and
/// the commas between them.
pub open spec fn terms_width(terms: Seq<TermView>, count: int) -> nat
    decreases count,
{
    if count <= 0 || count > terms.len() {
        0
    } else if count == 1 {
        term_width(terms[0])
    } else {
        terms_width(terms, count - 1) + 1 + term_width(terms[count - 1])
    }
}

/// Whether a `,` and the term `terms[i]` stand after the first `i` terms of
/// the list that is spelled from `pos` on.
pub open spec fn spells_next_term(
    tokens: Seq<TokenView>,
    pos: int,
    terms: Seq<TermView>,
    i: int,
) -> bool {
    &&& token_at(tokens, pos + terms_width(terms, i)) is Comma
    &&& spells_term(tokens, pos + terms_width(terms, i) + 1, terms[i])
}

/// Whether the tokens from `pos` on spell the terms of a list, with a `,`
/// between each two.
pub open spec fn spells_terms(tokens: Seq<TokenView>, pos: int, terms: Seq<TermView>) -> bool {
    &&& spells_term(tokens, pos, terms[0])
    &&& forall|i: int| 1 <= i < terms.len() ==> #[trigger] spells_next_term(tokens, pos, terms, i)
}

/// The number of tokens that spell a query, the end of the text not counted.
pub open spec fn query_width(query: QueryView) -> nat {
    if query.returning.len() == 0 {
        expression_width(query.expression)
    } else {
        expression_width(query.expression) + 1 + terms_width(
            query.returning,
            query.returning.len() as int,
        )
    }
}

/// Whether `tokens` spell `query` and then end.
pub open spec fn spells_query(tokens: Seq<TokenView>, query: QueryView) -> bool {
    &&& spells_expression(tokens, 0, query.expression)
    &&& query.returning.len() > 0 ==> {
        &&& token_at(tokens, expression_width(query.expression) as int) is Returning
        &&& spells_terms(
            tokens,
            expression_width(query.expression) as int + 1,
            query.returning,
        )
    }
    &&& token_at(tokens, query_width(query) as int) is End
}

/// Whether the grammar can give `query`.
pub open spec fn is_query_shape(query: QueryView) -> bool {
    &&& is_expression_shape(query.expression)
    &&& forall|i: int| 0 <= i < query.returning.len() ==> is_term_shape(#[trigger] query.returning[i])
}

/// Whether nothing in `query` nests `not` and `(` more than `depth` deep.
pub open spec fn query_nests_within(query: QueryView, depth: nat) -> bool {
    &&& expression_nesting(query.expression) <= depth
    &&& forall|i: int|
        0 <= i < query.returning.len() ==> term_nesting(#[trigger] query.returning[i]) <= depth
}

} // verus!
