//! Every tree of the grammar's shape is what the grammar reads from the
//! tokens that spell it.

use crate::kbql::ast::combine;
use crate::kbql::ast::ExpressionView;
use crate::kbql::ast::LiteralView;
use crate::kbql::ast::Operator;
use crate::kbql::ast::QueryView;
use crate::kbql::ast::TermView;
use crate::kbql::grammar::extend_with;
use crate::kbql::grammar::fold_onto;
use crate::kbql::grammar::lemma_fold_left_front;
use crate::kbql::grammar::parse_comparison;
use crate::kbql::grammar::parse_comparison_tail;
use crate::kbql::grammar::parse_expression;
use crate::kbql::grammar::parse_logical_tail;
use crate::kbql::grammar::parse_lookup_tail;
use crate::kbql::grammar::parse_query;
use crate::kbql::grammar::parse_returning_tail;
use crate::kbql::grammar::parse_term;
use crate::kbql::grammar::token_at;
use crate::kbql::grammar::Parsed;
use crate::kbql::shape::expression_nesting;
use crate::kbql::shape::expression_width;
use crate::kbql::shape::is_comparison_shape;
use crate::kbql::shape::is_expression_shape;
use crate::kbql::shape::is_query_shape;
use crate::kbql::shape::is_term_shape;
use crate::kbql::shape::query_nests_within;
use crate::kbql::shape::query_width;
use crate::kbql::shape::spells_expression;
use crate::kbql::shape::spells_next_term;
use crate::kbql::shape::spells_path;
use crate::kbql::shape::spells_query;
use crate::kbql::shape::spells_term;
use crate::kbql::shape::spells_terms;
use crate::kbql::shape::term_nesting;
use crate::kbql::shape::term_width;
use crate::kbql::shape::terms_width;
use crate::kbql::token::TokenView;
use vstd::prelude::*;

verus! {

/// The tokens that spell a term are tokens of the list, and at least one.
pub proof fn lemma_term_spelled_inside(tokens: Seq<TokenView>, pos: int, term: TermView)
    requires
        0 <= pos,
        spells_term(tokens, pos, term),
    ensures
        term_width(term) >= 1,
        pos + term_width(term) <= tokens.len(),
    decreases term,
{
    match term {
        TermView::Literal(LiteralView::Integer(_)) => {},
        TermView::Literal(LiteralView::Float(_)) => {},
        TermView::Literal(LiteralView::String(_)) => {},
        TermView::Lookup(path) => {
            let last = path.len() - 1;
            assert(token_at(tokens, pos + 2 * last) == TokenView::Identifier(path[last]));
        },
        TermView::Expression(inner) => {
            lemma_expression_spelled_inside(tokens, pos + 1, *inner);
        },
        TermView::Not(inner) => {
            lemma_term_spelled_inside(tokens, pos + 1, *inner);
        },
    }
}

/// The tokens that spell an expression are tokens of the list, and at least
/// one.
pub proof fn lemma_expression_spelled_inside(
    tokens: Seq<TokenView>,
    pos: int,
    expression: ExpressionView,
)
    requires
        0 <= pos,
        spells_expression(tokens, pos, expression),
    ensures
        expression_width(expression) >= 1,
        pos + expression_width(expression) <= tokens.len(),
    decreases expression,
{
    match expression {
        ExpressionView::Term(term) => {
            lemma_term_spelled_inside(tokens, pos, term);
        },
        ExpressionView::Is(lhs, rhs) => {
            lemma_expression_spelled_inside(tokens, pos + expression_width(*lhs) + 1, *rhs);
        },
        ExpressionView::IsNot(lhs, rhs) => {
            lemma_expression_spelled_inside(tokens, pos + expression_width(*lhs) + 2, *rhs);
        },
        ExpressionView::And(lhs, rhs) => {
            lemma_expression_spelled_inside(tokens, pos + expression_width(*lhs) + 1, *rhs);
        },
        ExpressionView::Or(lhs, rhs) => {
            lemma_expression_spelled_inside(tokens, pos + expression_width(*lhs) + 1, *rhs);
        },
    }
}

/// Only a `not` term starts with `not`.
pub proof fn lemma_first_token_of_term(tokens: Seq<TokenView>, pos: int, term: TermView)
    requires
        spells_term(tokens, pos, term),
    ensures
        token_at(tokens, pos) is Not <==> term is Not,
{
    match term {
        TermView::Lookup(path) => {
            assert(token_at(tokens, pos + 2 * 0) == TokenView::Identifier(path[0]));
        },
        _ => {},
    }
}

/// The grammar reads the rest of a lookup from the tokens that spell it,
/// where no `.` follows them.
pub proof fn lemma_lookup_tail_complete(
    tokens: Seq<TokenView>,
    start: int,
    path: Seq<Seq<char>>,
    count: int,
)
    requires
        0 <= start,
        spells_path(tokens, start, path),
        1 <= count <= path.len(),
        !(token_at(tokens, start + 2 * path.len() - 1) is Dot),
    ensures
        parse_lookup_tail(tokens, start + 2 * count - 1, path.take(count)) == (Parsed::Success {
            value: path,
            next: start + 2 * path.len() - 1,
        }),
    decreases path.len() - count,
{
    let pos = start + 2 * count - 1;
    if count == path.len() {
        assert(path.take(count) =~= path);
    } else {
        assert(token_at(tokens, start + 2 * (count - 1) + 1) is Dot);
        assert(token_at(tokens, start + 2 * count) == TokenView::Identifier(path[count]));
        assert(path.take(count).push(path[count]) =~= path.take(count + 1));
        assert(token_at(tokens, start + 2 * count) is Identifier);
        assert(start + 2 * count < tokens.len());
        lemma_lookup_tail_complete(tokens, start, path, count + 1);
    }
}

/// The grammar reads a term of its shape from the tokens that spell it,
/// where no `.` follows them and the nesting is allowed.
pub proof fn lemma_term_complete(tokens: Seq<TokenView>, pos: int, depth: nat, term: TermView)
    requires
        0 <= pos,
        is_term_shape(term),
        spells_term(tokens, pos, term),
        term_nesting(term) <= depth,
        !(token_at(tokens, pos + term_width(term)) is Dot),
    ensures
        parse_term(tokens, pos, depth) == (Parsed::Success {
            value: term,
            next: pos + term_width(term),
        }),
    decreases term, 0int,
{
    match term {
        TermView::Literal(LiteralView::Integer(_)) => {},
        TermView::Literal(LiteralView::Float(_)) => {},
        TermView::Literal(LiteralView::String(_)) => {},
        TermView::Lookup(path) => {
            assert(token_at(tokens, pos + 2 * 0) == TokenView::Identifier(path[0]));
            assert(path.take(1) =~= seq![path[0]]);
            lemma_lookup_tail_complete(tokens, pos, path, 1);
        },
        TermView::Expression(inner) => {
            lemma_expression_complete(tokens, pos + 1, (depth - 1) as nat, *inner);
        },
        TermView::Not(inner) => {
            lemma_term_complete(tokens, pos + 1, (depth - 1) as nat, *inner);
        },
    }
}

/// Reading a comparison from the tokens that spell it comes to the point
/// where all of it is read and joined, and goes on from there.
pub proof fn lemma_comparison_progress(
    tokens: Seq<TokenView>,
    pos: int,
    depth: nat,
    expression: ExpressionView,
)
    requires
        0 <= pos,
        is_comparison_shape(expression),
        spells_expression(tokens, pos, expression),
        expression_nesting(expression) <= depth,
        !(token_at(tokens, pos + expression_width(expression)) is Dot),
    ensures
        parse_comparison(tokens, pos, depth) == fold_onto(
            expression,
            parse_comparison_tail(tokens, pos + expression_width(expression), depth),
        ),
    decreases expression, 1int,
{
    lemma_expression_spelled_inside(tokens, pos, expression);
    match expression {
        ExpressionView::Term(term) => {
            lemma_term_complete(tokens, pos, depth, term);
        },
        ExpressionView::Is(lhs, rhs) => {
            let at = pos + expression_width(*lhs);
            lemma_comparison_progress(tokens, pos, depth, *lhs);
            match *rhs {
                ExpressionView::Term(operand) => {
                    assert(spells_expression(tokens, at + 1, *rhs));
                    assert(spells_term(tokens, at + 1, operand));
                    assert(expression_width(*rhs) == term_width(operand));
                    assert(expression_nesting(*rhs) == term_nesting(operand));
                    lemma_first_token_of_term(tokens, at + 1, operand);
                    lemma_term_complete(tokens, at + 1, depth, operand);
                    lemma_term_spelled_inside(tokens, at + 1, operand);
                    lemma_comparison_step(tokens, at, depth, *lhs, Operator::Is, operand);
                },
                _ => {},
            }
        },
        ExpressionView::IsNot(lhs, rhs) => {
            let at = pos + expression_width(*lhs);
            lemma_comparison_progress(tokens, pos, depth, *lhs);
            match *rhs {
                ExpressionView::Term(operand) => {
                    assert(spells_expression(tokens, at + 2, *rhs));
                    assert(spells_term(tokens, at + 2, operand));
                    assert(expression_width(*rhs) == term_width(operand));
                    assert(expression_nesting(*rhs) == term_nesting(operand));
                    lemma_term_complete(tokens, at + 2, depth, operand);
                    lemma_term_spelled_inside(tokens, at + 2, operand);
                    lemma_comparison_step(tokens, at, depth, *lhs, Operator::IsNot, operand);
                },
                _ => {},
            }
        },
        _ => {},
    }
}

/// One turn of reading a comparison: where `is` or `is not` and a term
/// stand at `at`, what is read from there after `lhs` is what is read after
/// the term with `lhs` and the term joined.
pub proof fn lemma_comparison_step(
    tokens: Seq<TokenView>,
    at: int,
    depth: nat,
    lhs: ExpressionView,
    operator: Operator,
    operand: TermView,
)
    requires
        0 <= at,
        token_at(tokens, at) is Is,
        operator == Operator::Is || operator == Operator::IsNot,
        (operator == Operator::IsNot) == (token_at(tokens, at + 1) is Not),
        ({
            let operand_at = if operator == Operator::IsNot {
                at + 2
            } else {
                at + 1
            };
            &&& parse_term(tokens, operand_at, depth) == (Parsed::Success {
                value: operand,
                next: operand_at + term_width(operand),
            })
            &&& term_width(operand) >= 1
            &&& operand_at + term_width(operand) <= tokens.len()
        }),
    ensures
        ({
            let operand_at = if operator == Operator::IsNot {
                at + 2
            } else {
                at + 1
            };
            fold_onto(lhs, parse_comparison_tail(tokens, at, depth)) == fold_onto(
                combine(operator, lhs, ExpressionView::Term(operand)),
                parse_comparison_tail(tokens, operand_at + term_width(operand), depth),
            )
        }),
{
    let operand_at = if operator == Operator::IsNot {
        at + 2
    } else {
        at + 1
    };
    let next = operand_at + term_width(operand);
    match parse_comparison_tail(tokens, next, depth) {
        Parsed::Success { value: rest, .. } => {
            lemma_fold_left_front(lhs, (operator, ExpressionView::Term(operand)), rest);
        },
        Parsed::Failure { .. } => {},
    }
}

/// The grammar reads a comparison of its shape from the tokens that spell
/// it, where neither `.` nor `is` follows them and the nesting is allowed.
pub proof fn lemma_comparison_complete(
    tokens: Seq<TokenView>,
    pos: int,
    depth: nat,
    expression: ExpressionView,
)
    requires
        0 <= pos,
        is_comparison_shape(expression),
        spells_expression(tokens, pos, expression),
        expression_nesting(expression) <= depth,
        !(token_at(tokens, pos + expression_width(expression)) is Dot),
        !(token_at(tokens, pos + expression_width(expression)) is Is),
    ensures
        parse_comparison(tokens, pos, depth) == (Parsed::Success {
            value: expression,
            next: pos + expression_width(expression),
        }),
    decreases expression, 2int,
{
    lemma_comparison_progress(tokens, pos, depth, expression);
}

/// One turn of reading an expression: where `and` or `or` and a comparison
/// stand at `at`, what is read from there after `lhs` is what is read after
/// the comparison with `lhs` and the comparison joined.
pub proof fn lemma_logical_step(
    tokens: Seq<TokenView>,
    at: int,
    depth: nat,
    lhs: ExpressionView,
    operator: Operator,
    operand: ExpressionView,
)
    requires
        0 <= at,
        operator == Operator::And || operator == Operator::Or,
        operator == Operator::And ==> token_at(tokens, at) is And,
        operator == Operator::Or ==> token_at(tokens, at) is Or,
        parse_comparison(tokens, at + 1, depth) == (Parsed::Success {
            value: operand,
            next: at + 1 + expression_width(operand),
        }),
        expression_width(operand) >= 1,
        at + 1 + expression_width(operand) <= tokens.len(),
    ensures
        fold_onto(lhs, parse_logical_tail(tokens, at, depth)) == fold_onto(
            combine(operator, lhs, operand),
            parse_logical_tail(tokens, at + 1 + expression_width(operand), depth),
        ),
{
    let next = at + 1 + expression_width(operand);
    match parse_logical_tail(tokens, next, depth) {
        Parsed::Success { value: rest, .. } => {
            lemma_fold_left_front(lhs, (operator, operand), rest);
        },
        Parsed::Failure { .. } => {},
    }
}

/// Reading an expression from the tokens that spell it comes to the point
/// where all of it is read and joined, and goes on from there.
pub proof fn lemma_expression_progress(
    tokens: Seq<TokenView>,
    pos: int,
    depth: nat,
    expression: ExpressionView,
)
    requires
        0 <= pos,
        is_expression_shape(expression),
        spells_expression(tokens, pos, expression),
        expression_nesting(expression) <= depth,
        !(token_at(tokens, pos + expression_width(expression)) is Dot),
        !(token_at(tokens, pos + expression_width(expression)) is Is),
    ensures
        parse_expression(tokens, pos, depth) == fold_onto(
            expression,
            parse_logical_tail(tokens, pos + expression_width(expression), depth),
        ),
    decreases expression, 3int,
{
    lemma_expression_spelled_inside(tokens, pos, expression);
    match expression {
        ExpressionView::And(lhs, rhs) => {
            let at = pos + expression_width(*lhs);
            lemma_expression_progress(tokens, pos, depth, *lhs);
            lemma_comparison_complete(tokens, at + 1, depth, *rhs);
            lemma_expression_spelled_inside(tokens, at + 1, *rhs);
            lemma_logical_step(tokens, at, depth, *lhs, Operator::And, *rhs);
        },
        ExpressionView::Or(lhs, rhs) => {
            let at = pos + expression_width(*lhs);
            lemma_expression_progress(tokens, pos, depth, *lhs);
            lemma_comparison_complete(tokens, at + 1, depth, *rhs);
            lemma_expression_spelled_inside(tokens, at + 1, *rhs);
            lemma_logical_step(tokens, at, depth, *lhs, Operator::Or, *rhs);
        },
        _ => {
            lemma_comparison_complete(tokens, pos, depth, expression);
        },
    }
}

/// The grammar reads an expression of its shape from the tokens that spell
/// it, where no `.` and no operator follows them and the nesting is allowed.
pub proof fn lemma_expression_complete(
    tokens: Seq<TokenView>,
    pos: int,
    depth: nat,
    expression: ExpressionView,
)
    requires
        0 <= pos,
        is_expression_shape(expression),
        spells_expression(tokens, pos, expression),
        expression_nesting(expression) <= depth,
        ({
            let follower = token_at(tokens, pos + expression_width(expression));
            !(follower is Dot) && !(follower is Is) && !(follower is And) && !(follower is Or)
        }),
    ensures
        parse_expression(tokens, pos, depth) == (Parsed::Success {
            value: expression,
            next: pos + expression_width(expression),
        }),
    decreases expression, 4int,
{
    lemma_expression_progress(tokens, pos, depth, expression);
}

/// The grammar reads the rest of a `returning` list from the tokens that
/// spell it, where the text ends after them.
pub proof fn lemma_returning_tail_complete(
    tokens: Seq<TokenView>,
    start: int,
    depth: nat,
    terms: Seq<TermView>,
    count: int,
)
    requires
        0 <= start,
        1 <= count <= terms.len(),
        spells_terms(tokens, start, terms),
        forall|i: int| 0 <= i < terms.len() ==> is_term_shape(#[trigger] terms[i]),
        forall|i: int| 0 <= i < terms.len() ==> term_nesting(#[trigger] terms[i]) <= depth,
        token_at(tokens, start + terms_width(terms, terms.len() as int)) is End,
    ensures
        extend_with(
            terms.take(count),
            parse_returning_tail(tokens, start + terms_width(terms, count), depth),
        ) == (Parsed::Success {
            value: terms,
            next: start + terms_width(terms, terms.len() as int),
        }),
    decreases terms.len() - count,
{
    let pos = start + terms_width(terms, count);
    if count == terms.len() {
        assert(terms.take(count) + Seq::<TermView>::empty() =~= terms);
    } else {
        let term = terms[count];
        assert(spells_next_term(tokens, start, terms, count));
        let after = pos + 1 + term_width(term);
        assert(after == start + terms_width(terms, count + 1));
        if count + 1 < terms.len() {
            assert(spells_next_term(tokens, start, terms, count + 1));
        }
        lemma_term_complete(tokens, pos + 1, depth, term);
        lemma_term_spelled_inside(tokens, pos + 1, term);
        lemma_returning_tail_complete(tokens, start, depth, terms, count + 1);
        match parse_returning_tail(tokens, after, depth) {
            Parsed::Success { value: rest, .. } => {
                assert(terms.take(count) + (seq![term] + rest) =~= terms.take(count + 1) + rest);
            },
            Parsed::Failure { .. } => {},
        }
    }
}

/// The grammar reads a query of its shape from the tokens that spell it,
/// where the nesting is allowed.
pub proof fn lemma_query_complete(tokens: Seq<TokenView>, depth: nat, query: QueryView)
    requires
        is_query_shape(query),
        spells_query(tokens, query),
        query_nests_within(query, depth),
    ensures
        parse_query(tokens, depth) == (Parsed::Success {
            value: query,
            next: query_width(query) as int,
        }),
{
    let width = expression_width(query.expression) as int;
    lemma_expression_complete(tokens, 0, depth, query.expression);
    if query.returning.len() == 0 {
        assert(query.returning =~= Seq::<TermView>::empty());
    } else {
        let terms = query.returning;
        let first = terms[0];
        if terms.len() > 1 {
            assert(spells_next_term(tokens, width + 1, terms, 1));
        }
        assert(terms_width(terms, 1) == term_width(first));
        lemma_term_complete(tokens, width + 1, depth, first);
        assert(terms.take(1) =~= seq![first]);
        lemma_returning_tail_complete(tokens, width + 1, depth, terms, 1);
    }
}

} // verus!
