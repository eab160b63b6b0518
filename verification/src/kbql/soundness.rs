//! Every tree that the grammar gives has the shape of its rule, nests no
//! deeper than allowed, and is spelled by exactly the tokens that were read.

use crate::kbql::ast::combine;
use crate::kbql::ast::ExpressionView;
use crate::kbql::ast::Operator;
use crate::kbql::ast::TermView;
use crate::kbql::grammar::extend_with;
use crate::kbql::grammar::fold_onto;
use crate::kbql::grammar::lemma_fold_left_front;
use crate::kbql::grammar::parse_comparison;
use crate::kbql::grammar::parse_comparison_tail;
use crate::kbql::grammar::parse_expression;
use crate::kbql::grammar::parse_logical_tail;
use crate::kbql::grammar::parse_lookup_tail;
use crate::kbql::grammar::parse_query;
use crate::kbql::grammar::parse_returning_tail;
use crate::kbql::grammar::parse_term;
use crate::kbql::grammar::token_at;
use crate::kbql::grammar::Parsed;
use crate::kbql::shape::expression_nesting;
use crate::kbql::shape::expression_width;
use crate::kbql::shape::is_comparison_shape;
use crate::kbql::shape::is_expression_shape;
use crate::kbql::shape::is_query_shape;
use crate::kbql::shape::is_term_shape;
use crate::kbql::shape::query_nests_within;
use crate::kbql::shape::query_width;
use crate::kbql::shape::spells_expression;
use crate::kbql::shape::spells_next_term;
use crate::kbql::shape::spells_path;
use crate::kbql::shape::spells_query;
use crate::kbql::shape::spells_term;
use crate::kbql::shape::spells_terms;
use crate::kbql::shape::term_nesting;
use crate::kbql::shape::term_width;
use crate::kbql::shape::terms_width;
use crate::kbql::token::TokenView;
use vstd::prelude::*;

verus! {

/// That `term` is what the tokens from `pos` up to `next` stand for, within
/// `depth` levels.
pub open spec fn term_read(
    tokens: Seq<TokenView>,
    pos: int,
    depth: nat,
    term: TermView,
    next: int,
) -> bool {
    &&& is_term_shape(term)
    &&& spells_term(tokens, pos, term)
    &&& term_nesting(term) <= depth
    &&& next == pos + term_width(term)
    &&& pos < next <= tokens.len()
}

/// That `expression` is the comparison that the tokens from `pos` up to
/// `next` stand for, within `depth` levels.
pub open spec fn comparison_read(
    tokens: Seq<TokenView>,
    pos: int,
    depth: nat,
    expression: ExpressionView,
    next: int,
) -> bool {
    &&& is_comparison_shape(expression)
    &&& spells_expression(tokens, pos, expression)
    &&& expression_nesting(expression) <= depth
    &&& next == pos + expression_width(expression)
    &&& pos < next <= tokens.len()
}

/// That `expression` is what the tokens from `pos` up to `next` stand for,
/// within `depth` levels.
pub open spec fn expression_read(
    tokens: Seq<TokenView>,
    pos: int,
    depth: nat,
    expression: ExpressionView,
    next: int,
) -> bool {
    &&& is_expression_shape(expression)
    &&& spells_expression(tokens, pos, expression)
    &&& expression_nesting(expression) <= depth
    &&& next == pos + expression_width(expression)
    &&& pos < next <= tokens.len()
}

/// That `terms` is the list that the tokens from `pos` up to `next` stand
/// for, within `depth` levels.
pub open spec fn terms_read(
    tokens: Seq<TokenView>,
    pos: int,
    depth: nat,
    terms: Seq<TermView>,
    next: int,
) -> bool {
    &&& terms.len() > 0
    &&& spells_terms(tokens, pos, terms)
    &&& forall|i: int| 0 <= i < terms.len() ==> is_term_shape(#[trigger] terms[i])
    &&& forall|i: int| 0 <= i < terms.len() ==> term_nesting(#[trigger] terms[i]) <= depth
    &&& next == pos + terms_width(terms, terms.len() as int)
    &&& pos < next <= tokens.len()
}

/// A comparison is an expression.
pub proof fn lemma_comparison_is_expression(expression: ExpressionView)
    requires
        is_comparison_shape(expression),
    ensures
        is_expression_shape(expression),
{
}

/// A lookup that is read to its end is spelled by the tokens it was read
/// from.
pub proof fn lemma_lookup_tail_sound(
    tokens: Seq<TokenView>,
    start: int,
    pos: int,
    path: Seq<Seq<char>>,
)
    requires
        0 <= start,
        spells_path(tokens, start, path),
        pos == start + 2 * path.len() - 1,
    ensures
        pos <= tokens.len(),
        parse_lookup_tail(tokens, pos, path) matches Parsed::Success { value, next } ==> {
            &&& spells_path(tokens, start, value)
            &&& next == start + 2 * value.len() - 1
            &&& pos <= next <= tokens.len()
        },
    decreases tokens.len() - pos,
{
    let last = path.len() - 1;
    assert(token_at(tokens, start + 2 * last) == TokenView::Identifier(path[last]));
    if token_at(tokens, pos) is Dot {
        match token_at(tokens, pos + 1) {
            TokenView::Identifier(name) => {
                let longer = path.push(name);
                assert forall|i: int| 0 <= i < longer.len() implies #[trigger] token_at(
                    tokens,
                    start + 2 * i,
                ) == TokenView::Identifier(longer[i]) by {
                    if i == path.len() {
                        assert(start + 2 * i == pos + 1);
                    }
                }
                assert forall|i: int| 0 <= i < longer.len() - 1 implies #[trigger] token_at(
                    tokens,
                    start + 2 * i + 1,
                ) is Dot by {
                    if i == path.len() - 1 {
                        assert(start + 2 * i + 1 == pos);
                    }
                }
                lemma_lookup_tail_sound(tokens, start, pos + 2, longer);
            },
            _ => {},
        }
    }
}

/// A term that the grammar reads is spelled by the tokens it was read from.
pub proof fn lemma_term_sound(tokens: Seq<TokenView>, pos: int, depth: nat)
    requires
        0 <= pos,
    ensures
        parse_term(tokens, pos, depth) matches Parsed::Success { value, next } ==> term_read(
            tokens,
            pos,
            depth,
            value,
            next,
        ),
    decreases tokens.len() - pos, 0int,
{
    match token_at(tokens, pos) {
        TokenView::Identifier(name) => {
            let first = seq![name];
            assert(spells_path(tokens, pos, first));
            lemma_lookup_tail_sound(tokens, pos, pos + 1, first);
        },
        TokenView::Not => {
            if depth > 0 {
                lemma_term_sound(tokens, pos + 1, (depth - 1) as nat);
            }
        },
        TokenView::LeftParen => {
            if depth > 0 {
                lemma_expression_sound(tokens, pos + 1, (depth - 1) as nat);
            }
        },
        _ => {},
    }
}

/// What the grammar adds to a comparison is spelled by the tokens it was
/// read from.
pub proof fn lemma_comparison_tail_sound(
    tokens: Seq<TokenView>,
    start: int,
    pos: int,
    depth: nat,
    lhs: ExpressionView,
)
    requires
        0 <= start,
        comparison_read(tokens, start, depth, lhs, pos),
    ensures
        fold_onto(lhs, parse_comparison_tail(tokens, pos, depth)) matches Parsed::Success {
            value,
            next,
        } ==> comparison_read(tokens, start, depth, value, next) && pos <= next,
    decreases tokens.len() - pos, 1int,
{
    if token_at(tokens, pos) is Is {
        let negated = token_at(tokens, pos + 1) is Not;
        let operator = if negated {
            Operator::IsNot
        } else {
            Operator::Is
        };
        let operand_at = if negated {
            pos + 2
        } else {
            pos + 1
        };
        lemma_term_sound(tokens, operand_at, depth);
        match parse_term(tokens, operand_at, depth) {
            Parsed::Success { value: operand, next } => {
                let head = (operator, ExpressionView::Term(operand));
                let joined = combine(operator, lhs, head.1);
                assert(is_comparison_shape(joined));
                assert(spells_expression(tokens, operand_at, head.1));
                assert(expression_width(head.1) == term_width(operand));
                assert(expression_nesting(head.1) == term_nesting(operand));
                assert(spells_expression(tokens, start, joined));
                assert(expression_width(joined) == next - start);
                lemma_comparison_tail_sound(tokens, start, next, depth, joined);
                match parse_comparison_tail(tokens, next, depth) {
                    Parsed::Success { value: rest, .. } => {
                        lemma_fold_left_front(lhs, head, rest);
                    },
                    Parsed::Failure { .. } => {},
                }
            },
            Parsed::Failure { .. } => {},
        }
    }
}

/// A comparison that the grammar reads is spelled by the tokens it was read
/// from.
pub proof fn lemma_comparison_sound(tokens: Seq<TokenView>, pos: int, depth: nat)
    requires
        0 <= pos,
    ensures
        parse_comparison(tokens, pos, depth) matches Parsed::Success {
            value,
            next,
        } ==> comparison_read(tokens, pos, depth, value, next),
    decreases tokens.len() - pos, 2int,
{
    lemma_term_sound(tokens, pos, depth);
    match parse_term(tokens, pos, depth) {
        Parsed::Success { value: first, next } => {
            lemma_comparison_tail_sound(tokens, pos, next, depth, ExpressionView::Term(first));
        },
        Parsed::Failure { .. } => {},
    }
}

/// What the grammar adds to an expression is spelled by the tokens it was
/// read from.
pub proof fn lemma_logical_tail_sound(
    tokens: Seq<TokenView>,
    start: int,
    pos: int,
    depth: nat,
    lhs: ExpressionView,
)
    requires
        0 <= start,
        expression_read(tokens, start, depth, lhs, pos),
    ensures
        fold_onto(lhs, parse_logical_tail(tokens, pos, depth)) matches Parsed::Success {
            value,
            next,
        } ==> expression_read(tokens, start, depth, value, next) && pos <= next,
    decreases tokens.len() - pos, 3int,
{
    let token = token_at(tokens, pos);
    if token is And || token is Or {
        let operator = if token is And {
            Operator::And
        } else {
            Operator::Or
        };
        lemma_comparison_sound(tokens, pos + 1, depth);
        match parse_comparison(tokens, pos + 1, depth) {
            Parsed::Success { value: operand, next } => {
                let head = (operator, operand);
                let joined = combine(operator, lhs, operand);
                assert(is_expression_shape(joined));
                assert(spells_expression(tokens, start, joined));
                assert(expression_width(joined) == next - start);
                lemma_logical_tail_sound(tokens, start, next, depth, joined);
                match parse_logical_tail(tokens, next, depth) {
                    Parsed::Success { value: rest, .. } => {
                        lemma_fold_left_front(lhs, head, rest);
                    },
                    Parsed::Failure { .. } => {},
                }
            },
            Parsed::Failure { .. } => {},
        }
    }
}

/// An expression that the grammar reads is spelled by the tokens it was
/// read from.
pub proof fn lemma_expression_sound(tokens: Seq<TokenView>, pos: int, depth: nat)
    requires
        0 <= pos,
    ensures
        parse_expression(tokens, pos, depth) matches Parsed::Success {
            value,
            next,
        } ==> expression_read(tokens, pos, depth, value, next),
    decreases tokens.len() - pos, 4int,
{
    lemma_comparison_sound(tokens, pos, depth);
    match parse_comparison(tokens, pos, depth) {
        Parsed::Success { value: first, next } => {
            lemma_comparison_is_expression(first);
            lemma_logical_tail_sound(tokens, pos, next, depth, first);
        },
        Parsed::Failure { .. } => {},
    }
}

/// What the grammar adds to a `returning` list is spelled by the tokens it
/// was read from, and the text ends after it.
pub proof fn lemma_returning_tail_sound(
    tokens: Seq<TokenView>,
    start: int,
    pos: int,
    depth: nat,
    terms: Seq<TermView>,
)
    requires
        0 <= start,
        terms_read(tokens, start, depth, terms, pos),
    ensures
        extend_with(terms, parse_returning_tail(tokens, pos, depth)) matches Parsed::Success {
            value,
            next,
        } ==> terms_read(tokens, start, depth, value, next) && token_at(tokens, next) is End,
    decreases tokens.len() - pos,
{
    let token = token_at(tokens, pos);
    if token is Comma {
        lemma_term_sound(tokens, pos + 1, depth);
        match parse_term(tokens, pos + 1, depth) {
            Parsed::Success { value: term, next } => {
                let longer = terms.push(term);
                let count = terms.len() as int;
                assert(longer.len() == count + 1);
                assert forall|i: int| 0 <= i <= count implies terms_width(longer, i)
                    == terms_width(terms, i) by {
                    lemma_terms_width_prefix(terms, longer, i);
                }
                assert(terms_width(longer, count + 1) == terms_width(terms, count) + 1
                    + term_width(term));
                assert(spells_terms(tokens, start, longer)) by {
                    assert(longer[0] == terms[0]);
                    assert forall|i: int| 1 <= i < longer.len() implies #[trigger] spells_next_term(
                        tokens,
                        start,
                        longer,
                        i,
                    ) by {
                        assert(terms_width(longer, i) == terms_width(terms, i));
                        if i < count {
                            assert(longer[i] == terms[i]);
                            assert(spells_next_term(tokens, start, terms, i));
                        } else {
                            assert(longer[i] == term);
                            assert(start + terms_width(terms, i) == pos);
                        }
                    }
                }
                assert forall|i: int| 0 <= i < longer.len() implies is_term_shape(
                    #[trigger] longer[i],
                ) by {
                    if i < count {
                        assert(longer[i] == terms[i]);
                    }
                }
                assert forall|i: int| 0 <= i < longer.len() implies term_nesting(
                    #[trigger] longer[i],
                ) <= depth by {
                    if i < count {
                        assert(longer[i] == terms[i]);
                    }
                }
                lemma_returning_tail_sound(tokens, start, next, depth, longer);
                match parse_returning_tail(tokens, next, depth) {
                    Parsed::Success { value: rest, .. } => {
                        assert(terms + (seq![term] + rest) =~= longer + rest);
                    },
                    Parsed::Failure { .. } => {},
                }
            },
            Parsed::Failure { .. } => {},
        }
    } else if token is End {
        assert(terms + Seq::<TermView>::empty() =~= terms);
    }
}

/// The width of the first terms of a list does not depend on the terms
/// after them.
pub proof fn lemma_terms_width_prefix(terms: Seq<TermView>, longer: Seq<TermView>, count: int)
    requires
        0 <= count <= terms.len() <= longer.len(),
        forall|i: int| 0 <= i < terms.len() ==> terms[i] == longer[i],
    ensures
        terms_width(longer, count) == terms_width(terms, count),
    decreases count,
{
    if count > 1 {
        lemma_terms_width_prefix(terms, longer, count - 1);
    }
}

/// A query that the grammar reads has the shape of a query, nests no
/// deeper than allowed, and is spelled by the tokens it was read from,
/// which end after it.
pub proof fn lemma_query_sound(tokens: Seq<TokenView>, depth: nat)
    ensures
        parse_query(tokens, depth) matches Parsed::Success { value, next } ==> {
            &&& is_query_shape(value)
            &&& query_nests_within(value, depth)
            &&& spells_query(tokens, value)
            &&& next == query_width(value)
            &&& 0 < next <= tokens.len()
        },
{
    lemma_expression_sound(tokens, 0, depth);
    match parse_expression(tokens, 0, depth) {
        Parsed::Success { value: expression, next } => {
            match token_at(tokens, next) {
                TokenView::Returning => {
                    lemma_term_sound(tokens, next + 1, depth);
                    match parse_term(tokens, next + 1, depth) {
                        Parsed::Success { value: first, next: after } => {
                            let terms = seq![first];
                            assert(terms_width(terms, 1) == term_width(first));
                            assert(terms_read(tokens, next + 1, depth, terms, after));
                            lemma_returning_tail_sound(tokens, next + 1, after, depth, terms);
                        },
                        Parsed::Failure { .. } => {},
                    }
                },
                _ => {},
            }
        },
        Parsed::Failure { .. } => {},
    }
}

} // verus!
