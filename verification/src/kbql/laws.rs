//! What holds of every parse.

use crate::kbql::ast::combine;
use crate::kbql::ast::fold_left;
use crate::kbql::ast::ExpressionView;
use crate::kbql::ast::LiteralView;
use crate::kbql::ast::Operator;
use crate::kbql::ast::Query;
use crate::kbql::ast::QueryView;
use crate::kbql::ast::TermView;
use crate::kbql::completeness::lemma_expression_complete;
use crate::kbql::completeness::lemma_query_complete;
use crate::kbql::shape::is_query_shape;
use crate::kbql::shape::query_nests_within;
use crate::kbql::completeness::lemma_comparison_complete;
use crate::kbql::grammar::parse_comparison;
use crate::kbql::grammar::parse_expression;
use crate::kbql::grammar::parse_source;
use crate::kbql::grammar::token_at;
use crate::kbql::grammar::Chain;
use crate::kbql::grammar::Parsed;
use crate::kbql::lexer::lemma_digits_end_bounds;
use crate::kbql::lexer::lemma_scan_token_bounds;
use crate::kbql::lexer::lemma_whitespace_end_bounds;
use crate::kbql::parser::outcome_view;
use crate::kbql::parser::ParseError;
use crate::kbql::shape::expression_nesting;
use crate::kbql::shape::expression_width;
use crate::kbql::shape::is_comparison_shape;
use crate::kbql::shape::is_expression_shape;
use crate::kbql::shape::is_term_shape;
use crate::kbql::shape::query_width;
use crate::kbql::shape::spells_expression;
use crate::kbql::shape::spells_next_term;
use crate::kbql::shape::spells_query;
use crate::kbql::shape::spells_term;
use crate::kbql::shape::spells_terms;
use crate::kbql::shape::term_width;
use crate::kbql::shape::terms_width;
use crate::kbql::soundness::lemma_query_sound;
use crate::kbql::token::is_whitespace;
use crate::kbql::token::is_word_part;
use crate::kbql::token::is_word_start;
use crate::kbql::token::lex;
use crate::kbql::token::lex_from;
use crate::kbql::token::number_digits_start;
use crate::kbql::token::number_has_fraction;
use crate::kbql::token::scan_token;
use crate::kbql::token::starts_number;
use crate::kbql::token::tokens_of;
use crate::kbql::token::whitespace_end;
use crate::kbql::token::word_end;
use crate::kbql::token::digits_end;
use crate::kbql::token::TokenView;
use crate::text::is_alphanumeric;
use crate::text::is_digit;
use vstd::prelude::*;

verus! {

/// Parsing is a function of the text and the limit: whatever two parses of
/// the same text with the same limit return, it is the same tree or the
/// same error.
pub proof fn lemma_parse_is_deterministic(
    source: Seq<char>,
    limit: nat,
    first: Result<Query, ParseError>,
    second: Result<Query, ParseError>,
)
    requires
        outcome_view(first) == parse_source(source, limit),
        outcome_view(second) == parse_source(source, limit),
    ensures
        outcome_view(first) == outcome_view(second),
{
}

/// A text parses to a query exactly if its tokens spell the query, the
/// query has the shape of the grammar, and it nests no deeper than the
/// limit.
pub proof fn lemma_parses_iff_spelled(source: Seq<char>, limit: nat, query: QueryView)
    ensures
        parse_source(source, limit) == Ok::<QueryView, crate::kbql::grammar::ParseErrorView>(query)
            <==> {
            &&& is_query_shape(query)
            &&& query_nests_within(query, limit)
            &&& spells_query(tokens_of(lex(source)), query)
        },
{
    let tokens = tokens_of(lex(source));
    lemma_query_sound(tokens, limit);
    if is_query_shape(query) && query_nests_within(query, limit) && spells_query(tokens, query) {
        lemma_query_complete(tokens, limit, query);
    }
}

/// The left side of a binary expression; a bare term has none and stands
/// for itself.
pub open spec fn left_side(expression: ExpressionView) -> ExpressionView {
    match expression {
        ExpressionView::Term(_) => expression,
        ExpressionView::Is(lhs, _) => *lhs,
        ExpressionView::IsNot(lhs, _) => *lhs,
        ExpressionView::And(lhs, _) => *lhs,
        ExpressionView::Or(lhs, _) => *lhs,
    }
}

/// The expression that is reached from `expression` by going to the left
/// side `steps` times.
pub open spec fn descend_left(expression: ExpressionView, steps: nat) -> ExpressionView
    decreases steps,
{
    if steps == 0 {
        expression
    } else {
        descend_left(left_side(expression), (steps - 1) as nat)
    }
}

/// A chain nests strictly to the left, whatever its operators are: the last
/// operator joins all that stands before it to the last operand.
pub proof fn lemma_chain_nests_left(first: ExpressionView, rest: Chain)
    requires
        rest.len() >= 1,
    ensures
        fold_left(first, rest) == combine(
            rest.last().0,
            fold_left(first, rest.drop_last()),
            rest.last().1,
        ),
{
}

/// Going to the left side `steps` times from a folded chain leads to the
/// fold of the chain without its last `steps` operands: on the way down
/// stand the operators of the chain from last to first, each with its own
/// operand on its right.
pub proof fn lemma_chain_left_spine(first: ExpressionView, rest: Chain, steps: nat)
    requires
        steps <= rest.len(),
    ensures
        descend_left(fold_left(first, rest), steps) == fold_left(
            first,
            rest.take(rest.len() - steps),
        ),
        steps < rest.len() ==> descend_left(fold_left(first, rest), steps) == combine(
            rest[rest.len() - steps - 1].0,
            fold_left(first, rest.take(rest.len() - steps - 1)),
            rest[rest.len() - steps - 1].1,
        ),
    decreases steps,
{
    if steps == 0 {
        assert(rest.take(rest.len() as int) =~= rest);
        if rest.len() > 0 {
            assert(rest.drop_last() =~= rest.take(rest.len() - 1));
        }
    } else {
        let shorter = rest.drop_last();
        lemma_chain_left_spine(first, shorter, (steps - 1) as nat);
        assert(left_side(fold_left(first, rest)) == fold_left(first, shorter));
        assert(shorter.take(shorter.len() - (steps - 1)) =~= rest.take(rest.len() - steps));
        if steps < rest.len() {
            assert(shorter.take(shorter.len() - (steps - 1) - 1) =~= rest.take(
                rest.len() - steps - 1,
            ));
            assert(shorter[shorter.len() - (steps - 1) - 1] == rest[rest.len() - steps - 1]);
        }
    }
}

/// Whether every link of a chain is `and` or `or` with a comparison.
pub open spec fn is_logical_chain(rest: Chain) -> bool {
    forall|i: int|
        0 <= i < rest.len() ==> {
            &&& (#[trigger] rest[i]).0 == Operator::And || rest[i].0 == Operator::Or
            &&& is_comparison_shape(rest[i].1)
        }
}

/// Whether every link of a chain is `is` or `is not` with a term, and no
/// `not` term stands after `is`.
pub open spec fn is_comparison_chain(rest: Chain) -> bool {
    forall|i: int|
        0 <= i < rest.len() ==> {
            &&& (#[trigger] rest[i]).0 == Operator::Is || rest[i].0 == Operator::IsNot
            &&& rest[i].1 matches ExpressionView::Term(term)
            &&& is_term_shape(term)
            &&& rest[i].0 == Operator::Is ==> !(term is Not)
        }
}

/// A comparison followed by any chain of `and` and `or` with comparisons,
/// folded to the left, is an expression of the grammar.
pub proof fn lemma_logical_chain_is_expression(first: ExpressionView, rest: Chain)
    requires
        is_expression_shape(first),
        is_logical_chain(rest),
    ensures
        is_expression_shape(fold_left(first, rest)),
    decreases rest.len(),
{
    if rest.len() > 0 {
        let shorter = rest.drop_last();
        assert forall|i: int| 0 <= i < shorter.len() implies {
            &&& (#[trigger] shorter[i]).0 == Operator::And || shorter[i].0 == Operator::Or
            &&& is_comparison_shape(shorter[i].1)
        } by {
            assert(shorter[i] == rest[i]);
        }
        lemma_logical_chain_is_expression(first, shorter);
        let last = rest[rest.len() - 1];
        assert(last == rest.last());
    }
}

/// A term followed by any chain of `is` and `is not` with terms, folded to
/// the left, is a comparison of the grammar.
pub proof fn lemma_comparison_chain_is_comparison(first: ExpressionView, rest: Chain)
    requires
        is_comparison_shape(first),
        is_comparison_chain(rest),
    ensures
        is_comparison_shape(fold_left(first, rest)),
    decreases rest.len(),
{
    if rest.len() > 0 {
        let shorter = rest.drop_last();
        assert forall|i: int| 0 <= i < shorter.len() implies {
            &&& (#[trigger] shorter[i]).0 == Operator::Is || shorter[i].0 == Operator::IsNot
            &&& shorter[i].1 matches ExpressionView::Term(term)
            &&& is_term_shape(term)
            &&& shorter[i].0 == Operator::Is ==> !(term is Not)
        } by {
            assert(shorter[i] == rest[i]);
        }
        lemma_comparison_chain_is_comparison(first, shorter);
        let last = rest[rest.len() - 1];
        assert(last == rest.last());
    }
}

/// Wherever tokens spell a chain of `and` and `or`, the grammar reads the
/// chain folded to the left: `((a op b) op c) op d`, whichever of the two
/// operators stands at each place.
pub proof fn lemma_logical_chain_parses_left(
    tokens: Seq<TokenView>,
    pos: int,
    depth: nat,
    first: ExpressionView,
    rest: Chain,
)
    requires
        0 <= pos,
        is_comparison_shape(first),
        is_logical_chain(rest),
        spells_expression(tokens, pos, fold_left(first, rest)),
        expression_nesting(fold_left(first, rest)) <= depth,
        ({
            let follower = token_at(tokens, pos + expression_width(fold_left(first, rest)));
            !(follower is Dot) && !(follower is Is) && !(follower is And) && !(follower is Or)
        }),
    ensures
        parse_expression(tokens, pos, depth) == (Parsed::Success {
            value: fold_left(first, rest),
            next: pos + expression_width(fold_left(first, rest)),
        }),
{
    lemma_logical_chain_is_expression(first, rest);
    lemma_expression_complete(tokens, pos, depth, fold_left(first, rest));
}

/// Wherever tokens spell a chain of `is` and `is not`, the grammar reads
/// the chain folded to the left, whichever of the two operators stands at
/// each place.
pub proof fn lemma_comparison_chain_parses_left(
    tokens: Seq<TokenView>,
    pos: int,
    depth: nat,
    first: TermView,
    rest: Chain,
)
    requires
        0 <= pos,
        is_term_shape(first),
        is_comparison_chain(rest),
        spells_expression(tokens, pos, fold_left(ExpressionView::Term(first), rest)),
        expression_nesting(fold_left(ExpressionView::Term(first), rest)) <= depth,
        ({
            let follower = token_at(
                tokens,
                pos + expression_width(fold_left(ExpressionView::Term(first), rest)),
            );
            !(follower is Dot) && !(follower is Is)
        }),
    ensures
        parse_comparison(tokens, pos, depth) == (Parsed::Success {
            value: fold_left(ExpressionView::Term(first), rest),
            next: pos + expression_width(fold_left(ExpressionView::Term(first), rest)),
        }),
{
    lemma_comparison_chain_is_comparison(ExpressionView::Term(first), rest);
    lemma_comparison_complete(
        tokens,
        pos,
        depth,
        fold_left(ExpressionView::Term(first), rest),
    );
}

/// A token that can be the last of a term.
pub open spec fn ends_term(token: TokenView) -> bool {
    token is Integer || token is Float || token is String || token is Identifier
        || token is RightParen
}

/// The last token of a term is a number, a string, an identifier or `)`.
pub proof fn lemma_last_token_of_term(tokens: Seq<TokenView>, pos: int, term: TermView)
    requires
        spells_term(tokens, pos, term),
    ensures
        ends_term(token_at(tokens, pos + term_width(term) - 1)),
    decreases term,
{
    match term {
        TermView::Literal(LiteralView::Integer(_)) => {},
        TermView::Literal(LiteralView::Float(_)) => {},
        TermView::Literal(LiteralView::String(_)) => {},
        TermView::Lookup(path) => {
            let last = path.len() - 1;
            assert(token_at(tokens, pos + 2 * last) == TokenView::Identifier(path[last]));
        },
        TermView::Expression(_) => {},
        TermView::Not(inner) => {
            lemma_last_token_of_term(tokens, pos + 1, *inner);
        },
    }
}

/// The last token of an expression is a number, a string, an identifier or
/// `)`.
pub proof fn lemma_last_token_of_expression(
    tokens: Seq<TokenView>,
    pos: int,
    expression: ExpressionView,
)
    requires
        spells_expression(tokens, pos, expression),
    ensures
        ends_term(token_at(tokens, pos + expression_width(expression) - 1)),
    decreases expression,
{
    match expression {
        ExpressionView::Term(term) => {
            lemma_last_token_of_term(tokens, pos, term);
        },
        ExpressionView::Is(lhs, rhs) => {
            lemma_last_token_of_expression(tokens, pos + expression_width(*lhs) + 1, *rhs);
        },
        ExpressionView::IsNot(lhs, rhs) => {
            lemma_last_token_of_expression(tokens, pos + expression_width(*lhs) + 2, *rhs);
        },
        ExpressionView::And(lhs, rhs) => {
            lemma_last_token_of_expression(tokens, pos + expression_width(*lhs) + 1, *rhs);
        },
        ExpressionView::Or(lhs, rhs) => {
            lemma_last_token_of_expression(tokens, pos + expression_width(*lhs) + 1, *rhs);
        },
    }
}

/// The last token of a query is a number, a string, an identifier or `)`.
pub proof fn lemma_last_token_of_query(tokens: Seq<TokenView>, query: QueryView)
    requires
        spells_query(tokens, query),
    ensures
        ends_term(token_at(tokens, query_width(query) - 1)),
{
    let width = expression_width(query.expression) as int;
    if query.returning.len() == 0 {
        lemma_last_token_of_expression(tokens, 0, query.expression);
    } else {
        let terms = query.returning;
        let count = terms.len() as int;
        if count == 1 {
            lemma_last_token_of_term(tokens, width + 1, terms[0]);
        } else {
            assert(spells_next_term(tokens, width + 1, terms, count - 1));
            lemma_last_token_of_term(
                tokens,
                width + 1 + terms_width(terms, count - 1) + 1,
                terms[count - 1],
            );
        }
    }
}

/// The lexemes of a text end with the end of the text or with the place
/// where no token could be read, and hold neither of the two before.
pub proof fn lemma_lex_ends_once(s: Seq<char>, pos: int)
    requires
        0 <= pos <= s.len(),
    ensures
        lex_from(s, pos).len() >= 1,
        lex_from(s, pos).last().token is End || lex_from(s, pos).last().token is Invalid,
        forall|i: int|
            0 <= i < lex_from(s, pos).len() - 1 ==> !((#[trigger] lex_from(s, pos)[i]).token is End)
                && !(lex_from(s, pos)[i].token is Invalid),
    decreases s.len() - pos,
{
    lemma_whitespace_end_bounds(s, pos);
    let start = whitespace_end(s, pos);
    if start < s.len() {
        lemma_scan_token_bounds(s, start);
        let lexeme = scan_token(s, start);
        lemma_scan_never_ends(s, start);
        if !(lexeme.token is Invalid) {
            lemma_lex_ends_once(s, lexeme.end);
            let rest = lex_from(s, lexeme.end);
            let all = seq![lexeme] + rest;
            assert(all.last() == rest.last());
            assert forall|i: int| 0 <= i < all.len() - 1 implies !((#[trigger] all[i]).token is End)
                && !(all[i].token is Invalid) by {
                if i > 0 {
                    assert(all[i] == rest[i - 1]);
                }
            }
        }
    }
}

/// No token that is read from inside the text is the end of the text.
pub proof fn lemma_scan_never_ends(s: Seq<char>, pos: int)
    requires
        0 <= pos < s.len(),
    ensures
        !(scan_token(s, pos).token is End),
{
}

/// How many more `(` than `)` stand among the first `upto` tokens.
pub open spec fn paren_balance(tokens: Seq<TokenView>, upto: int) -> int
    decreases upto,
{
    if upto <= 0 {
        0
    } else {
        paren_balance(tokens, upto - 1) + if token_at(tokens, upto - 1) is LeftParen {
            1int
        } else if token_at(tokens, upto - 1) is RightParen {
            -1int
        } else {
            0int
        }
    }
}

/// Tokens that are no parentheses do not change the balance.
pub proof fn lemma_balance_without_parens(tokens: Seq<TokenView>, from: int, to: int)
    requires
        0 <= from <= to,
        forall|i: int|
            from <= i < to ==> !(#[trigger] token_at(tokens, i) is LeftParen) && !(token_at(
                tokens,
                i,
            ) is RightParen),
    ensures
        paren_balance(tokens, to) == paren_balance(tokens, from),
    decreases to - from,
{
    if from < to {
        lemma_balance_without_parens(tokens, from, to - 1);
    }
}

/// The parentheses of a term are balanced.
pub proof fn lemma_term_is_balanced(tokens: Seq<TokenView>, pos: int, term: TermView)
    requires
        0 <= pos,
        spells_term(tokens, pos, term),
    ensures
        paren_balance(tokens, pos + term_width(term)) == paren_balance(tokens, pos),
    decreases term,
{
    match term {
        TermView::Literal(LiteralView::Integer(_)) => {},
        TermView::Literal(LiteralView::Float(_)) => {},
        TermView::Literal(LiteralView::String(_)) => {},
        TermView::Lookup(path) => {
            let to = pos + term_width(term);
            assert forall|i: int| pos <= i < to implies !(#[trigger] token_at(tokens, i)
                is LeftParen) && !(token_at(tokens, i) is RightParen) by {
                let k = (i - pos) / 2;
                if (i - pos) % 2 == 0 {
                    assert(i == pos + 2 * k);
                    assert(token_at(tokens, pos + 2 * k) == TokenView::Identifier(path[k]));
                } else {
                    assert(i == pos + 2 * k + 1);
                    assert(token_at(tokens, pos + 2 * k + 1) is Dot);
                }
            }
            lemma_balance_without_parens(tokens, pos, to);
        },
        TermView::Expression(inner) => {
            lemma_expression_is_balanced(tokens, pos + 1, *inner);
            let close = pos + 1 + expression_width(*inner);
            assert(paren_balance(tokens, pos + 1) == paren_balance(tokens, pos) + 1);
            assert(paren_balance(tokens, close + 1) == paren_balance(tokens, close) - 1);
        },
        TermView::Not(inner) => {
            lemma_term_is_balanced(tokens, pos + 1, *inner);
            assert(paren_balance(tokens, pos + 1) == paren_balance(tokens, pos));
        },
    }
}

/// The parentheses of an expression are balanced.
pub proof fn lemma_expression_is_balanced(
    tokens: Seq<TokenView>,
    pos: int,
    expression: ExpressionView,
)
    requires
        0 <= pos,
        spells_expression(tokens, pos, expression),
    ensures
        paren_balance(tokens, pos + expression_width(expression)) == paren_balance(tokens, pos),
    decreases expression,
{
    match expression {
        ExpressionView::Term(term) => {
            lemma_term_is_balanced(tokens, pos, term);
        },
        ExpressionView::Is(lhs, rhs) => {
            let at = pos + expression_width(*lhs);
            lemma_expression_is_balanced(tokens, pos, *lhs);
            lemma_expression_is_balanced(tokens, at + 1, *rhs);
            assert(paren_balance(tokens, at + 1) == paren_balance(tokens, at));
        },
        ExpressionView::IsNot(lhs, rhs) => {
            let at = pos + expression_width(*lhs);
            lemma_expression_is_balanced(tokens, pos, *lhs);
            lemma_expression_is_balanced(tokens, at + 2, *rhs);
            assert(paren_balance(tokens, at + 1) == paren_balance(tokens, at));
            assert(paren_balance(tokens, at + 2) == paren_balance(tokens, at + 1));
        },
        ExpressionView::And(lhs, rhs) => {
            let at = pos + expression_width(*lhs);
            lemma_expression_is_balanced(tokens, pos, *lhs);
            lemma_expression_is_balanced(tokens, at + 1, *rhs);
            assert(paren_balance(tokens, at + 1) == paren_balance(tokens, at));
        },
        ExpressionView::Or(lhs, rhs) => {
            let at = pos + expression_width(*lhs);
            lemma_expression_is_balanced(tokens, pos, *lhs);
            lemma_expression_is_balanced(tokens, at + 1, *rhs);
            assert(paren_balance(tokens, at + 1) == paren_balance(tokens, at));
        },
    }
}

/// The parentheses of the first terms of a list are balanced.
pub proof fn lemma_terms_are_balanced(
    tokens: Seq<TokenView>,
    pos: int,
    terms: Seq<TermView>,
    count: int,
)
    requires
        0 <= pos,
        1 <= count <= terms.len(),
        spells_terms(tokens, pos, terms),
    ensures
        paren_balance(tokens, pos + terms_width(terms, count)) == paren_balance(tokens, pos),
    decreases count,
{
    if count == 1 {
        lemma_term_is_balanced(tokens, pos, terms[0]);
    } else {
        lemma_terms_are_balanced(tokens, pos, terms, count - 1);
        let comma = pos + terms_width(terms, count - 1);
        assert(spells_next_term(tokens, pos, terms, count - 1));
        lemma_term_is_balanced(tokens, comma + 1, terms[count - 1]);
        assert(paren_balance(tokens, comma + 1) == paren_balance(tokens, comma));
    }
}

/// The parentheses of a query are balanced.
pub proof fn lemma_query_is_balanced(tokens: Seq<TokenView>, query: QueryView)
    requires
        spells_query(tokens, query),
    ensures
        paren_balance(tokens, query_width(query) as int) == 0,
{
    let width = expression_width(query.expression) as int;
    lemma_expression_is_balanced(tokens, 0, query.expression);
    if query.returning.len() > 0 {
        assert(paren_balance(tokens, width + 1) == paren_balance(tokens, width));
        lemma_terms_are_balanced(
            tokens,
            width + 1,
            query.returning,
            query.returning.len() as int,
        );
    }
}

/// Inside a term, no `)` stands without a `(` of the term before it.
pub proof fn lemma_term_never_closes_early(
    tokens: Seq<TokenView>,
    pos: int,
    term: TermView,
    upto: int,
)
    requires
        0 <= pos <= upto <= pos + term_width(term),
        spells_term(tokens, pos, term),
    ensures
        paren_balance(tokens, upto) >= paren_balance(tokens, pos),
    decreases term,
{
    lemma_term_is_balanced(tokens, pos, term);
    if pos < upto < pos + term_width(term) {
        match term {
            TermView::Lookup(path) => {
                assert forall|i: int| pos <= i < upto implies !(#[trigger] token_at(tokens, i)
                    is LeftParen) && !(token_at(tokens, i) is RightParen) by {
                    let k = (i - pos) / 2;
                    if (i - pos) % 2 == 0 {
                        assert(i == pos + 2 * k);
                        assert(token_at(tokens, pos + 2 * k) == TokenView::Identifier(path[k]));
                    } else {
                        assert(i == pos + 2 * k + 1);
                        assert(token_at(tokens, pos + 2 * k + 1) is Dot);
                    }
                }
                lemma_balance_without_parens(tokens, pos, upto);
            },
            TermView::Expression(inner) => {
                assert(paren_balance(tokens, pos + 1) == paren_balance(tokens, pos) + 1);
                lemma_expression_never_closes_early(tokens, pos + 1, *inner, upto);
            },
            TermView::Not(inner) => {
                assert(paren_balance(tokens, pos + 1) == paren_balance(tokens, pos));
                lemma_term_never_closes_early(tokens, pos + 1, *inner, upto);
            },
            _ => {},
        }
    }
}

/// Inside an expression, no `)` stands without a `(` of the expression
/// before it.
pub proof fn lemma_expression_never_closes_early(
    tokens: Seq<TokenView>,
    pos: int,
    expression: ExpressionView,
    upto: int,
)
    requires
        0 <= pos <= upto <= pos + expression_width(expression),
        spells_expression(tokens, pos, expression),
    ensures
        paren_balance(tokens, upto) >= paren_balance(tokens, pos),
    decreases expression,
{
    match expression {
        ExpressionView::Term(term) => {
            lemma_term_never_closes_early(tokens, pos, term, upto);
        },
        ExpressionView::Is(lhs, rhs) => {
            lemma_sides_never_close_early(tokens, pos, *lhs, 1, *rhs, upto);
            let at = pos + expression_width(*lhs);
            if upto <= at {
                lemma_expression_never_closes_early(tokens, pos, *lhs, upto);
            } else if upto >= at + 1 {
                lemma_expression_never_closes_early(tokens, at + 1, *rhs, upto);
            }
        },
        ExpressionView::IsNot(lhs, rhs) => {
            lemma_sides_never_close_early(tokens, pos, *lhs, 2, *rhs, upto);
            let at = pos + expression_width(*lhs);
            if upto <= at {
                lemma_expression_never_closes_early(tokens, pos, *lhs, upto);
            } else if upto >= at + 2 {
                lemma_expression_never_closes_early(tokens, at + 2, *rhs, upto);
            }
        },
        ExpressionView::And(lhs, rhs) => {
            lemma_sides_never_close_early(tokens, pos, *lhs, 1, *rhs, upto);
            let at = pos + expression_width(*lhs);
            if upto <= at {
                lemma_expression_never_closes_early(tokens, pos, *lhs, upto);
            } else if upto >= at + 1 {
                lemma_expression_never_closes_early(tokens, at + 1, *rhs, upto);
            }
        },
        ExpressionView::Or(lhs, rhs) => {
            lemma_sides_never_close_early(tokens, pos, *lhs, 1, *rhs, upto);
            let at = pos + expression_width(*lhs);
            if upto <= at {
                lemma_expression_never_closes_early(tokens, pos, *lhs, upto);
            } else if upto >= at + 1 {
                lemma_expression_never_closes_early(tokens, at + 1, *rhs, upto);
            }
        },
    }
}

/// Between the two sides of an operator the balance is what it was before
/// the left side.
pub proof fn lemma_sides_never_close_early(
    tokens: Seq<TokenView>,
    pos: int,
    lhs: ExpressionView,
    operator_width: int,
    rhs: ExpressionView,
    upto: int,
)
    requires
        0 <= pos,
        1 <= operator_width <= 2,
        spells_expression(tokens, pos, lhs),
        forall|i: int|
            pos + expression_width(lhs) <= i < pos + expression_width(lhs) + operator_width ==> !(
            #[trigger] token_at(tokens, i) is LeftParen) && !(token_at(tokens, i) is RightParen),
    ensures
        forall|k: int|
            pos + expression_width(lhs) <= k <= pos + expression_width(lhs) + operator_width
                ==> #[trigger] paren_balance(tokens, k) == paren_balance(tokens, pos),
{
    let at = pos + expression_width(lhs);
    lemma_expression_is_balanced(tokens, pos, lhs);
    assert forall|k: int| at <= k <= at + operator_width implies #[trigger] paren_balance(
        tokens,
        k,
    ) == paren_balance(tokens, pos) by {
        assert forall|i: int| at <= i < k implies !(#[trigger] token_at(tokens, i) is LeftParen)
            && !(token_at(tokens, i) is RightParen) by {}
        lemma_balance_without_parens(tokens, at, k);
    }
}

/// Whether the parentheses among the first `count` tokens are balanced: as
/// many `(` as `)`, and no `)` without a `(` before it.
pub open spec fn is_balanced(tokens: Seq<TokenView>, count: int) -> bool {
    &&& paren_balance(tokens, count) == 0
    &&& forall|k: int| 0 <= k <= count ==> #[trigger] paren_balance(tokens, k) >= 0
}

/// The parentheses of a query are balanced, and none of them closes what
/// was not opened.
pub proof fn lemma_query_never_closes_early(tokens: Seq<TokenView>, query: QueryView)
    requires
        spells_query(tokens, query),
    ensures
        is_balanced(tokens, query_width(query) as int),
{
    let width = expression_width(query.expression) as int;
    let total = query_width(query) as int;
    let terms = query.returning;
    lemma_query_is_balanced(tokens, query);
    lemma_expression_is_balanced(tokens, 0, query.expression);
    assert forall|k: int| 0 <= k <= total implies #[trigger] paren_balance(tokens, k) >= 0 by {
        if k <= width {
            lemma_expression_never_closes_early(tokens, 0, query.expression, k);
        } else {
            assert(paren_balance(tokens, width + 1) == paren_balance(tokens, width));
            lemma_terms_never_close_early(tokens, width + 1, terms, terms.len() as int, k);
        }
    }
}

/// Inside a list of terms, no `)` stands without a `(` of the list before
/// it.
pub proof fn lemma_terms_never_close_early(
    tokens: Seq<TokenView>,
    pos: int,
    terms: Seq<TermView>,
    count: int,
    upto: int,
)
    requires
        0 <= pos <= upto <= pos + terms_width(terms, count),
        1 <= count <= terms.len(),
        spells_terms(tokens, pos, terms),
    ensures
        paren_balance(tokens, upto) >= paren_balance(tokens, pos),
    decreases count,
{
    if count == 1 {
        lemma_term_never_closes_early(tokens, pos, terms[0], upto);
    } else {
        let comma = pos + terms_width(terms, count - 1);
        if upto <= comma {
            lemma_terms_never_close_early(tokens, pos, terms, count - 1, upto);
        } else {
            lemma_terms_are_balanced(tokens, pos, terms, count - 1);
            assert(spells_next_term(tokens, pos, terms, count - 1));
            assert(paren_balance(tokens, comma + 1) == paren_balance(tokens, comma));
            lemma_term_never_closes_early(tokens, comma + 1, terms[count - 1], upto);
        }
    }
}

/// What a successful parse says of the lexemes: the last is the end of the
/// text, the tokens before it spell the query, and the one before the end
/// is the last of a term.
pub proof fn lemma_parsed_text(s: Seq<char>, depth: nat)
    requires
        parse_source(s, depth) is Ok,
    ensures
        ({
            let tokens = tokens_of(lex(s));
            let query = parse_source(s, depth)->Ok_0;
            &&& tokens.len() >= 2
            &&& tokens.last() is End
            &&& query_width(query) == tokens.len() - 1
            &&& spells_query(tokens, query)
            &&& ends_term(tokens[tokens.len() - 2])
            &&& is_balanced(tokens, tokens.len() - 1)
        }),
{
    let lexemes = lex(s);
    let tokens = tokens_of(lexemes);
    let query = parse_source(s, depth)->Ok_0;
    lemma_lex_ends_once(s, 0);
    lemma_query_sound(tokens, depth);
    lemma_last_token_of_query(tokens, query);
    lemma_query_never_closes_early(tokens, query);
    let next = query_width(query) as int;
    let last = tokens.len() - 1;
    assert(tokens[last] == lexemes[last].token);
    if next < last {
        assert(tokens[next] == lexemes[next].token);
    }
    assert(tokens[next - 1] == lexemes[next - 1].token);
}

/// A text whose last token cannot end a term is no query: one that ends
/// with an operator, with `returning` and no term after it, with `,`, `.`
/// or `(`, or one that holds no token at all.
pub proof fn lemma_trailing_operator_is_rejected(s: Seq<char>, depth: nat)
    requires
        ({
            let tokens = tokens_of(lex(s));
            tokens.len() < 2 || !ends_term(tokens[tokens.len() - 2])
        }),
    ensures
        parse_source(s, depth) is Err,
{
    if parse_source(s, depth) is Ok {
        lemma_parsed_text(s, depth);
    }
}

/// A text whose parentheses are not balanced is no query: one with more
/// `(` than `)`, with more `)` than `(`, or with a `)` that closes what was
/// not opened.
pub proof fn lemma_unbalanced_parentheses_are_rejected(s: Seq<char>, depth: nat)
    requires
        ({
            let tokens = tokens_of(lex(s));
            !is_balanced(tokens, tokens.len() - 1)
        }),
    ensures
        parse_source(s, depth) is Err,
{
    if parse_source(s, depth) is Ok {
        lemma_parsed_text(s, depth);
    }
}

/// A text in which some place holds no token is no query.
pub proof fn lemma_unreadable_text_is_rejected(s: Seq<char>, depth: nat)
    requires
        lex(s).last().token is Invalid,
    ensures
        parse_source(s, depth) is Err,
{
    if parse_source(s, depth) is Ok {
        lemma_parsed_text(s, depth);
        let lexemes = lex(s);
        assert(tokens_of(lexemes).last() == lexemes.last().token);
    }
}

/// A character that can stand in a query outside a quoted string.
pub open spec fn is_query_character(c: char) -> bool {
    is_whitespace(c) || is_alphanumeric(c) || c == '_' || c == '-' || c == '.' || c == ','
        || c == '(' || c == ')' || c == '"'
}

/// Where a text without quotes holds, at or after `pos`, a character that
/// can stand in no token, some place in it holds no token.
pub proof fn lemma_unrecognized_character_stops_lexing(s: Seq<char>, pos: int, at: int)
    requires
        0 <= pos <= at < s.len(),
        !is_query_character(s[at]),
        forall|i: int| 0 <= i < s.len() ==> s[i] != '"',
    ensures
        lex_from(s, pos).last().token is Invalid,
    decreases s.len() - pos,
{
    lemma_whitespace_end_bounds(s, pos);
    lemma_whitespace_end_stops(s, pos, at);
    let start = whitespace_end(s, pos);
    lemma_scan_token_bounds(s, start);
    let lexeme = scan_token(s, start);
    if start < at {
        let c = s[start];
        if is_word_start(c) {
            lemma_word_end_stops(s, start + 1, at);
        } else if starts_number(s, start) {
            let digits = number_digits_start(s, start);
            lemma_digits_end_stops(s, digits, at);
            lemma_digits_end_bounds(s, digits);
            if number_has_fraction(s, start) {
                lemma_digits_end_stops(s, digits_end(s, digits) + 1, at);
            }
        }
        if !(lexeme.token is Invalid) {
            lemma_unrecognized_character_stops_lexing(s, lexeme.end, at);
            let rest = lex_from(s, lexeme.end);
            lemma_lex_ends_once(s, lexeme.end);
            assert((seq![lexeme] + rest).last() == rest.last());
        }
    }
}

/// Whitespace does not run over a character that is none.
pub proof fn lemma_whitespace_end_stops(s: Seq<char>, pos: int, at: int)
    requires
        0 <= pos <= at < s.len(),
        !is_whitespace(s[at]),
    ensures
        whitespace_end(s, pos) <= at,
    decreases at - pos,
{
    if pos < at && is_whitespace(s[pos]) {
        lemma_whitespace_end_stops(s, pos + 1, at);
    }
}

/// A word does not run over a character that can stand in none.
pub proof fn lemma_word_end_stops(s: Seq<char>, pos: int, at: int)
    requires
        0 <= pos <= at < s.len(),
        !is_word_part(s[at]),
    ensures
        word_end(s, pos) <= at,
    decreases at - pos,
{
    if pos < at && is_word_part(s[pos]) {
        lemma_word_end_stops(s, pos + 1, at);
    }
}

/// Digits do not run over a character that is none.
pub proof fn lemma_digits_end_stops(s: Seq<char>, pos: int, at: int)
    requires
        0 <= pos <= at < s.len(),
        !is_digit(s[at]),
    ensures
        digits_end(s, pos) <= at,
    decreases at - pos,
{
    if pos < at && is_digit(s[pos]) {
        lemma_digits_end_stops(s, pos + 1, at);
    }
}

/// A text without quotes that holds a character which can stand in no token
/// is no query.
pub proof fn lemma_unrecognized_character_is_rejected(s: Seq<char>, depth: nat, at: int)
    requires
        0 <= at < s.len(),
        !is_query_character(s[at]),
        forall|i: int| 0 <= i < s.len() ==> s[i] != '"',
    ensures
        parse_source(s, depth) is Err,
{
    lemma_unrecognized_character_stops_lexing(s, 0, at);
    lemma_unreadable_text_is_rejected(s, depth);
}

} // verus!
