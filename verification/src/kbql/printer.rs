//! Writing a query out: from tree to tokens to text.

use crate::kbql::ast::path_view;
use crate::kbql::ast::terms_view;
use crate::kbql::ast::Expression;
use crate::kbql::ast::ExpressionView;
use crate::kbql::ast::Literal;
use crate::kbql::ast::LiteralView;
use crate::kbql::ast::Query;
use crate::kbql::ast::QueryView;
use crate::kbql::ast::Term;
use crate::kbql::ast::TermView;
use crate::kbql::completeness::lemma_query_complete;
use crate::kbql::grammar::parse_query;
use crate::kbql::grammar::token_at;
use crate::kbql::grammar::Parsed;
use crate::kbql::shape::expression_width;
use crate::kbql::shape::is_query_shape;
use crate::kbql::shape::query_nests_within;
use crate::kbql::shape::query_width;
use crate::kbql::shape::spells_expression;
use crate::kbql::shape::spells_next_term;
use crate::kbql::shape::spells_query;
use crate::kbql::shape::spells_term;
use crate::kbql::shape::term_width;
use crate::kbql::shape::terms_width;
use crate::kbql::token::tokens_view;
use crate::kbql::token::Token;
use crate::kbql::token::TokenView;
use crate::text::decimal_text;
use crate::text::i64_to_string;
use vstd::prelude::*;
use vstd::string::StringExecFns;

verus! {

/// The tokens that spell a lookup.
pub open spec fn path_tokens(path: Seq<Seq<char>>) -> Seq<TokenView> {
    Seq::new(
        if path.len() == 0 {
            0nat
        } else {
            (2 * path.len() - 1) as nat
        },
        |i: int|
            if i % 2 == 0 {
                TokenView::Identifier(path[i / 2])
            } else {
                TokenView::Dot
            },
    )
}

/// The tokens that spell a term.
pub open spec fn term_tokens(term: TermView) -> Seq<TokenView>
    decreases term,
{
    match term {
        TermView::Literal(LiteralView::Integer(value)) => seq![TokenView::Integer(value)],
        TermView::Literal(LiteralView::Float(text)) => seq![TokenView::Float(text)],
        TermView::Literal(LiteralView::String(text)) => seq![TokenView::String(text)],
        TermView::Lookup(path) => path_tokens(path),
        TermView::Expression(inner) => seq![TokenView::LeftParen] + expression_tokens(*inner)
            + seq![TokenView::RightParen],
        TermView::Not(inner) => seq![TokenView::Not] + term_tokens(*inner),
    }
}

/// The tokens that spell an expression.
pub open spec fn expression_tokens(expression: ExpressionView) -> Seq<TokenView>
    decreases expression,
{
    match expression {
        ExpressionView::Term(term) => term_tokens(term),
        ExpressionView::Is(lhs, rhs) => expression_tokens(*lhs) + seq![TokenView::Is]
            + expression_tokens(*rhs),
        ExpressionView::IsNot(lhs, rhs) => expression_tokens(*lhs) + seq![
            TokenView::Is,
            TokenView::Not,
        ] + expression_tokens(*rhs),
        ExpressionView::And(lhs, rhs) => expression_tokens(*lhs) + seq![TokenView::And]
            + expression_tokens(*rhs),
        ExpressionView::Or(lhs, rhs) => expression_tokens(*lhs) + seq![TokenView::Or]
            + expression_tokens(*rhs),
    }
}

/// The tokens that spell the first `count` terms of a list, with a `,`
/// between each two.
pub open spec fn terms_tokens(terms: Seq<TermView>, count: int) -> Seq<TokenView>
    decreases count,
{
    if count <= 0 || count > terms.len() {
        Seq::empty()
    } else if count == 1 {
        term_tokens(terms[0])
    } else {
        terms_tokens(terms, count - 1) + seq![TokenView::Comma] + term_tokens(terms[count - 1])
    }
}

/// The tokens that spell a query, with the end of the text after them.
pub open spec fn query_tokens(query: QueryView) -> Seq<TokenView> {
    if query.returning.len() == 0 {
        expression_tokens(query.expression) + seq![TokenView::End]
    } else {
        expression_tokens(query.expression) + seq![TokenView::Returning] + terms_tokens(
            query.returning,
            query.returning.len() as int,
        ) + seq![TokenView::End]
    }
}

/// Whether `part` stands in `tokens` from `pos` on.
pub open spec fn holds_at(tokens: Seq<TokenView>, pos: int, part: Seq<TokenView>) -> bool {
    forall|i: int| 0 <= i < part.len() ==> #[trigger] token_at(tokens, pos + i) == part[i]
}

/// Where two parts stand one after the other, each stands at its place.
pub proof fn lemma_holds_at_split(
    tokens: Seq<TokenView>,
    pos: int,
    left: Seq<TokenView>,
    right: Seq<TokenView>,
)
    requires
        holds_at(tokens, pos, left + right),
    ensures
        holds_at(tokens, pos, left),
        holds_at(tokens, pos + left.len(), right),
{
    assert forall|i: int| 0 <= i < left.len() implies #[trigger] token_at(tokens, pos + i)
        == left[i] by {
        assert((left + right)[i] == left[i]);
    }
    assert forall|i: int| 0 <= i < right.len() implies #[trigger] token_at(
        tokens,
        pos + left.len() + i,
    ) == right[i] by {
        assert((left + right)[left.len() + i] == right[i]);
        assert(token_at(tokens, pos + (left.len() + i)) == (left + right)[left.len() + i]);
    }
}

/// The tokens of a term are as many as its width, and spell it wherever
/// they stand.
pub proof fn lemma_term_tokens_spell(tokens: Seq<TokenView>, pos: int, term: TermView)
    requires
        holds_at(tokens, pos, term_tokens(term)),
        term_has_paths(term),
    ensures
        term_tokens(term).len() == term_width(term),
        spells_term(tokens, pos, term),
    decreases term,
{
    match term {
        TermView::Literal(LiteralView::Integer(_)) => {
            assert(token_at(tokens, pos + 0) == term_tokens(term)[0]);
        },
        TermView::Literal(LiteralView::Float(_)) => {
            assert(token_at(tokens, pos + 0) == term_tokens(term)[0]);
        },
        TermView::Literal(LiteralView::String(_)) => {
            assert(token_at(tokens, pos + 0) == term_tokens(term)[0]);
        },
        TermView::Lookup(path) => {
            let part = path_tokens(path);
            assert forall|i: int| 0 <= i < path.len() implies #[trigger] token_at(
                tokens,
                pos + 2 * i,
            ) == TokenView::Identifier(path[i]) by {
                assert(part[2 * i] == TokenView::Identifier(path[i]));
            }
            assert forall|i: int| 0 <= i < path.len() - 1 implies #[trigger] token_at(
                tokens,
                pos + 2 * i + 1,
            ) is Dot by {
                assert(part[2 * i + 1] is Dot);
                assert(token_at(tokens, pos + (2 * i + 1)) == part[2 * i + 1]);
            }
        },
        TermView::Expression(inner) => {
            let open = seq![TokenView::LeftParen];
            let close = seq![TokenView::RightParen];
            let middle = expression_tokens(*inner);
            lemma_holds_at_split(tokens, pos, open + middle, close);
            lemma_holds_at_split(tokens, pos, open, middle);
            lemma_expression_tokens_spell(tokens, pos + 1, *inner);
            assert(token_at(tokens, pos + 0) == open[0]);
            assert(token_at(tokens, pos + (open + middle).len() + 0) == close[0]);
        },
        TermView::Not(inner) => {
            let not = seq![TokenView::Not];
            lemma_holds_at_split(tokens, pos, not, term_tokens(*inner));
            lemma_term_tokens_spell(tokens, pos + 1, *inner);
            assert(token_at(tokens, pos + 0) == not[0]);
        },
    }
}

/// Whether every lookup in an expression or a term has an identifier.
pub open spec fn term_has_paths(term: TermView) -> bool
    decreases term,
{
    match term {
        TermView::Literal(_) => true,
        TermView::Lookup(path) => path.len() > 0,
        TermView::Expression(inner) => expression_has_paths(*inner),
        TermView::Not(inner) => term_has_paths(*inner),
    }
}

/// Whether every lookup in an expression has an identifier.
pub open spec fn expression_has_paths(expression: ExpressionView) -> bool
    decreases expression,
{
    match expression {
        ExpressionView::Term(term) => term_has_paths(term),
        ExpressionView::Is(lhs, rhs) => expression_has_paths(*lhs) && expression_has_paths(*rhs),
        ExpressionView::IsNot(lhs, rhs) => expression_has_paths(*lhs) && expression_has_paths(
            *rhs,
        ),
        ExpressionView::And(lhs, rhs) => expression_has_paths(*lhs) && expression_has_paths(*rhs),
        ExpressionView::Or(lhs, rhs) => expression_has_paths(*lhs) && expression_has_paths(*rhs),
    }
}

/// The tokens of an expression are as many as its width, and spell it
/// wherever they stand.
pub proof fn lemma_expression_tokens_spell(
    tokens: Seq<TokenView>,
    pos: int,
    expression: ExpressionView,
)
    requires
        holds_at(tokens, pos, expression_tokens(expression)),
        expression_has_paths(expression),
    ensures
        expression_tokens(expression).len() == expression_width(expression),
        spells_expression(tokens, pos, expression),
    decreases expression,
{
    match expression {
        ExpressionView::Term(term) => {
            lemma_term_tokens_spell(tokens, pos, term);
        },
        ExpressionView::Is(lhs, rhs) => {
            let operator = seq![TokenView::Is];
            let left = expression_tokens(*lhs);
            lemma_holds_at_split(tokens, pos, left + operator, expression_tokens(*rhs));
            lemma_holds_at_split(tokens, pos, left, operator);
            lemma_expression_tokens_spell(tokens, pos, *lhs);
            lemma_expression_tokens_spell(tokens, pos + left.len() + 1, *rhs);
            assert(token_at(tokens, pos + left.len() + 0) == operator[0]);
        },
        ExpressionView::IsNot(lhs, rhs) => {
            let operator = seq![TokenView::Is, TokenView::Not];
            let left = expression_tokens(*lhs);
            lemma_holds_at_split(tokens, pos, left + operator, expression_tokens(*rhs));
            lemma_holds_at_split(tokens, pos, left, operator);
            lemma_expression_tokens_spell(tokens, pos, *lhs);
            lemma_expression_tokens_spell(tokens, pos + left.len() + 2, *rhs);
            assert(token_at(tokens, pos + left.len() + 0) == operator[0]);
            assert(token_at(tokens, pos + left.len() + 1) == operator[1]);
        },
        ExpressionView::And(lhs, rhs) => {
            let operator = seq![TokenView::And];
            let left = expression_tokens(*lhs);
            lemma_holds_at_split(tokens, pos, left + operator, expression_tokens(*rhs));
            lemma_holds_at_split(tokens, pos, left, operator);
            lemma_expression_tokens_spell(tokens, pos, *lhs);
            lemma_expression_tokens_spell(tokens, pos + left.len() + 1, *rhs);
            assert(token_at(tokens, pos + left.len() + 0) == operator[0]);
        },
        ExpressionView::Or(lhs, rhs) => {
            let operator = seq![TokenView::Or];
            let left = expression_tokens(*lhs);
            lemma_holds_at_split(tokens, pos, left + operator, expression_tokens(*rhs));
            lemma_holds_at_split(tokens, pos, left, operator);
            lemma_expression_tokens_spell(tokens, pos, *lhs);
            lemma_expression_tokens_spell(tokens, pos + left.len() + 1, *rhs);
            assert(token_at(tokens, pos + left.len() + 0) == operator[0]);
        },
    }
}

/// A term of the grammar's shape has no empty lookup.
pub proof fn lemma_term_shape_has_paths(term: TermView)
    requires
        crate::kbql::shape::is_term_shape(term),
    ensures
        term_has_paths(term),
    decreases term, 0int,
{
    match term {
        TermView::Expression(inner) => {
            lemma_expression_shape_has_paths(*inner);
        },
        TermView::Not(inner) => {
            lemma_term_shape_has_paths(*inner);
        },
        _ => {},
    }
}

/// A comparison of the grammar's shape has no empty lookup.
pub proof fn lemma_comparison_shape_has_paths(expression: ExpressionView)
    requires
        crate::kbql::shape::is_comparison_shape(expression),
    ensures
        expression_has_paths(expression),
    decreases expression, 1int,
{
    match expression {
        ExpressionView::Term(term) => {
            lemma_term_shape_has_paths(term);
        },
        ExpressionView::Is(lhs, rhs) => {
            lemma_comparison_shape_has_paths(*lhs);
            match *rhs {
                ExpressionView::Term(term) => {
                    lemma_term_shape_has_paths(term);
                    assert(expression_has_paths(*rhs));
                },
                _ => {},
            }
        },
        ExpressionView::IsNot(lhs, rhs) => {
            lemma_comparison_shape_has_paths(*lhs);
            match *rhs {
                ExpressionView::Term(term) => {
                    lemma_term_shape_has_paths(term);
                    assert(expression_has_paths(*rhs));
                },
                _ => {},
            }
        },
        _ => {},
    }
}

/// An expression of the grammar's shape has no empty lookup.
pub proof fn lemma_expression_shape_has_paths(expression: ExpressionView)
    requires
        crate::kbql::shape::is_expression_shape(expression),
    ensures
        expression_has_paths(expression),
    decreases expression, 2int,
{
    match expression {
        ExpressionView::And(lhs, rhs) => {
            lemma_expression_shape_has_paths(*lhs);
            lemma_comparison_shape_has_paths(*rhs);
        },
        ExpressionView::Or(lhs, rhs) => {
            lemma_expression_shape_has_paths(*lhs);
            lemma_comparison_shape_has_paths(*rhs);
        },
        _ => {
            lemma_comparison_shape_has_paths(expression);
        },
    }
}

/// The tokens of the first terms of a list are as many as their width, and
/// spell them wherever they stand.
pub proof fn lemma_terms_tokens_spell(
    tokens: Seq<TokenView>,
    pos: int,
    terms: Seq<TermView>,
    count: int,
)
    requires
        1 <= count <= terms.len(),
        holds_at(tokens, pos, terms_tokens(terms, count)),
        forall|i: int| 0 <= i < terms.len() ==> term_has_paths(#[trigger] terms[i]),
    ensures
        terms_tokens(terms, count).len() == terms_width(terms, count),
        spells_term(tokens, pos, terms[0]),
        forall|i: int| 1 <= i < count ==> #[trigger] spells_next_term(tokens, pos, terms, i),
    decreases count,
{
    if count == 1 {
        lemma_term_tokens_spell(tokens, pos, terms[0]);
    } else {
        let before = terms_tokens(terms, count - 1);
        let comma = seq![TokenView::Comma];
        let last = term_tokens(terms[count - 1]);
        lemma_holds_at_split(tokens, pos, before + comma, last);
        lemma_holds_at_split(tokens, pos, before, comma);
        lemma_terms_tokens_spell(tokens, pos, terms, count - 1);
        lemma_term_tokens_spell(tokens, pos + before.len() + 1, terms[count - 1]);
        assert(token_at(tokens, pos + before.len() + 0) == comma[0]);
        assert(spells_next_term(tokens, pos, terms, count - 1));
    }
}

/// The tokens of a query spell it.
pub proof fn lemma_query_tokens_spell(query: QueryView)
    requires
        is_query_shape(query),
    ensures
        spells_query(query_tokens(query), query),
        query_tokens(query).len() == query_width(query) + 1,
{
    let tokens = query_tokens(query);
    let head = expression_tokens(query.expression);
    let end = seq![TokenView::End];
    lemma_expression_shape_has_paths(query.expression);
    assert(holds_at(tokens, 0, tokens));
    if query.returning.len() == 0 {
        lemma_holds_at_split(tokens, 0, head, end);
        lemma_expression_tokens_spell(tokens, 0, query.expression);
        assert(token_at(tokens, 0int + head.len() + 0) == end[0]);
    } else {
        let terms = query.returning;
        let keyword = seq![TokenView::Returning];
        let list = terms_tokens(terms, terms.len() as int);
        assert forall|i: int| 0 <= i < terms.len() implies term_has_paths(#[trigger] terms[i]) by {
            lemma_term_shape_has_paths(terms[i]);
        }
        lemma_holds_at_split(tokens, 0, head + keyword + list, end);
        lemma_holds_at_split(tokens, 0, head + keyword, list);
        lemma_holds_at_split(tokens, 0, head, keyword);
        lemma_expression_tokens_spell(tokens, 0, query.expression);
        lemma_terms_tokens_spell(tokens, head.len() as int + 1, terms, terms.len() as int);
        assert(token_at(tokens, 0int + head.len() + 0) == keyword[0]);
        assert(token_at(tokens, 0int + (head + keyword + list).len() + 0) == end[0]);
    }
}

/// Writing a query of the grammar's shape out in tokens and reading the
/// tokens gives the query back.
pub proof fn lemma_tokens_parse_back(query: QueryView, depth: nat)
    requires
        is_query_shape(query),
        query_nests_within(query, depth),
    ensures
        parse_query(query_tokens(query), depth) == (Parsed::Success {
            value: query,
            next: query_width(query) as int,
        }),
{
    lemma_query_tokens_spell(query);
    lemma_query_complete(query_tokens(query), depth, query);
}

/// The raw content that stands for `text` between the quotes of a string:
/// a backslash before every quote, and nothing else changed.
pub open spec fn escape(text: Seq<char>) -> Seq<char>
    decreases text.len(),
{
    if text.len() == 0 {
        Seq::empty()
    } else if text.last() == '"' {
        escape(text.drop_last()) + seq!['\\', '"']
    } else {
        escape(text.drop_last()).push(text.last())
    }
}

/// The text of one token. A number without a fraction is written without
/// leading zeros.
pub open spec fn token_text(token: TokenView) -> Seq<char> {
    match token {
        TokenView::Integer(value) => decimal_text(value),
        TokenView::Float(text) => text,
        TokenView::String(text) => seq!['"'] + escape(text) + seq!['"'],
        TokenView::Identifier(name) => name,
        TokenView::And => "and"@,
        TokenView::Or => "or"@,
        TokenView::Is => "is"@,
        TokenView::Not => "not"@,
        TokenView::Returning => "returning"@,
        TokenView::LeftParen => "("@,
        TokenView::RightParen => ")"@,
        TokenView::Comma => ","@,
        TokenView::Dot => "."@,
        TokenView::End => Seq::empty(),
        TokenView::Invalid(_) => Seq::empty(),
    }
}

/// Whether a space stands between two tokens that follow one another: none
/// after `(`, before `)`, before `,`, and around the `.` of a lookup.
pub open spec fn needs_space(before: TokenView, after: TokenView) -> bool {
    !(before is LeftParen || after is RightParen || after is Comma || after is End || (
    before is Identifier && after is Dot) || (before is Dot && after is Identifier))
}

/// The text of the first `count` tokens of a list.
pub open spec fn tokens_text(tokens: Seq<TokenView>, count: int) -> Seq<char>
    decreases count,
{
    if count <= 0 || count > tokens.len() {
        Seq::empty()
    } else if count == 1 {
        token_text(tokens[0])
    } else if needs_space(tokens[count - 2], tokens[count - 1]) {
        tokens_text(tokens, count - 1) + seq![' '] + token_text(tokens[count - 1])
    } else {
        tokens_text(tokens, count - 1) + token_text(tokens[count - 1])
    }
}

/// The text of a query.
pub open spec fn query_text(query: QueryView) -> Seq<char> {
    tokens_text(query_tokens(query), query_tokens(query).len() as int)
}

/// Appends the tokens of a lookup.
fn push_path_tokens(path: &Vec<String>, out: &mut Vec<Token>)
    ensures
        tokens_view(final(out)@) == tokens_view(old(out)@) + path_tokens(path_view(path@)),
{
    let ghost base = tokens_view(out@);
    let ghost names = path_view(path@);
    let mut i: usize = 0;
    assert(tokens_view(out@) =~= base + path_tokens(names.take(0)));
    while i < path.len()
        invariant
            i <= path@.len(),
            names == path_view(path@),
            tokens_view(out@) == base + path_tokens(names.take(i as int)),
        decreases path@.len() - i,
    {
        let ghost before = tokens_view(out@);
        if i > 0 {
            out.push(Token::Dot);
        }
        out.push(Token::Identifier(path[i].clone()));
        proof {
            let shorter = path_tokens(names.take(i as int));
            let longer = path_tokens(names.take(i as int + 1));
            if i > 0 {
                assert(tokens_view(out@) =~= before.push(TokenView::Dot).push(
                    TokenView::Identifier(names[i as int]),
                ));
                assert(longer =~= shorter.push(TokenView::Dot).push(
                    TokenView::Identifier(names[i as int]),
                )) by {
                    assert(longer.len() == shorter.len() + 2);
                    assert forall|k: int| 0 <= k < longer.len() implies longer[k] == shorter.push(
                        TokenView::Dot,
                    ).push(TokenView::Identifier(names[i as int]))[k] by {
                        if k < shorter.len() {
                            assert(names.take(i as int + 1)[k / 2] == names.take(i as int)[k / 2]);
                        }
                    }
                }
            } else {
                assert(tokens_view(out@) =~= before.push(TokenView::Identifier(names[0])));
                assert(longer =~= seq![TokenView::Identifier(names[0])]);
                assert(shorter =~= Seq::<TokenView>::empty());
            }
            assert(tokens_view(out@) =~= base + longer);
        }
        i += 1;
    }
    assert(names.take(path@.len() as int) =~= names);
}

/// Appends the tokens of a term.
fn push_term_tokens(term: &Term, out: &mut Vec<Token>)
    ensures
        tokens_view(final(out)@) == tokens_view(old(out)@) + term_tokens(term@),
    decreases term,
{
    let ghost base = tokens_view(out@);
    match term {
        Term::Literal(Literal::Integer(value)) => {
            out.push(Token::Integer(*value));
            assert(tokens_view(out@) =~= base + term_tokens(term@));
        },
        Term::Literal(Literal::Float(decimal)) => {
            out.push(Token::Float(decimal.clone()));
            assert(tokens_view(out@) =~= base + term_tokens(term@));
        },
        Term::Literal(Literal::String(text)) => {
            out.push(Token::String(text.clone()));
            assert(tokens_view(out@) =~= base + term_tokens(term@));
        },
        Term::Lookup(path) => {
            push_path_tokens(path, out);
        },
        Term::Expression(inner) => {
            out.push(Token::LeftParen);
            let ghost opened = tokens_view(out@);
            assert(opened =~= base + seq![TokenView::LeftParen]);
            push_expression_tokens(inner, out);
            let ghost filled = tokens_view(out@);
            out.push(Token::RightParen);
            assert(tokens_view(out@) =~= filled + seq![TokenView::RightParen]);
            assert(tokens_view(out@) =~= base + term_tokens(term@));
        },
        Term::Not(inner) => {
            out.push(Token::Not);
            assert(tokens_view(out@) =~= base + seq![TokenView::Not]);
            push_term_tokens(inner, out);
            assert(tokens_view(out@) =~= base + term_tokens(term@));
        },
    }
}

/// Appends the tokens of an expression.
fn push_expression_tokens(expression: &Expression, out: &mut Vec<Token>)
    ensures
        tokens_view(final(out)@) == tokens_view(old(out)@) + expression_tokens(expression@),
    decreases expression,
{
    let ghost base = tokens_view(out@);
    match expression {
        Expression::Term(term) => {
            push_term_tokens(term, out);
        },
        Expression::Is(lhs, rhs) => {
            push_expression_tokens(lhs, out);
            let ghost left = tokens_view(out@);
            out.push(Token::Is);
            assert(tokens_view(out@) =~= left + seq![TokenView::Is]);
            push_expression_tokens(rhs, out);
            assert(tokens_view(out@) =~= base + expression_tokens(expression@));
        },
        Expression::IsNot(lhs, rhs) => {
            push_expression_tokens(lhs, out);
            let ghost left = tokens_view(out@);
            out.push(Token::Is);
            out.push(Token::Not);
            assert(tokens_view(out@) =~= left + seq![TokenView::Is, TokenView::Not]);
            push_expression_tokens(rhs, out);
            assert(tokens_view(out@) =~= base + expression_tokens(expression@));
        },
        Expression::And(lhs, rhs) => {
            push_expression_tokens(lhs, out);
            let ghost left = tokens_view(out@);
            out.push(Token::And);
            assert(tokens_view(out@) =~= left + seq![TokenView::And]);
            push_expression_tokens(rhs, out);
            assert(tokens_view(out@) =~= base + expression_tokens(expression@));
        },
        Expression::Or(lhs, rhs) => {
            push_expression_tokens(lhs, out);
            let ghost left = tokens_view(out@);
            out.push(Token::Or);
            assert(tokens_view(out@) =~= left + seq![TokenView::Or]);
            push_expression_tokens(rhs, out);
            assert(tokens_view(out@) =~= base + expression_tokens(expression@));
        },
    }
}

/// Appends the text of one token.
fn push_token_text(token: &Token, out: &mut String)
    ensures
        final(out)@ == old(out)@ + token_text(token@),
{
    let ghost base = out@;
    match token {
        Token::Integer(value) => {
            let digits = i64_to_string(*value);
            out.append(digits.as_str());
        },
        Token::Float(decimal) => {
            out.append(decimal.as_str());
        },
        Token::String(text) => {
            out.push('"');
            let ghost opened = out@;
            let ghost all = text@;
            assert(all.take(0) =~= Seq::<char>::empty());
            assert(out@ =~= opened + escape(all.take(0)));
            for c in it: text.as_str().chars()
                invariant
                    it.seq() == all,
                    all == text@,
                    out@ == opened + escape(all.take(it.index() as int)),
            {
                let ghost before = out@;
                let ghost index = it.index() as int;
                if c == '"' {
                    out.push('\\');
                    out.push('"');
                } else {
                    out.push(c);
                }
                proof {
                    let longer = all.take(index + 1);
                    assert(longer.drop_last() =~= all.take(index));
                    assert(longer.last() == c);
                    if c == '"' {
                        assert(out@ =~= before + seq!['\\', '"']);
                    }
                    assert(out@ =~= opened + escape(longer));
                }
            }
            assert(all.take(all.len() as int) =~= all);
            out.push('"');
            assert(out@ =~= base + (seq!['"'] + escape(all) + seq!['"']));
        },
        Token::Identifier(name) => {
            out.append(name.as_str());
        },
        Token::And => {
            out.append("and");
        },
        Token::Or => {
            out.append("or");
        },
        Token::Is => {
            out.append("is");
        },
        Token::Not => {
            out.append("not");
        },
        Token::Returning => {
            out.append("returning");
        },
        Token::LeftParen => {
            out.append("(");
        },
        Token::RightParen => {
            out.append(")");
        },
        Token::Comma => {
            out.append(",");
        },
        Token::Dot => {
            out.append(".");
        },
        Token::End => {
            assert(out@ =~= base + Seq::<char>::empty());
        },
        Token::Invalid(_) => {
            assert(out@ =~= base + Seq::<char>::empty());
        },
    }
}

/// Whether a space stands between two tokens that follow one another.
fn space_between(before: &Token, after: &Token) -> (space: bool)
    ensures
        space == needs_space(before@, after@),
{
    let tight = match (before, after) {
        (Token::LeftParen, _) => true,
        (_, Token::RightParen) => true,
        (_, Token::Comma) => true,
        (_, Token::End) => true,
        (Token::Identifier(_), Token::Dot) => true,
        (Token::Dot, Token::Identifier(_)) => true,
        _ => false,
    };
    !tight
}

/// The text of a list of tokens.
pub fn write_tokens(tokens: &Vec<Token>) -> (text: String)
    ensures
        text@ == tokens_text(tokens_view(tokens@), tokens@.len() as int),
{
    let ghost views = tokens_view(tokens@);
    let mut text = String::new();
    let mut i: usize = 0;
    while i < tokens.len()
        invariant
            i <= tokens@.len(),
            views == tokens_view(tokens@),
            text@ == tokens_text(views, i as int),
        decreases tokens@.len() - i,
    {
        let ghost before = text@;
        if i > 0 && space_between(&tokens[i - 1], &tokens[i]) {
            text.push(' ');
            assert(text@ =~= before + seq![' ']);
        }
        push_token_text(&tokens[i], &mut text);
        proof {
            if i == 0 {
                assert(text@ =~= token_text(views[0]));
            }
        }
        i += 1;
    }
    text
}

impl Query {
    /// The tokens that spell this query, with the end of the text after
    /// them.
    pub fn to_tokens(&self) -> (tokens: Vec<Token>)
        ensures
            tokens_view(tokens@) == query_tokens(self@),
    {
        let mut tokens: Vec<Token> = Vec::new();
        assert(tokens_view(tokens@) =~= Seq::<TokenView>::empty());
        push_expression_tokens(&self.expression, &mut tokens);
        assert(tokens_view(tokens@) =~= expression_tokens(self.expression@));
        if self.returning.len() > 0 {
            let ghost terms = terms_view(self.returning@);
            tokens.push(Token::Returning);
            let ghost head = tokens_view(tokens@);
            assert(head =~= expression_tokens(self.expression@) + seq![TokenView::Returning]);
            let mut i: usize = 0;
            assert(tokens_view(tokens@) =~= head + terms_tokens(terms, 0));
            while i < self.returning.len()
                invariant
                    i <= self.returning@.len(),
                    terms == terms_view(self.returning@),
                    tokens_view(tokens@) == head + terms_tokens(terms, i as int),
                decreases self.returning@.len() - i,
            {
                let ghost before = tokens_view(tokens@);
                if i > 0 {
                    tokens.push(Token::Comma);
                    assert(tokens_view(tokens@) =~= before + seq![TokenView::Comma]);
                }
                push_term_tokens(&self.returning[i], &mut tokens);
                proof {
                    assert(terms[i as int] == self.returning@[i as int]@);
                    assert(tokens_view(tokens@) =~= head + terms_tokens(terms, i as int + 1));
                }
                i += 1;
            }
            let ghost listed = tokens_view(tokens@);
            tokens.push(Token::End);
            assert(tokens_view(tokens@) =~= listed + seq![TokenView::End]);
        } else {
            let ghost head = tokens_view(tokens@);
            tokens.push(Token::End);
            assert(tokens_view(tokens@) =~= head + seq![TokenView::End]);
        }
        tokens
    }

    /// The text of this query: its tokens with one space between them, but
    /// none after `(`, before `)`, before `,`, and around the `.` of a lookup.
    pub fn to_source(&self) -> (text: String)
        ensures
            text@ == query_text(self@),
    {
        let tokens = self.to_tokens();
        write_tokens(&tokens)
    }
}

} // verus!
