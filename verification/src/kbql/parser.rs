//! Reading a query: from text to tokens to tree.

use crate::kbql::ast::path_view;
use crate::kbql::ast::terms_view;
use crate::kbql::ast::Expression;
use crate::kbql::ast::ExpressionView;
use crate::kbql::ast::Literal;
use crate::kbql::ast::Operator;
use crate::kbql::ast::Query;
use crate::kbql::ast::QueryView;
use crate::kbql::ast::Term;
use crate::kbql::ast::TermView;
use crate::kbql::error::ErrorKind;
use crate::kbql::grammar;
use crate::kbql::grammar::error_at;
use crate::kbql::grammar::error_message;
use crate::text::usize_to_string;
use vstd::string::StringExecFns;
use crate::kbql::grammar::extend_with;
use crate::kbql::grammar::fold_onto;
use crate::kbql::grammar::lemma_fold_left_front;
use crate::kbql::grammar::parse_source;
use crate::kbql::grammar::token_at;
use crate::kbql::grammar::violation;
use crate::kbql::grammar::ParseErrorView;
use crate::kbql::grammar::Parsed;
use crate::kbql::lexer::tokenize_chars;
use crate::kbql::roundtrip::is_query_writable;
use crate::kbql::roundtrip::lemma_parsed_query_is_writable;
use crate::kbql::shape::is_query_shape;
use crate::kbql::shape::query_nests_within;
use crate::kbql::shape::spells_query;
use crate::kbql::soundness::lemma_query_sound;
use crate::kbql::token::lex;
use crate::kbql::token::lexemes_view;
use crate::kbql::token::tokens_of;
use crate::kbql::token::Lexeme;
use crate::kbql::token::Token;
use crate::kbql::token::TokenView;
use crate::text::byte_offset;
use crate::text::char_utf8_width;
use crate::text::collect_string;
use crate::text::column_of;
use crate::text::lemma_byte_offset_is_encoded_length;
use crate::text::lemma_byte_offset_monotonic;
use crate::text::line_of;
use crate::text::to_chars;
use vstd::prelude::*;
use vstd::string::StringSliceAdditionalSpecFns;

verus! {

/// How many levels of `not` and `(` inside one another [`Query::parse`]
/// accepts.
pub const DEFAULT_NESTING_LIMIT: usize = 128;

/// Why a text is no query, and where.
#[derive(PartialEq, Eq, Debug)]
pub struct ParseError {
    pub kind: ErrorKind,
    /// The text of the token at which the violation was found; empty at the
    /// end of the text.
    pub found: String,
    /// The position of that token, in characters.
    pub position: usize,
    /// The same position in bytes.
    pub offset: usize,
    /// The line of the position, counted from 0.
    pub line: usize,
    /// The column of the position, counted from 0 in characters.
    pub column: usize,
}

impl View for ParseError {
    type V = ParseErrorView;

    open spec fn view(&self) -> ParseErrorView {
        ParseErrorView {
            kind: self.kind,
            found: self.found@,
            position: self.position as int,
            offset: self.offset as int,
            line: self.line as int,
            column: self.column as int,
        }
    }
}

impl ParseError {
    /// The error in words: what was wanted, the byte at which it was not
    /// found, and what was found there.
    pub fn to_string(&self) -> (message: String)
        ensures
            message@ == error_message(self@),
    {
        let offset = usize_to_string(self.offset);
        let message = String::from_str(self.kind.description()).concat(" at byte ").concat(
            offset.as_str(),
        );
        if self.found.as_str().is_empty() {
            message.concat(", found the end of the query")
        } else {
            message.concat(", found `").concat(self.found.as_str()).concat("`")
        }
    }
}

/// Why a query could not be read.
#[derive(PartialEq, Eq, Debug)]
pub enum Error {
    Parse(ParseError),
}

impl Error {
    /// The error in words.
    pub fn to_string(&self) -> (message: String)
        ensures
            match self {
                Error::Parse(error) => message@ == "error parsing: "@ + error_message(error@),
            },
    {
        match self {
            Error::Parse(error) => String::from_str("error parsing: ").concat(
                error.to_string().as_str(),
            ),
        }
    }
}

/// The model of what a parse returned.
pub open spec fn outcome_view(outcome: Result<Query, ParseError>) -> Result<
    QueryView,
    ParseErrorView,
> {
    match outcome {
        Ok(query) => Ok(query@),
        Err(error) => Err(error@),
    }
}

/// A violation and the index of the token it is at.
pub struct Failure {
    pub kind: ErrorKind,
    pub at: usize,
}

/// The tokens of a list of lexemes.
pub open spec fn kinds(lexemes: Seq<Lexeme>) -> Seq<TokenView> {
    tokens_of(lexemes_view(lexemes))
}

/// The model of what reading a term returned.
pub open spec fn term_outcome(outcome: Result<(Term, usize), Failure>) -> Parsed<TermView> {
    match outcome {
        Ok((term, next)) => Parsed::Success { value: term@, next: next as int },
        Err(failure) => Parsed::Failure { kind: failure.kind, at: failure.at as int },
    }
}

/// The model of what reading an expression returned.
pub open spec fn expression_outcome(outcome: Result<(Expression, usize), Failure>) -> Parsed<
    ExpressionView,
> {
    match outcome {
        Ok((expression, next)) => Parsed::Success { value: expression@, next: next as int },
        Err(failure) => Parsed::Failure { kind: failure.kind, at: failure.at as int },
    }
}

/// The model of what reading a query from tokens returned.
pub open spec fn query_outcome(outcome: Result<(Query, usize), Failure>) -> Parsed<QueryView> {
    match outcome {
        Ok((query, next)) => Parsed::Success { value: query@, next: next as int },
        Err(failure) => Parsed::Failure { kind: failure.kind, at: failure.at as int },
    }
}

/// The token at `pos`, if the list goes that far.
fn token_ref(lexemes: &[Lexeme], pos: usize) -> (token: Option<&Token>)
    ensures
        lexemes@.len() <= usize::MAX,
        match token {
            Some(t) => pos < lexemes@.len() && *t == lexemes@[pos as int].token && t@ == token_at(
                kinds(lexemes@),
                pos as int,
            ),
            None => pos >= lexemes@.len() && token_at(kinds(lexemes@), pos as int) is End,
        },
{
    if pos < lexemes.len() {
        Some(&lexemes[pos].token)
    } else {
        None
    }
}

/// The kind of violation that the token at `pos` is where the grammar
/// wanted something else.
fn violation_at(lexemes: &[Lexeme], pos: usize, wanted: ErrorKind) -> (kind: ErrorKind)
    ensures
        kind == violation(kinds(lexemes@), pos as int, wanted),
{
    match token_ref(lexemes, pos) {
        Some(Token::Invalid(kind)) => *kind,
        _ => wanted,
    }
}

/// Reads the rest of a lookup whose first identifier is `first`.
fn parse_lookup_tail(lexemes: &[Lexeme], pos: usize, first: String) -> (outcome: Result<
    (Vec<String>, usize),
    Failure,
>)
    requires
        pos <= lexemes@.len(),
    ensures
        match outcome {
            Ok((path, next)) => grammar::parse_lookup_tail(
                kinds(lexemes@),
                pos as int,
                seq![first@],
            ) == (Parsed::Success { value: path_view(path@), next: next as int }) && pos <= next
                <= lexemes@.len(),
            Err(failure) => grammar::parse_lookup_tail(kinds(lexemes@), pos as int, seq![first@])
                == (Parsed::<Seq<Seq<char>>>::Failure { kind: failure.kind, at: failure.at as int })
                && failure.at <= lexemes@.len(),
        },
{
    let ghost tokens = kinds(lexemes@);
    let ghost goal = grammar::parse_lookup_tail(tokens, pos as int, seq![first@]);
    let mut path: Vec<String> = Vec::new();
    path.push(first);
    assert(path_view(path@) =~= seq![first@]);
    let mut at: usize = pos;
    loop
        invariant
            pos <= at <= lexemes@.len(),
            tokens == kinds(lexemes@),
            goal == grammar::parse_lookup_tail(tokens, pos as int, seq![first@]),
            grammar::parse_lookup_tail(tokens, at as int, path_view(path@)) == goal,
        decreases lexemes@.len() - at,
    {
        match token_ref(lexemes, at) {
            Some(Token::Dot) => {
                match token_ref(lexemes, at + 1) {
                    Some(Token::Identifier(name)) => {
                        let ghost before = path_view(path@);
                        path.push(name.clone());
                        assert(path_view(path@) =~= before.push(name@));
                        at += 2;
                    },
                    _ => {
                        let kind = violation_at(lexemes, at + 1, ErrorKind::ExpectedIdentifier);
                        return Err(Failure { kind, at: at + 1 });
                    },
                }
            },
            _ => {
                return Ok((path, at));
            },
        }
    }
}

/// Reads a term from `pos`, with `depth` more levels of `not` and `(`
/// allowed.
fn parse_term(lexemes: &[Lexeme], pos: usize, depth: usize) -> (outcome: Result<
    (Term, usize),
    Failure,
>)
    requires
        pos <= lexemes@.len(),
    ensures
        term_outcome(outcome) == grammar::parse_term(kinds(lexemes@), pos as int, depth as nat),
        match outcome {
            Ok((_, next)) => pos < next <= lexemes@.len(),
            Err(failure) => failure.at <= lexemes@.len(),
        },
    decreases lexemes@.len() - pos, 0int,
{
    match token_ref(lexemes, pos) {
        Some(Token::Integer(value)) => Ok((Term::Literal(Literal::Integer(*value)), pos + 1)),
        Some(Token::Float(decimal)) => Ok((Term::Literal(Literal::Float(decimal.clone())), pos + 1)),
        Some(Token::String(text)) => Ok((Term::Literal(Literal::String(text.clone())), pos + 1)),
        Some(Token::Identifier(name)) => {
            match parse_lookup_tail(lexemes, pos + 1, name.clone()) {
                Ok((path, next)) => Ok((Term::Lookup(path), next)),
                Err(failure) => Err(failure),
            }
        },
        Some(Token::Not) => {
            if depth == 0 {
                Err(Failure { kind: ErrorKind::NestingTooDeep, at: pos })
            } else {
                match parse_term(lexemes, pos + 1, depth - 1) {
                    Ok((inner, next)) => Ok((Term::Not(Box::new(inner)), next)),
                    Err(failure) => Err(failure),
                }
            }
        },
        Some(Token::LeftParen) => {
            if depth == 0 {
                Err(Failure { kind: ErrorKind::NestingTooDeep, at: pos })
            } else {
                match parse_expression(lexemes, pos + 1, depth - 1) {
                    Ok((inner, next)) => {
                        match token_ref(lexemes, next) {
                            Some(Token::RightParen) => Ok(
                                (Term::Expression(Box::new(inner)), next + 1),
                            ),
                            _ => {
                                let kind = violation_at(
                                    lexemes,
                                    next,
                                    ErrorKind::ExpectedRightParen,
                                );
                                Err(Failure { kind, at: next })
                            },
                        }
                    },
                    Err(failure) => Err(failure),
                }
            }
        },
        Some(Token::Invalid(kind)) => Err(Failure { kind: *kind, at: pos }),
        _ => Err(Failure { kind: ErrorKind::ExpectedTerm, at: pos }),
    }
}

/// Reads a comparison from `pos`: a term, then every `is` or `is not` with
/// its term, each joined to all that stands before it.
fn parse_comparison(lexemes: &[Lexeme], pos: usize, depth: usize) -> (outcome: Result<
    (Expression, usize),
    Failure,
>)
    requires
        pos <= lexemes@.len(),
    ensures
        expression_outcome(outcome) == grammar::parse_comparison(
            kinds(lexemes@),
            pos as int,
            depth as nat,
        ),
        match outcome {
            Ok((_, next)) => pos < next <= lexemes@.len(),
            Err(failure) => failure.at <= lexemes@.len(),
        },
    decreases lexemes@.len() - pos, 2int,
{
    let ghost tokens = kinds(lexemes@);
    let ghost goal = grammar::parse_comparison(tokens, pos as int, depth as nat);
    let (first, after_first) = match parse_term(lexemes, pos, depth) {
        Ok(read) => read,
        Err(failure) => {
            return Err(failure);
        },
    };
    let mut lhs = Expression::Term(first);
    let mut at: usize = after_first;
    loop
        invariant
            pos < at <= lexemes@.len(),
            tokens == kinds(lexemes@),
            goal == grammar::parse_comparison(tokens, pos as int, depth as nat),
            fold_onto(lhs@, grammar::parse_comparison_tail(tokens, at as int, depth as nat))
                == goal,
        decreases lexemes@.len() - at,
    {
        match token_ref(lexemes, at) {
            Some(Token::Is) => {
                let negated = match token_ref(lexemes, at + 1) {
                    Some(Token::Not) => true,
                    _ => false,
                };
                let operator = if negated {
                    Operator::IsNot
                } else {
                    Operator::Is
                };
                let operand_at = if negated {
                    at + 2
                } else {
                    at + 1
                };
                match parse_term(lexemes, operand_at, depth) {
                    Ok((operand, next)) => {
                        proof {
                            let head = (operator, ExpressionView::Term(operand@));
                            match grammar::parse_comparison_tail(tokens, next as int, depth as nat) {
                                Parsed::Success { value: rest, .. } => {
                                    lemma_fold_left_front(lhs@, head, rest);
                                },
                                Parsed::Failure { .. } => {},
                            }
                        }
                        lhs = Expression::binary(operator, lhs, Expression::Term(operand));
                        at = next;
                    },
                    Err(failure) => {
                        return Err(failure);
                    },
                }
            },
            _ => {
                return Ok((lhs, at));
            },
        }
    }
}

/// Reads an expression from `pos`: a comparison, then every `and` or `or`
/// with its comparison, each joined to all that stands before it.
fn parse_expression(lexemes: &[Lexeme], pos: usize, depth: usize) -> (outcome: Result<
    (Expression, usize),
    Failure,
>)
    requires
        pos <= lexemes@.len(),
    ensures
        expression_outcome(outcome) == grammar::parse_expression(
            kinds(lexemes@),
            pos as int,
            depth as nat,
        ),
        match outcome {
            Ok((_, next)) => pos < next <= lexemes@.len(),
            Err(failure) => failure.at <= lexemes@.len(),
        },
    decreases lexemes@.len() - pos, 4int,
{
    let ghost tokens = kinds(lexemes@);
    let ghost goal = grammar::parse_expression(tokens, pos as int, depth as nat);
    let (first, after_first) = match parse_comparison(lexemes, pos, depth) {
        Ok(read) => read,
        Err(failure) => {
            return Err(failure);
        },
    };
    let mut lhs = first;
    let mut at: usize = after_first;
    loop
        invariant
            pos < at <= lexemes@.len(),
            tokens == kinds(lexemes@),
            goal == grammar::parse_expression(tokens, pos as int, depth as nat),
            fold_onto(lhs@, grammar::parse_logical_tail(tokens, at as int, depth as nat)) == goal,
        decreases lexemes@.len() - at,
    {
        let operator = match token_ref(lexemes, at) {
            Some(Token::And) => Operator::And,
            Some(Token::Or) => Operator::Or,
            _ => {
                return Ok((lhs, at));
            },
        };
        match parse_comparison(lexemes, at + 1, depth) {
            Ok((operand, next)) => {
                proof {
                    let head = (operator, operand@);
                    match grammar::parse_logical_tail(tokens, next as int, depth as nat) {
                        Parsed::Success { value: rest, .. } => {
                            lemma_fold_left_front(lhs@, head, rest);
                        },
                        Parsed::Failure { .. } => {},
                    }
                }
                lhs = Expression::binary(operator, lhs, operand);
                at = next;
            },
            Err(failure) => {
                return Err(failure);
            },
        }
    }
}

/// Reads the `returning` list whose first term is `first`, from the token
/// after that term up to the end of the query.
fn parse_returning_tail(lexemes: &[Lexeme], pos: usize, depth: usize, first: Term) -> (outcome:
    Result<(Vec<Term>, usize), Failure>)
    requires
        pos <= lexemes@.len(),
    ensures
        match outcome {
            Ok((terms, next)) => extend_with(
                seq![first@],
                grammar::parse_returning_tail(kinds(lexemes@), pos as int, depth as nat),
            ) == (Parsed::Success { value: terms_view(terms@), next: next as int }),
            Err(failure) => extend_with(
                seq![first@],
                grammar::parse_returning_tail(kinds(lexemes@), pos as int, depth as nat),
            ) == (Parsed::<Seq<TermView>>::Failure { kind: failure.kind, at: failure.at as int }),
        },
{
    let ghost tokens = kinds(lexemes@);
    let ghost goal = extend_with(
        seq![first@],
        grammar::parse_returning_tail(tokens, pos as int, depth as nat),
    );
    let mut terms: Vec<Term> = Vec::new();
    terms.push(first);
    assert(terms_view(terms@) =~= seq![first@]);
    let mut at: usize = pos;
    loop
        invariant
            pos <= at <= lexemes@.len(),
            tokens == kinds(lexemes@),
            goal == extend_with(
                seq![first@],
                grammar::parse_returning_tail(tokens, pos as int, depth as nat),
            ),
            extend_with(
                terms_view(terms@),
                grammar::parse_returning_tail(tokens, at as int, depth as nat),
            ) == goal,
        decreases lexemes@.len() - at,
    {
        match token_ref(lexemes, at) {
            Some(Token::Comma) => {
                match parse_term(lexemes, at + 1, depth) {
                    Ok((term, next)) => {
                        let ghost before = terms_view(terms@);
                        proof {
                            match grammar::parse_returning_tail(tokens, next as int, depth as nat) {
                                Parsed::Success { value: rest, .. } => {
                                    assert(before + (seq![term@] + rest) =~= before.push(term@)
                                        + rest);
                                },
                                Parsed::Failure { .. } => {},
                            }
                        }
                        terms.push(term);
                        assert(terms_view(terms@) =~= before.push(term@));
                        at = next;
                    },
                    Err(failure) => {
                        return Err(failure);
                    },
                }
            },
            Some(Token::End) | None => {
                assert(terms_view(terms@) + Seq::<TermView>::empty() =~= terms_view(terms@));
                return Ok((terms, at));
            },
            _ => {
                let kind = violation_at(lexemes, at, ErrorKind::ExpectedCommaOrEnd);
                return Err(Failure { kind, at });
            },
        }
    }
}

/// Reads a whole query from its lexemes, with at most `depth` levels of
/// `not` and `(` inside one another.
pub fn parse_lexemes(lexemes: &[Lexeme], depth: usize) -> (outcome: Result<(Query, usize), Failure>)
    ensures
        query_outcome(outcome) == grammar::parse_query(kinds(lexemes@), depth as nat),
{
    let (expression, next) = match parse_expression(lexemes, 0, depth) {
        Ok(read) => read,
        Err(failure) => {
            return Err(failure);
        },
    };
    match token_ref(lexemes, next) {
        Some(Token::End) | None => {
            let returning: Vec<Term> = Vec::new();
            assert(terms_view(returning@) =~= Seq::<TermView>::empty());
            Ok((Query { expression, returning }, next))
        },
        Some(Token::Returning) => {
            let (first, after) = match parse_term(lexemes, next + 1, depth) {
                Ok(read) => read,
                Err(failure) => {
                    return Err(failure);
                },
            };
            match parse_returning_tail(lexemes, after, depth, first) {
                Ok((returning, end)) => Ok((Query { expression, returning }, end)),
                Err(failure) => Err(failure),
            }
        },
        _ => {
            let kind = violation_at(lexemes, next, ErrorKind::ExpectedOperatorOrEnd);
            Err(Failure { kind, at: next })
        },
    }
}

/// The byte offset, the line and the column of `position` in `chars`.
fn locate(chars: &[char], position: usize) -> (place: (usize, usize, usize))
    requires
        position <= chars@.len(),
        byte_offset(chars@, chars@.len() as int) <= usize::MAX,
    ensures
        place.0 == byte_offset(chars@, position as int),
        place.1 == line_of(chars@, position as int),
        place.2 == column_of(chars@, position as int),
{
    let mut offset: usize = 0;
    let mut line: usize = 0;
    let mut column: usize = 0;
    let mut i: usize = 0;
    while i < position
        invariant
            i <= position <= chars@.len(),
            byte_offset(chars@, chars@.len() as int) <= usize::MAX,
            offset == byte_offset(chars@, i as int),
            line == line_of(chars@, i as int),
            column == column_of(chars@, i as int),
            line <= i,
            column <= i,
        decreases position - i,
    {
        proof {
            lemma_byte_offset_monotonic(chars@, i as int + 1, chars@.len() as int);
        }
        offset += char_utf8_width(chars[i]);
        if chars[i] == '\n' {
            line += 1;
            column = 0;
        } else {
            column += 1;
        }
        i += 1;
    }
    (offset, line, column)
}

/// The error for a violation found at a token, with its place in the text.
fn describe(chars: &[char], lexemes: &[Lexeme], failure: Failure) -> (error: ParseError)
    requires
        byte_offset(chars@, chars@.len() as int) <= usize::MAX,
    ensures
        error@ == error_at(chars@, lexemes_view(lexemes@), failure.kind, failure.at as int),
{
    let at = failure.at;
    let (start, end) = if at < lexemes.len() && lexemes[at].start <= lexemes[at].end
        && lexemes[at].end <= chars.len() {
        (lexemes[at].start, lexemes[at].end)
    } else {
        (chars.len(), chars.len())
    };
    let found = collect_string(chars, start, end);
    let (offset, line, column) = locate(chars, start);
    ParseError { kind: failure.kind, found, position: start, offset, line, column }
}

impl Query {
    /// Parses a query, with at most `limit` levels of `not` and `(` inside
    /// one another. Returns the tree that the grammar gives the text, or the
    /// first violation in reading order; nothing is returned of a text that
    /// holds a violation.
    pub fn parse_with_limit(source: &str, limit: usize) -> (outcome: Result<Query, ParseError>)
        ensures
            outcome_view(outcome) == parse_source(source@, limit as nat),
            outcome matches Ok(query) ==> {
                &&& is_query_shape(query@)
                &&& query_nests_within(query@, limit as nat)
                &&& spells_query(tokens_of(lex(source@)), query@)
                &&& is_query_writable(query@)
            },
    {
        proof {
            if parse_source(source@, limit as nat) is Ok {
                lemma_query_sound(tokens_of(lex(source@)), limit as nat);
                lemma_parsed_query_is_writable(source@, limit as nat);
            }
        }
        let chars = to_chars(source);
        let bytes = source.as_bytes();
        let size = bytes.len();
        proof {
            lemma_byte_offset_is_encoded_length(source@, source@.len() as int);
            assert(source@.take(source@.len() as int) =~= source@);
            assert(size == byte_offset(source@, source@.len() as int));
        }
        let lexemes = tokenize_chars(chars.as_slice());
        match parse_lexemes(lexemes.as_slice(), limit) {
            Ok((query, _)) => Ok(query),
            Err(failure) => Err(describe(chars.as_slice(), lexemes.as_slice(), failure)),
        }
    }

    /// Parses a query, with at most [`DEFAULT_NESTING_LIMIT`] levels of `not`
    /// and `(` inside one another.
    pub fn parse(source: &str) -> (outcome: Result<Query, ParseError>)
        ensures
            outcome_view(outcome) == parse_source(source@, DEFAULT_NESTING_LIMIT as nat),
            outcome matches Ok(query) ==> {
                &&& is_query_shape(query@)
                &&& query_nests_within(query@, DEFAULT_NESTING_LIMIT as nat)
                &&& spells_query(tokens_of(lex(source@)), query@)
                &&& is_query_writable(query@)
            },
    {
        Query::parse_with_limit(source, DEFAULT_NESTING_LIMIT)
    }
}

} // verus!
