//! Reading what was written: the text of a query parses to the query.

use crate::kbql::ast::ExpressionView;
use crate::kbql::ast::LiteralView;
use crate::kbql::ast::QueryView;
use crate::kbql::ast::TermView;
use crate::kbql::grammar::parse_source;
use crate::kbql::grammar::token_at;
use crate::kbql::laws::lemma_parsed_text;
use crate::kbql::lexer::lemma_number_end_bounds;
use crate::kbql::lexer::lemma_scan_token_bounds;
use crate::kbql::lexer::lemma_string_close_bounds;
use crate::kbql::shape::expression_width;
use crate::kbql::shape::query_width;
use crate::kbql::shape::spells_expression;
use crate::kbql::shape::spells_next_term;
use crate::kbql::shape::spells_term;
use crate::kbql::shape::term_width;
use crate::kbql::shape::terms_width;
use crate::kbql::lexer::lemma_whitespace_end_bounds;
use crate::kbql::printer::expression_tokens;
use crate::kbql::printer::lemma_tokens_parse_back;
use crate::kbql::printer::path_tokens;
use crate::kbql::printer::query_text;
use crate::kbql::printer::query_tokens;
use crate::kbql::printer::term_tokens;
use crate::kbql::printer::terms_tokens;
use crate::kbql::shape::is_query_shape;
use crate::kbql::shape::query_nests_within;
use crate::kbql::token::lex;
use crate::kbql::token::lex_from;
use crate::kbql::token::tokens_of;
use crate::kbql::token::whitespace_end;
use crate::kbql::lexer::lemma_digits_end_bounds;
use crate::kbql::lexer::lemma_word_end_bounds;
use crate::kbql::printer::escape;
use crate::kbql::printer::needs_space;
use crate::kbql::printer::token_text;
use crate::kbql::printer::tokens_text;
use crate::kbql::token::decimal_value;
use crate::kbql::token::digits_end;
use crate::kbql::token::integer_value;
use crate::kbql::token::is_decimal;
use crate::kbql::token::is_escaped_quote;
use crate::kbql::token::is_identifier;
use crate::kbql::token::is_whitespace;
use crate::kbql::token::is_word_part;
use crate::kbql::token::is_word_start;
use crate::kbql::token::keyword;
use crate::kbql::token::number_digits_start;
use crate::kbql::token::number_end;
use crate::kbql::token::number_has_fraction;
use crate::kbql::token::scan_token;
use crate::kbql::token::starts_number;
use crate::kbql::token::string_close;
use crate::kbql::token::unescape;
use crate::kbql::token::word_end;
use crate::kbql::token::LexemeView;
use crate::kbql::token::TokenView;
use crate::text::decimal_text;
use crate::text::digit_char;
use crate::text::digit_value;
use crate::text::digits_of;
use crate::text::is_digit;
use vstd::prelude::*;

verus! {

/// Whether a token can be written so that it is read again: a number
/// without a fraction fits in 64 signed bits, one with a fraction is
/// spelled as such, an identifier is one, and a string does not end with a
/// backslash, which would take the closing quote for its own.
pub open spec fn is_writable(token: TokenView) -> bool {
    match token {
        TokenView::Integer(value) => i64::MIN <= value <= i64::MAX,
        TokenView::Float(text) => is_decimal(text),
        TokenView::String(text) => text.len() == 0 || text.last() != '\\',
        TokenView::Identifier(name) => is_identifier(name),
        TokenView::End => false,
        TokenView::Invalid(_) => false,
        _ => true,
    }
}

/// Whether the character `c` can follow the text of `token` without being
/// read as a part of it.
pub open spec fn ends_token(token: TokenView, c: char) -> bool {
    match token {
        TokenView::Integer(_) => !is_digit(c) && c != '.',
        TokenView::Float(_) => !is_digit(c),
        TokenView::Identifier(_) => !is_word_part(c),
        TokenView::And => !is_word_part(c),
        TokenView::Or => !is_word_part(c),
        TokenView::Is => !is_word_part(c),
        TokenView::Not => !is_word_part(c),
        TokenView::Returning => !is_word_part(c),
        _ => true,
    }
}

/// Whether the text `text` stands in `s` at `at`, and what follows it, if
/// anything, is not read as a part of `token`.
pub open spec fn stands_at(s: Seq<char>, at: int, token: TokenView, text: Seq<char>) -> bool {
    &&& 0 <= at
    &&& at + text.len() <= s.len()
    &&& s.subrange(at, at + text.len()) == text
    &&& at + text.len() < s.len() ==> ends_token(token, s[at + text.len()])
}

/// A run of characters of a word that ends at a character of none, or at
/// the end of the text, is where a word ends.
pub proof fn lemma_word_end_at(s: Seq<char>, from: int, to: int)
    requires
        0 <= from <= to <= s.len(),
        forall|j: int| from <= j < to ==> is_word_part(#[trigger] s[j]),
        to < s.len() ==> !is_word_part(s[to]),
    ensures
        word_end(s, from) == to,
    decreases to - from,
{
    if from < to {
        lemma_word_end_at(s, from + 1, to);
    }
}

/// A run of digits that ends at a character that is none, or at the end of
/// the text, is where the digits end.
pub proof fn lemma_digits_end_at(s: Seq<char>, from: int, to: int)
    requires
        0 <= from <= to <= s.len(),
        forall|j: int| from <= j < to ==> is_digit(#[trigger] s[j]),
        to < s.len() ==> !is_digit(s[to]),
    ensures
        digits_end(s, from) == to,
    decreases to - from,
{
    if from < to {
        lemma_digits_end_at(s, from + 1, to);
    }
}

/// The digits of a number are digits, at least one, and spell the number.
pub proof fn lemma_digits_of(n: nat)
    ensures
        digits_of(n).len() >= 1,
        forall|i: int| 0 <= i < digits_of(n).len() ==> is_digit(#[trigger] digits_of(n)[i]),
        decimal_value(digits_of(n)) == n,
    decreases n,
{
    if n < 10 {
        let digits = digits_of(n);
        assert(digits.drop_last() =~= Seq::<char>::empty());
        assert(decimal_value(digits.drop_last()) == 0);
        assert(digit_value(digit_char(n as int)) == n);
    } else {
        lemma_digits_of(n / 10);
        let shorter = digits_of(n / 10);
        let digits = digits_of(n);
        assert(digits.drop_last() =~= shorter);
        assert(digits.last() == digit_char((n % 10) as int));
        assert(digit_value(digit_char((n % 10) as int)) == n % 10);
        assert forall|i: int| 0 <= i < digits.len() implies is_digit(#[trigger] digits[i]) by {
            if i < shorter.len() {
                assert(digits[i] == shorter[i]);
            }
        }
    }
}

/// Where the text of a word stands, the word ends with the text.
pub proof fn lemma_word_scans(s: Seq<char>, at: int, token: TokenView, word: Seq<char>)
    requires
        stands_at(s, at, token, word),
        word.len() > 0,
        is_word_start(word[0]),
        forall|i: int| 0 <= i < word.len() ==> is_word_part(#[trigger] word[i]),
        at + word.len() < s.len() ==> !is_word_part(s[at + word.len()]),
    ensures
        is_word_start(s[at]),
        word_end(s, at + 1) == at + word.len(),
        s.subrange(at, at + word.len()) == word,
{
    assert forall|j: int| at <= j < at + word.len() implies is_word_part(#[trigger] s[j]) by {
        assert(s[j] == s.subrange(at, at + word.len())[j - at]);
    }
    assert(s[at] == s.subrange(at, at + word.len())[0]);
    lemma_word_end_at(s, at + 1, at + word.len());
}

/// An identifier is read as it is written.
pub proof fn lemma_identifier_scans(s: Seq<char>, at: int, name: Seq<char>)
    requires
        is_identifier(name),
        stands_at(s, at, TokenView::Identifier(name), name),
    ensures
        scan_token(s, at) == (LexemeView {
            token: TokenView::Identifier(name),
            start: at,
            end: at + name.len(),
        }),
{
    lemma_word_scans(s, at, TokenView::Identifier(name), name);
}

/// A keyword is read as it is written.
pub proof fn lemma_keyword_scans(s: Seq<char>, at: int, token: TokenView)
    requires
        token is And || token is Or || token is Is || token is Not || token is Returning,
        stands_at(s, at, token, token_text(token)),
    ensures
        scan_token(s, at) == (LexemeView {
            token,
            start: at,
            end: at + token_text(token).len(),
        }),
{
    reveal_strlit("and");
    reveal_strlit("or");
    reveal_strlit("is");
    reveal_strlit("not");
    reveal_strlit("returning");
    let word = token_text(token);
    assert(word =~= match token {
        TokenView::And => seq!['a', 'n', 'd'],
        TokenView::Or => seq!['o', 'r'],
        TokenView::Is => seq!['i', 's'],
        TokenView::Not => seq!['n', 'o', 't'],
        _ => seq!['r', 'e', 't', 'u', 'r', 'n', 'i', 'n', 'g'],
    });
    lemma_word_scans(s, at, token, word);
    assert(keyword(word) == Some(token)) by {
        if token is Or {
            assert(word.len() == 2);
            assert(seq!['a', 'n', 'd'].len() == 3);
        }
        if token is Is {
            assert(word.len() == 2);
            assert(seq!['a', 'n', 'd'].len() == 3);
            assert(word[0] == 'i' && seq!['o', 'r'][0] == 'o');
        }
        if token is Not {
            assert(word[0] == 'n' && seq!['a', 'n', 'd'][0] == 'a');
            assert(seq!['o', 'r'].len() == 2 && seq!['i', 's'].len() == 2);
        }
        if token is Returning {
            assert(word.len() == 9);
            assert(seq!['a', 'n', 'd'].len() == 3 && seq!['n', 'o', 't'].len() == 3);
            assert(seq!['o', 'r'].len() == 2 && seq!['i', 's'].len() == 2);
        }
    }
}

/// A punctuation mark is read as it is written.
pub proof fn lemma_punctuation_scans(s: Seq<char>, at: int, token: TokenView)
    requires
        token is LeftParen || token is RightParen || token is Comma || token is Dot,
        stands_at(s, at, token, token_text(token)),
    ensures
        scan_token(s, at) == (LexemeView { token, start: at, end: at + 1 }),
        token_text(token).len() == 1,
{
    reveal_strlit("(");
    reveal_strlit(")");
    reveal_strlit(",");
    reveal_strlit(".");
    let text = token_text(token);
    assert(s[at] == s.subrange(at, at + text.len())[0]);
}

/// A number without a fraction is read as it is written.
pub proof fn lemma_integer_scans(s: Seq<char>, at: int, value: int)
    requires
        i64::MIN <= value <= i64::MAX,
        stands_at(s, at, TokenView::Integer(value), decimal_text(value)),
    ensures
        scan_token(s, at) == (LexemeView {
            token: TokenView::Integer(value),
            start: at,
            end: at + decimal_text(value).len(),
        }),
{
    let text = decimal_text(value);
    let magnitude: nat = if value < 0 {
        (-value) as nat
    } else {
        value as nat
    };
    let digits = digits_of(magnitude);
    lemma_digits_of(magnitude);
    let end = at + text.len();
    let from = if value < 0 {
        at + 1
    } else {
        at
    };
    assert forall|j: int| at <= j < end implies s[j] == #[trigger] text[j - at] by {
        assert(s[j] == s.subrange(at, end)[j - at]);
    }
    if value < 0 {
        assert(text[0] == '-');
        assert(text[1] == digits[0]);
    } else {
        assert(text =~= digits);
        assert(text[0] == digits[0]);
    }
    assert(s[at] == text[0]);
    assert forall|j: int| from <= j < end implies is_digit(#[trigger] s[j]) by {
        assert(s[j] == text[j - at]);
        if value < 0 {
            assert(text[j - at] == digits[j - at - 1]);
        }
    }
    assert(starts_number(s, at)) by {
        if value < 0 {
            assert(s[at + 1] == text[1]);
        }
    }
    assert(number_digits_start(s, at) == from);
    lemma_digits_end_at(s, from, end);
    assert(!number_has_fraction(s, at));
    assert(s.subrange(from, end) =~= digits) by {
        assert(end - from == digits.len());
        assert forall|k: int| 0 <= k < digits.len() implies s.subrange(from, end)[k]
            == digits[k] by {
            assert(s[from + k] == text[from + k - at]);
            if value < 0 {
                assert(text[k + 1] == digits[k]);
            }
        }
    }
    assert(integer_value(s, at) == value);
    assert(!is_word_start(s[at]));
}

/// The digits of a text that stands in a longer one end in the longer one
/// where they end in the text, if no digit follows the text.
pub proof fn lemma_digits_end_inside(s: Seq<char>, at: int, text: Seq<char>, from: int)
    requires
        0 <= at,
        0 <= from <= text.len(),
        at + text.len() <= s.len(),
        s.subrange(at, at + text.len()) == text,
        at + text.len() < s.len() ==> !is_digit(s[at + text.len()]),
    ensures
        digits_end(s, at + from) == at + digits_end(text, from),
    decreases text.len() - from,
{
    if from < text.len() {
        assert(s[at + from] == s.subrange(at, at + text.len())[from]);
        if is_digit(text[from]) {
            lemma_digits_end_inside(s, at, text, from + 1);
        }
    }
}

/// A number with a fraction is read as it is written.
pub proof fn lemma_float_scans(s: Seq<char>, at: int, text: Seq<char>)
    requires
        is_decimal(text),
        stands_at(s, at, TokenView::Float(text), text),
    ensures
        scan_token(s, at) == (LexemeView {
            token: TokenView::Float(text),
            start: at,
            end: at + text.len(),
        }),
{
    let end = at + text.len();
    assert forall|j: int| at <= j < end implies s[j] == #[trigger] text[j - at] by {
        assert(s[j] == s.subrange(at, end)[j - at]);
    }
    let from = number_digits_start(text, 0);
    lemma_digits_end_bounds(text, from);
    let whole = digits_end(text, from);
    assert(s[at] == text[0]);
    if text[0] == '-' {
        assert(s[at + 1] == text[1]);
    }
    assert(starts_number(s, at));
    assert(number_digits_start(s, at) == at + from);
    lemma_digits_end_inside(s, at, text, from);
    assert(s[at + whole] == text[whole]);
    assert(s[at + whole + 1] == text[whole + 1]);
    assert(number_has_fraction(s, at));
    lemma_digits_end_inside(s, at, text, whole + 1);
    assert(number_end(s, at) == end);
    assert(!is_word_start(s[at]));
}

/// How one character of a string is written between the quotes.
pub open spec fn escape_one(c: char) -> Seq<char> {
    if c == '"' {
        seq!['\\', '"']
    } else {
        seq![c]
    }
}

/// The raw content of a text starts with the raw form of its first
/// character.
pub proof fn lemma_escape_front(first: char, rest: Seq<char>)
    ensures
        escape(seq![first] + rest) == escape_one(first) + escape(rest),
    decreases rest.len(),
{
    let text = seq![first] + rest;
    if rest.len() == 0 {
        assert(text.drop_last() =~= Seq::<char>::empty());
        assert(text.last() == first);
        assert(escape(text.drop_last()) =~= Seq::<char>::empty());
        assert(escape(rest) =~= Seq::<char>::empty());
        assert(escape(text) =~= escape_one(first) + escape(rest));
    } else {
        lemma_escape_front(first, rest.drop_last());
        assert(text.drop_last() =~= seq![first] + rest.drop_last());
        assert(text.last() == rest.last());
        if rest.last() == '"' {
            assert(escape(text) =~= escape_one(first) + (escape(rest.drop_last()) + seq![
                '\\',
                '"',
            ]));
        } else {
            assert(escape(text) =~= escape_one(first) + escape(rest.drop_last()).push(
                rest.last(),
            ));
        }
    }
}

/// The raw content of a text that is not empty does not start with a
/// quote.
pub proof fn lemma_escape_starts_unquoted(text: Seq<char>)
    requires
        text.len() > 0,
    ensures
        escape(text).len() > 0,
        escape(text)[0] != '"',
{
    let rest = text.drop_first();
    assert(text =~= seq![text[0]] + rest);
    lemma_escape_front(text[0], rest);
}

/// The raw content of a text, followed by a quote, is read up to that
/// quote, and stands for the text.
pub proof fn lemma_string_content_scans(s: Seq<char>, from: int, text: Seq<char>)
    requires
        0 <= from,
        from + escape(text).len() < s.len(),
        s.subrange(from, from + escape(text).len()) == escape(text),
        s[from + escape(text).len()] == '"',
        text.len() == 0 || text.last() != '\\',
    ensures
        string_close(s, from) == Some(from + escape(text).len()),
        unescape(s, from, from + escape(text).len()) == text,
    decreases text.len(),
{
    let raw = escape(text);
    let close = from + raw.len();
    if text.len() == 0 {
        assert(raw =~= Seq::<char>::empty());
        assert(unescape(s, from, close) =~= text);
    } else {
        let first = text[0];
        let rest = text.drop_first();
        assert(text =~= seq![first] + rest);
        lemma_escape_front(first, rest);
        let head = escape_one(first);
        let tail = escape(rest);
        assert(raw == head + tail);
        assert forall|j: int| from <= j < close implies s[j] == #[trigger] raw[j - from] by {
            assert(s[j] == s.subrange(from, close)[j - from]);
        }
        let next = from + head.len();
        assert(s.subrange(next, next + tail.len()) =~= tail) by {
            assert forall|j: int| 0 <= j < tail.len() implies s.subrange(next, next + tail.len())[j]
                == tail[j] by {
                assert(s[next + j] == raw[next + j - from]);
                assert(raw[head.len() + j] == tail[j]);
            }
        }
        if rest.len() > 0 {
            assert(rest.last() == text.last());
            lemma_escape_starts_unquoted(rest);
            assert(s[next] == raw[next - from]);
            assert(raw[head.len() as int] == tail[0]);
        }
        lemma_string_content_scans(s, next, rest);
        assert(s[from] == raw[0]);
        if first == '"' {
            assert(s[from + 1] == raw[1]);
            assert(is_escaped_quote(s, from));
            assert(unescape(s, from, close) =~= seq!['"'] + unescape(s, from + 2, close));
            assert(unescape(s, from, close) =~= text);
        } else {
            if first == '\\' {
                assert(rest.len() > 0);
                assert(s[from + 1] != '"');
            }
            assert(!is_escaped_quote(s, from));
            assert(unescape(s, from, close) =~= seq![first] + unescape(s, from + 1, close));
            assert(unescape(s, from, close) =~= text);
        }
    }
}

/// A string is read as it is written.
pub proof fn lemma_string_scans(s: Seq<char>, at: int, text: Seq<char>)
    requires
        text.len() == 0 || text.last() != '\\',
        stands_at(s, at, TokenView::String(text), token_text(TokenView::String(text))),
    ensures
        scan_token(s, at) == (LexemeView {
            token: TokenView::String(text),
            start: at,
            end: at + token_text(TokenView::String(text)).len(),
        }),
{
    let raw = escape(text);
    let written = token_text(TokenView::String(text));
    let end = at + written.len();
    assert(written.len() == raw.len() + 2);
    assert forall|j: int| at <= j < end implies s[j] == #[trigger] written[j - at] by {
        assert(s[j] == s.subrange(at, end)[j - at]);
    }
    assert(s[at] == written[0]);
    assert(s[at + 1 + raw.len()] == written[raw.len() as int + 1]);
    assert(s.subrange(at + 1, at + 1 + raw.len()) =~= raw) by {
        assert forall|j: int| 0 <= j < raw.len() implies s.subrange(at + 1, at + 1 + raw.len())[j]
            == raw[j] by {
            assert(s[at + 1 + j] == written[1 + j]);
        }
    }
    lemma_string_content_scans(s, at + 1, text);
}

/// Every token that can be written is read as it is written, wherever its
/// text stands and is not run into by what follows it.
pub proof fn lemma_token_scans(s: Seq<char>, at: int, token: TokenView)
    requires
        is_writable(token),
        stands_at(s, at, token, token_text(token)),
    ensures
        scan_token(s, at) == (LexemeView { token, start: at, end: at + token_text(token).len() }),
        token_text(token).len() > 0,
        !is_whitespace(token_text(token)[0]),
{
    reveal_strlit("and");
    reveal_strlit("or");
    reveal_strlit("is");
    reveal_strlit("not");
    reveal_strlit("returning");
    reveal_strlit("(");
    reveal_strlit(")");
    reveal_strlit(",");
    reveal_strlit(".");
    match token {
        TokenView::Integer(value) => {
            lemma_integer_scans(s, at, value);
            let magnitude: nat = if value < 0 {
                (-value) as nat
            } else {
                value as nat
            };
            lemma_digits_of(magnitude);
            if value >= 0 {
                assert(decimal_text(value)[0] == digits_of(magnitude)[0]);
            }
        },
        TokenView::Float(text) => {
            lemma_float_scans(s, at, text);
        },
        TokenView::String(text) => {
            lemma_string_scans(s, at, text);
        },
        TokenView::Identifier(name) => {
            lemma_identifier_scans(s, at, name);
        },
        TokenView::LeftParen => {
            lemma_punctuation_scans(s, at, token);
        },
        TokenView::RightParen => {
            lemma_punctuation_scans(s, at, token);
        },
        TokenView::Comma => {
            lemma_punctuation_scans(s, at, token);
        },
        TokenView::Dot => {
            lemma_punctuation_scans(s, at, token);
        },
        _ => {
            lemma_keyword_scans(s, at, token);
        },
    }
}

/// Whether all tokens of a list but the last can be written, and the last
/// is the end of the text.
pub open spec fn ends_writable(tokens: Seq<TokenView>) -> bool {
    &&& tokens.len() >= 1
    &&& tokens.last() is End
    &&& forall|i: int| 0 <= i < tokens.len() - 1 ==> is_writable(#[trigger] tokens[i])
}

/// The space, if any, that stands before the token `i` of a list.
pub open spec fn gap_before(tokens: Seq<TokenView>, i: int) -> int {
    if i >= 1 && needs_space(tokens[i - 1], tokens[i]) {
        1
    } else {
        0
    }
}

/// The text of the first `count + 1` tokens is the text of the first
/// `count`, the space between them where there is one, and the text of the
/// next token.
pub proof fn lemma_tokens_text_step(tokens: Seq<TokenView>, i: int)
    requires
        0 <= i < tokens.len(),
    ensures
        tokens_text(tokens, i + 1).len() == tokens_text(tokens, i).len() + gap_before(tokens, i)
            + token_text(tokens[i]).len(),
        tokens_text(tokens, i + 1).take(tokens_text(tokens, i).len() as int) == tokens_text(
            tokens,
            i,
        ),
        tokens_text(tokens, i + 1).skip(
            tokens_text(tokens, i).len() + gap_before(tokens, i),
        ) == token_text(tokens[i]),
        gap_before(tokens, i) == 1 ==> tokens_text(tokens, i + 1)[tokens_text(
            tokens,
            i,
        ).len() as int] == ' ',
{
    let before = tokens_text(tokens, i);
    let after = tokens_text(tokens, i + 1);
    let text = token_text(tokens[i]);
    if i == 0 {
        assert(before =~= Seq::<char>::empty());
        assert(after.take(0) =~= before);
        assert(after.skip(0) =~= text);
    } else if needs_space(tokens[i - 1], tokens[i]) {
        assert(after == before + seq![' '] + text);
        assert(after.take(before.len() as int) =~= before);
        assert(after.skip(before.len() as int + 1) =~= text);
    } else {
        assert(after == before + text);
        assert(after.take(before.len() as int) =~= before);
        assert(after.skip(before.len() as int) =~= text);
    }
}

/// The text of the first tokens of a list is the start of the text of more
/// of them.
pub proof fn lemma_tokens_text_prefix(tokens: Seq<TokenView>, count: int, more: int)
    requires
        0 <= count <= more <= tokens.len(),
    ensures
        tokens_text(tokens, count).len() <= tokens_text(tokens, more).len(),
        tokens_text(tokens, more).take(tokens_text(tokens, count).len() as int) == tokens_text(
            tokens,
            count,
        ),
    decreases more - count,
{
    if count == more {
        assert(tokens_text(tokens, more).take(tokens_text(tokens, count).len() as int)
            =~= tokens_text(tokens, count));
    } else {
        lemma_tokens_text_prefix(tokens, count, more - 1);
        lemma_tokens_text_step(tokens, more - 1);
        let shorter = tokens_text(tokens, more - 1);
        let longer = tokens_text(tokens, more);
        let short = tokens_text(tokens, count);
        assert(longer.take(short.len() as int) =~= longer.take(shorter.len() as int).take(
            short.len() as int,
        ));
    }
}

/// In the text of a list of tokens, the text of each token stands at its
/// place, after the space before it where there is one, and is not run
/// into by what follows it.
pub proof fn lemma_token_stands(tokens: Seq<TokenView>, i: int)
    requires
        ends_writable(tokens),
        0 <= i < tokens.len() - 1,
    ensures
        ({
            let s = tokens_text(tokens, tokens.len() as int);
            let before = tokens_text(tokens, i).len() as int;
            let start = before + gap_before(tokens, i);
            &&& stands_at(s, start, tokens[i], token_text(tokens[i]))
            &&& start + token_text(tokens[i]).len() == tokens_text(tokens, i + 1).len()
            &&& gap_before(tokens, i) == 1 ==> s[before] == ' '
        }),
{
    reveal_strlit("(");
    reveal_strlit(")");
    reveal_strlit(",");
    reveal_strlit(".");
    let n = tokens.len() as int;
    let s = tokens_text(tokens, n);
    let before = tokens_text(tokens, i);
    let upto = tokens_text(tokens, i + 1);
    let text = token_text(tokens[i]);
    let start = before.len() + gap_before(tokens, i);
    let end = upto.len() as int;
    lemma_tokens_text_step(tokens, i);
    lemma_tokens_text_prefix(tokens, i + 1, n);
    assert(s.take(end) == upto);
    assert(s.subrange(start, end) =~= text) by {
        assert forall|k: int| 0 <= k < text.len() implies s.subrange(start, end)[k] == text[k] by {
            assert(s[start + k] == s.take(end)[start + k]);
            assert(upto.skip(start)[k] == upto[start + k]);
        }
    }
    if gap_before(tokens, i) == 1 {
        assert(s[before.len() as int] == s.take(end)[before.len() as int]);
    }
    if end < s.len() {
        let next = tokens[i + 1];
        lemma_tokens_text_step(tokens, i + 1);
        lemma_tokens_text_prefix(tokens, i + 2, n);
        let further = tokens_text(tokens, i + 2);
        assert(s.take(further.len() as int) == further);
        if i + 1 == n - 1 {
            assert(token_text(next) =~= Seq::<char>::empty());
            assert(gap_before(tokens, i + 1) == 0);
            assert(further.len() == end);
            assert(s =~= further);
        } else {
            assert(is_writable(next));
            if gap_before(tokens, i + 1) == 1 {
                assert(further[end] == ' ');
                assert(s[end] == s.take(further.len() as int)[end]);
            } else {
                let written = token_text(next);
                assert(further.skip(end) == written);
                if next is RightParen || next is Comma || next is Dot {
                    assert(written.len() == 1);
                    assert(further.skip(end)[0] == further[end]);
                    assert(s[end] == s.take(further.len() as int)[end]);
                }
            }
        }
    }
}

/// The lexemes of the text of a list of tokens, read from the end of the
/// token before the token `i`, are the tokens from `i` on.
pub proof fn lemma_text_lexes_from(tokens: Seq<TokenView>, i: int)
    requires
        ends_writable(tokens),
        0 <= i < tokens.len(),
    ensures
        tokens_of(
            lex_from(
                tokens_text(tokens, tokens.len() as int),
                tokens_text(tokens, i).len() as int,
            ),
        ) == tokens.skip(i),
    decreases tokens.len() - i,
{
    let n = tokens.len() as int;
    let s = tokens_text(tokens, n);
    let from = tokens_text(tokens, i).len() as int;
    lemma_tokens_text_prefix(tokens, i, n);
    if i == n - 1 {
        lemma_tokens_text_step(tokens, i);
        assert(token_text(tokens[i]) =~= Seq::<char>::empty());
        assert(from == s.len());
        assert(whitespace_end(s, from) == from);
        assert(tokens_of(lex_from(s, from)) =~= tokens.skip(i));
    } else {
        lemma_token_stands(tokens, i);
        let start = from + gap_before(tokens, i);
        let text = token_text(tokens[i]);
        lemma_token_scans(s, start, tokens[i]);
        assert(s[start] == s.subrange(start, start + text.len())[0]);
        assert(whitespace_end(s, from) == start) by {
            if gap_before(tokens, i) == 1 {
                assert(is_whitespace(s[from]));
                assert(whitespace_end(s, from + 1) == from + 1);
            }
        }
        let lexeme = scan_token(s, start);
        let end = start + text.len();
        lemma_text_lexes_from(tokens, i + 1);
        let rest = lex_from(s, end);
        assert(lex_from(s, from) == seq![lexeme] + rest);
        assert(tokens_of(seq![lexeme] + rest) =~= seq![tokens[i]] + tokens_of(rest));
        assert(seq![tokens[i]] + tokens.skip(i + 1) =~= tokens.skip(i));
    }
}

/// Reading the text of a list of tokens that can be written gives the
/// tokens back.
pub proof fn lemma_text_lexes_back(tokens: Seq<TokenView>)
    requires
        ends_writable(tokens),
    ensures
        tokens_of(lex(tokens_text(tokens, tokens.len() as int))) == tokens,
{
    lemma_text_lexes_from(tokens, 0);
    assert(tokens_text(tokens, 0) =~= Seq::<char>::empty());
    assert(tokens.skip(0) =~= tokens);
}

/// Whether every token of a list can be written.
pub open spec fn all_writable(tokens: Seq<TokenView>) -> bool {
    forall|i: int| 0 <= i < tokens.len() ==> is_writable(#[trigger] tokens[i])
}

/// Whether a term can be written so that it is read again: its numbers fit
/// in 64 signed bits or are spelled with a fraction, its identifiers are
/// identifiers, and none of its strings ends with a backslash.
pub open spec fn is_term_writable(term: TermView) -> bool
    decreases term,
{
    match term {
        TermView::Literal(LiteralView::Integer(value)) => i64::MIN <= value <= i64::MAX,
        TermView::Literal(LiteralView::Float(text)) => is_decimal(text),
        TermView::Literal(LiteralView::String(text)) => text.len() == 0 || text.last() != '\\',
        TermView::Lookup(path) => forall|i: int|
            0 <= i < path.len() ==> is_identifier(#[trigger] path[i]),
        TermView::Expression(inner) => is_expression_writable(*inner),
        TermView::Not(inner) => is_term_writable(*inner),
    }
}

/// Whether an expression can be written so that it is read again.
pub open spec fn is_expression_writable(expression: ExpressionView) -> bool
    decreases expression,
{
    match expression {
        ExpressionView::Term(term) => is_term_writable(term),
        ExpressionView::Is(lhs, rhs) => is_expression_writable(*lhs) && is_expression_writable(
            *rhs,
        ),
        ExpressionView::IsNot(lhs, rhs) => is_expression_writable(*lhs) && is_expression_writable(
            *rhs,
        ),
        ExpressionView::And(lhs, rhs) => is_expression_writable(*lhs) && is_expression_writable(
            *rhs,
        ),
        ExpressionView::Or(lhs, rhs) => is_expression_writable(*lhs) && is_expression_writable(
            *rhs,
        ),
    }
}

/// Whether a query can be written so that it is read again.
pub open spec fn is_query_writable(query: QueryView) -> bool {
    &&& is_expression_writable(query.expression)
    &&& forall|i: int|
        0 <= i < query.returning.len() ==> is_term_writable(#[trigger] query.returning[i])
}

/// Two lists of tokens that can be written make one that can be written.
pub proof fn lemma_all_writable_join(left: Seq<TokenView>, right: Seq<TokenView>)
    requires
        all_writable(left),
        all_writable(right),
    ensures
        all_writable(left + right),
{
    assert forall|i: int| 0 <= i < (left + right).len() implies is_writable(
        #[trigger] (left + right)[i],
    ) by {
        if i < left.len() {
            assert((left + right)[i] == left[i]);
        } else {
            assert((left + right)[i] == right[i - left.len()]);
        }
    }
}

/// The tokens of a term that can be written can be written.
pub proof fn lemma_term_tokens_writable(term: TermView)
    requires
        is_term_writable(term),
    ensures
        all_writable(term_tokens(term)),
    decreases term,
{
    match term {
        TermView::Literal(LiteralView::Integer(_)) => {},
        TermView::Literal(LiteralView::Float(_)) => {},
        TermView::Literal(LiteralView::String(_)) => {},
        TermView::Lookup(path) => {
            let tokens = path_tokens(path);
            assert forall|i: int| 0 <= i < tokens.len() implies is_writable(
                #[trigger] tokens[i],
            ) by {
                if i % 2 == 0 {
                    assert(is_identifier(path[i / 2]));
                }
            }
        },
        TermView::Expression(inner) => {
            lemma_expression_tokens_writable(*inner);
            lemma_all_writable_join(seq![TokenView::LeftParen], expression_tokens(*inner));
            lemma_all_writable_join(
                seq![TokenView::LeftParen] + expression_tokens(*inner),
                seq![TokenView::RightParen],
            );
        },
        TermView::Not(inner) => {
            lemma_term_tokens_writable(*inner);
            lemma_all_writable_join(seq![TokenView::Not], term_tokens(*inner));
        },
    }
}

/// The tokens of an expression that can be written can be written.
pub proof fn lemma_expression_tokens_writable(expression: ExpressionView)
    requires
        is_expression_writable(expression),
    ensures
        all_writable(expression_tokens(expression)),
    decreases expression,
{
    match expression {
        ExpressionView::Term(term) => {
            lemma_term_tokens_writable(term);
        },
        ExpressionView::Is(lhs, rhs) => {
            lemma_expression_tokens_writable(*lhs);
            lemma_expression_tokens_writable(*rhs);
            lemma_all_writable_join(expression_tokens(*lhs), seq![TokenView::Is]);
            lemma_all_writable_join(
                expression_tokens(*lhs) + seq![TokenView::Is],
                expression_tokens(*rhs),
            );
        },
        ExpressionView::IsNot(lhs, rhs) => {
            lemma_expression_tokens_writable(*lhs);
            lemma_expression_tokens_writable(*rhs);
            lemma_all_writable_join(expression_tokens(*lhs), seq![TokenView::Is, TokenView::Not]);
            lemma_all_writable_join(
                expression_tokens(*lhs) + seq![TokenView::Is, TokenView::Not],
                expression_tokens(*rhs),
            );
        },
        ExpressionView::And(lhs, rhs) => {
            lemma_expression_tokens_writable(*lhs);
            lemma_expression_tokens_writable(*rhs);
            lemma_all_writable_join(expression_tokens(*lhs), seq![TokenView::And]);
            lemma_all_writable_join(
                expression_tokens(*lhs) + seq![TokenView::And],
                expression_tokens(*rhs),
            );
        },
        ExpressionView::Or(lhs, rhs) => {
            lemma_expression_tokens_writable(*lhs);
            lemma_expression_tokens_writable(*rhs);
            lemma_all_writable_join(expression_tokens(*lhs), seq![TokenView::Or]);
            lemma_all_writable_join(
                expression_tokens(*lhs) + seq![TokenView::Or],
                expression_tokens(*rhs),
            );
        },
    }
}

/// The tokens of terms that can be written can be written.
pub proof fn lemma_terms_tokens_writable(terms: Seq<TermView>, count: int)
    requires
        0 <= count <= terms.len(),
        forall|i: int| 0 <= i < terms.len() ==> is_term_writable(#[trigger] terms[i]),
    ensures
        all_writable(terms_tokens(terms, count)),
    decreases count,
{
    if count == 1 {
        lemma_term_tokens_writable(terms[0]);
    } else if count > 1 {
        lemma_terms_tokens_writable(terms, count - 1);
        lemma_term_tokens_writable(terms[count - 1]);
        lemma_all_writable_join(terms_tokens(terms, count - 1), seq![TokenView::Comma]);
        lemma_all_writable_join(
            terms_tokens(terms, count - 1) + seq![TokenView::Comma],
            term_tokens(terms[count - 1]),
        );
    }
}

/// The tokens of a query that can be written can be written, up to the end
/// of the text.
pub proof fn lemma_query_tokens_writable(query: QueryView)
    requires
        is_query_writable(query),
    ensures
        ends_writable(query_tokens(query)),
{
    let tokens = query_tokens(query);
    let head = expression_tokens(query.expression);
    lemma_expression_tokens_writable(query.expression);
    if query.returning.len() == 0 {
        assert forall|i: int| 0 <= i < tokens.len() - 1 implies is_writable(
            #[trigger] tokens[i],
        ) by {
            assert(tokens[i] == head[i]);
        }
    } else {
        let list = terms_tokens(query.returning, query.returning.len() as int);
        lemma_terms_tokens_writable(query.returning, query.returning.len() as int);
        lemma_all_writable_join(head, seq![TokenView::Returning]);
        lemma_all_writable_join(head + seq![TokenView::Returning], list);
        let body = head + seq![TokenView::Returning] + list;
        assert forall|i: int| 0 <= i < tokens.len() - 1 implies is_writable(
            #[trigger] tokens[i],
        ) by {
            assert(tokens[i] == body[i]);
        }
    }
}

/// Writing a query out and parsing the text gives the query back: for
/// every query of the grammar's shape that can be written and nests no
/// deeper than the limit.
pub proof fn lemma_text_parses_back(query: QueryView, depth: nat)
    requires
        is_query_shape(query),
        is_query_writable(query),
        query_nests_within(query, depth),
    ensures
        parse_source(query_text(query), depth) == Ok::<
            QueryView,
            crate::kbql::grammar::ParseErrorView,
        >(query),
{
    lemma_query_tokens_writable(query);
    lemma_text_lexes_back(query_tokens(query));
    lemma_tokens_parse_back(query, depth);
}

/// The digits of a piece of a text end where they end in the text, or
/// with the piece.
pub proof fn lemma_digits_end_of_piece(s: Seq<char>, at: int, end: int, from: int)
    requires
        0 <= at <= at + from <= end <= s.len(),
    ensures
        digits_end(s.subrange(at, end), from) == if digits_end(s, at + from) < end {
            digits_end(s, at + from) - at
        } else {
            end - at
        },
    decreases end - at - from,
{
    let piece = s.subrange(at, end);
    lemma_digits_end_bounds(s, at + from);
    if at + from < end {
        assert(piece[from] == s[at + from]);
        if is_digit(s[at + from]) {
            lemma_digits_end_of_piece(s, at, end, from + 1);
            lemma_digits_end_bounds(s, at + from + 1);
        }
    }
}

/// What a closed string stands for does not end with a backslash.
pub proof fn lemma_unescaped_ending(s: Seq<char>, from: int, close: int)
    requires
        0 <= from,
        string_close(s, from) == Some(close),
    ensures
        unescape(s, from, close).len() == 0 || unescape(s, from, close).last() != '\\',
    decreases s.len() - from,
{
    lemma_string_close_bounds(s, from);
    if s[from] != '"' {
        if is_escaped_quote(s, from) {
            lemma_string_close_bounds(s, from + 2);
            lemma_unescaped_ending(s, from + 2, close);
            let rest = unescape(s, from + 2, close);
            assert(unescape(s, from, close) == seq!['"'] + rest);
            if rest.len() > 0 {
                assert((seq!['"'] + rest).last() == rest.last());
            }
        } else {
            lemma_string_close_bounds(s, from + 1);
            lemma_unescaped_ending(s, from + 1, close);
            let rest = unescape(s, from + 1, close);
            assert(unescape(s, from, close) == seq![s[from]] + rest);
            if rest.len() > 0 {
                assert((seq![s[from]] + rest).last() == rest.last());
            } else {
                assert(from + 1 == close) by {
                    if from + 1 < close {
                        assert(unescape(s, from + 1, close).len() > 0);
                    }
                }
            }
        }
    }
}

/// Every token that is read can be written, unless no token could be
/// read.
pub proof fn lemma_scanned_is_writable(s: Seq<char>, at: int)
    requires
        0 <= at < s.len(),
    ensures
        scan_token(s, at).token is Invalid || is_writable(scan_token(s, at).token),
{
    let c = s[at];
    lemma_scan_token_bounds(s, at);
    if c == '(' || c == ')' || c == ',' || c == '.' {
    } else if is_word_start(c) {
        lemma_word_end_bounds(s, at + 1);
        let end = word_end(s, at + 1);
        let word = s.subrange(at, end);
        assert(word[0] == c);
        assert forall|i: int| 0 <= i < word.len() implies is_word_part(#[trigger] word[i]) by {
            assert(word[i] == s[at + i]);
        }
    } else if starts_number(s, at) {
        if number_has_fraction(s, at) {
            lemma_number_end_bounds(s, at);
            let end = number_end(s, at);
            let text = s.subrange(at, end);
            let from = number_digits_start(s, at);
            let whole = digits_end(s, from);
            lemma_digits_end_bounds(s, from);
            lemma_digits_end_bounds(s, whole + 1);
            lemma_digits_end_bounds(s, whole + 2);
            assert(text[0] == s[at]);
            assert(text[1] == s[at + 1]);
            lemma_digits_end_of_piece(s, at, end, from - at);
            lemma_digits_end_of_piece(s, at, end, whole + 1 - at);
            assert(text[whole - at] == s[whole]);
            assert(text[whole + 1 - at] == s[whole + 1]);
            assert(number_digits_start(text, 0) == from - at);
            assert(is_decimal(text));
        }
    } else if c == '"' {
        match string_close(s, at + 1) {
            Some(close) => {
                lemma_unescaped_ending(s, at + 1, close);
            },
            None => {},
        }
    }
}

/// All lexemes of a text but the last hold tokens that can be written.
pub proof fn lemma_lexed_is_writable(s: Seq<char>, pos: int)
    requires
        0 <= pos <= s.len(),
    ensures
        forall|i: int|
            0 <= i < lex_from(s, pos).len() - 1 ==> is_writable(
                (#[trigger] lex_from(s, pos)[i]).token,
            ),
    decreases s.len() - pos,
{
    lemma_whitespace_end_bounds(s, pos);
    let start = whitespace_end(s, pos);
    if start < s.len() {
        lemma_scan_token_bounds(s, start);
        lemma_scanned_is_writable(s, start);
        let lexeme = scan_token(s, start);
        if !(lexeme.token is Invalid) {
            lemma_lexed_is_writable(s, lexeme.end);
            let rest = lex_from(s, lexeme.end);
            let all = seq![lexeme] + rest;
            assert forall|i: int| 0 <= i < all.len() - 1 implies is_writable(
                (#[trigger] all[i]).token,
            ) by {
                if i > 0 {
                    assert(all[i] == rest[i - 1]);
                }
            }
        }
    }
}

/// Whether the tokens from `from` up to `to` can be written.
pub open spec fn writable_between(tokens: Seq<TokenView>, from: int, to: int) -> bool {
    forall|i: int| from <= i < to ==> is_writable(#[trigger] token_at(tokens, i))
}

/// A term that is spelled by tokens that can be written can be written.
pub proof fn lemma_spelled_term_is_writable(tokens: Seq<TokenView>, pos: int, term: TermView)
    requires
        spells_term(tokens, pos, term),
        writable_between(tokens, pos, pos + term_width(term)),
    ensures
        is_term_writable(term),
    decreases term,
{
    match term {
        TermView::Literal(LiteralView::Integer(_)) => {
            assert(is_writable(token_at(tokens, pos)));
        },
        TermView::Literal(LiteralView::Float(_)) => {
            assert(is_writable(token_at(tokens, pos)));
        },
        TermView::Literal(LiteralView::String(_)) => {
            assert(is_writable(token_at(tokens, pos)));
        },
        TermView::Lookup(path) => {
            assert forall|i: int| 0 <= i < path.len() implies is_identifier(#[trigger] path[i]) by {
                assert(token_at(tokens, pos + 2 * i) == TokenView::Identifier(path[i]));
                assert(is_writable(token_at(tokens, pos + 2 * i)));
            }
        },
        TermView::Expression(inner) => {
            assert forall|i: int| pos + 1 <= i < pos + 1 + expression_width(
                *inner,
            ) implies is_writable(#[trigger] token_at(tokens, i)) by {}
            lemma_spelled_expression_is_writable(tokens, pos + 1, *inner);
        },
        TermView::Not(inner) => {
            assert forall|i: int| pos + 1 <= i < pos + 1 + term_width(*inner) implies is_writable(
                #[trigger] token_at(tokens, i),
            ) by {}
            lemma_spelled_term_is_writable(tokens, pos + 1, *inner);
        },
    }
}

/// An expression that is spelled by tokens that can be written can be
/// written.
pub proof fn lemma_spelled_expression_is_writable(
    tokens: Seq<TokenView>,
    pos: int,
    expression: ExpressionView,
)
    requires
        spells_expression(tokens, pos, expression),
        writable_between(tokens, pos, pos + expression_width(expression)),
    ensures
        is_expression_writable(expression),
    decreases expression,
{
    match expression {
        ExpressionView::Term(term) => {
            lemma_spelled_term_is_writable(tokens, pos, term);
        },
        ExpressionView::Is(lhs, rhs) => {
            let at = pos + expression_width(*lhs) + 1;
            lemma_writable_between_narrows(tokens, pos, pos + expression_width(expression), pos, at);
            lemma_writable_between_narrows(
                tokens,
                pos,
                pos + expression_width(expression),
                at,
                at + expression_width(*rhs),
            );
            lemma_spelled_expression_is_writable(tokens, pos, *lhs);
            lemma_spelled_expression_is_writable(tokens, at, *rhs);
        },
        ExpressionView::IsNot(lhs, rhs) => {
            let at = pos + expression_width(*lhs) + 2;
            lemma_writable_between_narrows(tokens, pos, pos + expression_width(expression), pos, at);
            lemma_writable_between_narrows(
                tokens,
                pos,
                pos + expression_width(expression),
                at,
                at + expression_width(*rhs),
            );
            lemma_spelled_expression_is_writable(tokens, pos, *lhs);
            lemma_spelled_expression_is_writable(tokens, at, *rhs);
        },
        ExpressionView::And(lhs, rhs) => {
            let at = pos + expression_width(*lhs) + 1;
            lemma_writable_between_narrows(tokens, pos, pos + expression_width(expression), pos, at);
            lemma_writable_between_narrows(
                tokens,
                pos,
                pos + expression_width(expression),
                at,
                at + expression_width(*rhs),
            );
            lemma_spelled_expression_is_writable(tokens, pos, *lhs);
            lemma_spelled_expression_is_writable(tokens, at, *rhs);
        },
        ExpressionView::Or(lhs, rhs) => {
            let at = pos + expression_width(*lhs) + 1;
            lemma_writable_between_narrows(tokens, pos, pos + expression_width(expression), pos, at);
            lemma_writable_between_narrows(
                tokens,
                pos,
                pos + expression_width(expression),
                at,
                at + expression_width(*rhs),
            );
            lemma_spelled_expression_is_writable(tokens, pos, *lhs);
            lemma_spelled_expression_is_writable(tokens, at, *rhs);
        },
    }
}

/// Tokens that can be written between two places can be written between
/// any two places within them.
pub proof fn lemma_writable_between_narrows(
    tokens: Seq<TokenView>,
    from: int,
    to: int,
    inner_from: int,
    inner_to: int,
)
    requires
        writable_between(tokens, from, to),
        from <= inner_from,
        inner_to <= to,
    ensures
        writable_between(tokens, inner_from, inner_to),
{
}

/// The widths of the first terms of a list grow with their number.
pub proof fn lemma_terms_width_grows(terms: Seq<TermView>, count: int, more: int)
    requires
        0 <= count <= more <= terms.len(),
    ensures
        terms_width(terms, count) <= terms_width(terms, more),
        count >= 1 && more > count ==> terms_width(terms, count) + 1 + term_width(terms[more - 1])
            <= terms_width(terms, more),
    decreases more - count,
{
    if count < more {
        lemma_terms_width_grows(terms, count, more - 1);
    }
}

/// What a text parses to can be written.
pub proof fn lemma_parsed_query_is_writable(source: Seq<char>, limit: nat)
    requires
        parse_source(source, limit) is Ok,
    ensures
        is_query_writable(parse_source(source, limit)->Ok_0),
{
    let lexemes = lex(source);
    let tokens = tokens_of(lexemes);
    let query = parse_source(source, limit)->Ok_0;
    lemma_parsed_text(source, limit);
    lemma_lexed_is_writable(source, 0);
    let width = expression_width(query.expression) as int;
    let total = query_width(query) as int;
    assert forall|i: int| 0 <= i < total implies is_writable(#[trigger] token_at(tokens, i)) by {
        assert(tokens[i] == lexemes[i].token);
    }
    if query.returning.len() > 0 {
        lemma_terms_width_grows(query.returning, 0, query.returning.len() as int);
    }
    assert(writable_between(tokens, 0, width));
    lemma_spelled_expression_is_writable(tokens, 0, query.expression);
    let terms = query.returning;
    assert forall|i: int| 0 <= i < terms.len() implies is_term_writable(#[trigger] terms[i]) by {
        let count = terms.len() as int;
        lemma_terms_width_grows(terms, i + 1, count);
        if i == 0 {
            assert(terms_width(terms, 1) == term_width(terms[0]));
            assert(writable_between(tokens, width + 1, width + 1 + term_width(terms[0])));
            lemma_spelled_term_is_writable(tokens, width + 1, terms[0]);
        } else {
            assert(spells_next_term(tokens, width + 1, terms, i));
            let at = width + 1 + terms_width(terms, i) + 1;
            assert(terms_width(terms, i + 1) == terms_width(terms, i) + 1 + term_width(terms[i]));
            assert(writable_between(tokens, at, at + term_width(terms[i])));
            lemma_spelled_term_is_writable(tokens, at, terms[i]);
        }
    }
}

/// Writing out what a text parsed to and parsing that again gives the same
/// query.
pub proof fn lemma_parse_is_stable(source: Seq<char>, limit: nat)
    requires
        parse_source(source, limit) is Ok,
    ensures
        parse_source(query_text(parse_source(source, limit)->Ok_0), limit) == parse_source(
            source,
            limit,
        ),
{
    let query = parse_source(source, limit)->Ok_0;
    lemma_parsed_query_is_writable(source, limit);
    crate::kbql::soundness::lemma_query_sound(tokens_of(lex(source)), limit);
    lemma_text_parses_back(query, limit);
}

} // verus!
