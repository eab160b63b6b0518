//! Cutting a text into tokens.

use crate::kbql::ast::Decimal;
use crate::kbql::error::ErrorKind;
use crate::kbql::token::decimal_value;
use crate::kbql::token::digits_end;
use crate::kbql::token::is_decimal;
use crate::kbql::token::is_escaped_quote;
use crate::kbql::token::is_whitespace;
use crate::kbql::token::is_word_part;
use crate::kbql::token::is_word_start;
use crate::kbql::token::keyword;
use crate::kbql::token::lex;
use crate::kbql::token::lex_from;
use crate::kbql::token::lexemes_view;
use crate::kbql::token::number_digits_start;
use crate::kbql::token::number_end;
use crate::kbql::token::number_has_fraction;
use crate::kbql::token::scan_token;
use crate::kbql::token::starts_number;
use crate::kbql::token::string_close;
use crate::kbql::token::unescape;
use crate::kbql::token::whitespace_end;
use crate::kbql::token::word_end;
use crate::kbql::token::Lexeme;
use crate::kbql::token::Token;
use crate::text::char_is_alphanumeric;
use crate::text::char_is_digit;
use crate::text::char_is_letter;
use crate::text::collect_string;
use crate::text::digit_value;
use crate::text::is_digit;
use crate::text::to_chars;
use vstd::prelude::*;

verus! {

/// A run of whitespace ends inside the text, at or after its start.
pub proof fn lemma_whitespace_end_bounds(s: Seq<char>, pos: int)
    requires
        0 <= pos <= s.len(),
    ensures
        pos <= whitespace_end(s, pos) <= s.len(),
        whitespace_end(s, pos) < s.len() ==> !is_whitespace(s[whitespace_end(s, pos)]),
    decreases s.len() - pos,
{
    if pos < s.len() && is_whitespace(s[pos]) {
        lemma_whitespace_end_bounds(s, pos + 1);
    }
}

/// A word ends inside the text, at or after the position it is scanned from.
pub proof fn lemma_word_end_bounds(s: Seq<char>, pos: int)
    requires
        0 <= pos <= s.len(),
    ensures
        pos <= word_end(s, pos) <= s.len(),
        word_end(s, pos) < s.len() ==> !is_word_part(s[word_end(s, pos)]),
        forall|i: int| pos <= i < word_end(s, pos) ==> is_word_part(#[trigger] s[i]),
    decreases s.len() - pos,
{
    if pos < s.len() && is_word_part(s[pos]) {
        lemma_word_end_bounds(s, pos + 1);
    }
}

/// A run of digits ends inside the text, at or after its start.
pub proof fn lemma_digits_end_bounds(s: Seq<char>, pos: int)
    requires
        0 <= pos <= s.len(),
    ensures
        pos <= digits_end(s, pos) <= s.len(),
        digits_end(s, pos) < s.len() ==> !is_digit(s[digits_end(s, pos)]),
        forall|i: int| pos <= i < digits_end(s, pos) ==> is_digit(#[trigger] s[i]),
    decreases s.len() - pos,
{
    if pos < s.len() && is_digit(s[pos]) {
        lemma_digits_end_bounds(s, pos + 1);
    }
}

/// The quote that closes a string stands inside the text, at or after the
/// start of the content.
pub proof fn lemma_string_close_bounds(s: Seq<char>, pos: int)
    requires
        0 <= pos <= s.len(),
    ensures
        string_close(s, pos) matches Some(close) ==> pos <= close < s.len() && s[close] == '"',
    decreases s.len() - pos,
{
    if pos < s.len() && s[pos] != '"' {
        if is_escaped_quote(s, pos) {
            lemma_string_close_bounds(s, pos + 2);
        } else {
            lemma_string_close_bounds(s, pos + 1);
        }
    }
}

/// A number is at least one character long and ends inside the text.
pub proof fn lemma_number_end_bounds(s: Seq<char>, pos: int)
    requires
        starts_number(s, pos),
    ensures
        pos < number_end(s, pos) <= s.len(),
        number_digits_start(s, pos) < digits_end(s, number_digits_start(s, pos)),
{
    let start = number_digits_start(s, pos);
    lemma_digits_end_bounds(s, start);
    lemma_digits_end_bounds(s, start + 1);
    let whole_end = digits_end(s, start);
    if number_has_fraction(s, pos) {
        lemma_digits_end_bounds(s, whole_end + 1);
    }
}

/// Every token is at least one character long and ends inside the text.
pub proof fn lemma_scan_token_bounds(s: Seq<char>, pos: int)
    requires
        0 <= pos < s.len(),
    ensures
        scan_token(s, pos).start == pos,
        pos < scan_token(s, pos).end <= s.len(),
{
    let c = s[pos];
    if c == '(' || c == ')' || c == ',' || c == '.' {
    } else if is_word_start(c) {
        lemma_word_end_bounds(s, pos + 1);
    } else if starts_number(s, pos) {
        lemma_number_end_bounds(s, pos);
    } else if c == '"' {
        lemma_string_close_bounds(s, pos + 1);
    }
}

/// Whether `c` separates tokens.
fn char_is_whitespace(c: char) -> (b: bool)
    ensures
        b == is_whitespace(c),
{
    c == ' ' || c == '\t' || c == '\n' || c == '\r'
}

/// Whether `c` can continue a word.
fn char_is_word_part(c: char) -> (b: bool)
    ensures
        b == is_word_part(c),
{
    char_is_alphanumeric(c) || c == '_'
}

/// The first position at or after `pos` that holds no whitespace.
fn skip_whitespace(chars: &[char], pos: usize) -> (end: usize)
    requires
        pos <= chars@.len(),
    ensures
        end == whitespace_end(chars@, pos as int),
        pos <= end <= chars@.len(),
{
    let mut i: usize = pos;
    while i < chars.len() && char_is_whitespace(chars[i])
        invariant
            pos <= i <= chars@.len(),
            whitespace_end(chars@, i as int) == whitespace_end(chars@, pos as int),
        decreases chars@.len() - i,
    {
        i += 1;
    }
    i
}

/// The first position at or after `pos` that cannot continue a word.
fn skip_word(chars: &[char], pos: usize) -> (end: usize)
    requires
        pos <= chars@.len(),
    ensures
        end == word_end(chars@, pos as int),
        pos <= end <= chars@.len(),
{
    let mut i: usize = pos;
    while i < chars.len() && char_is_word_part(chars[i])
        invariant
            pos <= i <= chars@.len(),
            word_end(chars@, i as int) == word_end(chars@, pos as int),
        decreases chars@.len() - i,
    {
        i += 1;
    }
    i
}

/// The first position at or after `pos` that holds no digit.
fn skip_digits(chars: &[char], pos: usize) -> (end: usize)
    requires
        pos <= chars@.len(),
    ensures
        end == digits_end(chars@, pos as int),
        pos <= end <= chars@.len(),
{
    let mut i: usize = pos;
    while i < chars.len() && char_is_digit(chars[i])
        invariant
            pos <= i <= chars@.len(),
            digits_end(chars@, i as int) == digits_end(chars@, pos as int),
        decreases chars@.len() - i,
    {
        i += 1;
    }
    i
}

/// The position of the quote that closes the string whose content starts at
/// `pos`.
fn find_string_close(chars: &[char], pos: usize) -> (close: Option<usize>)
    requires
        pos <= chars@.len(),
    ensures
        match close {
            Some(at) => string_close(chars@, pos as int) == Some(at as int) && pos <= at
                < chars@.len(),
            None => string_close(chars@, pos as int) is None,
        },
{
    let mut i: usize = pos;
    while i < chars.len()
        invariant
            pos <= i <= chars@.len(),
            string_close(chars@, i as int) == string_close(chars@, pos as int),
        decreases chars@.len() - i,
    {
        if chars[i] == '"' {
            return Some(i);
        }
        if chars[i] == '\\' && i + 1 < chars.len() && chars[i + 1] == '"' {
            i += 2;
        } else {
            i += 1;
        }
    }
    None
}

/// The text that the raw content `chars[pos..end]` of a string stands for.
fn decode_string(chars: &[char], pos: usize, end: usize) -> (text: String)
    requires
        pos <= end <= chars@.len(),
    ensures
        text@ == unescape(chars@, pos as int, end as int),
{
    let mut text = String::new();
    let mut i: usize = pos;
    while i < end
        invariant
            pos <= i <= end <= chars@.len(),
            text@ + unescape(chars@, i as int, end as int) == unescape(
                chars@,
                pos as int,
                end as int,
            ),
        decreases end - i,
    {
        let ghost before = text@;
        if chars[i] == '\\' && i + 1 < end && chars[i + 1] == '"' {
            text.push('"');
            assert(before.push('"') + unescape(chars@, i + 2, end as int) =~= before + (seq!['"']
                + unescape(chars@, i + 2, end as int)));
            i += 2;
        } else {
            text.push(chars[i]);
            assert(before.push(chars@[i as int]) + unescape(chars@, i + 1, end as int) =~= before
                + (seq![chars@[i as int]] + unescape(chars@, i + 1, end as int)));
            i += 1;
        }
    }
    assert(text@ + Seq::<char>::empty() =~= text@);
    text
}

/// The value of the digits `chars[start..end]`, negated where `negative`,
/// if it fits in 64 signed bits.
fn digits_to_integer(chars: &[char], start: usize, end: usize, negative: bool) -> (value: Option<
    i64,
>)
    requires
        start <= end <= chars@.len(),
        forall|i: int| start <= i < end ==> is_digit(#[trigger] chars@[i]),
    ensures
        ({
            let magnitude = decimal_value(chars@.subrange(start as int, end as int));
            let signed = if negative {
                -magnitude
            } else {
                magnitude as int
            };
            match value {
                Some(v) => v == signed,
                None => !(i64::MIN <= signed <= i64::MAX),
            }
        }),
{
    let limit: u64 = if negative {
        0x8000_0000_0000_0000
    } else {
        0x7fff_ffff_ffff_ffff
    };
    let mut magnitude: u64 = 0;
    let mut fits = true;
    let mut i: usize = start;
    assert(chars@.subrange(start as int, start as int) =~= Seq::<char>::empty());
    while i < end
        invariant
            start <= i <= end <= chars@.len(),
            forall|j: int| start <= j < end ==> is_digit(#[trigger] chars@[j]),
            limit == if negative {
                0x8000_0000_0000_0000u64
            } else {
                0x7fff_ffff_ffff_ffffu64
            },
            fits ==> magnitude == decimal_value(chars@.subrange(start as int, i as int)),
            fits ==> magnitude <= limit,
            !fits ==> decimal_value(chars@.subrange(start as int, i as int)) > limit,
        decreases end - i,
    {
        let digit: u64 = (chars[i] as u64) - ('0' as u64);
        proof {
            let longer = chars@.subrange(start as int, i as int + 1);
            assert(longer.drop_last() =~= chars@.subrange(start as int, i as int));
            assert(longer.last() == chars@[i as int]);
            assert(digit == digit_value(chars@[i as int]));
        }
        if fits {
            if magnitude > (limit - digit) / 10 {
                fits = false;
            } else {
                magnitude = magnitude * 10 + digit;
            }
        }
        i += 1;
    }
    if !fits {
        None
    } else if negative {
        if magnitude == 0x8000_0000_0000_0000 {
            Some(i64::MIN)
        } else {
            Some(-(magnitude as i64))
        }
    } else {
        Some(magnitude as i64)
    }
}

/// The keyword that the word `chars[start..end]` spells, if it is one.
fn keyword_of(chars: &[char], start: usize, end: usize) -> (token: Option<Token>)
    requires
        start <= end <= chars@.len(),
    ensures
        match token {
            Some(t) => keyword(chars@.subrange(start as int, end as int)) == Some(t@),
            None => keyword(chars@.subrange(start as int, end as int)) is None,
        },
{
    let ghost word = chars@.subrange(start as int, end as int);
    let length = end - start;
    if length == 3 && chars[start] == 'a' && chars[start + 1] == 'n' && chars[start + 2] == 'd' {
        assert(word =~= seq!['a', 'n', 'd']);
        Some(Token::And)
    } else if length == 2 && chars[start] == 'o' && chars[start + 1] == 'r' {
        assert(word =~= seq!['o', 'r']);
        Some(Token::Or)
    } else if length == 2 && chars[start] == 'i' && chars[start + 1] == 's' {
        assert(word =~= seq!['i', 's']);
        Some(Token::Is)
    } else if length == 3 && chars[start] == 'n' && chars[start + 1] == 'o' && chars[start + 2]
        == 't' {
        assert(word =~= seq!['n', 'o', 't']);
        Some(Token::Not)
    } else if length == 9 && chars[start] == 'r' && chars[start + 1] == 'e' && chars[start + 2]
        == 't' && chars[start + 3] == 'u' && chars[start + 4] == 'r' && chars[start + 5] == 'n'
        && chars[start + 6] == 'i' && chars[start + 7] == 'n' && chars[start + 8] == 'g' {
        assert(word =~= seq!['r', 'e', 't', 'u', 'r', 'n', 'i', 'n', 'g']);
        Some(Token::Returning)
    } else {
        assert(word != seq!['a', 'n', 'd']) by {
            if word == seq!['a', 'n', 'd'] {
                assert(word.len() == 3 && word[0] == 'a' && word[1] == 'n' && word[2] == 'd');
            }
        }
        assert(word != seq!['o', 'r']) by {
            if word == seq!['o', 'r'] {
                assert(word.len() == 2 && word[0] == 'o' && word[1] == 'r');
            }
        }
        assert(word != seq!['i', 's']) by {
            if word == seq!['i', 's'] {
                assert(word.len() == 2 && word[0] == 'i' && word[1] == 's');
            }
        }
        assert(word != seq!['n', 'o', 't']) by {
            if word == seq!['n', 'o', 't'] {
                assert(word.len() == 3 && word[0] == 'n' && word[1] == 'o' && word[2] == 't');
            }
        }
        assert(word != seq!['r', 'e', 't', 'u', 'r', 'n', 'i', 'n', 'g']) by {
            if word == seq!['r', 'e', 't', 'u', 'r', 'n', 'i', 'n', 'g'] {
                assert(word.len() == 9 && word[0] == 'r' && word[1] == 'e' && word[2] == 't'
                    && word[3] == 'u' && word[4] == 'r' && word[5] == 'n' && word[6] == 'i'
                    && word[7] == 'n' && word[8] == 'g');
            }
        }
        None
    }
}

/// Reads the number that starts at `pos`.
fn scan_number(chars: &[char], pos: usize) -> (lexeme: Lexeme)
    requires
        starts_number(chars@, pos as int),
    ensures
        lexeme@ == scan_token(chars@, pos as int),
{
    let negative = chars[pos] == '-';
    let digits_start = if negative {
        pos + 1
    } else {
        pos
    };
    proof {
        lemma_number_end_bounds(chars@, pos as int);
        lemma_digits_end_bounds(chars@, digits_start as int);
    }
    let whole_end = skip_digits(chars, digits_start);
    if whole_end < chars.len() && chars.len() - whole_end > 1 && chars[whole_end] == '.'
        && char_is_digit(chars[whole_end + 1]) {
        let end = skip_digits(chars, whole_end + 1);
        let text = collect_string(chars, pos, end);
        Lexeme { token: Token::Float(Decimal::from_text(text)), start: pos, end }
    } else {
        match digits_to_integer(chars, digits_start, whole_end, negative) {
            Some(value) => Lexeme { token: Token::Integer(value), start: pos, end: whole_end },
            None => Lexeme {
                token: Token::Invalid(ErrorKind::IntegerOutOfRange),
                start: pos,
                end: whole_end,
            },
        }
    }
}

/// Reads the token that starts at `pos`.
fn scan(chars: &[char], pos: usize) -> (lexeme: Lexeme)
    requires
        pos < chars@.len(),
    ensures
        lexeme@ == scan_token(chars@, pos as int),
        lexeme.start == pos,
        pos < lexeme.end <= chars@.len(),
{
    proof {
        lemma_scan_token_bounds(chars@, pos as int);
    }
    let c = chars[pos];
    if c == '(' {
        Lexeme { token: Token::LeftParen, start: pos, end: pos + 1 }
    } else if c == ')' {
        Lexeme { token: Token::RightParen, start: pos, end: pos + 1 }
    } else if c == ',' {
        Lexeme { token: Token::Comma, start: pos, end: pos + 1 }
    } else if c == '.' {
        Lexeme { token: Token::Dot, start: pos, end: pos + 1 }
    } else if char_is_letter(c) || c == '_' {
        let end = skip_word(chars, pos + 1);
        match keyword_of(chars, pos, end) {
            Some(token) => Lexeme { token, start: pos, end },
            None => {
                let name = collect_string(chars, pos, end);
                Lexeme { token: Token::Identifier(name), start: pos, end }
            },
        }
    } else if char_is_digit(c) || (c == '-' && pos + 1 < chars.len() && char_is_digit(
        chars[pos + 1],
    )) {
        scan_number(chars, pos)
    } else if c == '"' {
        match find_string_close(chars, pos + 1) {
            Some(close) => {
                let text = decode_string(chars, pos + 1, close);
                Lexeme { token: Token::String(text), start: pos, end: close + 1 }
            },
            None => Lexeme {
                token: Token::Invalid(ErrorKind::UnterminatedString),
                start: pos,
                end: chars.len(),
            },
        }
    } else {
        Lexeme { token: Token::Invalid(ErrorKind::UnrecognizedCharacter), start: pos, end: pos + 1 }
    }
}

impl Decimal {
    /// The number that `text` spells, if it spells one with a fraction and
    /// nothing else.
    pub fn new(text: &str) -> (decimal: Option<Decimal>)
        ensures
            match decimal {
                Some(d) => is_decimal(text@) && d@ == text@,
                None => !is_decimal(text@),
            },
    {
        let chars = to_chars(text);
        if chars.len() == 0 {
            return None;
        }
        let first = chars[0];
        if !(char_is_digit(first) || (first == '-' && chars.len() > 1 && char_is_digit(chars[1]))) {
            return None;
        }
        let lexeme = scan_number(chars.as_slice(), 0);
        let end = lexeme.end;
        match lexeme.token {
            Token::Float(decimal) => {
                if end == chars.len() {
                    assert(chars@.subrange(0, end as int) =~= chars@);
                    Some(decimal)
                } else {
                    None
                }
            },
            _ => None,
        }
    }
}

/// Cuts `chars` into lexemes. The list always ends with `End` or `Invalid`.
pub fn tokenize_chars(chars: &[char]) -> (lexemes: Vec<Lexeme>)
    ensures
        lexemes_view(lexemes@) == lex(chars@),
{
    let mut lexemes: Vec<Lexeme> = Vec::new();
    let mut pos: usize = 0;
    assert(lexemes_view(lexemes@) + lex_from(chars@, 0) =~= lex(chars@));
    loop
        invariant
            pos <= chars@.len(),
            lexemes_view(lexemes@) + lex_from(chars@, pos as int) == lex(chars@),
        decreases chars@.len() - pos,
    {
        let ghost before = lexemes@;
        let start = skip_whitespace(chars, pos);
        if start >= chars.len() {
            let lexeme = Lexeme { token: Token::End, start: chars.len(), end: chars.len() };
            lexemes.push(lexeme);
            assert(lexemes_view(lexemes@) =~= lexemes_view(before) + lex_from(chars@, pos as int));
            return lexemes;
        }
        let lexeme = scan(chars, start);
        let end = lexeme.end;
        let invalid = match lexeme.token {
            Token::Invalid(_) => true,
            _ => false,
        };
        let ghost view = lexeme@;
        lexemes.push(lexeme);
        assert(lexemes_view(lexemes@) =~= lexemes_view(before).push(view));
        if invalid {
            assert(lexemes_view(lexemes@) =~= lexemes_view(before) + lex_from(chars@, pos as int));
            return lexemes;
        }
        assert(lexemes_view(lexemes@) + lex_from(chars@, end as int) =~= lexemes_view(before) + (
        seq![view] + lex_from(chars@, end as int)));
        pos = end;
    }
}

/// Cuts a query into lexemes. The list always ends with `End`, or with
/// `Invalid` at the first place where no token can be read.
pub fn tokenize(source: &str) -> (lexemes: Vec<Lexeme>)
    ensures
        lexemes_view(lexemes@) == lex(source@),
{
    let chars = to_chars(source);
    tokenize_chars(chars.as_slice())
}

} // verus!
