//! The tokens of a query and the rules that cut a text into them.

use crate::kbql::ast::Decimal;
use crate::kbql::error::ErrorKind;
use crate::text::digit_value;
use crate::text::is_alphanumeric;
use crate::text::is_digit;
use crate::text::is_letter;
use vstd::prelude::*;

verus! {

/// One token of a query. `End` stands for the end of the text; `Invalid`
/// stands for the place where no token could be read, and says why.
#[derive(PartialEq, Debug)]
pub enum Token {
    Integer(i64),
    Float(Decimal),
    /// A quoted string, with `\"` already decoded to `"`.
    String(String),
    Identifier(String),
    And,
    Or,
    Is,
    Not,
    Returning,
    LeftParen,
    RightParen,
    Comma,
    Dot,
    End,
    Invalid(ErrorKind),
}

pub ghost enum TokenView {
    Integer(int),
    Float(Seq<char>),
    String(Seq<char>),
    Identifier(Seq<char>),
    And,
    Or,
    Is,
    Not,
    Returning,
    LeftParen,
    RightParen,
    Comma,
    Dot,
    End,
    Invalid(ErrorKind),
}

impl View for Token {
    type V = TokenView;

    open spec fn view(&self) -> TokenView {
        match self {
            Token::Integer(value) => TokenView::Integer(*value as int),
            Token::Float(decimal) => TokenView::Float(decimal@),
            Token::String(text) => TokenView::String(text@),
            Token::Identifier(name) => TokenView::Identifier(name@),
            Token::And => TokenView::And,
            Token::Or => TokenView::Or,
            Token::Is => TokenView::Is,
            Token::Not => TokenView::Not,
            Token::Returning => TokenView::Returning,
            Token::LeftParen => TokenView::LeftParen,
            Token::RightParen => TokenView::RightParen,
            Token::Comma => TokenView::Comma,
            Token::Dot => TokenView::Dot,
            Token::End => TokenView::End,
            Token::Invalid(kind) => TokenView::Invalid(*kind),
        }
    }
}

/// A token and the characters of the text that it covers, `start` included
/// and `end` excluded, counted in characters.
#[derive(PartialEq, Debug)]
pub struct Lexeme {
    pub token: Token,
    pub start: usize,
    pub end: usize,
}

pub ghost struct LexemeView {
    pub token: TokenView,
    pub start: int,
    pub end: int,
}

impl View for Lexeme {
    type V = LexemeView;

    open spec fn view(&self) -> LexemeView {
        LexemeView { token: self.token@, start: self.start as int, end: self.end as int }
    }
}

/// The models of a list of lexemes.
pub open spec fn lexemes_view(lexemes: Seq<Lexeme>) -> Seq<LexemeView> {
    Seq::new(lexemes.len(), |i: int| lexemes[i]@)
}

/// The tokens of a list of lexemes, without their places.
pub open spec fn tokens_of(lexemes: Seq<LexemeView>) -> Seq<TokenView> {
    Seq::new(lexemes.len(), |i: int| lexemes[i].token)
}

/// The models of a list of tokens.
pub open spec fn tokens_view(tokens: Seq<Token>) -> Seq<TokenView> {
    Seq::new(tokens.len(), |i: int| tokens[i]@)
}

/// A character that separates tokens and means nothing else.
pub open spec fn is_whitespace(c: char) -> bool {
    c == ' ' || c == '\t' || c == '\n' || c == '\r'
}

/// A character that can start an identifier or a keyword.
pub open spec fn is_word_start(c: char) -> bool {
    is_letter(c) || c == '_'
}

/// A character that can continue an identifier or a keyword.
pub open spec fn is_word_part(c: char) -> bool {
    is_alphanumeric(c) || c == '_'
}

/// The first position at or after `pos` that holds no whitespace.
pub open spec fn whitespace_end(s: Seq<char>, pos: int) -> int
    decreases s.len() - pos,
{
    if 0 <= pos < s.len() && is_whitespace(s[pos]) {
        whitespace_end(s, pos + 1)
    } else {
        pos
    }
}

/// The first position at or after `pos` that cannot continue a word.
pub open spec fn word_end(s: Seq<char>, pos: int) -> int
    decreases s.len() - pos,
{
    if 0 <= pos < s.len() && is_word_part(s[pos]) {
        word_end(s, pos + 1)
    } else {
        pos
    }
}

/// The first position at or after `pos` that holds no digit.
pub open spec fn digits_end(s: Seq<char>, pos: int) -> int
    decreases s.len() - pos,
{
    if 0 <= pos < s.len() && is_digit(s[pos]) {
        digits_end(s, pos + 1)
    } else {
        pos
    }
}

/// The number that a run of decimal digits spells.
pub open spec fn decimal_value(digits: Seq<char>) -> nat
    decreases digits.len(),
{
    if digits.len() == 0 {
        0
    } else {
        (decimal_value(digits.drop_last()) * 10 + digit_value(digits.last())) as nat
    }
}

/// Whether a backslash and a quote stand at `pos`: the one escape of a
/// quoted string.
pub open spec fn is_escaped_quote(s: Seq<char>, pos: int) -> bool {
    0 <= pos && pos + 1 < s.len() && s[pos] == '\\' && s[pos + 1] == '"'
}

/// The position of the quote that closes a string whose content starts at
/// `pos`, or `None` where the text ends first. An escaped quote closes nothing.
pub open spec fn string_close(s: Seq<char>, pos: int) -> Option<int>
    decreases s.len() - pos,
{
    if pos < 0 || pos >= s.len() {
        None
    } else if s[pos] == '"' {
        Some(pos)
    } else if is_escaped_quote(s, pos) {
        string_close(s, pos + 2)
    } else {
        string_close(s, pos + 1)
    }
}

/// The text that the raw content `s[pos..end]` of a quoted string stands
/// for: `\"` means `"`, and every other character, a backslash before
/// anything else included, means itself.
pub open spec fn unescape(s: Seq<char>, pos: int, end: int) -> Seq<char>
    decreases end - pos,
{
    if pos < 0 || pos >= end || end > s.len() {
        Seq::empty()
    } else if pos + 1 < end && is_escaped_quote(s, pos) {
        seq!['"'] + unescape(s, pos + 2, end)
    } else {
        seq![s[pos]] + unescape(s, pos + 1, end)
    }
}

/// The keyword that `word` spells, if it is one.
pub open spec fn keyword(word: Seq<char>) -> Option<TokenView> {
    if word == seq!['a', 'n', 'd'] {
        Some(TokenView::And)
    } else if word == seq!['o', 'r'] {
        Some(TokenView::Or)
    } else if word == seq!['i', 's'] {
        Some(TokenView::Is)
    } else if word == seq!['n', 'o', 't'] {
        Some(TokenView::Not)
    } else if word == seq!['r', 'e', 't', 'u', 'r', 'n', 'i', 'n', 'g'] {
        Some(TokenView::Returning)
    } else {
        None
    }
}

/// Whether `name` can be a segment of a lookup: a letter or `_`, then
/// letters, digits and `_`, and no keyword.
pub open spec fn is_identifier(name: Seq<char>) -> bool {
    &&& name.len() > 0
    &&& is_word_start(name[0])
    &&& forall|i: int| 0 <= i < name.len() ==> is_word_part(#[trigger] name[i])
    &&& keyword(name) is None
}

/// Whether a number starts at `pos`: a digit, or `-` and a digit.
pub open spec fn starts_number(s: Seq<char>, pos: int) -> bool {
    0 <= pos < s.len() && (is_digit(s[pos]) || (s[pos] == '-' && pos + 1 < s.len() && is_digit(
        s[pos + 1],
    )))
}

/// The position of the first digit of the number that starts at `pos`.
pub open spec fn number_digits_start(s: Seq<char>, pos: int) -> int {
    if s[pos] == '-' {
        pos + 1
    } else {
        pos
    }
}

/// Whether the number that starts at `pos` has a fraction: after its first
/// run of digits stand `.` and a digit.
pub open spec fn number_has_fraction(s: Seq<char>, pos: int) -> bool {
    let whole_end = digits_end(s, number_digits_start(s, pos));
    whole_end + 1 < s.len() && s[whole_end] == '.' && is_digit(s[whole_end + 1])
}

/// The end of the number that starts at `pos`.
pub open spec fn number_end(s: Seq<char>, pos: int) -> int {
    let whole_end = digits_end(s, number_digits_start(s, pos));
    if number_has_fraction(s, pos) {
        digits_end(s, whole_end + 1)
    } else {
        whole_end
    }
}

/// Whether `text` spells a number with a fraction and nothing else: an
/// optional `-`, digits, `.`, digits.
pub open spec fn is_decimal(text: Seq<char>) -> bool {
    starts_number(text, 0) && number_has_fraction(text, 0) && number_end(text, 0) == text.len()
}

/// The value of the number without a fraction that starts at `pos`, sign
/// included.
pub open spec fn integer_value(s: Seq<char>, pos: int) -> int {
    let start = number_digits_start(s, pos);
    let magnitude = decimal_value(s.subrange(start, digits_end(s, start)));
    if s[pos] == '-' {
        -magnitude
    } else {
        magnitude as int
    }
}

/// The token that starts at `pos`, where `pos` is inside the text and holds
/// no whitespace. The longest token wins: a word runs as far as letters,
/// digits and `_` go, and is a keyword only if all of it spells one.
pub open spec fn scan_token(s: Seq<char>, pos: int) -> LexemeView {
    let c = s[pos];
    if c == '(' {
        LexemeView { token: TokenView::LeftParen, start: pos, end: pos + 1 }
    } else if c == ')' {
        LexemeView { token: TokenView::RightParen, start: pos, end: pos + 1 }
    } else if c == ',' {
        LexemeView { token: TokenView::Comma, start: pos, end: pos + 1 }
    } else if c == '.' {
        LexemeView { token: TokenView::Dot, start: pos, end: pos + 1 }
    } else if is_word_start(c) {
        let end = word_end(s, pos + 1);
        let word = s.subrange(pos, end);
        match keyword(word) {
            Some(token) => LexemeView { token, start: pos, end },
            None => LexemeView { token: TokenView::Identifier(word), start: pos, end },
        }
    } else if starts_number(s, pos) {
        let end = number_end(s, pos);
        if number_has_fraction(s, pos) {
            LexemeView { token: TokenView::Float(s.subrange(pos, end)), start: pos, end }
        } else if i64::MIN <= integer_value(s, pos) <= i64::MAX {
            LexemeView { token: TokenView::Integer(integer_value(s, pos)), start: pos, end }
        } else {
            LexemeView { token: TokenView::Invalid(ErrorKind::IntegerOutOfRange), start: pos, end }
        }
    } else if c == '"' {
        match string_close(s, pos + 1) {
            Some(close) => LexemeView {
                token: TokenView::String(unescape(s, pos + 1, close)),
                start: pos,
                end: close + 1,
            },
            None => LexemeView {
                token: TokenView::Invalid(ErrorKind::UnterminatedString),
                start: pos,
                end: s.len() as int,
            },
        }
    } else {
        LexemeView {
            token: TokenView::Invalid(ErrorKind::UnrecognizedCharacter),
            start: pos,
            end: pos + 1,
        }
    }
}

/// The lexemes of `s` from `pos` on. The list ends with `End` at the end of
/// the text, or with `Invalid` at the first place where no token can be read.
pub open spec fn lex_from(s: Seq<char>, pos: int) -> Seq<LexemeView>
    decreases s.len() - pos,
{
    let start = whitespace_end(s, pos);
    if pos < 0 || start >= s.len() {
        seq![LexemeView { token: TokenView::End, start: s.len() as int, end: s.len() as int }]
    } else {
        let lexeme = scan_token(s, start);
        if !(lexeme.token is Invalid) && pos <= start < lexeme.end <= s.len() {
            seq![lexeme] + lex_from(s, lexeme.end)
        } else {
            seq![lexeme]
        }
    }
}

/// The lexemes of a whole text.
pub open spec fn lex(s: Seq<char>) -> Seq<LexemeView> {
    lex_from(s, 0)
}

} // verus!
