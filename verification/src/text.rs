//! Characters, positions in a text, and building strings one character at a time.

use vstd::prelude::*;
use vstd::string::StringExecFns;
use vstd::string::StringSliceAdditionalSpecFns;
use vstd::utf8::encode_scalar;
use vstd::utf8::encode_utf8;

verus! {

/// `String::push` appends one character to the string.
pub assume_specification[ std::string::String::push ](s: &mut std::string::String, c: char)
    ensures
        final(s)@ == old(s)@.push(c),
;

/// An ASCII decimal digit.
pub open spec fn is_digit(c: char) -> bool {
    '0' <= c <= '9'
}

/// An ASCII letter.
pub open spec fn is_letter(c: char) -> bool {
    ('a' <= c <= 'z') || ('A' <= c <= 'Z')
}

/// An upper-case ASCII letter.
pub open spec fn is_upper(c: char) -> bool {
    'A' <= c <= 'Z'
}

/// An ASCII letter or digit.
pub open spec fn is_alphanumeric(c: char) -> bool {
    is_letter(c) || is_digit(c)
}

/// The value of a decimal digit, `0` to `9`.
pub open spec fn digit_value(c: char) -> int
    recommends
        is_digit(c),
{
    c as int - '0' as int
}

/// The lower-case form of an ASCII letter; every other character is unchanged.
pub open spec fn ascii_lower(c: char) -> char {
    if is_upper(c) {
        ((c as u8 + 32) as u8) as char
    } else {
        c
    }
}

/// The number of bytes that the UTF-8 encoding of `c` takes.
pub open spec fn utf8_width(c: char) -> nat {
    if (c as u32) < 0x80 {
        1
    } else if (c as u32) < 0x800 {
        2
    } else if (c as u32) < 0x10000 {
        3
    } else {
        4
    }
}

/// The number of bytes that the UTF-8 encoding of the first `i` characters of
/// `s` takes: the byte offset of the character at position `i`.
pub open spec fn byte_offset(s: Seq<char>, i: int) -> nat
    decreases i,
{
    if i <= 0 || i > s.len() {
        0
    } else {
        byte_offset(s, i - 1) + utf8_width(s[i - 1])
    }
}

/// The line of position `i` in `s`, counted from 0: the number of line feeds
/// before `i`.
pub open spec fn line_of(s: Seq<char>, i: int) -> nat
    decreases i,
{
    if i <= 0 || i > s.len() {
        0
    } else if s[i - 1] == '\n' {
        line_of(s, i - 1) + 1
    } else {
        line_of(s, i - 1)
    }
}

/// The column of position `i` in `s`, counted from 0 in characters: the
/// number of characters between the last line feed before `i` and `i`.
pub open spec fn column_of(s: Seq<char>, i: int) -> nat
    decreases i,
{
    if i <= 0 || i > s.len() {
        0
    } else if s[i - 1] == '\n' {
        0
    } else {
        column_of(s, i - 1) + 1
    }
}

pub proof fn lemma_encode_utf8_push(s: Seq<char>, c: char)
    ensures
        encode_utf8(s.push(c)) == encode_utf8(s) + encode_scalar(c as u32),
    decreases s.len(),
{
    if s.len() == 0 {
        assert(s.push(c).drop_first() =~= s);
        assert(encode_utf8(s) =~= Seq::<u8>::empty());
        assert(encode_utf8(s.push(c)) =~= encode_scalar(c as u32) + encode_utf8(s));
        assert(encode_scalar(c as u32) + Seq::<u8>::empty() =~= Seq::<u8>::empty()
            + encode_scalar(c as u32));
    } else {
        lemma_encode_utf8_push(s.drop_first(), c);
        assert(s.push(c).drop_first() =~= s.drop_first().push(c));
        assert(encode_utf8(s.push(c)) =~= encode_scalar(s[0] as u32) + (encode_utf8(
            s.drop_first(),
        ) + encode_scalar(c as u32)));
        assert(encode_utf8(s.push(c)) =~= encode_utf8(s) + encode_scalar(c as u32));
    }
}

proof fn lemma_scalar_width(c: char)
    ensures
        encode_scalar(c as u32).len() == utf8_width(c),
{
    vstd::utf8::char_is_scalar(c);
}

/// The byte offset of a position is the length of the UTF-8 encoding of the
/// text before it.
pub proof fn lemma_byte_offset_is_encoded_length(s: Seq<char>, i: int)
    requires
        0 <= i <= s.len(),
    ensures
        byte_offset(s, i) == encode_utf8(s.take(i)).len(),
    decreases i,
{
    if i == 0 {
        assert(s.take(0) =~= Seq::<char>::empty());
    } else {
        lemma_byte_offset_is_encoded_length(s, i - 1);
        lemma_encode_utf8_push(s.take(i - 1), s[i - 1]);
        lemma_scalar_width(s[i - 1]);
        assert(s.take(i) =~= s.take(i - 1).push(s[i - 1]));
    }
}

/// Byte offsets grow with the position.
pub proof fn lemma_byte_offset_monotonic(s: Seq<char>, i: int, j: int)
    requires
        0 <= i <= j <= s.len(),
    ensures
        byte_offset(s, i) <= byte_offset(s, j),
    decreases j - i,
{
    if i < j {
        lemma_byte_offset_monotonic(s, i, j - 1);
    }
}

/// The characters of `source`, in order.
pub fn to_chars(source: &str) -> (chars: Vec<char>)
    ensures
        chars@ == source@,
{
    let mut chars: Vec<char> = Vec::new();
    for c in it: source.chars()
        invariant
            chars@ == it.seq().take(it.index()),
            it.seq() == source@,
    {
        chars.push(c);
    }
    chars
}

/// The characters `chars[start..end]` as a string.
pub fn collect_string(chars: &[char], start: usize, end: usize) -> (text: String)
    requires
        start <= end <= chars@.len(),
    ensures
        text@ == chars@.subrange(start as int, end as int),
{
    let mut text = String::new();
    let mut i: usize = start;
    while i < end
        invariant
            start <= i <= end <= chars@.len(),
            text@ == chars@.subrange(start as int, i as int),
        decreases end - i,
    {
        text.push(chars[i]);
        i += 1;
        assert(chars@.subrange(start as int, i as int) =~= chars@.subrange(
            start as int,
            i as int - 1,
        ).push(chars@[i as int - 1]));
    }
    text
}

/// Whether `c` is an ASCII decimal digit.
pub fn char_is_digit(c: char) -> (b: bool)
    ensures
        b == is_digit(c),
{
    '0' <= c && c <= '9'
}

/// Whether `c` is an ASCII letter.
pub fn char_is_letter(c: char) -> (b: bool)
    ensures
        b == is_letter(c),
{
    ('a' <= c && c <= 'z') || ('A' <= c && c <= 'Z')
}

/// Whether `c` is an ASCII letter or digit.
pub fn char_is_alphanumeric(c: char) -> (b: bool)
    ensures
        b == is_alphanumeric(c),
{
    char_is_letter(c) || char_is_digit(c)
}

/// The lower-case form of `c` where it is an ASCII letter, else `c`.
pub fn char_to_ascii_lower(c: char) -> (lower: char)
    ensures
        lower == ascii_lower(c),
{
    if 'A' <= c && c <= 'Z' {
        let code: u8 = c as u8;
        (code + 32) as char
    } else {
        c
    }
}

/// The number of bytes that `c` takes in UTF-8.
pub fn char_utf8_width(c: char) -> (w: usize)
    ensures
        w == utf8_width(c),
{
    let code: u32 = c as u32;
    if code < 0x80 {
        1
    } else if code < 0x800 {
        2
    } else if code < 0x10000 {
        3
    } else {
        4
    }
}

/// What `str::to_lowercase` makes of a text: its lower-case form as Unicode
/// defines it, which is more than a table of letters.
pub uninterp spec fn unicode_lowercase(s: Seq<char>) -> Seq<char>;

/// `str::to_lowercase`: the lower-case form of a text, the same for the
/// same text.
#[verifier::external_body]
pub(crate) fn to_lowercase(source: &str) -> (lower: String)
    ensures
        lower@ == unicode_lowercase(source@),
{
    source.to_lowercase()
}

/// The character that writes the digit `d`, for `d` from 0 to 9.
pub open spec fn digit_char(d: int) -> char
    recommends
        0 <= d <= 9,
{
    (('0' as u8) + d) as u8 as char
}

/// The decimal digits of `n`, most significant first, without leading zeros.
pub open spec fn digits_of(n: nat) -> Seq<char>
    decreases n,
{
    if n < 10 {
        seq![digit_char(n as int)]
    } else {
        digits_of(n / 10).push(digit_char((n % 10) as int))
    }
}

/// The decimal spelling of `v`: `-` before a negative number, then its digits.
pub open spec fn decimal_text(v: int) -> Seq<char> {
    if v < 0 {
        seq!['-'] + digits_of((-v) as nat)
    } else {
        digits_of(v as nat)
    }
}

/// The texts of `parts` one after another, with `separator` between each two.
pub open spec fn joined(parts: Seq<Seq<char>>, separator: Seq<char>) -> Seq<char>
    decreases parts.len(),
{
    if parts.len() == 0 {
        Seq::empty()
    } else if parts.len() == 1 {
        parts[0]
    } else {
        joined(parts.drop_last(), separator) + separator + parts.last()
    }
}

/// Whitespace as Unicode defines it, which is what trimming removes.
pub open spec fn is_unicode_whitespace(c: char) -> bool {
    let code = c as u32;
    ||| 0x09 <= code <= 0x0d
    ||| code == 0x20
    ||| code == 0x85
    ||| code == 0xa0
    ||| code == 0x1680
    ||| 0x2000 <= code <= 0x200a
    ||| code == 0x2028
    ||| code == 0x2029
    ||| code == 0x202f
    ||| code == 0x205f
    ||| code == 0x3000
}

/// The first position at or after `pos` that holds no whitespace.
pub open spec fn trim_start(s: Seq<char>, pos: int) -> int
    decreases s.len() - pos,
{
    if 0 <= pos < s.len() && is_unicode_whitespace(s[pos]) {
        trim_start(s, pos + 1)
    } else {
        pos
    }
}

/// The end of the text `s[start..end]` once the whitespace at its end is
/// taken off.
pub open spec fn trim_end(s: Seq<char>, start: int, end: int) -> int
    decreases end,
{
    if 0 <= start < end <= s.len() && is_unicode_whitespace(s[end - 1]) {
        trim_end(s, start, end - 1)
    } else {
        end
    }
}

/// `s` without the whitespace at its start and at its end.
pub open spec fn trimmed(s: Seq<char>) -> Seq<char> {
    let start = trim_start(s, 0);
    s.subrange(start, trim_end(s, start, s.len() as int))
}

/// Trimming takes off a range of the text.
pub proof fn lemma_trim_bounds(s: Seq<char>)
    ensures
        0 <= trim_start(s, 0) <= trim_end(s, trim_start(s, 0), s.len() as int) <= s.len(),
{
    lemma_trim_start_bounds(s, 0);
    lemma_trim_end_bounds(s, trim_start(s, 0), s.len() as int);
}

proof fn lemma_trim_start_bounds(s: Seq<char>, pos: int)
    requires
        0 <= pos <= s.len(),
    ensures
        pos <= trim_start(s, pos) <= s.len(),
    decreases s.len() - pos,
{
    if pos < s.len() && is_unicode_whitespace(s[pos]) {
        lemma_trim_start_bounds(s, pos + 1);
    }
}

proof fn lemma_trim_end_bounds(s: Seq<char>, start: int, end: int)
    requires
        0 <= start <= end <= s.len(),
    ensures
        start <= trim_end(s, start, end) <= end,
    decreases end,
{
    if start < end && is_unicode_whitespace(s[end - 1]) {
        lemma_trim_end_bounds(s, start, end - 1);
    }
}

/// Two texts with the same UTF-8 encoding are the same text.
pub proof fn lemma_encoding_is_injective(a: Seq<char>, b: Seq<char>)
    requires
        encode_utf8(a) == encode_utf8(b),
    ensures
        a == b,
{
    vstd::utf8::encode_utf8_decode_utf8(a);
    vstd::utf8::encode_utf8_decode_utf8(b);
}

/// Whether `a` and `b` hold the same text.
pub fn same_text(a: &str, b: &str) -> (same: bool)
    ensures
        same == (a@ == b@),
{
    let left = a.as_bytes();
    let right = b.as_bytes();
    if left.len() != right.len() {
        return false;
    }
    let mut i: usize = 0;
    while i < left.len()
        invariant
            i <= left@.len(),
            left@.len() == right@.len(),
            left@ == encode_utf8(a@),
            right@ == encode_utf8(b@),
            forall|j: int| 0 <= j < i ==> left@[j] == right@[j],
        decreases left@.len() - i,
    {
        if left[i] != right[i] {
            return false;
        }
        i += 1;
    }
    proof {
        assert(left@ =~= right@);
        lemma_encoding_is_injective(a@, b@);
    }
    true
}

/// Whether `c` is whitespace as Unicode defines it.
pub fn char_is_unicode_whitespace(c: char) -> (b: bool)
    ensures
        b == is_unicode_whitespace(c),
{
    let code: u32 = c as u32;
    (0x09 <= code && code <= 0x0d) || code == 0x20 || code == 0x85 || code == 0xa0 || code
        == 0x1680 || (0x2000 <= code && code <= 0x200a) || code == 0x2028 || code == 0x2029
        || code == 0x202f || code == 0x205f || code == 0x3000
}

/// The range of `chars` that is left once the whitespace at both ends is
/// taken off.
pub fn trim_range(chars: &[char]) -> (range: (usize, usize))
    ensures
        range.0 == trim_start(chars@, 0),
        range.1 == trim_end(chars@, range.0 as int, chars@.len() as int),
        range.0 <= range.1 <= chars@.len(),
{
    let mut start: usize = 0;
    while start < chars.len() && char_is_unicode_whitespace(chars[start])
        invariant
            start <= chars@.len(),
            trim_start(chars@, start as int) == trim_start(chars@, 0),
        decreases chars@.len() - start,
    {
        start += 1;
    }
    let mut end: usize = chars.len();
    while start < end && char_is_unicode_whitespace(chars[end - 1])
        invariant
            start <= end <= chars@.len(),
            trim_end(chars@, start as int, end as int) == trim_end(
                chars@,
                start as int,
                chars@.len() as int,
            ),
        decreases end,
    {
        end -= 1;
    }
    (start, end)
}

/// `source` without the whitespace at its start and at its end.
pub fn trim(source: &str) -> (text: String)
    ensures
        text@ == trimmed(source@),
{
    let chars = to_chars(source);
    let (start, end) = trim_range(chars.as_slice());
    collect_string(chars.as_slice(), start, end)
}

/// Appends the decimal digits of `n` to `out`.
pub fn push_digits(out: &mut String, n: u64)
    ensures
        final(out)@ == old(out)@ + digits_of(n as nat),
    decreases n,
{
    if n >= 10 {
        push_digits(out, n / 10);
    }
    let ghost before = out@;
    let digit: u8 = (n % 10) as u8;
    out.push((48u8 + digit) as char);
    proof {
        if n >= 10 {
            assert(out@ =~= old(out)@ + digits_of(n as nat));
        } else {
            assert(out@ =~= old(out)@ + digits_of(n as nat));
        }
    }
}

/// The decimal spelling of `v`.
pub fn i64_to_string(v: i64) -> (text: String)
    ensures
        text@ == decimal_text(v as int),
{
    let mut text = String::new();
    if v < 0 {
        text.push('-');
        let magnitude: u64 = if v == i64::MIN {
            0x8000_0000_0000_0000
        } else {
            (-v) as u64
        };
        push_digits(&mut text, magnitude);
    } else {
        push_digits(&mut text, v as u64);
        assert(text@ =~= digits_of(v as nat));
    }
    text
}

/// The decimal spelling of `v`.
pub fn usize_to_string(v: usize) -> (text: String)
    ensures
        text@ == decimal_text(v as int),
{
    let mut text = String::new();
    push_digits(&mut text, v as u64);
    assert(text@ =~= digits_of(v as nat));
    text
}

/// The texts of `parts` one after another, with `separator` between each two.
pub fn join(parts: &Vec<String>, separator: &str) -> (text: String)
    ensures
        text@ == joined(Seq::new(parts@.len(), |i: int| parts@[i]@), separator@),
{
    let ghost texts = Seq::new(parts@.len(), |i: int| parts@[i]@);
    let mut text = String::new();
    let mut i: usize = 0;
    while i < parts.len()
        invariant
            i <= parts@.len(),
            texts == Seq::new(parts@.len(), |i: int| parts@[i]@),
            text@ == joined(texts.take(i as int), separator@),
        decreases parts@.len() - i,
    {
        if i > 0 {
            text.append(separator);
        }
        text.append(parts[i].as_str());
        i += 1;
        proof {
            let longer = texts.take(i as int);
            assert(longer.drop_last() =~= texts.take(i as int - 1));
            assert(longer.last() == parts@[i as int - 1]@);
            if i == 1 {
                assert(text@ =~= longer[0]);
            }
        }
    }
    assert(texts.take(parts@.len() as int) =~= texts);
    text
}

} // verus!
