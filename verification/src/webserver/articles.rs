//! The pages of text, and the links that are put into their Markdown.

use crate::kbql::token::digits_end;
use crate::schema::cms::Article;
use crate::text::char_is_digit;
use crate::text::same_text;
use crate::text::to_chars;
use vstd::prelude::*;
use vstd::string::StringExecFns;

verus! {

/// The Markdown of the home page.
pub const HOME: &'static str =
    "# Welcome to Khonsubase\n\nThis is a pre-alpha [work-in-progress project](https://github.com/khonsulabs/khonsubase).";

/// The Markdown of the terms of service.
pub const TERMS_OF_SERVICE: &'static str =
    "# Welcome to Khonsubase\n\nThis is a pre-alpha [work-in-progress project](https://github.com/khonsulabs/khonsubase). There is no Terms of Service at this time.";

/// The Markdown of the privacy policy.
pub const PRIVACY_POLICY: &'static str =
    "# Privacy Policy\n\nThis is a pre-alpha [work-in-progress project](https://github.com/khonsulabs/khonsubase). There is no Privacy Policy at this time.";

/// The Markdown of the page about signing up.
pub const SIGNUP: &'static str =
    "# Sign Up\n\nSigning up is not currently supported. You can track progress towards this being supported [here](https://base.khonsulabs.com/issue/21).";

/// What stands before the number of an issue where nothing else is set.
pub const ISSUE_PREFIX: &'static str = "KB-";

/// The Markdown of the page `slug`, if there is such a page.
pub open spec fn article_body(slug: Seq<char>) -> Option<Seq<char>> {
    if slug == "home"@ {
        Some(HOME@)
    } else if slug == "terms-of-service"@ {
        Some(TERMS_OF_SERVICE@)
    } else if slug == "privacy-policy"@ {
        Some(PRIVACY_POLICY@)
    } else if slug == "signup"@ {
        Some(SIGNUP@)
    } else {
        None
    }
}

/// The page `slug`, if there is such a page. The name must match letter
/// for letter.
pub fn find_article(slug: &str) -> (article: Option<Article>)
    ensures
        match article {
            Some(found) => found.id == 0 && found.slug@ == slug@ && article_body(slug@) == Some(
                found.body@,
            ),
            None => article_body(slug@) is None,
        },
{
    if same_text(slug, "home") {
        Some(Article::hardcoded(slug, HOME))
    } else if same_text(slug, "terms-of-service") {
        Some(Article::hardcoded(slug, TERMS_OF_SERVICE))
    } else if same_text(slug, "privacy-policy") {
        Some(Article::hardcoded(slug, PRIVACY_POLICY))
    } else if same_text(slug, "signup") {
        Some(Article::hardcoded(slug, SIGNUP))
    } else {
        None
    }
}

/// Whether `pattern` stands in `s` at `at`.
pub open spec fn occurs_at(s: Seq<char>, pattern: Seq<char>, at: int) -> bool {
    0 <= at && at + pattern.len() <= s.len() && s.subrange(at, at + pattern.len()) == pattern
}

/// The first place at or after `from` where `pattern` stands in `s`, or -1
/// where it stands nowhere from there on.
pub open spec fn find_from(s: Seq<char>, pattern: Seq<char>, from: int) -> int
    decreases s.len() - from,
{
    if from < 0 || from + pattern.len() > s.len() {
        -1
    } else if occurs_at(s, pattern, from) {
        from
    } else if from < s.len() {
        find_from(s, pattern, from + 1)
    } else {
        -1
    }
}

/// Where the search for the next `pattern` starts once a piece begins at
/// `start`: at the piece, but one further on for the empty pattern, which
/// stands at every place once.
pub open spec fn search_start(pattern: Seq<char>, start: int) -> int {
    if pattern.len() == 0 {
        start + 1
    } else {
        start
    }
}

/// The end of the digits that stand in `s` from `start` on, before `end`.
pub open spec fn number_end(s: Seq<char>, start: int, end: int) -> int {
    if digits_end(s, start) < end {
        digits_end(s, start)
    } else {
        end
    }
}

/// What becomes of the piece `s[start..end]` that follows a prefix: where
/// it starts with a number, prefix and number become a link to the issue of
/// that number; else the prefix stays as it is.
pub open spec fn linked_piece(s: Seq<char>, prefix: Seq<char>, start: int, end: int) -> Seq<char> {
    let stop = number_end(s, start, end);
    if stop > start {
        seq!['['] + prefix + s.subrange(start, stop) + "](/issue/"@ + s.subrange(start, stop)
            + seq![')'] + s.subrange(stop, end)
    } else {
        prefix + s.subrange(start, end)
    }
}

/// What becomes of `s` from `start` on, where a prefix ends at `start`.
#[verifier::opaque]
pub open spec fn preformatted_from(s: Seq<char>, prefix: Seq<char>, start: int) -> Seq<char>
    decreases s.len() - start,
{
    if start < 0 || start > s.len() {
        Seq::empty()
    } else {
        let found = find_from(s, prefix, search_start(prefix, start));
        if found < 0 {
            linked_piece(s, prefix, start, s.len() as int)
        } else if start < found + prefix.len() <= s.len() {
            linked_piece(s, prefix, start, found) + preformatted_from(
                s,
                prefix,
                found + prefix.len(),
            )
        } else {
            linked_piece(s, prefix, start, found)
        }
    }
}

/// The Markdown `s` with a link in place of every mention of an issue: the
/// text is cut at every `prefix`, from left to right, and a prefix that is
/// followed by digits becomes, with them, a link to `/issue/` and the
/// digits.
pub open spec fn preformatted(s: Seq<char>, prefix: Seq<char>) -> Seq<char> {
    let found = find_from(s, prefix, 0);
    if found < 0 {
        s
    } else {
        s.subrange(0, found) + preformatted_from(s, prefix, found + prefix.len())
    }
}

/// What `find_from` finds stands at or after the start of the search.
pub proof fn lemma_find_from_bounds(s: Seq<char>, pattern: Seq<char>, from: int)
    ensures
        find_from(s, pattern, from) == -1 || (from <= find_from(s, pattern, from) && find_from(
            s,
            pattern,
            from,
        ) + pattern.len() <= s.len()),
    decreases s.len() - from,
{
    if !(from < 0 || from + pattern.len() > s.len()) && !occurs_at(s, pattern, from) && from
        < s.len() {
        lemma_find_from_bounds(s, pattern, from + 1);
    }
}

/// What becomes of a text from the end of a prefix on is what becomes of
/// the piece up to the next prefix, and then of the text from the end of
/// that prefix on.
pub proof fn lemma_preformatted_from_unfolds(s: Seq<char>, prefix: Seq<char>, start: int)
    requires
        0 <= start <= s.len(),
    ensures
        ({
            let found = find_from(s, prefix, search_start(prefix, start));
            &&& found < 0 ==> preformatted_from(s, prefix, start) == linked_piece(
                s,
                prefix,
                start,
                s.len() as int,
            )
            &&& found >= 0 ==> start <= found && start < found + prefix.len() <= s.len()
                && preformatted_from(s, prefix, start) == linked_piece(s, prefix, start, found)
                + preformatted_from(s, prefix, found + prefix.len())
        }),
{
    reveal(preformatted_from);
    lemma_find_from_bounds(s, prefix, search_start(prefix, start));
}

/// Whether `pattern` stands in `chars` at `at`.
fn matches_at(chars: &[char], pattern: &[char], at: usize) -> (matches: bool)
    requires
        at + pattern@.len() <= chars@.len(),
    ensures
        matches == occurs_at(chars@, pattern@, at as int),
{
    let length = chars.len();
    let mut i: usize = 0;
    while i < pattern.len()
        invariant
            i <= pattern@.len(),
            at + pattern@.len() <= chars@.len() <= usize::MAX,
            forall|j: int| 0 <= j < i ==> chars@[at + j] == pattern@[j],
        decreases pattern@.len() - i,
    {
        if chars[at + i] != pattern[i] {
            assert(chars@.subrange(at as int, at + pattern@.len())[i as int] != pattern@[i as int]);
            return false;
        }
        i += 1;
    }
    assert(chars@.subrange(at as int, at + pattern@.len()) =~= pattern@);
    true
}

/// The first place at or after `from` where `pattern` stands in `chars`.
pub fn find(chars: &[char], pattern: &[char], from: usize) -> (found: Option<usize>)
    ensures
        match found {
            Some(at) => find_from(chars@, pattern@, from as int) == at && from <= at && at
                + pattern@.len() <= chars@.len(),
            None => find_from(chars@, pattern@, from as int) == -1,
        },
{
    if pattern.len() > chars.len() || from > chars.len() - pattern.len() {
        return None;
    }
    let last = chars.len() - pattern.len();
    let mut at: usize = from;
    loop
        invariant
            from <= at <= last,
            last == chars@.len() - pattern@.len(),
            find_from(chars@, pattern@, at as int) == find_from(chars@, pattern@, from as int),
        decreases last - at,
    {
        if matches_at(chars, pattern, at) {
            return Some(at);
        }
        if at == last {
            assert(find_from(chars@, pattern@, at + 1) == -1);
            return None;
        }
        at += 1;
    }
}

/// Appends the characters `chars[start..end]`.
fn push_range(out: &mut String, chars: &[char], start: usize, end: usize)
    requires
        start <= end <= chars@.len(),
    ensures
        final(out)@ == old(out)@ + chars@.subrange(start as int, end as int),
{
    let mut i: usize = start;
    assert(out@ =~= old(out)@ + chars@.subrange(start as int, start as int));
    while i < end
        invariant
            start <= i <= end <= chars@.len(),
            out@ == old(out)@ + chars@.subrange(start as int, i as int),
        decreases end - i,
    {
        out.push(chars[i]);
        i += 1;
        assert(out@ =~= old(out)@ + chars@.subrange(start as int, i as int));
    }
}

/// Appends what becomes of the piece `chars[start..end]` that follows a
/// prefix.
fn push_linked_piece(out: &mut String, chars: &[char], prefix: &[char], start: usize, end: usize)
    requires
        start <= end <= chars@.len(),
    ensures
        final(out)@ == old(out)@ + linked_piece(chars@, prefix@, start as int, end as int),
{
    let mut stop: usize = start;
    while stop < end && char_is_digit(chars[stop])
        invariant
            start <= stop <= end <= chars@.len(),
            number_end(chars@, stop as int, end as int) == number_end(
                chars@,
                start as int,
                end as int,
            ),
        decreases end - stop,
    {
        stop += 1;
    }
    proof {
        crate::kbql::lexer::lemma_digits_end_bounds(chars@, stop as int);
    }
    let ghost base = out@;
    let ghost number = chars@.subrange(start as int, stop as int);
    if stop > start {
        out.push('[');
        push_range(out, prefix, 0, prefix.len());
        assert(prefix@.subrange(0, prefix@.len() as int) =~= prefix@);
        push_range(out, chars, start, stop);
        out.append("](/issue/");
        push_range(out, chars, start, stop);
        out.push(')');
        push_range(out, chars, stop, end);
        assert(out@ =~= base + (seq!['['] + prefix@ + number + "](/issue/"@ + number + seq![')']
            + chars@.subrange(stop as int, end as int)));
    } else {
        push_range(out, prefix, 0, prefix.len());
        assert(prefix@.subrange(0, prefix@.len() as int) =~= prefix@);
        push_range(out, chars, start, end);
        assert(out@ =~= base + (prefix@ + chars@.subrange(start as int, end as int)));
    }
}

/// The Markdown `markdown` with a link in place of every mention of an
/// issue that starts with `issue_prefix`.
pub fn preformat_markdown_with(markdown: &str, issue_prefix: &str) -> (formatted: String)
    ensures
        formatted@ == preformatted(markdown@, issue_prefix@),
{
    let chars = to_chars(markdown);
    let prefix = to_chars(issue_prefix);
    let chars = chars.as_slice();
    let prefix = prefix.as_slice();
    let mut formatted = String::new();
    let first = match find(chars, prefix, 0) {
        Some(at) => at,
        None => {
            push_range(&mut formatted, chars, 0, chars.len());
            assert(chars@.subrange(0, chars@.len() as int) =~= chars@);
            assert(formatted@ =~= chars@);
            return formatted;
        },
    };
    push_range(&mut formatted, chars, 0, first);
    assert(formatted@ =~= chars@.subrange(0, first as int));
    let length = chars.len();
    let mut start: usize = first + prefix.len();
    assert(formatted@ + preformatted_from(chars@, prefix@, start as int) =~= preformatted(
        chars@,
        prefix@,
    ));
    loop
        invariant
            start <= chars@.len() <= usize::MAX,
            chars@ == markdown@,
            prefix@ == issue_prefix@,
            formatted@ + preformatted_from(chars@, prefix@, start as int) == preformatted(
                chars@,
                prefix@,
            ),
        decreases chars@.len() - start,
    {
        let ghost before = formatted@;
        proof {
            lemma_preformatted_from_unfolds(chars@, prefix@, start as int);
        }
        let next = if prefix.len() == 0 && start == chars.len() {
            None
        } else if prefix.len() == 0 {
            find(chars, prefix, start + 1)
        } else {
            find(chars, prefix, start)
        };
        assert(find_from(chars@, prefix@, search_start(prefix@, start as int)) == match next {
            Some(at) => at as int,
            None => -1,
        });
        match next {
            Some(at) => {
                push_linked_piece(&mut formatted, chars, prefix, start, at);
                proof {
                    let piece = linked_piece(chars@, prefix@, start as int, at as int);
                    let rest = preformatted_from(chars@, prefix@, at + prefix@.len());
                    assert(before + (piece + rest) =~= before + piece + rest);
                }
                start = at + prefix.len();
            },
            None => {
                push_linked_piece(&mut formatted, chars, prefix, start, chars.len());
                return formatted;
            },
        }
    }
}

/// The Markdown `markdown` with a link in place of every mention of an
/// issue: of `KB-` and the digits that follow it.
pub fn preformat_markdown(markdown: &str) -> (formatted: String)
    ensures
        formatted@ == preformatted(markdown@, ISSUE_PREFIX@),
{
    preformat_markdown_with(markdown, ISSUE_PREFIX)
}

} // verus!
