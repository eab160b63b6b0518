//! Which language a visitor is answered in.

use crate::text::collect_string;
use crate::text::to_chars;
use crate::text::trim_range;
use crate::text::trimmed;
use crate::webserver::articles::find;
use crate::webserver::articles::find_from;
use crate::webserver::articles::lemma_find_from_bounds;
use vstd::prelude::*;

verus! {

/// One language of an `Accept-Language` header, as it is written: its code
/// and, where it has one, the text of its quality.
#[derive(Debug, PartialEq, Eq)]
pub struct LanguageRange {
    pub code: String,
    pub quality: Option<String>,
}

pub ghost struct LanguageRangeView {
    pub code: Seq<char>,
    pub quality: Option<Seq<char>>,
}

impl View for LanguageRange {
    type V = LanguageRangeView;

    open spec fn view(&self) -> LanguageRangeView {
        LanguageRangeView {
            code: self.code@,
            quality: match self.quality {
                Some(q) => Some(q@),
                None => None,
            },
        }
    }
}

/// A language that a visitor accepts, and how much they like it. The
/// weight is the quality as the 32 bits of an IEEE 754 number: of two
/// weights that stand for numbers above zero, the larger number has the
/// larger bits.
#[derive(Debug, PartialEq, Eq)]
pub struct AcceptableLanguage {
    pub code: String,
    pub weight: u32,
}

/// The filter that gives the language of a locale.
pub struct LanguageCode;

/// The bits of the number one: the weight of a language without a quality.
pub const FULL_WEIGHT: u32 = 0x3f80_0000;

/// The bits of positive infinity, above which no bits stand for a number.
pub const INFINITE_WEIGHT: u32 = 0x7f80_0000;

/// What `LanguageIdentifier::matches` says of two locales, the first taken
/// as a range: whether the second is one of the locales that the first
/// asks for; nothing where one of the two is no locale.
pub uninterp spec fn locale_matches(requested: Seq<char>, available: Seq<char>) -> Option<bool>;

/// The language of a locale as `LanguageIdentifier` reads it; nothing where
/// the text is no locale.
pub uninterp spec fn locale_language(locale: Seq<char>) -> Option<Seq<char>>;

/// `LanguageIdentifier::matches(available, true, false)` on the two locales
/// that `LanguageIdentifier::from_str` reads from the texts.
#[verifier::external_body]
fn matches_locale(requested: &str, available: &str) -> (matches: Option<bool>)
    ensures
        matches == locale_matches(requested@, available@),
{
    let requested: Result<unic_langid::LanguageIdentifier, _> = requested.parse();
    let available: Result<unic_langid::LanguageIdentifier, _> = available.parse();
    match (requested, available) {
        (Ok(wanted), Ok(offered)) => Some(wanted.matches(&offered, true, false)),
        _ => None,
    }
}

/// The `language` of the locale that `LanguageIdentifier::from_str` reads
/// from a text, written out.
#[verifier::external_body]
fn language_of(locale: &str) -> (language: Option<String>)
    ensures
        match language {
            Some(text) => locale_language(locale@) == Some(text@),
            None => locale_language(locale@) is None,
        },
{
    let parsed: Result<unic_langid::LanguageIdentifier, _> = locale.parse();
    match parsed {
        Ok(identifier) => Some(identifier.language.to_string()),
        Err(_) => None,
    }
}

/// The end of the piece of `s` that starts at `start` and runs up to the
/// next `pattern`, or to the end of the text.
pub open spec fn piece_end(s: Seq<char>, pattern: Seq<char>, start: int) -> int {
    let found = find_from(s, pattern, start);
    if found < 0 {
        s.len() as int
    } else {
        found
    }
}

/// What stands between a code and its quality.
pub open spec fn quality_mark() -> Seq<char> {
    seq![';', 'q', '=']
}

/// The language that one item of a header names: the item is trimmed; what
/// stands before its first `;q=` is the code, and what stands between that
/// and the next `;q=` is the quality.
pub open spec fn language_range(item: Seq<char>) -> LanguageRangeView {
    let text = trimmed(item);
    let code_end = piece_end(text, quality_mark(), 0);
    LanguageRangeView {
        code: text.subrange(0, code_end),
        quality: if code_end < text.len() {
            Some(text.subrange(code_end + 3, piece_end(text, quality_mark(), code_end + 3)))
        } else {
            None
        },
    }
}

/// The languages that a header names from `start` on: one for each item
/// between commas.
pub open spec fn language_ranges_from(s: Seq<char>, start: int) -> Seq<LanguageRangeView>
    decreases s.len() - start,
{
    let end = piece_end(s, seq![','], start);
    if 0 <= start <= end < s.len() {
        seq![language_range(s.subrange(start, end))] + language_ranges_from(s, end + 1)
    } else if 0 <= start <= s.len() {
        seq![language_range(s.subrange(start, s.len() as int))]
    } else {
        Seq::empty()
    }
}

/// The models of a list of languages.
pub open spec fn ranges_view(ranges: Seq<LanguageRange>) -> Seq<LanguageRangeView> {
    Seq::new(ranges.len(), |i: int| ranges[i]@)
}

/// Reads one item of a header.
fn read_language_range(item: &[char]) -> (range: LanguageRange)
    ensures
        range@ == language_range(item@),
{
    let (start, end) = trim_range(item);
    let text_owned = slice_to_vec(item, start, end);
    let text = text_owned.as_slice();
    proof {
        crate::text::lemma_trim_bounds(item@);
        lemma_find_from_bounds(text@, quality_mark(), 0);
    }
    let mark: Vec<char> = vec![';', 'q', '='];
    let mark = mark.as_slice();
    assert(mark@ =~= quality_mark());
    let length = text.len();
    match find(text, mark, 0) {
        Some(code_end) => {
            proof {
                lemma_find_from_bounds(text@, quality_mark(), code_end + 3);
            }
            let quality_end = match find(text, mark, code_end + 3) {
                Some(at) => at,
                None => text.len(),
            };
            LanguageRange {
                code: collect_string(text, 0, code_end),
                quality: Some(collect_string(text, code_end + 3, quality_end)),
            }
        },
        None => LanguageRange { code: collect_string(text, 0, text.len()), quality: None },
    }
}

/// A copy of `chars[start..end]`.
fn slice_to_vec(chars: &[char], start: usize, end: usize) -> (copy: Vec<char>)
    requires
        start <= end <= chars@.len(),
    ensures
        copy@ == chars@.subrange(start as int, end as int),
{
    let mut copy: Vec<char> = Vec::new();
    let mut i: usize = start;
    while i < end
        invariant
            start <= i <= end <= chars@.len(),
            copy@ == chars@.subrange(start as int, i as int),
        decreases end - i,
    {
        copy.push(chars[i]);
        i += 1;
        assert(copy@ =~= chars@.subrange(start as int, i as int));
    }
    copy
}

/// The languages that an `Accept-Language` header names, in its order and
/// as they are written.
pub fn split_accept_language_header(header: &str) -> (ranges: Vec<LanguageRange>)
    ensures
        ranges_view(ranges@) == language_ranges_from(header@, 0),
{
    let chars = to_chars(header);
    let chars = chars.as_slice();
    let comma: Vec<char> = vec![','];
    let comma = comma.as_slice();
    assert(comma@ =~= seq![',']);
    let mut ranges: Vec<LanguageRange> = Vec::new();
    let mut start: usize = 0;
    let length = chars.len();
    assert(ranges_view(ranges@) + language_ranges_from(chars@, 0) =~= language_ranges_from(
        header@,
        0,
    ));
    loop
        invariant
            start <= chars@.len() <= usize::MAX,
            chars@ == header@,
            comma@ == seq![','],
            ranges_view(ranges@) + language_ranges_from(chars@, start as int)
                == language_ranges_from(header@, 0),
        decreases chars@.len() - start,
    {
        let ghost before = ranges_view(ranges@);
        proof {
            lemma_find_from_bounds(chars@, seq![','], start as int);
        }
        match find(chars, comma, start) {
            Some(end) => {
                let item = slice_to_vec(chars, start, end);
                let range = read_language_range(item.as_slice());
                let ghost view = range@;
                ranges.push(range);
                proof {
                    assert(ranges_view(ranges@) =~= before.push(view));
                    assert(before + (seq![view] + language_ranges_from(chars@, end + 1))
                        =~= before.push(view) + language_ranges_from(chars@, end + 1));
                }
                start = end + 1;
            },
            None => {
                let item = slice_to_vec(chars, start, chars.len());
                let range = read_language_range(item.as_slice());
                let ghost view = range@;
                ranges.push(range);
                proof {
                    assert(ranges_view(ranges@) =~= before.push(view));
                    assert(before + seq![view] =~= before.push(view));
                }
                return ranges;
            },
        }
    }
}

/// Whether a language of weight `weight` is liked better than the best so
/// far, of weight `best`: its weight stands for a number, and for a larger
/// one. `best` stands for zero or a number above it.
pub open spec fn outweighs(weight: u32, best: u32) -> bool {
    weight <= INFINITE_WEIGHT && weight > best
}

/// Whether one of the locales `available` is among those that `code` asks
/// for.
pub open spec fn is_supported(code: Seq<char>, available: Seq<Seq<char>>) -> bool {
    exists|k: int| 0 <= k < available.len() && #[trigger] locale_matches(code, available[k]) == Some(
        true,
    )
}

/// The weight of the language at `best`, or zero where no language is
/// chosen yet.
pub open spec fn weight_at(languages: Seq<AcceptableLanguage>, best: Option<int>) -> u32 {
    match best {
        Some(i) => languages[i].weight,
        None => 0,
    }
}

/// The place of the language that is chosen among the first `count`: each
/// language in turn takes the place of the one chosen so far where it is
/// liked better and the site has a locale for it. Of two languages that
/// are liked the same, the earlier one stays.
pub open spec fn best_language(
    languages: Seq<AcceptableLanguage>,
    available: Seq<Seq<char>>,
    count: int,
) -> Option<int>
    decreases count,
{
    if count <= 0 || count > languages.len() {
        None
    } else {
        let before = best_language(languages, available, count - 1);
        let candidate = languages[count - 1];
        if outweighs(candidate.weight, weight_at(languages, before)) && is_supported(
            candidate.code@,
            available,
        ) {
            Some(count - 1)
        } else {
            before
        }
    }
}

/// The texts of a list of locales.
pub open spec fn locales_view(locales: Seq<String>) -> Seq<Seq<char>> {
    Seq::new(locales.len(), |i: int| locales[i]@)
}

/// Whether the site has a locale for the language `code`.
fn supports(code: &str, available_locales: &Vec<String>) -> (supported: bool)
    ensures
        supported == is_supported(code@, locales_view(available_locales@)),
{
    let ghost available = locales_view(available_locales@);
    let mut k: usize = 0;
    while k < available_locales.len()
        invariant
            k <= available_locales@.len(),
            available == locales_view(available_locales@),
            forall|j: int| 0 <= j < k ==> locale_matches(code@, available[j]) != Some(true),
        decreases available_locales@.len() - k,
    {
        match matches_locale(code, available_locales[k].as_str()) {
            Some(true) => {
                assert(locale_matches(code@, available[k as int]) == Some(true));
                return true;
            },
            _ => {},
        }
        k += 1;
    }
    false
}

/// The language in which a visitor is answered: of the languages that the
/// visitor accepts, the one they like best among those that the site has a
/// locale for; the default where the visitor names none, or none of them
/// fits.
pub fn pick_best_language(
    default_code: &str,
    accepted: Option<&Vec<AcceptableLanguage>>,
    available_locales: &Vec<String>,
) -> (language: String)
    ensures
        language@ == match accepted {
            Some(languages) => match best_language(
                languages@,
                locales_view(available_locales@),
                languages@.len() as int,
            ) {
                Some(i) => languages@[i].code@,
                None => default_code@,
            },
            None => default_code@,
        },
{
    let languages = match accepted {
        Some(languages) => languages,
        None => {
            return default_code.to_owned();
        },
    };
    let ghost available = locales_view(available_locales@);
    let mut best: Option<usize> = None;
    let mut best_weight: u32 = 0;
    let mut i: usize = 0;
    while i < languages.len()
        invariant
            i <= languages@.len(),
            available == locales_view(available_locales@),
            match best {
                Some(at) => at < i && best_language(languages@, available, i as int) == Some(
                    at as int,
                ),
                None => best_language(languages@, available, i as int) is None,
            },
            best_weight == weight_at(languages@, best_language(languages@, available, i as int)),
        decreases languages@.len() - i,
    {
        let weight = languages[i].weight;
        if weight <= INFINITE_WEIGHT && weight > best_weight && supports(
            languages[i].code.as_str(),
            available_locales,
        ) {
            best = Some(i);
            best_weight = weight;
        }
        i += 1;
    }
    match best {
        Some(at) => languages[at].code.clone(),
        None => default_code.to_owned(),
    }
}

impl LanguageCode {
    /// The language of the locale `language_identifier`, if it is a locale.
    pub fn filter(language_identifier: &str) -> (language: Option<String>)
        ensures
            match language {
                Some(text) => locale_language(language_identifier@) == Some(text@),
                None => locale_language(language_identifier@) is None,
            },
    {
        language_of(language_identifier)
    }
}

} // verus!
