//! The tags that the form of an issue names, and what they change.

use crate::schema::issues::tag::Tag;
use crate::schema::issues::tag_group::Taxonomy;
use crate::text::collect_string;
use crate::text::join;
use crate::text::joined;
use crate::text::to_chars;
use crate::text::to_lowercase;
use crate::text::trim_range;
use crate::text::trimmed;
use crate::text::unicode_lowercase;
use crate::webserver::articles::find;
use crate::webserver::articles::lemma_find_from_bounds;
use crate::webserver::localization::piece_end;
use vstd::prelude::*;
use vstd::utf8::encode_utf8;

verus! {

/// A tag that a form names: one that the site knows, by its number, or a
/// new one, by the name that the form gives it.
#[derive(Debug, PartialEq, Eq)]
pub enum TagInput {
    Known(i32),
    New(String),
}

/// What the tags that a form names change of the tags of an issue.
#[derive(Debug, PartialEq, Eq)]
pub struct TagChanges {
    /// The tags that the issue carries and the form does not name, in the
    /// order in which the issue carries them.
    pub to_remove: Vec<i32>,
    /// The tags that the form names and the issue does not carry, each
    /// once, in the order in which the form names them first.
    pub to_insert: Vec<i32>,
}

/// The items of `s` from `start` on that stand between commas, each
/// without the whitespace at its ends, and without those of which nothing
/// is left.
pub open spec fn comma_items_from(s: Seq<char>, start: int) -> Seq<Seq<char>>
    decreases s.len() - start,
{
    let end = piece_end(s, seq![','], start);
    if 0 <= start <= end < s.len() {
        kept_item(s.subrange(start, end)) + comma_items_from(s, end + 1)
    } else if 0 <= start <= s.len() {
        kept_item(s.subrange(start, s.len() as int))
    } else {
        Seq::empty()
    }
}

/// An item without the whitespace at its ends, unless nothing is left of
/// it.
pub open spec fn kept_item(item: Seq<char>) -> Seq<Seq<char>> {
    if trimmed(item).len() == 0 {
        Seq::empty()
    } else {
        seq![trimmed(item)]
    }
}

/// The texts of `items` that are not empty, in their order.
pub open spec fn non_empty_texts(items: Seq<String>, count: int) -> Seq<Seq<char>>
    decreases count,
{
    if count <= 0 || count > items.len() {
        Seq::empty()
    } else if items[count - 1]@.len() == 0 {
        non_empty_texts(items, count - 1)
    } else {
        non_empty_texts(items, count - 1).push(items[count - 1]@)
    }
}

/// The texts of a list.
pub open spec fn texts(items: Seq<String>) -> Seq<Seq<char>> {
    Seq::new(items.len(), |i: int| items[i]@)
}

/// The names of the tags that a form sends: those of `tagify`, the list
/// that the form holds where it is written as a list of values; else the
/// items of `source` between commas, trimmed. Empty names are left out.
pub fn parse_tags(source: &str, tagify: Option<Vec<String>>) -> (tags: Vec<String>)
    ensures
        texts(tags@) == match tagify {
            Some(values) => non_empty_texts(values@, values@.len() as int),
            None => comma_items_from(source@, 0),
        },
{
    let mut tags: Vec<String> = Vec::new();
    match tagify {
        Some(values) => {
            let mut i: usize = 0;
            assert(texts(tags@) =~= non_empty_texts(values@, 0));
            while i < values.len()
                invariant
                    i <= values@.len(),
                    texts(tags@) == non_empty_texts(values@, i as int),
                decreases values@.len() - i,
            {
                let ghost before = texts(tags@);
                if !values[i].as_str().is_empty() {
                    tags.push(values[i].clone());
                    assert(texts(tags@) =~= before.push(values@[i as int]@));
                }
                i += 1;
            }
            tags
        },
        None => {
            let chars = to_chars(source);
            let chars = chars.as_slice();
            let comma: Vec<char> = vec![','];
            let comma = comma.as_slice();
            assert(comma@ =~= seq![',']);
            let length = chars.len();
            let mut start: usize = 0;
            assert(texts(tags@) + comma_items_from(chars@, 0) =~= comma_items_from(source@, 0));
            loop
                invariant
                    start <= chars@.len() <= usize::MAX,
                    tagify is None,
                    chars@ == source@,
                    comma@ == seq![','],
                    texts(tags@) + comma_items_from(chars@, start as int) == comma_items_from(
                        source@,
                        0,
                    ),
                decreases chars@.len() - start,
            {
                let ghost before = texts(tags@);
                proof {
                    lemma_find_from_bounds(chars@, seq![','], start as int);
                }
                let found = find(chars, comma, start);
                let end = match found {
                    Some(at) => at,
                    None => chars.len(),
                };
                let ghost item = chars@.subrange(start as int, end as int);
                let (from, to) = trim_item(chars, start, end);
                if from < to {
                    tags.push(collect_string(chars, from, to));
                    assert(texts(tags@) =~= before.push(trimmed(item)));
                }
                assert(texts(tags@) =~= before + kept_item(item));
                match found {
                    Some(at) => {
                        assert(before + (kept_item(item) + comma_items_from(chars@, at + 1))
                            =~= before + kept_item(item) + comma_items_from(chars@, at + 1));
                        start = at + 1;
                    },
                    None => {
                        assert(texts(tags@) + Seq::<Seq<char>>::empty() =~= texts(tags@));
                        return tags;
                    },
                }
            }
        },
    }
}

/// The range of `chars[start..end]` that is left once the whitespace at
/// both of its ends is taken off.
fn trim_item(chars: &[char], start: usize, end: usize) -> (range: (usize, usize))
    requires
        start <= end <= chars@.len(),
    ensures
        start <= range.0 <= range.1 <= end,
        chars@.subrange(range.0 as int, range.1 as int) == trimmed(
            chars@.subrange(start as int, end as int),
        ),
{
    let ghost item = chars@.subrange(start as int, end as int);
    let mut copy: Vec<char> = Vec::new();
    let mut i: usize = start;
    while i < end
        invariant
            start <= i <= end <= chars@.len(),
            copy@ == chars@.subrange(start as int, i as int),
        decreases end - i,
    {
        copy.push(chars[i]);
        i += 1;
        assert(copy@ =~= chars@.subrange(start as int, i as int));
    }
    let (from, to) = trim_range(copy.as_slice());
    assert(chars@.subrange(start + from, start + to) =~= item.subrange(from as int, to as int));
    (start + from, start + to)
}

/// Whether the issue carries the tag `tag_id` among the first `count` of
/// `existing`.
pub open spec fn carries(existing: Seq<Tag>, tag_id: i32) -> bool {
    exists|i: int| 0 <= i < existing.len() && (#[trigger] existing[i]).id == tag_id
}

/// Whether `tag_id` is one of `ids`.
pub open spec fn lists(ids: Seq<i32>, tag_id: i32) -> bool {
    exists|i: int| 0 <= i < ids.len() && #[trigger] ids[i] == tag_id
}

/// What a name that a form sends is: the tag of that name, whatever the
/// case of its letters, where the site knows one; else a new tag.
pub fn classify(taxonomy: &Taxonomy, name: &str) -> (input: TagInput)
    ensures
        match input {
            TagInput::Known(id) => taxonomy@.lower_map.contains_key(unicode_lowercase(name@))
                && taxonomy@.lower_map[unicode_lowercase(name@)] == id,
            TagInput::New(given) => !taxonomy@.lower_map.contains_key(unicode_lowercase(name@))
                && given@ == name@,
        },
{
    match taxonomy.find(name) {
        Some(id) => TagInput::Known(id),
        None => TagInput::New(name.to_owned()),
    }
}

/// Whether the issue carries the tag `tag_id`.
fn is_carried(existing: &Vec<Tag>, tag_id: i32) -> (found: bool)
    ensures
        found == carries(existing@, tag_id),
{
    let mut i: usize = 0;
    while i < existing.len()
        invariant
            i <= existing@.len(),
            forall|j: int| 0 <= j < i ==> existing@[j].id != tag_id,
        decreases existing@.len() - i,
    {
        if existing[i].id == tag_id {
            return true;
        }
        i += 1;
    }
    false
}

/// Whether `tag_id` is one of `ids`.
fn is_listed(ids: &Vec<i32>, tag_id: i32) -> (found: bool)
    ensures
        found == lists(ids@, tag_id),
{
    let mut i: usize = 0;
    while i < ids.len()
        invariant
            i <= ids@.len(),
            forall|j: int| 0 <= j < i ==> ids@[j] != tag_id,
        decreases ids@.len() - i,
    {
        if ids[i] == tag_id {
            return true;
        }
        i += 1;
    }
    false
}

impl TagChanges {
    /// What the tags `named`, which a form names, change of the tags
    /// `existing` of an issue: every tag that is named and not carried is
    /// inserted, and every tag that is carried and not named is removed.
    pub fn between(existing: &Vec<Tag>, named: &Vec<i32>) -> (changes: TagChanges)
        ensures
            forall|id: i32|
                lists(changes.to_insert@, id) <==> (lists(named@, id) && !carries(existing@, id)),
            forall|id: i32|
                lists(changes.to_remove@, id) <==> (carries(existing@, id) && !lists(named@, id)),
            forall|i: int, j: int|
                0 <= i < j < changes.to_insert@.len() ==> changes.to_insert@[i]
                    != changes.to_insert@[j],
    {
        let mut to_insert: Vec<i32> = Vec::new();
        let mut i: usize = 0;
        while i < named.len()
            invariant
                i <= named@.len(),
                forall|id: i32|
                    lists(to_insert@, id) <==> (lists(named@.take(i as int), id) && !carries(
                        existing@,
                        id,
                    )),
                forall|a: int, b: int|
                    0 <= a < b < to_insert@.len() ==> to_insert@[a] != to_insert@[b],
            decreases named@.len() - i,
        {
            let id = named[i];
            let ghost before = to_insert@;
            let ghost seen = named@.take(i as int);
            let ghost longer = named@.take(i as int + 1);
            let add = !is_carried(existing, id) && !is_listed(&to_insert, id);
            if add {
                to_insert.push(id);
            }
            proof {
                assert(longer =~= seen.push(id));
                assert forall|other: i32| lists(to_insert@, other) <==> (lists(longer, other)
                    && !carries(existing@, other)) by {
                    if lists(to_insert@, other) {
                        let k = choose|k: int| 0 <= k < to_insert@.len() && to_insert@[k] == other;
                        if k < before.len() {
                            assert(before[k] == other);
                            assert(lists(before, other));
                            let m = choose|m: int| 0 <= m < seen.len() && seen[m] == other;
                            assert(longer[m] == other);
                        } else {
                            assert(longer[i as int] == other);
                        }
                    }
                    if lists(longer, other) && !carries(existing@, other) {
                        let m = choose|m: int| 0 <= m < longer.len() && longer[m] == other;
                        if m < seen.len() {
                            assert(seen[m] == other);
                            assert(lists(before, other));
                            let k = choose|k: int| 0 <= k < before.len() && before[k] == other;
                            assert(to_insert@[k] == other);
                        } else {
                            if add {
                                assert(to_insert@[before.len() as int] == other);
                            } else {
                                assert(lists(before, other));
                                let k = choose|k: int| 0 <= k < before.len() && before[k]
                                    == other;
                                assert(to_insert@[k] == other);
                            }
                        }
                    }
                }
                assert forall|a: int, b: int| 0 <= a < b < to_insert@.len() implies to_insert@[a]
                    != to_insert@[b] by {
                    if b == before.len() {
                        assert(before[a] == to_insert@[a]);
                    }
                }
            }
            i += 1;
        }
        assert(named@.take(named@.len() as int) =~= named@);
        let mut to_remove: Vec<i32> = Vec::new();
        let mut j: usize = 0;
        while j < existing.len()
            invariant
                j <= existing@.len(),
                forall|id: i32|
                    lists(to_remove@, id) <==> (carries(existing@.take(j as int), id) && !lists(
                        named@,
                        id,
                    )),
            decreases existing@.len() - j,
        {
            let id = existing[j].id;
            let ghost before = to_remove@;
            let ghost seen = existing@.take(j as int);
            let ghost longer = existing@.take(j as int + 1);
            let remove = !is_listed(named, id);
            if remove {
                to_remove.push(id);
            }
            proof {
                assert(longer =~= seen.push(existing@[j as int]));
                assert forall|other: i32| lists(to_remove@, other) <==> (carries(longer, other)
                    && !lists(named@, other)) by {
                    if lists(to_remove@, other) {
                        let k = choose|k: int| 0 <= k < to_remove@.len() && to_remove@[k] == other;
                        if k < before.len() {
                            assert(before[k] == other);
                            assert(lists(before, other));
                            let m = choose|m: int| 0 <= m < seen.len() && seen[m].id == other;
                            assert(longer[m].id == other);
                        } else {
                            assert(longer[j as int].id == other);
                        }
                    }
                    if carries(longer, other) && !lists(named@, other) {
                        let m = choose|m: int| 0 <= m < longer.len() && longer[m].id == other;
                        if m < seen.len() {
                            assert(seen[m].id == other);
                            assert(lists(before, other));
                            let k = choose|k: int| 0 <= k < before.len() && before[k] == other;
                            assert(to_remove@[k] == other);
                        } else {
                            assert(to_remove@[before.len() as int] == other);
                        }
                    }
                }
            }
            j += 1;
        }
        assert(existing@.take(existing@.len() as int) =~= existing@);
        TagChanges { to_remove, to_insert }
    }

    /// Whether anything changes: only then does a revision tell of the
    /// tags.
    pub fn is_empty(&self) -> (empty: bool)
        ensures
            empty == (self.to_remove@.len() == 0 && self.to_insert@.len() == 0),
    {
        self.to_remove.len() == 0 && self.to_insert.len() == 0
    }
}

/// Whether the bytes `a` come before the bytes `b`, or are the same: byte
/// for byte, the first byte that differs decides, and a text comes before
/// every text that it starts.
pub open spec fn bytes_le(a: Seq<u8>, b: Seq<u8>) -> bool
    decreases a.len(),
{
    if a.len() == 0 {
        true
    } else if b.len() == 0 {
        false
    } else if a[0] != b[0] {
        a[0] < b[0]
    } else {
        bytes_le(a.drop_first(), b.drop_first())
    }
}

/// Whether the text `a` comes before the text `b` or is the same, in the
/// order of their bytes.
pub open spec fn text_le(a: Seq<char>, b: Seq<char>) -> bool {
    bytes_le(encode_utf8(a), encode_utf8(b))
}

/// Whether the key `a` comes before the key `b` or is the same: by their
/// texts, and by their numbers where the texts are the same.
pub open spec fn key_le(a: (String, usize), b: (String, usize)) -> bool {
    if a.0@ == b.0@ {
        a.1 <= b.1
    } else {
        text_le(a.0@, b.0@)
    }
}

/// `<[String]>::sort`: the same texts, in the order of their bytes.
#[verifier::external_body]
fn sort_texts(names: &mut Vec<String>)
    ensures
        texts(final(names)@).to_multiset() == texts(old(names)@).to_multiset(),
        forall|i: int, j: int|
            0 <= i <= j < final(names)@.len() ==> text_le(final(names)@[i]@, final(names)@[j]@),
{
    names.sort();
}

/// `<[(String, usize)]>::sort`: the same keys, in the order of their texts
/// and, among keys of the same text, of their numbers.
#[verifier::external_body]
fn sort_keys(keys: &mut Vec<(String, usize)>)
    ensures
        final(keys)@.len() == old(keys)@.len(),
        forall|i: int, j: int|
            0 <= i <= j < final(keys)@.len() ==> key_le(final(keys)@[i], final(keys)@[j]),
        forall|i: int|
            0 <= i < final(keys)@.len() ==> exists|j: int|
                0 <= j < old(keys)@.len() && old(keys)@[j].1 == (#[trigger] final(keys)@[i]).1
                    && old(keys)@[j].0@ == final(keys)@[i].0@,
        forall|j: int|
            0 <= j < old(keys)@.len() ==> exists|i: int|
                0 <= i < final(keys)@.len() && (#[trigger] old(keys)@[j]).1 == final(keys)@[i].1
                    && old(keys)@[j].0@ == final(keys)@[i].0@,
{
    keys.sort();
}

/// How a revision tells of the tags `names`: in the order of their bytes,
/// with `, ` between them; nothing where there are none.
pub fn new_tags_summary(names: Vec<String>) -> (summary: Option<String>)
    ensures
        (summary is None) == (names@.len() == 0),
        summary matches Some(text) ==> exists|sorted: Seq<String>|
            {
                &&& texts(sorted).to_multiset() == texts(names@).to_multiset()
                &&& forall|i: int, j: int|
                    0 <= i <= j < sorted.len() ==> text_le(sorted[i]@, sorted[j]@)
                &&& #[trigger] joined(texts(sorted), ", "@) == text@
            },
{
    if names.len() == 0 {
        return None;
    }
    let mut sorted = names;
    sort_texts(&mut sorted);
    let summary = join(&sorted, ", ");
    proof {
        assert(texts(sorted@) =~= Seq::new(sorted@.len(), |i: int| sorted@[i]@));
        assert(joined(texts(sorted@), ", "@) == summary@);
    }
    Some(summary)
}

/// Whether `keys` put the tags `existing` in the order of their names in
/// lower case: there is one key for each tag, with the name of the tag in
/// lower case and its place among the tags, and the keys stand in the
/// order of their texts and, among keys of the same text, of their places.
pub open spec fn is_name_order(existing: Seq<Tag>, keys: Seq<(String, usize)>) -> bool {
    &&& keys.len() == existing.len()
    &&& forall|k: int|
        0 <= k < keys.len() ==> (#[trigger] keys[k]).1 < existing.len() && keys[k].0@
            == unicode_lowercase(existing[keys[k].1 as int].name@)
    &&& forall|j: int| 0 <= j < existing.len() ==> #[trigger] has_key(keys, j)
    &&& forall|i: int, j: int| 0 <= i <= j < keys.len() ==> key_le(keys[i], keys[j])
}

/// Whether one of `keys` stands for the place `place`.
pub open spec fn has_key(keys: Seq<(String, usize)>, place: int) -> bool {
    exists|k: int| 0 <= k < keys.len() && (#[trigger] keys[k]).1 == place
}

/// The names of the tags `existing` in the order of `keys`.
pub open spec fn names_in_order(existing: Seq<Tag>, keys: Seq<(String, usize)>) -> Seq<Seq<char>> {
    Seq::new(keys.len(), |k: int| existing[keys[k].1 as int].name@)
}

/// How a revision tells of the tags that an issue carried: by their names,
/// in the order of their names in lower case and, among tags of the same
/// name in lower case, in the order in which the issue carried them, with
/// `, ` between them; nothing where there are none.
pub fn old_tags_summary(existing: &Vec<Tag>) -> (summary: Option<String>)
    ensures
        (summary is None) == (existing@.len() == 0),
        summary matches Some(text) ==> exists|keys: Seq<(String, usize)>|
            is_name_order(existing@, keys) && #[trigger] joined(
                names_in_order(existing@, keys),
                ", "@,
            ) == text@,
{
    if existing.len() == 0 {
        return None;
    }
    let mut keys: Vec<(String, usize)> = Vec::new();
    let mut i: usize = 0;
    while i < existing.len()
        invariant
            i <= existing@.len(),
            keys@.len() == i,
            forall|k: int|
                0 <= k < i ==> (#[trigger] keys@[k]).1 == k && keys@[k].0@ == unicode_lowercase(
                    existing@[k].name@,
                ),
        decreases existing@.len() - i,
    {
        keys.push((to_lowercase(existing[i].name.as_str()), i));
        i += 1;
    }
    let ghost unsorted = keys@;
    sort_keys(&mut keys);
    proof {
        assert forall|k: int| 0 <= k < keys@.len() implies (#[trigger] keys@[k]).1
            < existing@.len() && keys@[k].0@ == unicode_lowercase(
            existing@[keys@[k].1 as int].name@,
        ) by {
            let j = choose|j: int|
                0 <= j < unsorted.len() && unsorted[j].1 == keys@[k].1 && unsorted[j].0@
                    == keys@[k].0@;
            assert(unsorted[j].1 == j);
        }
        assert forall|j: int| 0 <= j < existing@.len() implies #[trigger] has_key(keys@, j) by {
            assert(unsorted[j].1 == j);
            let k = choose|k: int|
                0 <= k < keys@.len() && unsorted[j].1 == keys@[k].1 && unsorted[j].0@
                    == keys@[k].0@;
            assert(keys@[k].1 == j);
        }
        assert(is_name_order(existing@, keys@));
    }
    let mut names: Vec<String> = Vec::new();
    let mut k: usize = 0;
    while k < keys.len()
        invariant
            k <= keys@.len(),
            names@.len() == k,
            forall|a: int|
                0 <= a < keys@.len() ==> (#[trigger] keys@[a]).1 < existing@.len(),
            forall|a: int|
                0 <= a < k ==> (#[trigger] names@[a])@ == existing@[keys@[a].1 as int].name@,
        decreases keys@.len() - k,
    {
        names.push(existing[keys[k].1].name.clone());
        k += 1;
    }
    let summary = join(&names, ", ");
    proof {
        assert(Seq::new(names@.len(), |i: int| names@[i]@) =~= names_in_order(existing@, keys@));
        assert(joined(names_in_order(existing@, keys@), ", "@) == summary@);
    }
    Some(summary)
}

} // verus!
