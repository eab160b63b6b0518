//! The tags of a site and the groups they are sorted into.

use crate::text::to_lowercase;
use crate::text::unicode_lowercase;
use crate::time::Timestamp;
use std::collections::HashMap;
use std::collections::HashSet;
use vstd::prelude::*;
use vstd::std_specs::iter::IteratorSpec;

verus! {

broadcast use vstd::std_specs::hash::group_hash_axioms;

/// A group of tags.
#[derive(Debug, PartialEq, Eq)]
pub struct TagGroup {
    pub id: i32,
    pub name: String,
    /// Whether an issue can carry only one tag of the group.
    pub single_select: bool,
    pub color: String,
    pub created_at: Timestamp,
}

/// A tag as the taxonomy knows it.
#[derive(Debug, PartialEq, Eq)]
pub struct TaxonomyTag {
    pub name: String,
    pub color: Option<String>,
}

/// A group as the taxonomy knows it, with the numbers of its tags.
#[derive(Debug, PartialEq, Eq)]
pub struct TaxonomyGroup {
    pub name: String,
    pub single_select: bool,
    pub color: Option<String>,
    pub tags: HashSet<i32>,
}

/// All tags of a site: each by its number, the number of each by its name
/// in lower case, the numbers of the tags without a group, and the groups
/// by their numbers.
#[derive(Debug)]
pub struct Taxonomy {
    pub tags: HashMap<i32, TaxonomyTag>,
    /// Lower-case names and the tags they name; of two entries with the same
    /// name the later one counts.
    pub lower_map: Vec<(String, i32)>,
    pub ungrouped_tags: HashSet<i32>,
    pub tag_groups: HashMap<i32, TaxonomyGroup>,
}

/// The group of a tag, as a row of the database tells it.
#[derive(Debug, PartialEq, Eq)]
pub struct GroupOfTag {
    pub id: i32,
    pub name: String,
    pub single_select: bool,
    pub color: Option<String>,
}

/// A tag and its group, as a row of the database tells them.
#[derive(Debug, PartialEq, Eq)]
pub struct TagAndGroup {
    pub tag_id: i32,
    pub tag: String,
    pub tag_color: Option<String>,
    pub group: Option<GroupOfTag>,
}

/// The model of an optional text.
pub open spec fn optional_text(text: Option<String>) -> Option<Seq<char>> {
    match text {
        Some(t) => Some(t@),
        None => None,
    }
}

pub ghost struct TaxonomyTagView {
    pub name: Seq<char>,
    pub color: Option<Seq<char>>,
}

pub ghost struct TaxonomyGroupView {
    pub name: Seq<char>,
    pub single_select: bool,
    pub color: Option<Seq<char>>,
    pub tags: Set<i32>,
}

pub ghost struct TaxonomyView {
    pub tags: Map<i32, TaxonomyTagView>,
    pub lower_map: Map<Seq<char>, i32>,
    pub ungrouped_tags: Set<i32>,
    pub tag_groups: Map<i32, TaxonomyGroupView>,
}

impl View for TaxonomyTag {
    type V = TaxonomyTagView;

    open spec fn view(&self) -> TaxonomyTagView {
        TaxonomyTagView { name: self.name@, color: optional_text(self.color) }
    }
}

impl View for TaxonomyGroup {
    type V = TaxonomyGroupView;

    open spec fn view(&self) -> TaxonomyGroupView {
        TaxonomyGroupView {
            name: self.name@,
            single_select: self.single_select,
            color: optional_text(self.color),
            tags: self.tags@,
        }
    }
}

/// The tags that the first `count` entries of a list of names name.
pub open spec fn named_tags(entries: Seq<(String, i32)>, count: int) -> Map<Seq<char>, i32>
    decreases count,
{
    if count <= 0 || count > entries.len() {
        Map::empty()
    } else {
        named_tags(entries, count - 1).insert(entries[count - 1].0@, entries[count - 1].1)
    }
}

impl View for Taxonomy {
    type V = TaxonomyView;

    open spec fn view(&self) -> TaxonomyView {
        TaxonomyView {
            tags: self.tags@.map_values(|tag: TaxonomyTag| tag@),
            lower_map: named_tags(self.lower_map@, self.lower_map@.len() as int),
            ungrouped_tags: self.ungrouped_tags@,
            tag_groups: self.tag_groups@.map_values(|group: TaxonomyGroup| group@),
        }
    }
}

/// The taxonomy without any tag.
pub open spec fn empty_taxonomy() -> TaxonomyView {
    TaxonomyView {
        tags: Map::empty(),
        lower_map: Map::empty(),
        ungrouped_tags: Set::empty(),
        tag_groups: Map::empty(),
    }
}

/// The taxonomy with one more row: the tag is known by its number and by
/// its name in lower case, and stands in its group, which is made of the
/// row where no earlier row named it, or among the tags without a group.
pub open spec fn with_row(taxonomy: TaxonomyView, row: TagAndGroup) -> TaxonomyView {
    let tags = taxonomy.tags.insert(
        row.tag_id,
        TaxonomyTagView { name: row.tag@, color: optional_text(row.tag_color) },
    );
    let lower_map = taxonomy.lower_map.insert(unicode_lowercase(row.tag@), row.tag_id);
    match row.group {
        Some(of) => {
            let known = if taxonomy.tag_groups.contains_key(of.id) {
                taxonomy.tag_groups[of.id]
            } else {
                TaxonomyGroupView {
                    name: of.name@,
                    single_select: of.single_select,
                    color: optional_text(of.color),
                    tags: Set::empty(),
                }
            };
            TaxonomyView {
                tags,
                lower_map,
                ungrouped_tags: taxonomy.ungrouped_tags,
                tag_groups: taxonomy.tag_groups.insert(
                    of.id,
                    TaxonomyGroupView { tags: known.tags.insert(row.tag_id), ..known },
                ),
            }
        },
        None => TaxonomyView {
            tags,
            lower_map,
            ungrouped_tags: taxonomy.ungrouped_tags.insert(row.tag_id),
            tag_groups: taxonomy.tag_groups,
        },
    }
}

/// The taxonomy that the first `count` rows make.
pub open spec fn taxonomy_of(rows: Seq<TagAndGroup>, count: int) -> TaxonomyView
    decreases count,
{
    if count <= 0 || count > rows.len() {
        empty_taxonomy()
    } else {
        with_row(taxonomy_of(rows, count - 1), rows[count - 1])
    }
}

/// Whether one of `tags` has the name `name`.
pub open spec fn is_tag_name(tags: Map<i32, TaxonomyTag>, name: Seq<char>) -> bool {
    exists|id: i32| #[trigger] tags.contains_key(id) && tags[id].name@ == name
}

/// Whether `name` is one of `names`.
pub open spec fn is_listed(names: Seq<String>, name: Seq<char>) -> bool {
    exists|i: int| 0 <= i < names.len() && (#[trigger] names[i])@ == name
}

impl TaxonomyGroup {
    /// A group without tags.
    pub fn new(name: String, color: Option<String>, single_select: bool) -> (group: TaxonomyGroup)
        ensures
            group.name == name,
            group.color == color,
            group.single_select == single_select,
            group.tags@ == Set::<i32>::empty(),
    {
        TaxonomyGroup { name, single_select, color, tags: HashSet::new() }
    }
}

impl Taxonomy {
    /// The taxonomy without any tag.
    pub fn new() -> (taxonomy: Taxonomy)
        ensures
            taxonomy@ == empty_taxonomy(),
    {
        let taxonomy = Taxonomy {
            tags: HashMap::new(),
            lower_map: Vec::new(),
            ungrouped_tags: HashSet::new(),
            tag_groups: HashMap::new(),
        };
        assert(taxonomy@.tags =~= Map::<i32, TaxonomyTagView>::empty());
        assert(taxonomy@.tag_groups =~= Map::<i32, TaxonomyGroupView>::empty());
        taxonomy
    }

    /// Adds the tag of one row.
    pub fn add(&mut self, row: TagAndGroup)
        ensures
            final(self)@ == with_row(old(self)@, row),
    {
        let ghost before = self@;
        let ghost tags_before = self.tags@;
        let ghost groups_before = self.tag_groups@;
        let ghost names_before = self.lower_map@;
        let TagAndGroup { tag_id, tag, tag_color, group } = row;
        let lower = to_lowercase(tag.as_str());
        self.lower_map.push((lower, tag_id));
        proof {
            let names = self.lower_map@;
            assert(names.len() == names_before.len() + 1);
            lemma_named_tags_prefix(names_before, names, names_before.len() as int);
        }
        match group {
            Some(of) => {
                let GroupOfTag { id, name, single_select, color } = of;
                let mut known = match self.tag_groups.remove(&id) {
                    Some(found) => found,
                    None => TaxonomyGroup::new(name, color, single_select),
                };
                known.tags.insert(tag_id);
                let ghost grown = known@;
                let ghost removed = self.tag_groups@;
                self.tag_groups.insert(id, known);
                assert(self.tag_groups@.map_values(|group: TaxonomyGroup| group@)
                    =~= groups_before.map_values(|group: TaxonomyGroup| group@).insert(id, grown));
            },
            None => {
                self.ungrouped_tags.insert(tag_id);
            },
        }
        let made = TaxonomyTag { name: tag, color: tag_color };
        let ghost made_view = made@;
        self.tags.insert(tag_id, made);
        assert(self.tags@.map_values(|tag: TaxonomyTag| tag@) =~= tags_before.map_values(
            |tag: TaxonomyTag| tag@,
        ).insert(tag_id, made_view));
    }

    /// The taxonomy that the rows of the database make, read in order.
    pub fn from_rows(rows: Vec<TagAndGroup>) -> (taxonomy: Taxonomy)
        ensures
            taxonomy@ == taxonomy_of(rows@, rows@.len() as int),
    {
        let ghost all = rows@;
        let mut remaining = rows;
        let mut reversed: Vec<TagAndGroup> = Vec::new();
        while remaining.len() > 0
            invariant
                remaining@.len() + reversed@.len() == all.len(),
                forall|i: int|
                    0 <= i < remaining@.len() ==> remaining@[i] == all[i],
                forall|i: int|
                    0 <= i < reversed@.len() ==> reversed@[i] == all[all.len() - 1 - i],
            decreases remaining@.len(),
        {
            let row = remaining.pop().unwrap();
            reversed.push(row);
        }
        let mut taxonomy = Taxonomy::new();
        while reversed.len() > 0
            invariant
                reversed@.len() <= all.len(),
                forall|i: int|
                    0 <= i < reversed@.len() ==> reversed@[i] == all[all.len() - 1 - i],
                taxonomy@ == taxonomy_of(all, all.len() - reversed@.len()),
            decreases reversed@.len(),
        {
            let row = reversed.pop().unwrap();
            taxonomy.add(row);
        }
        taxonomy
    }

    /// The number of the tag that `name` names, whatever the case of its
    /// letters.
    pub fn find(&self, name: &str) -> (tag_id: Option<i32>)
        ensures
            match tag_id {
                Some(id) => self@.lower_map.contains_key(unicode_lowercase(name@))
                    && self@.lower_map[unicode_lowercase(name@)] == id,
                None => !self@.lower_map.contains_key(unicode_lowercase(name@)),
            },
    {
        let lower = to_lowercase(name);
        let mut i: usize = self.lower_map.len();
        while i > 0
            invariant
                i <= self.lower_map@.len(),
                lower@ == unicode_lowercase(name@),
                forall|j: int| i <= j < self.lower_map@.len() ==> self.lower_map@[j].0@ != lower@,
            decreases i,
        {
            i -= 1;
            if crate::text::same_text(self.lower_map[i].0.as_str(), lower.as_str()) {
                proof {
                    lemma_named_tags_last(self.lower_map@, self.lower_map@.len() as int, i as int);
                }
                return Some(self.lower_map[i].1);
            }
        }
        proof {
            lemma_named_tags_absent(self.lower_map@, self.lower_map@.len() as int, lower@);
        }
        None
    }

    /// The names of all tags, in no particular order: one name for each
    /// tag.
    pub fn suggested_tags(&self) -> (names: Vec<String>)
        ensures
            names@.len() == self.tags@.dom().len(),
            forall|i: int| 0 <= i < names@.len() ==> is_tag_name(self.tags@, (#[trigger] names@[i])@),
            forall|id: i32| #[trigger]
                self.tags@.contains_key(id) ==> is_listed(names@, self.tags@[id].name@),
    {
        let mut names: Vec<String> = Vec::new();
        for tag in it: self.tags.values()
            invariant
                it.seq().unref().to_set() == self.tags@.values(),
                it.seq().len() == self.tags@.dom().len(),
                names@.len() == it.index(),
                forall|i: int|
                    0 <= i < names@.len() ==> (#[trigger] names@[i])@ == it.seq().unref()[i].name@,
        {
            names.push(tag.name.clone());
        }
        proof {
            let all = vstd::std_specs::hash::spec_values_iter(&self.tags).remaining().unref();
            assert forall|i: int| 0 <= i < names@.len() implies is_tag_name(
                self.tags@,
                (#[trigger] names@[i])@,
            ) by {
                let tag = all[i];
                assert(all.to_set().contains(tag));
                assert(self.tags@.values().contains(tag));
                let id = choose|id: i32| self.tags@.contains_key(id) && self.tags@[id] == tag;
                assert(self.tags@.contains_key(id) && self.tags@[id].name@ == names@[i]@);
            }
            assert forall|id: i32| #[trigger] self.tags@.contains_key(id) implies is_listed(
                names@,
                self.tags@[id].name@,
            ) by {
                let tag = self.tags@[id];
                assert(self.tags@.values().contains(tag));
                assert(all.to_set().contains(tag));
                let i = choose|i: int| 0 <= i < all.len() && all[i] == tag;
                assert(names@[i]@ == tag.name@);
            }
        }
        names
    }
}

/// The tags that the first entries of a list name do not depend on the
/// entries after them.
pub proof fn lemma_named_tags_prefix(
    entries: Seq<(String, i32)>,
    longer: Seq<(String, i32)>,
    count: int,
)
    requires
        0 <= count <= entries.len() <= longer.len(),
        forall|i: int| 0 <= i < entries.len() ==> entries[i] == longer[i],
    ensures
        named_tags(longer, count) == named_tags(entries, count),
    decreases count,
{
    if count > 0 {
        lemma_named_tags_prefix(entries, longer, count - 1);
    }
}

/// A name that stands at `at` and nowhere after it names the tag at `at`.
pub proof fn lemma_named_tags_last(entries: Seq<(String, i32)>, count: int, at: int)
    requires
        0 <= at < count <= entries.len(),
        forall|j: int| at < j < count ==> entries[j].0@ != entries[at].0@,
    ensures
        named_tags(entries, count).contains_key(entries[at].0@),
        named_tags(entries, count)[entries[at].0@] == entries[at].1,
    decreases count,
{
    if at < count - 1 {
        lemma_named_tags_last(entries, count - 1, at);
    }
}

/// A name that stands nowhere names no tag.
pub proof fn lemma_named_tags_absent(entries: Seq<(String, i32)>, count: int, name: Seq<char>)
    requires
        0 <= count <= entries.len(),
        forall|j: int| 0 <= j < count ==> entries[j].0@ != name,
    ensures
        !named_tags(entries, count).contains_key(name),
    decreases count,
{
    if count > 0 {
        lemma_named_tags_absent(entries, count - 1, name);
    }
}

} // verus!
