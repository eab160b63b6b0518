//! The history of an issue: its revisions and what each changed.

use crate::schema::accounts::User;
use crate::time::Timestamp;
use vstd::prelude::*;

verus! {

/// One revision of an issue.
#[derive(Clone, Copy, Debug, PartialEq, Eq, Structural)]
pub struct IssueRevision {
    pub id: i64,
    pub issue_id: i64,
    pub author_id: i64,
    pub created_at: Timestamp,
}

/// One property that a revision changed, with its value before and after.
/// `V` is the form in which values are stored.
#[derive(Debug, PartialEq, Eq)]
pub struct IssueRevisionChange<V> {
    pub id: i64,
    pub property: String,
    pub issue_revision_id: i64,
    pub old_value: Option<V>,
    pub new_value: Option<V>,
}

/// The value of a property before and after a revision.
#[derive(Debug, PartialEq, Eq)]
pub struct IssueRevisionViewChange<V> {
    pub old_value: Option<V>,
    pub new_value: Option<V>,
}

/// A revision as a page shows it, with its author and its changes by the
/// names of the properties.
#[derive(Debug, PartialEq, Eq)]
pub struct IssueRevisionView<V> {
    pub id: i64,
    pub issue_id: i64,
    pub author: User,
    pub created_at: Timestamp,
    pub changes: Vec<(String, IssueRevisionViewChange<V>)>,
}

/// A revision and one of its changes, or none, as a row of the database
/// tells them.
#[derive(Debug, PartialEq, Eq)]
pub struct RevisionRow<V> {
    pub id: i64,
    pub author_id: i64,
    pub author_display_name: Option<String>,
    pub author_username: String,
    pub created_at: Timestamp,
    pub property: Option<String>,
    pub old_value: Option<V>,
    pub new_value: Option<V>,
}

/// Whether `view` is the revision that `row` starts.
pub open spec fn starts_revision<V>(
    view: IssueRevisionView<V>,
    issue_id: i64,
    row: RevisionRow<V>,
) -> bool {
    &&& view.id == row.id
    &&& view.issue_id == issue_id
    &&& view.author.id == row.author_id
    &&& view.author.username == row.author_username
    &&& view.author.display_name == row.author_display_name
    &&& view.created_at == row.created_at
    &&& match row.property {
        Some(property) => view.changes@.len() == 1 && view.changes@[0].0 == property
            && view.changes@[0].1.old_value == row.old_value && view.changes@[0].1.new_value
            == row.new_value,
        None => view.changes@.len() == 0,
    }
}

/// The places among the first `count` rows at which a revision starts: the
/// first row, and every row whose revision is not that of the row before.
pub open spec fn revision_starts<V>(rows: Seq<RevisionRow<V>>, count: int) -> Seq<int>
    decreases count,
{
    if count <= 0 || count > rows.len() {
        Seq::empty()
    } else if count == 1 || rows[count - 1].id != rows[count - 2].id {
        revision_starts(rows, count - 1).push(count - 1)
    } else {
        revision_starts(rows, count - 1)
    }
}

impl<V> IssueRevisionView<V> {
    /// The revisions of the issue `issue_id` that `rows` tell of, in the
    /// order of the rows. Rows of one revision follow one another; a
    /// revision shows the change of its first row and no other.
    pub fn list_for(issue_id: i64, rows: Vec<RevisionRow<V>>) -> (revisions: Vec<
        IssueRevisionView<V>,
    >)
        ensures
            revisions@.len() == revision_starts(rows@, rows@.len() as int).len(),
            forall|i: int|
                0 <= i < revisions@.len() ==> starts_revision(
                    #[trigger] revisions@[i],
                    issue_id,
                    rows@[revision_starts(rows@, rows@.len() as int)[i]],
                ),
    {
        let ghost all = rows@;
        let mut remaining = rows;
        let mut reversed: Vec<RevisionRow<V>> = Vec::new();
        while remaining.len() > 0
            invariant
                remaining@.len() + reversed@.len() == all.len(),
                forall|i: int| 0 <= i < remaining@.len() ==> remaining@[i] == all[i],
                forall|i: int|
                    0 <= i < reversed@.len() ==> reversed@[i] == all[all.len() - 1 - i],
            decreases remaining@.len(),
        {
            let row = remaining.pop().unwrap();
            reversed.push(row);
        }
        let mut revisions: Vec<IssueRevisionView<V>> = Vec::new();
        let mut last_id: i64 = 0;
        while reversed.len() > 0
            invariant
                reversed@.len() <= all.len(),
                forall|i: int|
                    0 <= i < reversed@.len() ==> reversed@[i] == all[all.len() - 1 - i],
                revisions@.len() == revision_starts(all, all.len() - reversed@.len()).len(),
                forall|i: int|
                    0 <= i < revisions@.len() ==> starts_revision(
                        #[trigger] revisions@[i],
                        issue_id,
                        all[revision_starts(all, all.len() - reversed@.len())[i]],
                    ),
                forall|i: int|
                    0 <= i < revisions@.len() ==> 0 <= #[trigger] revision_starts(
                        all,
                        all.len() - reversed@.len(),
                    )[i] < all.len() - reversed@.len(),
                reversed@.len() < all.len() ==> last_id == all[all.len() - reversed@.len() - 1].id,
                reversed@.len() < all.len() ==> revisions@.len() > 0,
            decreases reversed@.len(),
        {
            let ghost at = all.len() - reversed@.len();
            let ghost before = revision_starts(all, at);
            let ghost listed = revisions@;
            let row = reversed.pop().unwrap();
            assert(row == all[at]);
            let id = row.id;
            if revisions.len() == 0 || last_id != id {
                let RevisionRow {
                    id,
                    author_id,
                    author_display_name,
                    author_username,
                    created_at,
                    property,
                    old_value,
                    new_value,
                } = row;
                let mut changes: Vec<(String, IssueRevisionViewChange<V>)> = Vec::new();
                match property {
                    Some(name) => {
                        changes.push((name, IssueRevisionViewChange { old_value, new_value }));
                    },
                    None => {},
                }
                let view = IssueRevisionView {
                    id,
                    issue_id,
                    author: User {
                        id: author_id,
                        username: author_username,
                        display_name: author_display_name,
                    },
                    created_at,
                    changes,
                };
                revisions.push(view);
                proof {
                    let after = revision_starts(all, at + 1);
                    assert(after == before.push(at));
                    assert forall|i: int| 0 <= i < revisions@.len() implies starts_revision(
                        #[trigger] revisions@[i],
                        issue_id,
                        all[after[i]],
                    ) by {
                        if i < listed.len() {
                            assert(revisions@[i] == listed[i]);
                        }
                    }
                }
            } else {
                proof {
                    assert(revision_starts(all, at + 1) == before);
                }
            }
            last_id = id;
        }
        revisions
    }
}

} // verus!
