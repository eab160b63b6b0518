//! Issues and the lists of them that a page asks for.

use crate::schema::accounts::DatabaseError;
use crate::schema::accounts::SaveAction;
use crate::schema::accounts::User;
use crate::text::decimal_text;
use crate::text::i64_to_string;
use crate::text::join;
use crate::text::joined;
use crate::text::usize_to_string;
use crate::time::Timestamp;
use std::collections::HashMap;
use std::collections::HashSet;
use vstd::prelude::*;
use vstd::string::StringExecFns;

verus! {

broadcast use vstd::std_specs::hash::group_hash_axioms;

/// An issue.
#[derive(Debug, PartialEq, Eq)]
pub struct Issue {
    /// The number of the issue; 0 until it is stored.
    pub id: i64,
    pub author_id: i64,
    pub summary: String,
    pub description: Option<String>,
    pub project_id: Option<i64>,
    /// The issue that this one is a part of.
    pub parent_id: Option<i64>,
    pub current_revision_id: Option<i64>,
    /// Whether an open issue blocks this one.
    pub blocked: bool,
    pub created_at: Timestamp,
    pub started_at: Option<Timestamp>,
    pub completed_at: Option<Timestamp>,
}

/// An issue as a page shows it, with its author and its project by name.
#[derive(Debug, PartialEq, Eq)]
pub struct IssueView {
    pub id: i64,
    pub author: User,
    pub summary: String,
    pub description: Option<String>,
    pub project_slug: Option<String>,
    pub project_name: Option<String>,
    pub parent_id: Option<i64>,
    pub blocked: bool,
    pub current_revision_id: Option<i64>,
    pub created_at: Timestamp,
    pub started_at: Option<Timestamp>,
    pub completed_at: Option<Timestamp>,
}

/// One page of a list of issues, and how many issues the whole list has.
#[derive(Debug, PartialEq, Eq)]
pub struct IssueQueryResults {
    pub issues: Vec<Issue>,
    pub total_count: usize,
    pub start_at: usize,
    pub page_size: usize,
}

/// The issues that are stored under their numbers once the first `count`
/// rows are read: of two rows with the same number the later one stays.
pub open spec fn stored_issues(rows: Seq<Issue>, count: int) -> Map<i64, Issue>
    decreases count,
{
    if count <= 0 || count > rows.len() {
        Map::empty()
    } else {
        stored_issues(rows, count - 1).insert(rows[count - 1].id, rows[count - 1])
    }
}

/// The issues above `id`, outermost first, found among `stored` in at most
/// `steps` steps: the issue `id` itself unless it is `first`, and before
/// it what stands above its parent. Each issue is taken out as it is
/// found, so that a circle of parents ends where it began.
pub open spec fn ancestors_within(
    stored: Map<i64, Issue>,
    id: i64,
    first: i64,
    steps: nat,
) -> Seq<Issue>
    decreases steps,
{
    if steps == 0 || !stored.contains_key(id) {
        Seq::empty()
    } else {
        let issue = stored[id];
        let above = match issue.parent_id {
            Some(parent) => ancestors_within(stored.remove(id), parent, first, (steps - 1) as nat),
            None => Seq::empty(),
        };
        if id != first {
            above.push(issue)
        } else {
            above
        }
    }
}

/// The issues that `first` is a part of, outermost first, as far as they
/// are found among `stored`.
pub open spec fn ancestors(stored: Map<i64, Issue>, first: i64) -> Seq<Issue> {
    ancestors_within(stored, first, first, stored.dom().len())
}

/// The place in `pending` of the issue to look at next: the last one that
/// is not done yet, or -1 where all are done.
pub open spec fn next_pending(pending: Seq<i64>, done: Set<i64>) -> int
    decreases pending.len(),
{
    if pending.len() == 0 {
        -1
    } else if !done.contains(pending.last()) {
        pending.len() - 1
    } else {
        next_pending(pending.drop_last(), done)
    }
}

/// The work of bringing up to date which issues are blocked, after the
/// state of some issues changed: the issues still to look at, and those
/// looked at already, which are not looked at again.
pub struct BlockedUpdates {
    already_updated: HashSet<i64>,
    issues_to_update: Vec<i64>,
}

impl BlockedUpdates {
    /// The issues that were looked at.
    pub closed spec fn done(&self) -> Set<i64> {
        self.already_updated@
    }

    /// The issues still to look at; the last is looked at first.
    pub closed spec fn pending(&self) -> Seq<i64> {
        self.issues_to_update@
    }

    /// The work that starts from the issues `issue_ids`.
    pub fn new(issue_ids: Vec<i64>) -> (work: BlockedUpdates)
        ensures
            work.pending() == issue_ids@,
            work.done() == Set::<i64>::empty(),
    {
        BlockedUpdates { already_updated: HashSet::new(), issues_to_update: issue_ids }
    }

    /// The next issue whose dependents have to be brought up to date, if
    /// there is one: the last pending issue that was not looked at yet. It
    /// counts as looked at from now on, and it and all that stood after it
    /// are pending no longer.
    pub fn next(&mut self) -> (issue_id: Option<i64>)
        ensures
            ({
                let at = next_pending(old(self).pending(), old(self).done());
                match issue_id {
                    Some(id) => {
                        &&& 0 <= at < old(self).pending().len()
                        &&& id == old(self).pending()[at]
                        &&& final(self).pending() == old(self).pending().take(at)
                        &&& final(self).done() == old(self).done().insert(id)
                    },
                    None => {
                        &&& at == -1
                        &&& final(self).pending().len() == 0
                        &&& final(self).done() == old(self).done()
                    },
                }
            }),
    {
        loop
            invariant
                self.already_updated@ == old(self).already_updated@,
                self.issues_to_update@.len() <= old(self).issues_to_update@.len(),
                self.issues_to_update@ == old(self).issues_to_update@.take(
                    self.issues_to_update@.len() as int,
                ),
                next_pending(self.issues_to_update@, self.already_updated@) == next_pending(
                    old(self).issues_to_update@,
                    old(self).already_updated@,
                ),
            decreases self.issues_to_update@.len(),
        {
            let ghost before = self.issues_to_update@;
            match self.issues_to_update.pop() {
                Some(id) => {
                    assert(self.issues_to_update@ =~= before.drop_last());
                    assert(self.issues_to_update@ =~= old(self).issues_to_update@.take(
                        self.issues_to_update@.len() as int,
                    ));
                    if !self.already_updated.contains(&id) {
                        self.already_updated.insert(id);
                        return Some(id);
                    }
                },
                None => {
                    return None;
                },
            }
        }
    }

    /// Notes that the state of the issue `issue_id` changed, so that its
    /// dependents have to be looked at too.
    pub fn changed(&mut self, issue_id: i64)
        ensures
            final(self).pending() == old(self).pending().push(issue_id),
            final(self).done() == old(self).done(),
    {
        self.issues_to_update.push(issue_id);
    }
}

impl Issue {
    /// A new issue made at `now`: not stored yet, open, not started, not
    /// blocked, without a revision.
    pub fn new_at(
        author_id: i64,
        summary: String,
        description: Option<String>,
        parent_id: Option<i64>,
        project_id: Option<i64>,
        now: Timestamp,
    ) -> (issue: Issue)
        ensures
            issue == (Issue {
                id: 0,
                author_id,
                summary,
                description,
                project_id,
                parent_id,
                current_revision_id: None,
                blocked: false,
                created_at: now,
                started_at: None,
                completed_at: None,
            }),
    {
        Issue {
            id: 0,
            author_id,
            summary,
            description,
            project_id,
            parent_id,
            current_revision_id: None,
            blocked: false,
            created_at: now,
            started_at: None,
            completed_at: None,
        }
    }

    /// A new issue: not stored yet, open, not started, not blocked, without
    /// a revision.
    pub fn new(
        author_id: i64,
        summary: String,
        description: Option<String>,
        parent_id: Option<i64>,
        project_id: Option<i64>,
    ) -> (issue: Issue)
        ensures
            issue == (Issue {
                id: 0,
                author_id,
                summary,
                description,
                project_id,
                parent_id,
                current_revision_id: None,
                blocked: false,
                created_at: issue.created_at,
                started_at: None,
                completed_at: None,
            }),
    {
        Issue::new_at(author_id, summary, description, parent_id, project_id, Timestamp::now())
    }

    /// Whether the issue has to be inserted or updated.
    pub fn save_action(&self) -> (action: SaveAction)
        ensures
            (action == SaveAction::Insert) == (self.id == 0),
    {
        if self.id == 0 {
            SaveAction::Insert
        } else {
            SaveAction::Update
        }
    }

    /// Takes the number and the moment that the database gave the issue when
    /// it was inserted.
    pub fn stored_as(&mut self, id: i64, created_at: Timestamp)
        ensures
            *final(self) == (Issue { id, created_at, ..*old(self) }),
    {
        self.id = id;
        self.created_at = created_at;
    }

    /// Takes what the database says of whether the issue is blocked, where
    /// it changed that: a database that changed no row leaves the issue as
    /// it is, and any other failure is handed on.
    pub fn update_blocked_status(&mut self, changed: Result<bool, DatabaseError>) -> (done: Result<
        (),
        DatabaseError,
    >)
        ensures
            match changed {
                Ok(blocked) => done is Ok && *final(self) == (Issue { blocked, ..*old(self) }),
                Err(DatabaseError::RowNotFound) => done is Ok && *final(self) == *old(self),
                Err(other) => done == Err::<(), DatabaseError>(other) && *final(self) == *old(self),
            },
    {
        match changed {
            Ok(blocked) => {
                self.blocked = blocked;
                Ok(())
            },
            Err(DatabaseError::RowNotFound) => Ok(()),
            Err(other) => Err(other),
        }
    }

    /// The issues that the issue `issue_id` is a part of, outermost first,
    /// out of `rows`, which hold the issue and what stands above it in any
    /// order.
    pub fn all_parents(issue_id: i64, rows: Vec<Issue>) -> (ordered: Vec<Issue>)
        ensures
            ordered@ == ancestors(stored_issues(rows@, rows@.len() as int), issue_id),
    {
        let ghost target = ancestors(stored_issues(rows@, rows@.len() as int), issue_id);
        let mut issues: HashMap<i64, Issue> = HashMap::new();
        let ghost all = rows@;
        let mut remaining = rows;
        let mut reversed: Vec<Issue> = Vec::new();
        while remaining.len() > 0
            invariant
                remaining@.len() + reversed@.len() == all.len(),
                remaining@ == all.take(remaining@.len() as int),
                forall|i: int|
                    0 <= i < reversed@.len() ==> reversed@[i] == all[all.len() - 1 - i],
            decreases remaining@.len(),
        {
            let issue = remaining.pop().unwrap();
            assert(remaining@ =~= all.take(remaining@.len() as int));
            reversed.push(issue);
        }
        while reversed.len() > 0
            invariant
                reversed@.len() <= all.len(),
                forall|i: int|
                    0 <= i < reversed@.len() ==> reversed@[i] == all[all.len() - 1 - i],
                issues@ == stored_issues(all, all.len() - reversed@.len()),
                issues@.dom().finite(),
            decreases reversed@.len(),
        {
            let issue = reversed.pop().unwrap();
            issues.insert(issue.id, issue);
        }
        let mut ordered: Vec<Issue> = Vec::new();
        let mut id = issue_id;
        assert(ancestors_within(issues@, id, issue_id, issues@.dom().len()) + ordered@
            =~= target);
        loop
            invariant
                issues@.dom().finite(),
                target == ancestors(stored_issues(rows@, rows@.len() as int), issue_id),
                ancestors_within(issues@, id, issue_id, issues@.dom().len()) + ordered@ == target,
            decreases issues@.dom().len(),
        {
            let ghost stored = issues@;
            let ghost listed = ordered@;
            match issues.remove(&id) {
                Some(issue) => {
                    assert(stored.contains_key(id) && stored[id] == issue);
                    assert(issues@ == stored.remove(id));
                    assert(stored.dom().len() >= 1);
                    let parent = issue.parent_id;
                    let ghost found = issue;
                    if id != issue_id {
                        ordered.insert(0, issue);
                        assert(ordered@ =~= seq![found] + listed);
                    }
                    match parent {
                        Some(parent_id) => {
                            proof {
                                let above = ancestors_within(
                                    issues@,
                                    parent_id,
                                    issue_id,
                                    issues@.dom().len(),
                                );
                                if id != issue_id {
                                    assert(above.push(found) + listed =~= above + ordered@);
                                }
                            }
                            id = parent_id;
                        },
                        None => {
                            proof {
                                if id != issue_id {
                                    assert(Seq::<Issue>::empty().push(found) + listed
                                        =~= ordered@);
                                } else {
                                    assert(Seq::<Issue>::empty() + listed =~= ordered@);
                                }
                            }
                            return ordered;
                        },
                    }
                },
                None => {
                    assert(Seq::<Issue>::empty() + listed =~= ordered@);
                    return ordered;
                },
            }
        }
    }
}

impl IssueQueryResults {
    /// The page that the rows of a list make: their issues in order, and as
    /// the count of the whole list the count that comes with the first row.
    /// Without rows the page holds nothing and every number of it is 0.
    pub fn from_rows(rows: Vec<(i64, Issue)>, pagination: IssuePagination) -> (page:
        IssueQueryResults)
        ensures
            page.issues@.len() == rows@.len(),
            forall|i: int| 0 <= i < rows@.len() ==> page.issues@[i] == rows@[i].1,
            rows@.len() == 0 ==> page.total_count == 0 && page.start_at == 0 && page.page_size
                == 0,
            rows@.len() > 0 ==> page.total_count == rows@[0].0 as usize && page.start_at
                == pagination.start_at && page.page_size == pagination.page_size,
    {
        if rows.len() == 0 {
            return IssueQueryResults {
                issues: Vec::new(),
                total_count: 0,
                start_at: 0,
                page_size: 0,
            };
        }
        let total_count = #[verifier::truncate]
        (rows[0].0 as usize);
        let ghost all = rows@;
        let mut remaining = rows;
        let mut reversed: Vec<Issue> = Vec::new();
        while remaining.len() > 0
            invariant
                remaining@.len() + reversed@.len() == all.len(),
                remaining@ == all.take(remaining@.len() as int),
                forall|i: int|
                    0 <= i < reversed@.len() ==> reversed@[i] == all[all.len() - 1 - i].1,
            decreases remaining@.len(),
        {
            let (_, issue) = remaining.pop().unwrap();
            assert(remaining@ =~= all.take(remaining@.len() as int));
            reversed.push(issue);
        }
        let mut issues: Vec<Issue> = Vec::new();
        while reversed.len() > 0
            invariant
                reversed@.len() + issues@.len() == all.len(),
                forall|i: int|
                    0 <= i < reversed@.len() ==> reversed@[i] == all[all.len() - 1 - i].1,
                forall|i: int| 0 <= i < issues@.len() ==> issues@[i] == all[i].1,
            decreases reversed@.len(),
        {
            let issue = reversed.pop().unwrap();
            issues.push(issue);
        }
        IssueQueryResults {
            issues,
            total_count,
            start_at: pagination.start_at,
            page_size: pagination.page_size,
        }
    }
}

/// What what has an author has in common.
pub trait AuthoredBy {
    /// The number of the account that wrote it.
    fn author_id(&self) -> i64;
}

impl AuthoredBy for IssueView {
    fn author_id(&self) -> (id: i64)
        ensures
            id == self.author.id,
    {
        self.author.id
    }
}

impl AuthoredBy for Issue {
    fn author_id(&self) -> (id: i64)
        ensures
            id == self.author_id,
    {
        self.author_id
    }
}

/// What a list of issues is ordered by.
#[derive(Clone, Copy, Debug, PartialEq, Eq, Structural)]
pub enum IssueOrderingField {
    Id,
    Creation,
    Completion,
}

/// The order of a list of issues.
#[derive(Clone, Copy, Debug, PartialEq, Eq, Structural)]
pub struct IssueOrdering {
    pub field: IssueOrderingField,
    pub ascending: bool,
}

/// The `ORDER BY` terms of an ordering. Issues completed at the same moment
/// come in the order of their creation.
pub open spec fn ordering_sql(ordering: IssueOrdering) -> Seq<char> {
    let direction = if ordering.ascending {
        "ASC"@
    } else {
        "DESC"@
    };
    match ordering.field {
        IssueOrderingField::Id => "id "@ + direction,
        IssueOrderingField::Creation => "created_at "@ + direction,
        IssueOrderingField::Completion => "completed_at "@ + direction + ", created_at "@
            + direction,
    }
}

impl IssueOrdering {
    /// The `ORDER BY` terms of this ordering.
    pub fn to_sql(&self) -> (sql: String)
        ensures
            sql@ == ordering_sql(*self),
    {
        let direction = if self.ascending {
            "ASC"
        } else {
            "DESC"
        };
        match self.field {
            IssueOrderingField::Id => String::from_str("id ").concat(direction),
            IssueOrderingField::Creation => String::from_str("created_at ").concat(direction),
            IssueOrderingField::Completion => String::from_str("completed_at ").concat(
                direction,
            ).concat(", created_at ").concat(direction),
        }
    }
}

impl Default for IssueOrdering {
    /// Newest first.
    fn default() -> (ordering: IssueOrdering)
        ensures
            ordering.field == IssueOrderingField::Creation,
            !ordering.ascending,
    {
        IssueOrdering { field: IssueOrderingField::Creation, ascending: false }
    }
}

/// The part of a list that one page shows.
#[derive(Clone, Copy, Debug, PartialEq, Eq, Structural)]
pub struct IssuePagination {
    pub page_size: usize,
    pub start_at: usize,
}

impl Default for IssuePagination {
    /// The first fifty.
    fn default() -> (pagination: IssuePagination)
        ensures
            pagination.page_size == 50,
            pagination.start_at == 0,
    {
        IssuePagination { page_size: 50, start_at: 0 }
    }
}

/// A request for a list of issues: the conditions that each issue must meet,
/// in the order in which they were asked for, the order of the list and the
/// part of it to return.
#[derive(Debug)]
pub struct IssueQueryBuilder {
    pub ordering: IssueOrdering,
    pub where_clauses: Vec<String>,
    pub pagination: IssuePagination,
}

/// The model of a request.
pub ghost struct IssueQueryView {
    pub ordering: IssueOrdering,
    pub where_clauses: Seq<Seq<char>>,
    pub pagination: IssuePagination,
}

impl View for IssueQueryBuilder {
    type V = IssueQueryView;

    open spec fn view(&self) -> IssueQueryView {
        IssueQueryView {
            ordering: self.ordering,
            where_clauses: Seq::new(self.where_clauses@.len(), |i: int| self.where_clauses@[i]@),
            pagination: self.pagination,
        }
    }
}

impl IssueQueryView {
    /// The request with one more condition.
    pub open spec fn with_clause(self, clause: Seq<char>) -> IssueQueryView {
        IssueQueryView { where_clauses: self.where_clauses.push(clause), ..self }
    }
}

/// The condition that a column equals `value`, or is null where there is no
/// value.
pub open spec fn column_is(column: Seq<char>, value: Option<i64>) -> Seq<char> {
    match value {
        Some(v) => column + " = "@ + decimal_text(v as int),
        None => column + " IS NULL"@,
    }
}

/// The text before the conditions of the statement that lists issues.
pub const SELECT_HEAD: &'static str =
    "SELECT \n                id, \n                author_id, \n                summary, \n                description, \n                project_id,\n                parent_id, \n                blocked,\n                current_revision_id,\n                created_at, \n                started_at,\n                completed_at,\n                count(*) OVER() as total_count\n            FROM issues \n            WHERE ";

/// The words before the order of the list.
pub const ORDER_BY: &'static str = "\n            ORDER BY ";

/// The words before the size of a page.
pub const LIMIT: &'static str = "\n            LIMIT ";

/// The words before the number of issues to pass over.
pub const OFFSET: &'static str = "\n            OFFSET ";

/// The statement that lists the issues of a request: every condition must
/// hold, and the count of all issues that meet them comes with each row.
pub open spec fn statement_sql(query: IssueQueryView) -> Seq<char> {
    SELECT_HEAD@ + joined(query.where_clauses, " AND "@) + ORDER_BY@ + ordering_sql(
        query.ordering,
    ) + LIMIT@ + decimal_text(query.pagination.page_size as int) + OFFSET@ + decimal_text(
        query.pagination.start_at as int,
    )
}

impl IssueQueryBuilder {
    /// A request with no condition, newest first, for the first fifty.
    pub fn new() -> (builder: IssueQueryBuilder)
        ensures
            builder@.where_clauses.len() == 0,
            builder.ordering.field == IssueOrderingField::Creation,
            !builder.ordering.ascending,
            builder.pagination.page_size == 50,
            builder.pagination.start_at == 0,
    {
        IssueQueryBuilder {
            ordering: IssueOrdering::default(),
            where_clauses: Vec::new(),
            pagination: IssuePagination::default(),
        }
    }

    /// Adds one condition.
    fn and_where(self, clause: String) -> (builder: IssueQueryBuilder)
        ensures
            builder@ == self@.with_clause(clause@),
    {
        let mut builder = self;
        builder.where_clauses.push(clause);
        assert(builder@.where_clauses =~= self@.where_clauses.push(clause@));
        builder
    }

    /// The condition that `column` equals `value`, or is null.
    fn column_condition(column: &str, value: Option<i64>) -> (clause: String)
        ensures
            clause@ == column_is(column@, value),
    {
        match value {
            Some(v) => {
                let number = i64_to_string(v);
                String::from_str(column).concat(" = ").concat(number.as_str())
            },
            None => String::from_str(column).concat(" IS NULL"),
        }
    }

    /// Only issues that `author_id` wrote.
    pub fn authored_by(self, author_id: i64) -> (builder: IssueQueryBuilder)
        ensures
            builder@ == self@.with_clause(column_is("author_id"@, Some(author_id))),
    {
        let clause = IssueQueryBuilder::column_condition("author_id", Some(author_id));
        self.and_where(clause)
    }

    /// Only issues that are completed.
    pub fn completed(self) -> (builder: IssueQueryBuilder)
        ensures
            builder@ == self@.with_clause("completed_at IS NOT NULL"@),
    {
        self.and_where(String::from_str("completed_at IS NOT NULL"))
    }

    /// Only issues that are not completed.
    pub fn open(self) -> (builder: IssueQueryBuilder)
        ensures
            builder@ == self@.with_clause("completed_at IS NULL"@),
    {
        self.and_where(String::from_str("completed_at IS NULL"))
    }

    /// Replaces the order of the list.
    pub fn order_by(self, ordering: IssueOrdering) -> (builder: IssueQueryBuilder)
        ensures
            builder@ == (IssueQueryView { ordering, ..self@ }),
    {
        let mut builder = self;
        builder.ordering = ordering;
        builder
    }

    /// Only issues of the project `project_id`, or only issues of no project.
    pub fn project(self, project_id: Option<i64>) -> (builder: IssueQueryBuilder)
        ensures
            builder@ == self@.with_clause(column_is("project_id"@, project_id)),
    {
        let clause = IssueQueryBuilder::column_condition("project_id", project_id);
        self.and_where(clause)
    }

    /// Only issues that are part of the issue `issue_id`, or only issues that
    /// are part of none.
    pub fn owned_by(self, issue_id: Option<i64>) -> (builder: IssueQueryBuilder)
        ensures
            builder@ == self@.with_clause(column_is("parent_id"@, issue_id)),
    {
        let clause = IssueQueryBuilder::column_condition("parent_id", issue_id);
        self.and_where(clause)
    }

    /// The statement that lists the issues of this request.
    pub fn statement(&self) -> (sql: String)
        ensures
            sql@ == statement_sql(self@),
    {
        let conditions = join(&self.where_clauses, " AND ");
        let order = self.ordering.to_sql();
        let limit = usize_to_string(self.pagination.page_size);
        let offset = usize_to_string(self.pagination.start_at);
        String::from_str(SELECT_HEAD).concat(conditions.as_str()).concat(ORDER_BY).concat(
            order.as_str(),
        ).concat(LIMIT).concat(limit.as_str()).concat(OFFSET).concat(offset.as_str())
    }
}

} // verus!
