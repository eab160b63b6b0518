//! The rules of showing, changing and linking issues.

use crate::schema::accounts::DatabaseError;
use crate::schema::issues::issue::AuthoredBy;
use crate::schema::issues::issue::Issue;
use crate::schema::issues::issue_relationship::relationship_named;
use crate::schema::issues::issue_relationship::relationship_word;
use crate::schema::issues::issue_relationship::ContextualizedRelationship;
use crate::schema::issues::issue_relationship::Relationship;
use crate::schema::issues::issue_relationship::RelationshipParseError;
use crate::schema::issues::tag::Tag;
use crate::text::decimal_text;
use crate::text::i64_to_string;
use crate::text::same_text;
use crate::text::trimmed;
use crate::time::Timestamp;
use crate::webserver::request::is_blank;
use crate::webserver::request::trimmed_option;
use crate::webserver::request::RequestData;
use vstd::prelude::*;
use vstd::string::StringExecFns;

verus! {

/// What the form of an issue sends.
#[derive(Debug, PartialEq, Eq)]
pub struct EditIssueForm {
    /// The issue to change; none for a new issue.
    pub issue_id: Option<i64>,
    pub parent_id: Option<i64>,
    /// The revision that the visitor saw when the form was made.
    pub current_revision_id: Option<i64>,
    pub summary: String,
    pub description: Option<String>,
    pub comment: Option<String>,
    pub started: bool,
    pub completed: bool,
    pub project_id: Option<i64>,
    pub tags: String,
}

/// What the form of a link between two issues sends.
#[derive(Debug, PartialEq, Eq)]
pub struct LinkIssueForm {
    pub target: i64,
    pub relationship: String,
    pub comment: Option<String>,
}

/// The filter that gives the key of the sentence for a relation.
pub struct RelationshipSummaryKeyFilter;

/// Why an issue could not be changed.
#[derive(Clone, Copy, Debug, PartialEq, Eq, Structural)]
pub enum IssueUpdateError {
    /// Somebody else changed the issue in the meantime; with the revision
    /// that it has now.
    IssueAlreadyUpdated { current_revision_id: Option<i64> },
    ParentNotFound,
    CantCloseBecauseOfChild,
    CantCloseBecauseBlocked,
    InternalError,
}

/// A value of a property of an issue, as a revision remembers it.
#[derive(Debug, PartialEq, Eq)]
pub enum ChangeValue {
    Text(String),
    Moment(Timestamp),
    Number(i64),
}

/// One property that a revision changes, with its value before and after.
#[derive(Debug, PartialEq, Eq)]
pub struct PropertyChange {
    pub property: &'static str,
    pub old_value: Option<ChangeValue>,
    pub new_value: Option<ChangeValue>,
}

/// A link between two issues that is ready to be stored.
#[derive(Debug, PartialEq, Eq)]
pub struct PlannedLink {
    /// The source of the relation.
    pub issue_a: i64,
    /// The target of the relation.
    pub issue_b: i64,
    pub relationship: Option<Relationship>,
    pub comment: Option<String>,
}

/// Whether the visitor of `request` may change `_issue`: every visitor who
/// is signed in may.
pub fn can_edit_issue<I: AuthoredBy>(request: &RequestData, _issue: &I) -> (allowed: bool)
    ensures
        allowed == request.session is Some,
{
    request.session.is_some()
}

impl IssueUpdateError {
    /// The key of the message for the visitor.
    pub fn message_key(&self) -> (key: &'static str)
        ensures
            key@ == match self {
                IssueUpdateError::IssueAlreadyUpdated { .. } => "issues-error-already-updated"@,
                IssueUpdateError::ParentNotFound => "issues-error-parent-not-found"@,
                IssueUpdateError::CantCloseBecauseOfChild => "issues-error-cant-close-child"@,
                IssueUpdateError::CantCloseBecauseBlocked => "issues-error-cant-close-blocked"@,
                IssueUpdateError::InternalError => "internal-error-saving"@,
            },
    {
        match self {
            IssueUpdateError::IssueAlreadyUpdated { .. } => "issues-error-already-updated",
            IssueUpdateError::ParentNotFound => "issues-error-parent-not-found",
            IssueUpdateError::CantCloseBecauseOfChild => "issues-error-cant-close-child",
            IssueUpdateError::CantCloseBecauseBlocked => "issues-error-cant-close-blocked",
            IssueUpdateError::InternalError => "internal-error-saving",
        }
    }

    /// The revision to put into the form that is shown again after this
    /// failure: the one the issue has now where somebody else changed it,
    /// else the one the form came with.
    pub fn revision_to_show(&self, form_revision: Option<i64>) -> (revision: Option<i64>)
        ensures
            revision == match self {
                IssueUpdateError::IssueAlreadyUpdated { current_revision_id } => *current_revision_id,
                _ => form_revision,
            },
    {
        match self {
            IssueUpdateError::IssueAlreadyUpdated { current_revision_id } => *current_revision_id,
            _ => form_revision,
        }
    }

    /// Why an issue cannot be changed whose parent the database did not
    /// give.
    pub fn from_parent_lookup(error: &DatabaseError) -> (reason: IssueUpdateError)
        ensures
            reason == match error {
                DatabaseError::RowNotFound => IssueUpdateError::ParentNotFound,
                _ => IssueUpdateError::InternalError,
            },
    {
        match error {
            DatabaseError::RowNotFound => IssueUpdateError::ParentNotFound,
            _ => IssueUpdateError::InternalError,
        }
    }
}

/// The model of an optional text.
pub open spec fn text_of(text: Option<String>) -> Option<Seq<char>> {
    match text {
        Some(t) => Some(t@),
        None => None,
    }
}

/// Whether the form asks for anything that makes a new revision of
/// `issue`: a comment, or another summary, description, project or parent,
/// or to complete or reopen the issue.
pub open spec fn needs_revision(issue: Issue, form: EditIssueForm) -> bool {
    ||| form.comment is Some
    ||| issue.summary@ != form.summary@
    ||| text_of(issue.description) != text_of(form.description)
    ||| issue.completed_at is Some != form.completed
    ||| issue.project_id != form.project_id
    ||| issue.parent_id != form.parent_id
}

/// What stands against changing `issue` as the form asks, if anything:
/// that somebody else changed it first; or, where the form completes or
/// reopens it within a new revision, that it is blocked, or that it is to
/// be completed while a part of it is open.
pub open spec fn update_obstacle(
    issue: Issue,
    form: EditIssueForm,
    has_open_children: bool,
) -> Option<IssueUpdateError> {
    if issue.current_revision_id != form.current_revision_id {
        Some(
            IssueUpdateError::IssueAlreadyUpdated {
                current_revision_id: issue.current_revision_id,
            },
        )
    } else if needs_revision(issue, form) && form.completed != issue.completed_at is Some {
        if issue.blocked {
            Some(IssueUpdateError::CantCloseBecauseBlocked)
        } else if form.completed && has_open_children {
            Some(IssueUpdateError::CantCloseBecauseOfChild)
        } else {
            None
        }
    } else {
        None
    }
}

/// The moment that a state of an issue is reached at when it is switched
/// on at `now`, or none when it is switched off.
pub open spec fn switched(on: bool, now: Timestamp) -> Option<Timestamp> {
    if on {
        Some(now)
    } else {
        None
    }
}

/// `issue` changed as the form asks, at `now`, within the revision
/// `revision_id`. Where the form asks for nothing that makes a revision,
/// the issue stays as it is.
pub open spec fn updated_issue(
    issue: Issue,
    form: EditIssueForm,
    now: Timestamp,
    revision_id: i64,
    result: Issue,
) -> bool {
    if !needs_revision(issue, form) {
        result == issue
    } else {
        &&& result.id == issue.id
        &&& result.author_id == issue.author_id
        &&& result.blocked == issue.blocked
        &&& result.created_at == issue.created_at
        &&& result.summary@ == form.summary@
        &&& text_of(result.description) == text_of(form.description)
        &&& result.project_id == form.project_id
        &&& result.parent_id == form.parent_id
        &&& result.current_revision_id == Some(revision_id)
        &&& result.started_at == if form.started != issue.started_at is Some {
            switched(form.started, now)
        } else {
            issue.started_at
        }
        &&& result.completed_at == if form.completed != issue.completed_at is Some {
            switched(form.completed, now)
        } else {
            issue.completed_at
        }
    }
}

/// Whether two optional texts say the same.
fn same_optional_text(a: &Option<String>, b: &Option<String>) -> (same: bool)
    ensures
        same == (text_of(*a) == text_of(*b)),
{
    match (a, b) {
        (Some(x), Some(y)) => same_text(x.as_str(), y.as_str()),
        (None, None) => true,
        _ => false,
    }
}

/// A copy of an optional text.
fn clone_optional_text(text: &Option<String>) -> (copy: Option<String>)
    ensures
        text_of(copy) == text_of(*text),
{
    match text {
        Some(t) => Some(t.clone()),
        None => None,
    }
}

/// An optional text as a value that a revision remembers.
fn text_value(text: &Option<String>) -> (value: Option<ChangeValue>)
    ensures
        value_of(value) == text_change(text_of(*text)),
{
    match text {
        Some(t) => Some(ChangeValue::Text(t.clone())),
        None => None,
    }
}

/// An optional moment as a value that a revision remembers.
fn moment_value(moment: Option<Timestamp>) -> (value: Option<ChangeValue>)
    ensures
        value_of(value) == moment_change(moment),
{
    match moment {
        Some(m) => Some(ChangeValue::Moment(m)),
        None => None,
    }
}

/// An optional number as a value that a revision remembers.
fn number_value(number: Option<i64>) -> (value: Option<ChangeValue>)
    ensures
        value_of(value) == number_change(number),
{
    match number {
        Some(n) => Some(ChangeValue::Number(n)),
        None => None,
    }
}

/// The model of a value that a revision remembers.
pub ghost enum ChangeValueView {
    Text(Seq<char>),
    Moment(Timestamp),
    Number(i64),
}

/// The model of a change that a revision remembers.
pub ghost struct PropertyChangeView {
    pub property: Seq<char>,
    pub old_value: Option<ChangeValueView>,
    pub new_value: Option<ChangeValueView>,
}

impl View for ChangeValue {
    type V = ChangeValueView;

    open spec fn view(&self) -> ChangeValueView {
        match self {
            ChangeValue::Text(text) => ChangeValueView::Text(text@),
            ChangeValue::Moment(moment) => ChangeValueView::Moment(*moment),
            ChangeValue::Number(number) => ChangeValueView::Number(*number),
        }
    }
}

/// The model of an optional value.
pub open spec fn value_of(value: Option<ChangeValue>) -> Option<ChangeValueView> {
    match value {
        Some(given) => Some(given@),
        None => None,
    }
}

impl View for PropertyChange {
    type V = PropertyChangeView;

    open spec fn view(&self) -> PropertyChangeView {
        PropertyChangeView {
            property: self.property@,
            old_value: value_of(self.old_value),
            new_value: value_of(self.new_value),
        }
    }
}

/// An optional text as a value.
pub open spec fn text_change(text: Option<Seq<char>>) -> Option<ChangeValueView> {
    match text {
        Some(t) => Some(ChangeValueView::Text(t)),
        None => None,
    }
}

/// An optional moment as a value.
pub open spec fn moment_change(moment: Option<Timestamp>) -> Option<ChangeValueView> {
    match moment {
        Some(m) => Some(ChangeValueView::Moment(m)),
        None => None,
    }
}

/// An optional number as a value.
pub open spec fn number_change(number: Option<i64>) -> Option<ChangeValueView> {
    match number {
        Some(n) => Some(ChangeValueView::Number(n)),
        None => None,
    }
}

/// The change of one property, if its value before and after differ.
pub open spec fn change_if(
    differs: bool,
    property: Seq<char>,
    old_value: Option<ChangeValueView>,
    new_value: Option<ChangeValueView>,
) -> Seq<PropertyChangeView> {
    if differs {
        seq![PropertyChangeView { property, old_value, new_value }]
    } else {
        Seq::empty()
    }
}

/// What the form changes of `issue` at `now`, in the order in which a
/// revision lists it: summary, description, start, completion, project
/// and parent, each with its value before and after.
pub open spec fn changes_of(issue: Issue, form: EditIssueForm, now: Timestamp) -> Seq<
    PropertyChangeView,
> {
    change_if(
        issue.summary@ != form.summary@,
        "summary"@,
        Some(ChangeValueView::Text(issue.summary@)),
        Some(ChangeValueView::Text(form.summary@)),
    ) + change_if(
        text_of(issue.description) != text_of(form.description),
        "description"@,
        text_change(text_of(issue.description)),
        text_change(text_of(form.description)),
    ) + change_if(
        form.started != issue.started_at is Some,
        "started_at"@,
        moment_change(issue.started_at),
        moment_change(switched(form.started, now)),
    ) + change_if(
        form.completed != issue.completed_at is Some,
        "completed_at"@,
        moment_change(issue.completed_at),
        moment_change(switched(form.completed, now)),
    ) + change_if(
        form.project_id != issue.project_id,
        "project_id"@,
        number_change(issue.project_id),
        number_change(form.project_id),
    ) + change_if(
        form.parent_id != issue.parent_id,
        "parent_id"@,
        number_change(issue.parent_id),
        number_change(form.parent_id),
    )
}

/// The models of a list of changes.
pub open spec fn changes_view(changes: Seq<PropertyChange>) -> Seq<PropertyChangeView> {
    Seq::new(changes.len(), |i: int| changes[i]@)
}

/// Adds the change of one property to a list, if its value before and
/// after differ.
fn note_change(
    changes: &mut Vec<PropertyChange>,
    differs: bool,
    property: &'static str,
    old_value: Option<ChangeValue>,
    new_value: Option<ChangeValue>,
)
    ensures
        changes_view(final(changes)@) == changes_view(old(changes)@) + change_if(
            differs,
            property@,
            value_of(old_value),
            value_of(new_value),
        ),
{
    let ghost before = changes_view(changes@);
    if differs {
        let change = PropertyChange { property, old_value, new_value };
        let ghost view = change@;
        changes.push(change);
        assert(changes_view(changes@) =~= before + seq![view]);
    } else {
        assert(changes_view(changes@) =~= before + Seq::<PropertyChangeView>::empty());
    }
}

impl EditIssueForm {
    /// Whether the form asks for anything that makes a new revision of
    /// `issue`.
    pub fn needs_revision(&self, issue: &Issue) -> (needed: bool)
        ensures
            needed == needs_revision(*issue, *self),
    {
        self.comment.is_some() || !same_text(issue.summary.as_str(), self.summary.as_str())
            || !same_optional_text(&issue.description, &self.description)
            || issue.completed_at.is_some() != self.completed || issue.project_id
            != self.project_id || issue.parent_id != self.parent_id
    }

    /// What stands against changing `issue` as the form asks, if anything.
    /// `has_open_children` says whether a part of the issue is open.
    pub fn check(&self, issue: &Issue, has_open_children: bool) -> (obstacle: Result<
        (),
        IssueUpdateError,
    >)
        ensures
            match obstacle {
                Ok(_) => update_obstacle(*issue, *self, has_open_children) is None,
                Err(error) => update_obstacle(*issue, *self, has_open_children) == Some(error),
            },
    {
        if issue.current_revision_id != self.current_revision_id {
            return Err(
                IssueUpdateError::IssueAlreadyUpdated {
                    current_revision_id: issue.current_revision_id,
                },
            );
        }
        if self.needs_revision(issue) && self.completed != issue.completed_at.is_some() {
            if issue.blocked {
                return Err(IssueUpdateError::CantCloseBecauseBlocked);
            }
            if self.completed && has_open_children {
                return Err(IssueUpdateError::CantCloseBecauseOfChild);
            }
        }
        Ok(())
    }

    /// Changes `issue` as the form asks, at `now`, within the revision
    /// `revision_id`, and lists what changed, for the revision to remember.
    /// Where the form asks for nothing that makes a revision, nothing
    /// changes.
    pub fn apply(&self, issue: &mut Issue, now: Timestamp, revision_id: i64) -> (changes: Vec<
        PropertyChange,
    >)
        ensures
            updated_issue(*old(issue), *self, now, revision_id, *final(issue)),
            changes_view(changes@) == if needs_revision(*old(issue), *self) {
                changes_of(*old(issue), *self, now)
            } else {
                Seq::<PropertyChangeView>::empty()
            },
    {
        let mut changes: Vec<PropertyChange> = Vec::new();
        assert(changes_view(changes@) =~= Seq::<PropertyChangeView>::empty());
        if !self.needs_revision(issue) {
            return changes;
        }
        let started = if self.started {
            Some(now)
        } else {
            None
        };
        let completed = if self.completed {
            Some(now)
        } else {
            None
        };
        let summary_differs = !same_text(issue.summary.as_str(), self.summary.as_str());
        let description_differs = !same_optional_text(&issue.description, &self.description);
        let started_differs = self.started != issue.started_at.is_some();
        let completed_differs = self.completed != issue.completed_at.is_some();
        note_change(
            &mut changes,
            summary_differs,
            "summary",
            Some(ChangeValue::Text(issue.summary.clone())),
            Some(ChangeValue::Text(self.summary.clone())),
        );
        note_change(
            &mut changes,
            description_differs,
            "description",
            text_value(&issue.description),
            text_value(&self.description),
        );
        note_change(
            &mut changes,
            started_differs,
            "started_at",
            moment_value(issue.started_at),
            moment_value(started),
        );
        note_change(
            &mut changes,
            completed_differs,
            "completed_at",
            moment_value(issue.completed_at),
            moment_value(completed),
        );
        note_change(
            &mut changes,
            self.project_id != issue.project_id,
            "project_id",
            number_value(issue.project_id),
            number_value(self.project_id),
        );
        note_change(
            &mut changes,
            self.parent_id != issue.parent_id,
            "parent_id",
            number_value(issue.parent_id),
            number_value(self.parent_id),
        );
        issue.summary = self.summary.clone();
        issue.description = clone_optional_text(&self.description);
        if started_differs {
            issue.started_at = started;
        }
        if completed_differs {
            issue.completed_at = completed;
        }
        issue.project_id = self.project_id;
        issue.parent_id = self.parent_id;
        issue.current_revision_id = Some(revision_id);
        changes
    }

    /// The new issue that the form asks for, written by `author_id` at
    /// `now`: started and completed at that moment where the form says so.
    pub fn create(&self, author_id: i64, now: Timestamp) -> (issue: Issue)
        ensures
            issue.id == 0,
            issue.author_id == author_id,
            issue.summary@ == self.summary@,
            text_of(issue.description) == text_of(self.description),
            issue.parent_id == self.parent_id,
            issue.project_id == self.project_id,
            issue.current_revision_id is None,
            !issue.blocked,
            issue.created_at == now,
            issue.started_at == switched(self.started, now),
            issue.completed_at == switched(self.completed, now),
    {
        let mut issue = Issue::new_at(
            author_id,
            self.summary.clone(),
            clone_optional_text(&self.description),
            self.parent_id,
            self.project_id,
            now,
        );
        if self.started {
            issue.started_at = Some(now);
        }
        if self.completed {
            issue.completed_at = Some(now);
        }
        issue
    }

    /// The address to come back to after signing in, for a visitor who
    /// sent the form without being signed in.
    pub fn signin_origin(&self) -> (origin: String)
        ensures
            origin@ == match self.issue_id {
                Some(id) => "/issue/"@ + decimal_text(id as int) + "/edit"@,
                None => "/issues/new"@,
            },
    {
        match self.issue_id {
            Some(id) => String::from_str("/issue/").concat(i64_to_string(id).as_str()).concat(
                "/edit",
            ),
            None => String::from_str("/issues/new"),
        }
    }
}

/// The address of the page of the issue `issue_id`.
pub fn issue_address(issue_id: i64) -> (address: String)
    ensures
        address@ == "/issue/"@ + decimal_text(issue_id as int),
{
    String::from_str("/issue/").concat(i64_to_string(issue_id).as_str())
}

/// The names of the tags among `tags` that stand in no group, in their
/// order.
pub open spec fn ungrouped_names(tags: Seq<Tag>, count: int) -> Seq<Seq<char>>
    decreases count,
{
    if count <= 0 || count > tags.len() {
        Seq::empty()
    } else if tags[count - 1].tag_group_id is None {
        ungrouped_names(tags, count - 1).push(tags[count - 1].name@)
    } else {
        ungrouped_names(tags, count - 1)
    }
}

/// The names of the tags among `tags` that stand in no group, which the
/// form of an issue shows as free text.
pub fn unassigned_tags(tags: &Vec<Tag>) -> (names: Vec<String>)
    ensures
        Seq::new(names@.len(), |i: int| names@[i]@) == ungrouped_names(tags@, tags@.len() as int),
{
    let mut names: Vec<String> = Vec::new();
    let mut i: usize = 0;
    assert(Seq::new(names@.len(), |i: int| names@[i]@) =~= ungrouped_names(tags@, 0));
    while i < tags.len()
        invariant
            i <= tags@.len(),
            Seq::new(names@.len(), |j: int| names@[j]@) == ungrouped_names(tags@, i as int),
        decreases tags@.len() - i,
    {
        let ghost before = Seq::new(names@.len(), |j: int| names@[j]@);
        if tags[i].tag_group_id.is_none() {
            names.push(tags[i].name.clone());
            assert(Seq::new(names@.len(), |j: int| names@[j]@) =~= before.push(tags@[i as int].name@));
        }
        i += 1;
    }
    names
}

impl LinkIssueForm {
    /// The link that the form asks for, seen from the issue `issue_id`:
    /// the issue is the source of the relation, or its target where the
    /// relation is told from the other side; the comment is kept without
    /// the whitespace at its ends, unless nothing is left of it.
    pub fn link(&self, issue_id: i64) -> (planned: Result<PlannedLink, RelationshipParseError>)
        ensures
            match planned {
                Ok(link) => relationship_named(self.relationship@) matches Some(named) && {
                    &&& link.relationship == named.relationship
                    &&& link.issue_a == if named.is_inverse {
                        self.target
                    } else {
                        issue_id
                    }
                    &&& link.issue_b == if named.is_inverse {
                        issue_id
                    } else {
                        self.target
                    }
                    &&& text_of(link.comment) == match self.comment {
                        Some(given) => if is_blank(given@) {
                            None
                        } else {
                            Some(trimmed(given@))
                        },
                        None => None,
                    }
                },
                Err(_) => relationship_named(self.relationship@) is None,
            },
    {
        let named = match ContextualizedRelationship::from_str(self.relationship.as_str()) {
            Ok(named) => named,
            Err(error) => {
                return Err(error);
            },
        };
        let (issue_a, issue_b) = if named.is_inverse {
            (self.target, issue_id)
        } else {
            (issue_id, self.target)
        };
        let comment = match &self.comment {
            Some(given) => trimmed_option(given.as_str()),
            None => None,
        };
        Ok(PlannedLink { issue_a, issue_b, relationship: named.relationship, comment })
    }
}

impl PlannedLink {
    /// Whether storing the link can change which issues are blocked: only
    /// a link that blocks can.
    pub fn changes_blocked(&self) -> (changes: bool)
        ensures
            changes == (self.relationship == Some(Relationship::Blocks)),
    {
        match self.relationship {
            Some(Relationship::Blocks) => true,
            _ => false,
        }
    }
}

impl RelationshipSummaryKeyFilter {
    /// The key of the sentence that tells of `relationship`; of a link that
    /// is not told of, the key for a plain link.
    pub fn filter(relationship: Option<ContextualizedRelationship>) -> (key: String)
        ensures
            key@ == "issue-relationship-"@ + relationship_word(
                match relationship {
                    Some(link) => link,
                    None => ContextualizedRelationship { relationship: None, is_inverse: false },
                },
            ) + "-summary"@,
    {
        let link = match relationship {
            Some(link) => link,
            None => ContextualizedRelationship::plain(),
        };
        link.summary_key()
    }
}

} // verus!
