//! The rules of showing and changing projects.

use crate::schema::issues::project::Project;
use crate::schema::issues::project::ProjectError;
use crate::text::decimal_text;
use crate::text::i64_to_string;
use crate::time::Timestamp;
use crate::webserver::issues::text_of;
use crate::webserver::request::non_empty;
use crate::webserver::request::Failure;
use vstd::prelude::*;
use vstd::string::StringExecFns;

verus! {

/// What the form of a project sends.
#[derive(Debug, PartialEq, Eq)]
pub struct EditProjectForm {
    /// The project to change; 0 for a new project.
    pub project_id: i64,
    pub slug: String,
    pub name: String,
    pub description: Option<String>,
}

/// The description that a form means: none where it sends none or an empty
/// one.
pub open spec fn meant_text(text: Option<String>) -> Option<Seq<char>> {
    match text {
        Some(given) => if given@.len() == 0 {
            None
        } else {
            Some(given@)
        },
        None => None,
    }
}

/// A copy of an optional text, or none where the text is empty.
pub fn meant(text: &Option<String>) -> (kept: Option<String>)
    ensures
        text_of(kept) == meant_text(*text),
{
    match text {
        Some(given) => non_empty(Some(given.clone())),
        None => None,
    }
}

impl EditProjectForm {
    /// Whether an account may send this form: every administrator, and
    /// everybody whose number is not that of the project.
    pub fn may_be_saved_by(&self, account_id: i64, administrator: bool) -> (allowed: bool)
        ensures
            allowed == (administrator || account_id != self.project_id),
    {
        administrator || account_id != self.project_id
    }

    /// Whether the form asks for a new project.
    pub fn is_new(&self) -> (new: bool)
        ensures
            new == (self.project_id == 0),
    {
        self.project_id == 0
    }

    /// The new project that the form asks for, owned by `owner_id` and made
    /// at `now`.
    pub fn create(&self, owner_id: i64, now: Timestamp) -> (project: Project)
        ensures
            project.id == 0,
            project.slug@ == self.slug@,
            project.name@ == self.name@,
            text_of(project.description) == meant_text(self.description),
            project.owner_id == owner_id,
            project.created_at == now,
    {
        Project::new_at(self.slug.clone(), self.name.clone(), meant(&self.description), owner_id, now)
    }

    /// Changes `project` as the form asks: its slug, name and description.
    pub fn apply(&self, project: &mut Project)
        ensures
            final(project).id == old(project).id,
            final(project).owner_id == old(project).owner_id,
            final(project).created_at == old(project).created_at,
            final(project).slug@ == self.slug@,
            final(project).name@ == self.name@,
            text_of(final(project).description) == meant_text(self.description),
    {
        project.slug = self.slug.clone();
        project.name = self.name.clone();
        project.description = meant(&self.description);
    }

    /// The address to come back to after signing in, for a visitor who
    /// sent the form without being signed in.
    pub fn signin_origin(&self) -> (origin: String)
        ensures
            origin@ == if self.project_id == 0 {
                "/projects/new"@
            } else {
                "/project/"@ + decimal_text(self.project_id as int) + "/edit"@
            },
    {
        if self.project_id == 0 {
            String::from_str("/projects/new")
        } else {
            String::from_str("/project/").concat(i64_to_string(self.project_id).as_str()).concat(
                "/edit",
            )
        }
    }
}

/// What a project that could not be stored means for the visitor: a
/// project that is not there ends the request, and every other failure is
/// told on the form, by the key of its message.
pub fn save_failure(error: &ProjectError) -> (shown: Result<&'static str, Failure>)
    ensures
        match error {
            ProjectError::SlugInvalidCharacter(_) => shown matches Ok(key) && key@
                == "project-error-invalid-username"@,
            ProjectError::SlugConflict => shown matches Ok(key) && key@
                == "project-error-slug-conflict"@,
            ProjectError::ProjectNotFound => shown == Err::<&'static str, Failure>(
                Failure::Status(crate::webserver::request::NOT_FOUND),
            ),
            ProjectError::Sql(_) => shown matches Ok(key) && key@ == "internal-error-saving"@,
        },
{
    match error {
        ProjectError::SlugInvalidCharacter(_) => Ok("project-error-invalid-username"),
        ProjectError::SlugConflict => Ok("project-error-slug-conflict"),
        ProjectError::ProjectNotFound => Err(Failure::not_found()),
        ProjectError::Sql(_) => Ok("internal-error-saving"),
    }
}

} // verus!
