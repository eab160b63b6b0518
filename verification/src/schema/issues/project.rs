//! Projects, which issues can belong to.

use crate::schema::accounts::clean_name;
use crate::schema::accounts::cleaned_name;
use crate::schema::accounts::DatabaseError;
use crate::schema::accounts::SaveAction;
use crate::time::Timestamp;
use vstd::prelude::*;
use vstd::string::StringExecFns;

verus! {

/// A project.
#[derive(Debug, PartialEq, Eq)]
pub struct Project {
    /// The number of the project; 0 until it is stored.
    pub id: i64,
    /// The name of the project in addresses: lower-case letters, digits and
    /// `-`.
    pub slug: String,
    pub name: String,
    pub description: Option<String>,
    pub owner_id: i64,
    pub created_at: Timestamp,
}

/// Why a project cannot be stored.
#[derive(Debug, PartialEq, Eq)]
pub enum ProjectError {
    ProjectNotFound,
    SlugInvalidCharacter(char),
    SlugConflict,
    /// The database failed, with its words.
    Sql(String),
}

/// The clean form of a slug: trimmed, of ASCII letters, digits and `-` only,
/// in lower case. It may be empty.
pub open spec fn cleaned_slug(s: Seq<char>) -> Result<Seq<char>, ProjectError> {
    match cleaned_name(s, true) {
        Err(c) => Err(ProjectError::SlugInvalidCharacter(c)),
        Ok(slug) => Ok(slug),
    }
}

impl ProjectError {
    /// Why the database would not store a project.
    pub fn from_database(error: DatabaseError) -> (reason: ProjectError)
        ensures
            match error {
                DatabaseError::RowNotFound => reason == ProjectError::ProjectNotFound,
                DatabaseError::Conflict => reason == ProjectError::SlugConflict,
                DatabaseError::Other(words) => reason matches ProjectError::Sql(said) && said@
                    == words@,
            },
    {
        match error {
            DatabaseError::RowNotFound => ProjectError::ProjectNotFound,
            DatabaseError::Conflict => ProjectError::SlugConflict,
            DatabaseError::Other(words) => ProjectError::Sql(words),
        }
    }

    /// What to tell the user.
    pub fn to_string(&self) -> (message: String)
        ensures
            match self {
                ProjectError::ProjectNotFound => message@ == "project not found"@,
                ProjectError::SlugInvalidCharacter(c) => message@
                    == "invalid character in slug '"@.push(*c).push('\''),
                ProjectError::SlugConflict => message@ == "slug already in use"@,
                ProjectError::Sql(words) => message@ == "sql error: "@ + words@,
            },
    {
        match self {
            ProjectError::ProjectNotFound => "project not found".to_owned(),
            ProjectError::SlugInvalidCharacter(c) => {
                let mut message = "invalid character in slug '".to_owned();
                message.push(*c);
                message.push('\'');
                message
            },
            ProjectError::SlugConflict => "slug already in use".to_owned(),
            ProjectError::Sql(words) => {
                let mut message = "sql error: ".to_owned();
                message.append(words.as_str());
                message
            },
        }
    }
}

impl Project {
    /// A new project made at `now`, not stored yet.
    pub fn new_at(
        slug: String,
        name: String,
        description: Option<String>,
        owner_id: i64,
        now: Timestamp,
    ) -> (project: Project)
        ensures
            project == (Project { id: 0, slug, name, description, owner_id, created_at: now }),
    {
        Project { id: 0, slug, name, description, owner_id, created_at: now }
    }

    /// A new project, not stored yet.
    pub fn new(slug: String, name: String, description: Option<String>, owner_id: i64) -> (project:
        Project)
        ensures
            project.id == 0,
            project.slug == slug,
            project.name == name,
            project.description == description,
            project.owner_id == owner_id,
    {
        Project::new_at(slug, name, description, owner_id, Timestamp::now())
    }

    /// The clean form of a slug, or the character that it cannot hold.
    pub fn cleanup_and_validate_slug(slug: &str) -> (clean: Result<String, ProjectError>)
        ensures
            match clean {
                Ok(text) => cleaned_slug(slug@) == Ok::<Seq<char>, ProjectError>(text@),
                Err(error) => cleaned_slug(slug@) == Err::<Seq<char>, ProjectError>(error),
            },
    {
        match clean_name(slug, true) {
            Ok(text) => Ok(text),
            Err(c) => Err(ProjectError::SlugInvalidCharacter(c)),
        }
    }

    /// Makes the project ready to be stored: cleans its slug, and says
    /// whether it has to be inserted or updated. A project that cannot be
    /// stored is left as it was.
    pub fn prepare_save(&mut self) -> (action: Result<SaveAction, ProjectError>)
        ensures
            match action {
                Ok(what) => cleaned_slug(old(self).slug@) == Ok::<Seq<char>, ProjectError>(
                    final(self).slug@,
                ) && (what == SaveAction::Insert) == (old(self).id == 0),
                Err(error) => cleaned_slug(old(self).slug@) == Err::<Seq<char>, ProjectError>(error)
                    && final(self).slug == old(self).slug,
            },
            final(self).id == old(self).id,
            final(self).name == old(self).name,
            final(self).description == old(self).description,
            final(self).owner_id == old(self).owner_id,
            final(self).created_at == old(self).created_at,
    {
        match Project::cleanup_and_validate_slug(self.slug.as_str()) {
            Ok(slug) => {
                self.slug = slug;
                if self.id == 0 {
                    Ok(SaveAction::Insert)
                } else {
                    Ok(SaveAction::Update)
                }
            },
            Err(error) => Err(error),
        }
    }

    /// Takes the number and the moment that the database gave the project
    /// when it was inserted.
    pub fn stored_as(&mut self, id: i64, created_at: Timestamp)
        ensures
            *final(self) == (Project { id, created_at, ..*old(self) }),
    {
        self.id = id;
        self.created_at = created_at;
    }

    /// What an update that changed `rows_affected` rows says: a project that
    /// no row was changed for does not exist.
    pub fn check_updated(rows_affected: u64) -> (found: Result<(), ProjectError>)
        ensures
            match found {
                Ok(_) => rows_affected != 0,
                Err(error) => rows_affected == 0 && error == ProjectError::ProjectNotFound,
            },
    {
        if rows_affected == 0 {
            Err(ProjectError::ProjectNotFound)
        } else {
            Ok(())
        }
    }

    /// Whether the account `account_id` may change this project: its owner
    /// and every administrator may.
    pub fn editable_by(&self, account_id: i64, administrator: bool) -> (editable: bool)
        ensures
            editable == (administrator || account_id == self.owner_id),
    {
        administrator || account_id == self.owner_id
    }
}

} // verus!
