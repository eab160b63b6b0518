//! Issues, how they are listed, and how they relate to one another.

pub mod issue;
pub mod issue_relationship;
pub mod project;
pub mod tag;
pub mod tag_group;
pub mod issue_revision;
