//! Tags, which issues can carry.

use crate::schema::accounts::DatabaseError;
use crate::schema::accounts::SaveAction;
use crate::time::Timestamp;
use vstd::prelude::*;

verus! {

/// A tag.
#[derive(Debug, PartialEq, Eq)]
pub struct Tag {
    /// The number of the tag; 0 until it is stored.
    pub id: i32,
    pub name: String,
    pub tag_group_id: Option<i32>,
    pub color: Option<String>,
    pub created_at: Timestamp,
}

impl Tag {
    /// A new tag made at `now`: not stored yet, in no group, without a color.
    pub fn new_at(name: String, now: Timestamp) -> (tag: Tag)
        ensures
            tag == (Tag { id: 0, name, tag_group_id: None, color: None, created_at: now }),
    {
        Tag { id: 0, name, tag_group_id: None, color: None, created_at: now }
    }

    /// A new tag: not stored yet, in no group, without a color.
    pub fn new(name: String) -> (tag: Tag)
        ensures
            tag.id == 0,
            tag.name == name,
            tag.tag_group_id is None,
            tag.color is None,
    {
        Tag::new_at(name, Timestamp::now())
    }

    /// Whether the tag has to be inserted or updated.
    pub fn save_action(&self) -> (action: SaveAction)
        ensures
            (action == SaveAction::Insert) == (self.id == 0),
    {
        if self.id == 0 {
            SaveAction::Insert
        } else {
            SaveAction::Update
        }
    }

    /// Takes the number and the moment that the database gave the tag when
    /// it was inserted.
    pub fn stored_as(&mut self, id: i32, created_at: Timestamp)
        ensures
            *final(self) == (Tag { id, created_at, ..*old(self) }),
    {
        self.id = id;
        self.created_at = created_at;
    }

    /// What an update that changed `rows_affected` rows says: a tag that no
    /// row was changed for does not exist.
    pub fn check_updated(rows_affected: u64) -> (found: Result<(), DatabaseError>)
        ensures
            match found {
                Ok(_) => rows_affected != 0,
                Err(error) => rows_affected == 0 && error == DatabaseError::RowNotFound,
            },
    {
        if rows_affected == 0 {
            Err(DatabaseError::RowNotFound)
        } else {
            Ok(())
        }
    }
}

} // verus!
