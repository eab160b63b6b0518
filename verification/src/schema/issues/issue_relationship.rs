//! How one issue relates to another.

use crate::text::same_text;
use crate::time::Timestamp;
use vstd::prelude::*;
use vstd::string::StringExecFns;

verus! {

/// A directed relation from one issue to another.
#[derive(Clone, Copy, Debug, PartialEq, Eq, Structural)]
pub enum Relationship {
    Blocks,
    Preceeds,
    Causes,
}

impl Relationship {
    /// The number that stands for the relation where it is stored: 1 for
    /// `Blocks`, 2 for `Preceeds`, 3 for `Causes`.
    pub open spec fn spec_code(self) -> int {
        match self {
            Relationship::Blocks => 1,
            Relationship::Preceeds => 2,
            Relationship::Causes => 3,
        }
    }

    /// The number that stands for the relation where it is stored.
    pub fn code(self) -> (code: i32)
        ensures
            code == self.spec_code(),
    {
        match self {
            Relationship::Blocks => 1,
            Relationship::Preceeds => 2,
            Relationship::Causes => 3,
        }
    }

    /// The relation that `code` stands for, if there is one.
    pub fn from_code(code: i32) -> (relationship: Option<Relationship>)
        ensures
            match relationship {
                Some(r) => r.spec_code() == code,
                None => code < 1 || code > 3,
            },
    {
        if code == 1 {
            Some(Relationship::Blocks)
        } else if code == 2 {
            Some(Relationship::Preceeds)
        } else if code == 3 {
            Some(Relationship::Causes)
        } else {
            None
        }
    }
}

/// A relation as seen from one of its two issues: the relation, if the link
/// has one, and whether this issue is its target rather than its source.
#[derive(Clone, Copy, Debug, PartialEq, Eq, Structural)]
pub struct ContextualizedRelationship {
    pub relationship: Option<Relationship>,
    pub is_inverse: bool,
}

/// A link between two issues, as seen from one of them: the other issue,
/// and how it relates to this one.
#[derive(Debug, PartialEq, Eq)]
pub struct IssueRelationship {
    pub issue_id: i64,
    pub issue_summary: String,
    pub issue_completed_at: Option<Timestamp>,
    pub issue_project_id: Option<i64>,
    pub relationship: Option<ContextualizedRelationship>,
    pub comment: Option<String>,
    pub created_at: Timestamp,
}

/// A word that names no relation.
#[derive(Clone, Copy, Debug, PartialEq, Eq, Structural)]
pub struct RelationshipParseError;

/// The word for a relation seen from one side. A link without a relation
/// reads the same from both sides.
pub open spec fn relationship_word(link: ContextualizedRelationship) -> Seq<char> {
    match (link.relationship, link.is_inverse) {
        (None, _) => "relates"@,
        (Some(Relationship::Blocks), false) => "blocks"@,
        (Some(Relationship::Blocks), true) => "blocked"@,
        (Some(Relationship::Preceeds), false) => "precedes"@,
        (Some(Relationship::Preceeds), true) => "preceded"@,
        (Some(Relationship::Causes), false) => "causes"@,
        (Some(Relationship::Causes), true) => "caused"@,
    }
}

/// The relation that a word names.
pub open spec fn relationship_named(word: Seq<char>) -> Option<ContextualizedRelationship> {
    if word == "relates"@ {
        Some(ContextualizedRelationship { relationship: None, is_inverse: false })
    } else if word == "blocks"@ {
        Some(
            ContextualizedRelationship {
                relationship: Some(Relationship::Blocks),
                is_inverse: false,
            },
        )
    } else if word == "blocked"@ {
        Some(
            ContextualizedRelationship { relationship: Some(Relationship::Blocks), is_inverse: true },
        )
    } else if word == "precedes"@ {
        Some(
            ContextualizedRelationship {
                relationship: Some(Relationship::Preceeds),
                is_inverse: false,
            },
        )
    } else if word == "preceded"@ {
        Some(
            ContextualizedRelationship {
                relationship: Some(Relationship::Preceeds),
                is_inverse: true,
            },
        )
    } else if word == "causes"@ {
        Some(
            ContextualizedRelationship {
                relationship: Some(Relationship::Causes),
                is_inverse: false,
            },
        )
    } else if word == "caused"@ {
        Some(
            ContextualizedRelationship { relationship: Some(Relationship::Causes), is_inverse: true },
        )
    } else {
        None
    }
}

impl ContextualizedRelationship {
    /// `relationship`, seen from its source or, where `is_inverse`, from its
    /// target.
    pub fn new(relationship: Relationship, is_inverse: bool) -> (link: ContextualizedRelationship)
        ensures
            link.relationship == Some(relationship),
            link.is_inverse == is_inverse,
    {
        ContextualizedRelationship { relationship: Some(relationship), is_inverse }
    }

    /// A link that says no more than that two issues have to do with each
    /// other.
    pub fn plain() -> (link: ContextualizedRelationship)
        ensures
            link.relationship is None,
            !link.is_inverse,
    {
        ContextualizedRelationship { relationship: None, is_inverse: false }
    }

    /// The relation of a stored link as seen from one of its issues: none
    /// where the link has no relation, else the relation seen from its
    /// source or, where `is_inverse`, from its target.
    pub fn of_link(relationship: Option<Relationship>, is_inverse: bool) -> (link: Option<
        ContextualizedRelationship,
    >)
        ensures
            link == match relationship {
                Some(relation) => Some(
                    ContextualizedRelationship { relationship: Some(relation), is_inverse },
                ),
                None => None,
            },
    {
        match relationship {
            Some(relation) => Some(ContextualizedRelationship::new(relation, is_inverse)),
            None => None,
        }
    }

    /// The word for this relation where the link has one.
    pub fn named(&self) -> (word: Option<String>)
        ensures
            match word {
                Some(text) => self.relationship is Some && text@ == relationship_word(*self),
                None => self.relationship is None,
            },
    {
        match self.relationship {
            Some(_) => Some(self.to_string()),
            None => None,
        }
    }

    /// The key of the sentence that tells of this relation.
    pub fn summary_key(&self) -> (key: String)
        ensures
            key@ == "issue-relationship-"@ + relationship_word(*self) + "-summary"@,
    {
        String::from_str("issue-relationship-").concat(self.as_str()).concat("-summary")
    }

    /// The word for this relation.
    pub fn as_str(&self) -> (word: &'static str)
        ensures
            word@ == relationship_word(*self),
    {
        match (self.relationship, self.is_inverse) {
            (None, _) => "relates",
            (Some(Relationship::Blocks), false) => "blocks",
            (Some(Relationship::Blocks), true) => "blocked",
            (Some(Relationship::Preceeds), false) => "precedes",
            (Some(Relationship::Preceeds), true) => "preceded",
            (Some(Relationship::Causes), false) => "causes",
            (Some(Relationship::Causes), true) => "caused",
        }
    }

    /// The word for this relation, as a string of its own.
    pub fn to_string(&self) -> (word: String)
        ensures
            word@ == relationship_word(*self),
    {
        self.as_str().to_owned()
    }

    /// The relation that `relationship` names.
    pub fn from_str(relationship: &str) -> (link: Result<
        ContextualizedRelationship,
        RelationshipParseError,
    >)
        ensures
            match link {
                Ok(named) => relationship_named(relationship@) == Some(named),
                Err(_) => relationship_named(relationship@) is None,
            },
    {
        if same_text(relationship, "relates") {
            Ok(ContextualizedRelationship::plain())
        } else if same_text(relationship, "blocks") {
            Ok(ContextualizedRelationship::new(Relationship::Blocks, false))
        } else if same_text(relationship, "blocked") {
            Ok(ContextualizedRelationship::new(Relationship::Blocks, true))
        } else if same_text(relationship, "precedes") {
            Ok(ContextualizedRelationship::new(Relationship::Preceeds, false))
        } else if same_text(relationship, "preceded") {
            Ok(ContextualizedRelationship::new(Relationship::Preceeds, true))
        } else if same_text(relationship, "causes") {
            Ok(ContextualizedRelationship::new(Relationship::Causes, false))
        } else if same_text(relationship, "caused") {
            Ok(ContextualizedRelationship::new(Relationship::Causes, true))
        } else {
            Err(RelationshipParseError)
        }
    }
}

impl RelationshipParseError {
    /// What to tell the user.
    pub fn to_string(&self) -> (message: String)
        ensures
            message@ == "invalid relationship"@,
    {
        "invalid relationship".to_owned()
    }
}

/// The seven words differ from one another.
proof fn lemma_words_differ()
    ensures
        "relates"@ != "blocks"@,
        "relates"@ != "blocked"@,
        "relates"@ != "precedes"@,
        "relates"@ != "preceded"@,
        "relates"@ != "causes"@,
        "relates"@ != "caused"@,
        "blocks"@ != "blocked"@,
        "blocks"@ != "precedes"@,
        "blocks"@ != "preceded"@,
        "blocks"@ != "causes"@,
        "blocks"@ != "caused"@,
        "blocked"@ != "precedes"@,
        "blocked"@ != "preceded"@,
        "blocked"@ != "causes"@,
        "blocked"@ != "caused"@,
        "precedes"@ != "preceded"@,
        "precedes"@ != "causes"@,
        "precedes"@ != "caused"@,
        "preceded"@ != "causes"@,
        "preceded"@ != "caused"@,
        "causes"@ != "caused"@,
{
    reveal_strlit("relates");
    reveal_strlit("blocks");
    reveal_strlit("blocked");
    reveal_strlit("precedes");
    reveal_strlit("preceded");
    reveal_strlit("causes");
    reveal_strlit("caused");
    assert("relates"@[0] == 'r' && "blocks"@[0] == 'b' && "blocked"@[0] == 'b' && "precedes"@[0]
        == 'p' && "preceded"@[0] == 'p' && "causes"@[0] == 'c' && "caused"@[0] == 'c');
    assert("blocks"@.len() == 6 && "blocked"@.len() == 7);
    assert("precedes"@[7] == 's' && "preceded"@[7] == 'd');
    assert("causes"@.len() == 6 && "caused"@.len() == 6 && "causes"@[5] == 's' && "caused"@[5]
        == 'd');
}

/// Reading the word of a relation gives the relation back, but that a link
/// without a relation always reads as seen from its source.
pub proof fn lemma_relationship_word_round_trip(link: ContextualizedRelationship)
    ensures
        relationship_named(relationship_word(link)) == Some(
            ContextualizedRelationship {
                relationship: link.relationship,
                is_inverse: link.relationship is Some && link.is_inverse,
            },
        ),
{
    lemma_words_differ();
}

/// A word that names a relation is the word of that relation.
pub proof fn lemma_named_relationship_word(word: Seq<char>)
    ensures
        relationship_named(word) matches Some(link) ==> relationship_word(link) == word,
{
}

} // verus!
