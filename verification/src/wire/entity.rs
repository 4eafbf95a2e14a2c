//! Entity type names of the wire format.
use vstd::prelude::*;

use crate::text::{owned, str_eq};

verus! {

/// Entity type for wire field `e`.
///
/// Values are versioned by Things (for example `Task6`, `Area3`).
#[derive(Clone, Debug, PartialEq, Eq)]
pub enum EntityType {
    /// Task/project/heading entity (current observed version).
    Task6,
    /// Checklist item entity (current observed version).
    ChecklistItem3,
    /// Tag entity (current observed version).
    Tag4,
    /// Area entity (current observed version).
    Area3,
    /// Settings entity.
    Settings5,
    /// Tombstone marker for deleted objects.
    Tombstone2,
    /// One-shot command entity.
    Command,
    /// Unknown entity name preserved for forward compatibility.
    Unknown(String),
}

/// The mathematical value of an entity type: its variant, with the name of
/// an unknown entity.
pub ghost enum EntityKind {
    Task6,
    ChecklistItem3,
    Tag4,
    Area3,
    Settings5,
    Tombstone2,
    Command,
    Unknown(Seq<char>),
}

impl View for EntityType {
    type V = EntityKind;

    open spec fn view(&self) -> EntityKind {
        match self {
            EntityType::Task6 => EntityKind::Task6,
            EntityType::ChecklistItem3 => EntityKind::ChecklistItem3,
            EntityType::Tag4 => EntityKind::Tag4,
            EntityType::Area3 => EntityKind::Area3,
            EntityType::Settings5 => EntityKind::Settings5,
            EntityType::Tombstone2 => EntityKind::Tombstone2,
            EntityType::Command => EntityKind::Command,
            EntityType::Unknown(s) => EntityKind::Unknown(s@),
        }
    }
}

/// The wire name of an entity kind.
pub open spec fn kind_name(k: EntityKind) -> Seq<char> {
    match k {
        EntityKind::Task6 => "Task6"@,
        EntityKind::ChecklistItem3 => "ChecklistItem3"@,
        EntityKind::Tag4 => "Tag4"@,
        EntityKind::Area3 => "Area3"@,
        EntityKind::Settings5 => "Settings5"@,
        EntityKind::Tombstone2 => "Tombstone2"@,
        EntityKind::Command => "Command"@,
        EntityKind::Unknown(s) => s,
    }
}

/// The entity kind a wire name denotes; names without a variant stay
/// `Unknown`.
pub open spec fn kind_of_name(s: Seq<char>) -> EntityKind {
    if s == "Task6"@ {
        EntityKind::Task6
    } else if s == "ChecklistItem3"@ {
        EntityKind::ChecklistItem3
    } else if s == "Tag4"@ {
        EntityKind::Tag4
    } else if s == "Area3"@ {
        EntityKind::Area3
    } else if s == "Settings5"@ {
        EntityKind::Settings5
    } else if s == "Tombstone2"@ {
        EntityKind::Tombstone2
    } else if s == "Command"@ {
        EntityKind::Command
    } else {
        EntityKind::Unknown(s)
    }
}

/// Whether a wire name is one of the named variants.
pub open spec fn is_known_name(s: Seq<char>) -> bool {
    !(kind_of_name(s) is Unknown)
}

impl EntityType {
    /// The entity type a wire name denotes.
    pub fn from_name(s: &str) -> (r: EntityType)
        ensures
            r@ == kind_of_name(s@),
    {
        if str_eq(s, "Task6") {
            EntityType::Task6
        } else if str_eq(s, "ChecklistItem3") {
            EntityType::ChecklistItem3
        } else if str_eq(s, "Tag4") {
            EntityType::Tag4
        } else if str_eq(s, "Area3") {
            EntityType::Area3
        } else if str_eq(s, "Settings5") {
            EntityType::Settings5
        } else if str_eq(s, "Tombstone2") {
            EntityType::Tombstone2
        } else if str_eq(s, "Command") {
            EntityType::Command
        } else {
            EntityType::Unknown(owned(s))
        }
    }

    /// The wire name of the entity type.
    pub fn name(&self) -> (r: String)
        ensures
            r@ == kind_name(self@),
    {
        match self {
            EntityType::Task6 => owned("Task6"),
            EntityType::ChecklistItem3 => owned("ChecklistItem3"),
            EntityType::Tag4 => owned("Tag4"),
            EntityType::Area3 => owned("Area3"),
            EntityType::Settings5 => owned("Settings5"),
            EntityType::Tombstone2 => owned("Tombstone2"),
            EntityType::Command => owned("Command"),
            EntityType::Unknown(s) => owned(s.as_str()),
        }
    }

    /// A copy of the entity type.
    pub fn duplicate(&self) -> (r: EntityType)
        ensures
            r@ == self@,
    {
        match self {
            EntityType::Task6 => EntityType::Task6,
            EntityType::ChecklistItem3 => EntityType::ChecklistItem3,
            EntityType::Tag4 => EntityType::Tag4,
            EntityType::Area3 => EntityType::Area3,
            EntityType::Settings5 => EntityType::Settings5,
            EntityType::Tombstone2 => EntityType::Tombstone2,
            EntityType::Command => EntityType::Command,
            EntityType::Unknown(s) => EntityType::Unknown(owned(s.as_str())),
        }
    }

    /// Whether the name of an unknown entity starts with `prefix`.
    pub fn unknown_starts_with(&self, prefix: &str) -> (r: bool)
        ensures
            r == (self@ matches EntityKind::Unknown(n) && prefix@.is_prefix_of(n)),
    {
        match self {
            EntityType::Unknown(s) => crate::text::str_starts_with(s.as_str(), prefix),
            _ => false,
        }
    }
}

/// Reading any wire name as an entity type and writing it back gives the
/// same name.
pub proof fn lemma_name_roundtrip(s: Seq<char>)
    ensures
        kind_name(kind_of_name(s)) == s,
{
}

/// An entity kind whose unknown name is not one of the named variants
/// survives writing and reading back its name.
pub proof fn lemma_kind_roundtrip(k: EntityKind)
    requires
        k matches EntityKind::Unknown(n) ==> !is_known_name(n),
    ensures
        kind_of_name(kind_name(k)) == k,
{
    reveal_strlit("Task6");
    reveal_strlit("ChecklistItem3");
    reveal_strlit("Tag4");
    reveal_strlit("Area3");
    reveal_strlit("Settings5");
    reveal_strlit("Tombstone2");
    reveal_strlit("Command");
    assert("Task6"@.len() == 5);
    assert("ChecklistItem3"@.len() == 14);
    assert("Tag4"@.len() == 4);
    assert("Area3"@.len() == 5);
    assert("Settings5"@.len() == 9);
    assert("Tombstone2"@.len() == 10);
    assert("Command"@.len() == 7);
    assert("Area3"@[0] == 'A');
    assert("Task6"@[0] == 'T');
    if let EntityKind::Unknown(n) = k {
        assert(kind_of_name(n) is Unknown);
    }
}

} // verus!
