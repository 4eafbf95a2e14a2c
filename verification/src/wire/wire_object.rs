//! One wire object: an operation on an entity, with its typed payload.
use vstd::prelude::*;

use crate::wire::codes::OperationType;
use crate::wire::entity::{EntityKind, EntityType};
use crate::wire::value::PropMap;
use crate::wire::props::{
    AreaPatch, AreaProps, ChecklistItemPatch, ChecklistItemProps, CommandProps, TagPatch, TagProps,
    TaskPatch, TaskProps, TombstoneProps,
};

verus! {

/// The typed payload (`p`) of a wire object.
#[derive(Debug)]
pub enum Properties {
    TaskCreate(TaskProps),
    TaskUpdate(TaskPatch),
    ChecklistCreate(ChecklistItemProps),
    ChecklistUpdate(ChecklistItemPatch),
    TagCreate(TagProps),
    TagUpdate(TagPatch),
    AreaCreate(AreaProps),
    AreaUpdate(AreaPatch),
    TombstoneCreate(TombstoneProps),
    CommandCreate(CommandProps),
    Delete,
    /// A payload of no known shape, kept as loose properties.
    Unknown(PropMap),
}

/// A single wire object entry keyed by UUID.
#[derive(Debug)]
pub struct WireObject {
    pub operation_type: OperationType,
    pub entity_type: Option<EntityType>,
    pub payload: Properties,
}

/// Which typed payload a wire object's properties are read as.
#[derive(Clone, Copy, Debug, PartialEq, Eq, Structural)]
pub enum PayloadKind {
    TaskCreate,
    TaskUpdate,
    ChecklistCreate,
    ChecklistUpdate,
    TagCreate,
    TagUpdate,
    AreaCreate,
    AreaUpdate,
    TombstoneCreate,
    CommandCreate,
    Delete,
    Unknown,
}

/// Whether an entity is a task-like one: `Task6`, or an unknown name that
/// starts with `Task`.
pub open spec fn is_task_like(e: Option<EntityKind>) -> bool {
    e == Some(EntityKind::Task6) || (e matches Some(EntityKind::Unknown(n)) && "Task"@.is_prefix_of(n))
}

/// Whether an entity is a checklist-item-like one.
pub open spec fn is_checklist_like(e: Option<EntityKind>) -> bool {
    e == Some(EntityKind::ChecklistItem3) || (e matches Some(EntityKind::Unknown(n))
        && "ChecklistItem"@.is_prefix_of(n))
}

/// Whether an entity is a tag-like one.
pub open spec fn is_tag_like(e: Option<EntityKind>) -> bool {
    e == Some(EntityKind::Tag4) || (e matches Some(EntityKind::Unknown(n)) && "Tag"@.is_prefix_of(n))
}

/// Whether an entity is an area-like one.
pub open spec fn is_area_like(e: Option<EntityKind>) -> bool {
    e == Some(EntityKind::Area3) || (e matches Some(EntityKind::Unknown(n)) && "Area"@.is_prefix_of(n))
}

/// The view of an optional entity type.
pub open spec fn entity_view(e: Option<EntityType>) -> Option<EntityKind> {
    match e {
        Some(t) => Some(t@),
        None => None,
    }
}

/// The payload kind that an operation on an entity carries.
pub open spec fn spec_payload_kind(op: OperationType, e: Option<EntityKind>) -> PayloadKind {
    match op {
        OperationType::Delete => PayloadKind::Delete,
        OperationType::Create => if is_task_like(e) {
            PayloadKind::TaskCreate
        } else if is_checklist_like(e) {
            PayloadKind::ChecklistCreate
        } else if is_tag_like(e) {
            PayloadKind::TagCreate
        } else if is_area_like(e) {
            PayloadKind::AreaCreate
        } else if e == Some(EntityKind::Tombstone2) {
            PayloadKind::TombstoneCreate
        } else if e == Some(EntityKind::Command) {
            PayloadKind::CommandCreate
        } else {
            PayloadKind::Unknown
        },
        OperationType::Update => if is_task_like(e) {
            PayloadKind::TaskUpdate
        } else if is_checklist_like(e) {
            PayloadKind::ChecklistUpdate
        } else if is_tag_like(e) {
            PayloadKind::TagUpdate
        } else if is_area_like(e) {
            PayloadKind::AreaUpdate
        } else {
            PayloadKind::Unknown
        },
        OperationType::Unknown(_) => PayloadKind::Unknown,
    }
}

/// The payload kind of a typed payload.
pub open spec fn kind_of_properties(p: Properties) -> PayloadKind {
    match p {
        Properties::TaskCreate(_) => PayloadKind::TaskCreate,
        Properties::TaskUpdate(_) => PayloadKind::TaskUpdate,
        Properties::ChecklistCreate(_) => PayloadKind::ChecklistCreate,
        Properties::ChecklistUpdate(_) => PayloadKind::ChecklistUpdate,
        Properties::TagCreate(_) => PayloadKind::TagCreate,
        Properties::TagUpdate(_) => PayloadKind::TagUpdate,
        Properties::AreaCreate(_) => PayloadKind::AreaCreate,
        Properties::AreaUpdate(_) => PayloadKind::AreaUpdate,
        Properties::TombstoneCreate(_) => PayloadKind::TombstoneCreate,
        Properties::CommandCreate(_) => PayloadKind::CommandCreate,
        Properties::Delete => PayloadKind::Delete,
        Properties::Unknown(_) => PayloadKind::Unknown,
    }
}

/// The four entity families that carry typed props and patches.
#[derive(Clone, Copy, Debug, PartialEq, Eq, Structural)]
enum Family {
    Task,
    Checklist,
    Tag,
    Area,
}

spec fn family_kind(f: Family) -> EntityKind {
    match f {
        Family::Task => EntityKind::Task6,
        Family::Checklist => EntityKind::ChecklistItem3,
        Family::Tag => EntityKind::Tag4,
        Family::Area => EntityKind::Area3,
    }
}

fn entity_is(e: Option<&EntityType>, f: Family, prefix: &str) -> (r: bool)
    ensures
        r == (entity_view(match e { Some(t) => Some(*t), None => None }) == Some(family_kind(f))
            || (e matches Some(t) && t@ matches EntityKind::Unknown(n) && prefix@.is_prefix_of(n))),
{
    match e {
        None => false,
        Some(t) => {
            let is_known = match (t, f) {
                (EntityType::Task6, Family::Task) => true,
                (EntityType::ChecklistItem3, Family::Checklist) => true,
                (EntityType::Tag4, Family::Tag) => true,
                (EntityType::Area3, Family::Area) => true,
                _ => false,
            };
            is_known || t.unknown_starts_with(prefix)
        },
    }
}

impl WireObject {
    /// A create operation on an entity.
    pub fn create(entity_type: EntityType, payload: Properties) -> (r: WireObject)
        ensures
            r.operation_type == OperationType::Create,
            r.entity_type == Some(entity_type),
            r.payload == payload,
    {
        WireObject { operation_type: OperationType::Create, entity_type: Some(entity_type), payload }
    }

    /// An update operation on an entity.
    pub fn update(entity_type: EntityType, payload: Properties) -> (r: WireObject)
        ensures
            r.operation_type == OperationType::Update,
            r.entity_type == Some(entity_type),
            r.payload == payload,
    {
        WireObject { operation_type: OperationType::Update, entity_type: Some(entity_type), payload }
    }

    /// A delete operation on an entity.
    pub fn delete(entity_type: EntityType) -> (r: WireObject)
        ensures
            r.operation_type == OperationType::Delete,
            r.entity_type == Some(entity_type),
            r.payload is Delete,
    {
        WireObject {
            operation_type: OperationType::Delete,
            entity_type: Some(entity_type),
            payload: Properties::Delete,
        }
    }

    /// The typed payload that the properties of an operation on an entity
    /// are read as: deletes carry none, creates and updates of known (or
    /// known-prefixed) entities carry their typed props or patch, and
    /// everything else is kept unknown.
    pub fn payload_kind(op: OperationType, entity_type: Option<&EntityType>) -> (r: PayloadKind)
        ensures
            r == spec_payload_kind(op, entity_view(match entity_type { Some(t) => Some(*t), None => None })),
    {
        let task = entity_is(entity_type, Family::Task, "Task");
        let checklist = entity_is(entity_type, Family::Checklist, "ChecklistItem");
        let tag = entity_is(entity_type, Family::Tag, "Tag");
        let area = entity_is(entity_type, Family::Area, "Area");
        proof {
            reveal_strlit("Task");
            reveal_strlit("ChecklistItem");
            reveal_strlit("Tag");
            reveal_strlit("Area");
        }
        match op {
            OperationType::Delete => PayloadKind::Delete,
            OperationType::Create => {
                if task {
                    PayloadKind::TaskCreate
                } else if checklist {
                    PayloadKind::ChecklistCreate
                } else if tag {
                    PayloadKind::TagCreate
                } else if area {
                    PayloadKind::AreaCreate
                } else {
                    match entity_type {
                        Some(EntityType::Tombstone2) => PayloadKind::TombstoneCreate,
                        Some(EntityType::Command) => PayloadKind::CommandCreate,
                        _ => PayloadKind::Unknown,
                    }
                }
            },
            OperationType::Update => {
                if task {
                    PayloadKind::TaskUpdate
                } else if checklist {
                    PayloadKind::ChecklistUpdate
                } else if tag {
                    PayloadKind::TagUpdate
                } else if area {
                    PayloadKind::AreaUpdate
                } else {
                    PayloadKind::Unknown
                }
            },
            OperationType::Unknown(_) => PayloadKind::Unknown,
        }
    }
}

} // verus!
