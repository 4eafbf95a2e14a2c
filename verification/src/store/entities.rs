//! Folded entity state: what replaying the wire history leaves per UUID.
use vstd::prelude::*;

use crate::ids::things_id::ThingsId;
use crate::time::UtcTime;
use crate::wire::codes::{TaskStart, TaskStatus, TaskType};
use crate::wire::entity::EntityType;
use crate::wire::notes::{spec_plain_text, TaskNotes};
use crate::wire::props::{
    AreaPatch, AreaProps, ChecklistItemPatch, ChecklistItemProps, RecurrenceRule, TagPatch,
    TagProps, TaskPatch, TaskProps,
};
use crate::wire::wire_object::Properties;

verus! {

/// Folded task properties.
#[derive(Debug)]
pub struct TaskStateProps {
    pub title: String,
    pub notes: Option<String>,
    pub item_type: TaskType,
    pub status: TaskStatus,
    pub stop_date: Option<UtcTime>,
    pub start_location: TaskStart,
    pub scheduled_date: Option<UtcTime>,
    pub today_index_reference: Option<i64>,
    pub deadline: Option<UtcTime>,
    pub parent_project_ids: Vec<ThingsId>,
    pub area_ids: Vec<ThingsId>,
    pub action_group_ids: Vec<ThingsId>,
    pub tag_ids: Vec<ThingsId>,
    pub sort_index: i32,
    pub today_sort_index: i32,
    pub recurrence_rule: Option<RecurrenceRule>,
    pub recurrence_template_ids: Vec<ThingsId>,
    pub instance_creation_paused: bool,
    pub evening_bit: i32,
    pub leaves_tombstone: bool,
    pub trashed: bool,
    pub creation_date: Option<UtcTime>,
    pub modification_date: Option<UtcTime>,
}

/// Folded checklist item properties.
#[derive(Debug)]
pub struct ChecklistItemStateProps {
    pub title: String,
    pub status: TaskStatus,
    pub task_ids: Vec<ThingsId>,
    pub sort_index: i32,
}

/// Folded area properties.
#[derive(Debug)]
pub struct AreaStateProps {
    pub title: String,
    pub tag_ids: Vec<ThingsId>,
    pub sort_index: i32,
}

/// Folded tag properties.
#[derive(Debug)]
pub struct TagStateProps {
    pub title: String,
    pub shortcut: Option<String>,
    pub sort_index: i32,
    pub parent_ids: Vec<ThingsId>,
}

/// Folded properties of one object.
#[derive(Debug)]
pub enum StateProperties {
    Task(TaskStateProps),
    ChecklistItem(ChecklistItemStateProps),
    Area(AreaStateProps),
    Tag(TagStateProps),
    Other,
}

/// Folded state of one object.
#[derive(Debug)]
pub struct StateObject {
    pub entity_type: Option<EntityType>,
    pub properties: StateProperties,
}

/// The text of an optional string.
pub open spec fn opt_text(o: Option<String>) -> Option<Seq<char>> {
    match o {
        Some(s) => Some(s@),
        None => None,
    }
}

/// The plain text of optional notes.
pub open spec fn notes_text(n: Option<TaskNotes>) -> Option<Seq<char>> {
    match n {
        Some(n) => spec_plain_text(n),
        None => None,
    }
}

/// A whole-second day timestamp as an instant.
pub open spec fn day_instant(v: Option<i64>) -> Option<UtcTime> {
    match v {
        Some(s) => Some(UtcTime { secs: s, nanos: 0 }),
        None => None,
    }
}

/// The task state that a task create leaves.
pub open spec fn task_state_of(p: TaskProps, s: TaskStateProps) -> bool {
    &&& s.title == p.title
    &&& opt_text(s.notes) == notes_text(p.notes)
    &&& s.item_type == p.item_type
    &&& s.status == p.status
    &&& s.stop_date == p.stop_date
    &&& s.start_location == p.start_location
    &&& s.scheduled_date == day_instant(p.scheduled_date)
    &&& s.today_index_reference == p.today_index_reference
    &&& s.deadline == day_instant(p.deadline)
    &&& s.parent_project_ids == p.parent_project_ids
    &&& s.area_ids == p.area_ids
    &&& s.action_group_ids == p.action_group_ids
    &&& s.tag_ids == p.tag_ids
    &&& s.sort_index == p.sort_index
    &&& s.today_sort_index == p.today_sort_index
    &&& s.recurrence_rule == p.recurrence_rule
    &&& s.recurrence_template_ids == p.recurrence_template_ids
    &&& s.instance_creation_paused == p.instance_creation_paused
    &&& s.evening_bit == p.evening_bit
    &&& s.leaves_tombstone == p.leaves_tombstone
    &&& s.trashed == p.trashed
    &&& s.creation_date == p.creation_date
    &&& s.modification_date == p.modification_date
}

/// Whether an optional patch field leaves `new` at `old` when absent and at
/// the patched value when present.
pub open spec fn patched<T>(old: T, field: Option<T>, new: T) -> bool {
    new == match field {
        Some(v) => v,
        None => old,
    }
}

/// The task state that applying a task patch to `old` leaves.
pub open spec fn task_patched(old: TaskStateProps, p: TaskPatch, new: TaskStateProps) -> bool {
    &&& patched(old.title, p.title, new.title)
    &&& opt_text(new.notes) == match p.notes {
        Some(n) => spec_plain_text(n),
        None => opt_text(old.notes),
    }
    &&& (p.notes is None ==> new.notes == old.notes)
    &&& patched(old.start_location, p.start_location, new.start_location)
    &&& new.scheduled_date == match p.scheduled_date {
        Some(v) => day_instant(v),
        None => old.scheduled_date,
    }
    &&& patched(old.today_index_reference, p.today_index_reference, new.today_index_reference)
    &&& patched(old.parent_project_ids, p.parent_project_ids, new.parent_project_ids)
    &&& patched(old.area_ids, p.area_ids, new.area_ids)
    &&& patched(old.action_group_ids, p.action_group_ids, new.action_group_ids)
    &&& patched(old.tag_ids, p.tag_ids, new.tag_ids)
    &&& patched(old.evening_bit, p.evening_bit, new.evening_bit)
    &&& new.modification_date == match p.modification_date {
        Some(v) => Some(v),
        None => old.modification_date,
    }
    &&& patched(old.item_type, p.item_type, new.item_type)
    &&& patched(old.status, p.status, new.status)
    &&& patched(old.stop_date, p.stop_date, new.stop_date)
    &&& patched(old.deadline, p.deadline, new.deadline)
    &&& patched(old.sort_index, p.sort_index, new.sort_index)
    &&& patched(old.today_sort_index, p.today_sort_index, new.today_sort_index)
    &&& patched(old.recurrence_rule, p.recurrence_rule, new.recurrence_rule)
    &&& patched(old.recurrence_template_ids, p.recurrence_template_ids, new.recurrence_template_ids)
    &&& patched(old.instance_creation_paused, p.instance_creation_paused, new.instance_creation_paused)
    &&& patched(old.leaves_tombstone, p.leaves_tombstone, new.leaves_tombstone)
    &&& patched(old.trashed, p.trashed, new.trashed)
    &&& patched(old.creation_date, p.creation_date, new.creation_date)
}

/// The checklist state that applying a checklist patch to `old` leaves.
pub open spec fn checklist_patched(
    old: ChecklistItemStateProps,
    p: ChecklistItemPatch,
    new: ChecklistItemStateProps,
) -> bool {
    &&& patched(old.title, p.title, new.title)
    &&& patched(old.status, p.status, new.status)
    &&& patched(old.task_ids, p.task_ids, new.task_ids)
    &&& patched(old.sort_index, p.sort_index, new.sort_index)
}

/// The area state that applying an area patch to `old` leaves.
pub open spec fn area_patched(old: AreaStateProps, p: AreaPatch, new: AreaStateProps) -> bool {
    &&& patched(old.title, p.title, new.title)
    &&& patched(old.tag_ids, p.tag_ids, new.tag_ids)
    &&& patched(old.sort_index, p.sort_index, new.sort_index)
}

/// The tag state that applying a tag patch to `old` leaves.
pub open spec fn tag_patched(old: TagStateProps, p: TagPatch, new: TagStateProps) -> bool {
    &&& patched(old.title, p.title, new.title)
    &&& patched(old.parent_ids, p.parent_ids, new.parent_ids)
    &&& patched(old.shortcut, p.shortcut, new.shortcut)
    &&& patched(old.sort_index, p.sort_index, new.sort_index)
}

/// The folded properties that a typed payload stands for on its own: the
/// four create payloads give their state, anything else gives `Other`.
pub open spec fn state_of_payload(p: Properties, s: StateProperties) -> bool {
    match p {
        Properties::TaskCreate(t) => s matches StateProperties::Task(st) && task_state_of(t, st),
        Properties::ChecklistCreate(c) => s == StateProperties::ChecklistItem(
            ChecklistItemStateProps {
                title: c.title,
                status: c.status,
                task_ids: c.task_ids,
                sort_index: c.sort_index,
            },
        ),
        Properties::AreaCreate(a) => s == StateProperties::Area(
            AreaStateProps { title: a.title, tag_ids: a.tag_ids, sort_index: a.sort_index },
        ),
        Properties::TagCreate(t) => s == StateProperties::Tag(
            TagStateProps {
                title: t.title,
                shortcut: t.shortcut,
                sort_index: t.sort_index,
                parent_ids: t.parent_ids,
            },
        ),
        _ => s is Other,
    }
}

/// Notes of a task create or patch as plain text.
fn notes_plain(n: Option<TaskNotes>) -> (r: Option<String>)
    ensures
        opt_text(r) == notes_text(n),
{
    match n {
        Some(n) => n.to_plain_text(),
        None => None,
    }
}

/// A whole-second day timestamp as an instant.
pub fn day_to_instant(v: Option<i64>) -> (r: Option<UtcTime>)
    ensures
        r == day_instant(v),
{
    match v {
        Some(s) => Some(UtcTime { secs: s, nanos: 0 }),
        None => None,
    }
}

/// The task state that a task create leaves.
pub fn task_state_from_props(p: TaskProps) -> (s: TaskStateProps)
    ensures
        task_state_of(p, s),
{
    let notes = notes_plain(p.notes);
    TaskStateProps {
        title: p.title,
        notes,
        item_type: p.item_type,
        status: p.status,
        stop_date: p.stop_date,
        start_location: p.start_location,
        scheduled_date: day_to_instant(p.scheduled_date),
        today_index_reference: p.today_index_reference,
        deadline: day_to_instant(p.deadline),
        parent_project_ids: p.parent_project_ids,
        area_ids: p.area_ids,
        action_group_ids: p.action_group_ids,
        tag_ids: p.tag_ids,
        sort_index: p.sort_index,
        today_sort_index: p.today_sort_index,
        recurrence_rule: p.recurrence_rule,
        recurrence_template_ids: p.recurrence_template_ids,
        instance_creation_paused: p.instance_creation_paused,
        evening_bit: p.evening_bit,
        leaves_tombstone: p.leaves_tombstone,
        trashed: p.trashed,
        creation_date: p.creation_date,
        modification_date: p.modification_date,
    }
}

/// The folded properties that a typed payload stands for on its own.
pub fn state_properties_from(p: Properties) -> (s: StateProperties)
    ensures
        state_of_payload(p, s),
{
    match p {
        Properties::TaskCreate(t) => StateProperties::Task(task_state_from_props(t)),
        Properties::ChecklistCreate(c) => StateProperties::ChecklistItem(
            ChecklistItemStateProps {
                title: c.title,
                status: c.status,
                task_ids: c.task_ids,
                sort_index: c.sort_index,
            },
        ),
        Properties::AreaCreate(a) => StateProperties::Area(
            AreaStateProps { title: a.title, tag_ids: a.tag_ids, sort_index: a.sort_index },
        ),
        Properties::TagCreate(t) => StateProperties::Tag(
            TagStateProps {
                title: t.title,
                shortcut: t.shortcut,
                sort_index: t.sort_index,
                parent_ids: t.parent_ids,
            },
        ),
        _ => StateProperties::Other,
    }
}

/// Replaces `dst` by the patch value when there is one.
fn set_if<T>(dst: &mut T, v: Option<T>)
    ensures
        patched(*old(dst), v, *final(dst)),
{
    if let Some(v) = v {
        *dst = v;
    }
}

/// Applies a task patch: each field the patch sets replaces the state's.
pub fn apply_task_patch(task: &mut TaskStateProps, patch: TaskPatch)
    ensures
        task_patched(*old(task), patch, *final(task)),
{
    set_if(&mut task.title, patch.title);
    if let Some(notes) = patch.notes {
        task.notes = notes.to_plain_text();
    }
    set_if(&mut task.start_location, patch.start_location);
    if let Some(scheduled_date) = patch.scheduled_date {
        task.scheduled_date = day_to_instant(scheduled_date);
    }
    set_if(&mut task.today_index_reference, patch.today_index_reference);
    set_if(&mut task.parent_project_ids, patch.parent_project_ids);
    set_if(&mut task.area_ids, patch.area_ids);
    set_if(&mut task.action_group_ids, patch.action_group_ids);
    set_if(&mut task.tag_ids, patch.tag_ids);
    set_if(&mut task.evening_bit, patch.evening_bit);
    if let Some(modification_date) = patch.modification_date {
        task.modification_date = Some(modification_date);
    }
    set_if(&mut task.item_type, patch.item_type);
    set_if(&mut task.status, patch.status);
    set_if(&mut task.stop_date, patch.stop_date);
    set_if(&mut task.deadline, patch.deadline);
    set_if(&mut task.sort_index, patch.sort_index);
    set_if(&mut task.today_sort_index, patch.today_sort_index);
    set_if(&mut task.recurrence_rule, patch.recurrence_rule);
    set_if(&mut task.recurrence_template_ids, patch.recurrence_template_ids);
    set_if(&mut task.instance_creation_paused, patch.instance_creation_paused);
    set_if(&mut task.leaves_tombstone, patch.leaves_tombstone);
    set_if(&mut task.trashed, patch.trashed);
    set_if(&mut task.creation_date, patch.creation_date);
}

/// Applies a checklist item patch.
pub fn apply_checklist_patch(item: &mut ChecklistItemStateProps, patch: ChecklistItemPatch)
    ensures
        checklist_patched(*old(item), patch, *final(item)),
{
    if let Some(title) = patch.title {
        item.title = title;
    }
    if let Some(status) = patch.status {
        item.status = status;
    }
    if let Some(task_ids) = patch.task_ids {
        item.task_ids = task_ids;
    }
    if let Some(sort_index) = patch.sort_index {
        item.sort_index = sort_index;
    }
}

/// Applies an area patch.
pub fn apply_area_patch(area: &mut AreaStateProps, patch: AreaPatch)
    ensures
        area_patched(*old(area), patch, *final(area)),
{
    if let Some(title) = patch.title {
        area.title = title;
    }
    if let Some(tag_ids) = patch.tag_ids {
        area.tag_ids = tag_ids;
    }
    if let Some(sort_index) = patch.sort_index {
        area.sort_index = sort_index;
    }
}

/// Applies a tag patch.
pub fn apply_tag_patch(tag: &mut TagStateProps, patch: TagPatch)
    ensures
        tag_patched(*old(tag), patch, *final(tag)),
{
    if let Some(title) = patch.title {
        tag.title = title;
    }
    if let Some(parent_ids) = patch.parent_ids {
        tag.parent_ids = parent_ids;
    }
    if let Some(shortcut) = patch.shortcut {
        tag.shortcut = shortcut;
    }
    if let Some(sort_index) = patch.sort_index {
        tag.sort_index = sort_index;
    }
}

/// What an update payload does to existing properties: a patch of the same
/// family is applied, an unknown payload changes nothing, and any other
/// payload replaces the properties by what it stands for on its own.
pub open spec fn update_applied(old: StateProperties, p: Properties, new: StateProperties) -> bool {
    match (old, p) {
        (StateProperties::Task(t), Properties::TaskUpdate(patch)) => new matches StateProperties::Task(
            n,
        ) && task_patched(t, patch, n),
        (StateProperties::ChecklistItem(c), Properties::ChecklistUpdate(patch)) => new matches StateProperties::ChecklistItem(n) && checklist_patched(c, patch, n),
        (StateProperties::Area(a), Properties::AreaUpdate(patch)) => new matches StateProperties::Area(
            n,
        ) && area_patched(a, patch, n),
        (StateProperties::Tag(t), Properties::TagUpdate(patch)) => new matches StateProperties::Tag(
            n,
        ) && tag_patched(t, patch, n),
        (_, Properties::Unknown(_)) => new == old,
        (_, _) => state_of_payload(p, new),
    }
}

/// Applies an update payload to existing properties.
pub fn apply_update_payload(existing: &mut StateProperties, payload: Properties)
    ensures
        update_applied(*old(existing), payload, *final(existing)),
{
    match (existing, payload) {
        (StateProperties::Task(task), Properties::TaskUpdate(patch)) => {
            apply_task_patch(task, patch);
        },
        (StateProperties::ChecklistItem(item), Properties::ChecklistUpdate(patch)) => {
            apply_checklist_patch(item, patch);
        },
        (StateProperties::Area(area), Properties::AreaUpdate(patch)) => {
            apply_area_patch(area, patch);
        },
        (StateProperties::Tag(tag), Properties::TagUpdate(patch)) => {
            apply_tag_patch(tag, patch);
        },
        (_, Properties::Unknown(_)) => {},
        (e, payload) => {
            *e = state_properties_from(payload);
        },
    }
}

} // verus!
