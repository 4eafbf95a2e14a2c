//! Property payloads (`p`) of the wire entities, and sparse patches.
//!
//! Timestamps that travel as fractional seconds are held as [`UtcTime`];
//! fields holding free-form JSON are kept as their JSON text.
use vstd::prelude::*;

use crate::ids::things_id::ThingsId;
use crate::time::UtcTime;
use crate::wire::codes::{
    task_start_code, task_status_code, task_type_code, FrequencyUnit, RecurrenceType, TaskStart,
    TaskStatus, TaskType,
};
use crate::wire::notes::TaskNotes;
use crate::wire::value::{opt_view, put, PropMap, PropValue, PropView};

verus! {

/// Recurrence rule payload (`rr`) for recurring templates.
#[derive(Debug)]
pub struct RecurrenceRule {
    /// `tp`: recurrence mode.
    pub repeat_type: RecurrenceType,
    /// `fu`: frequency unit bitmask.
    pub frequency_unit: FrequencyUnit,
    /// `fa`: frequency amount (every N units).
    pub frequency_amount: i32,
    /// `of`: offsets (weekday/day/ordinal selectors), as JSON text.
    pub offsets: Vec<String>,
    /// `sr`: recurrence start reference day timestamp.
    pub start_reference: Option<i64>,
    /// `ia`: initial anchor day timestamp for recurrence calculations.
    pub initial_anchor: Option<i64>,
    /// `ed`: recurrence end day timestamp (`64092211200` ~= effectively never).
    pub end_date: i64,
    /// `rc`: repeat count.
    pub repeat_count: i32,
    /// `ts`: task skip behavior metadata.
    pub task_skip: i32,
    /// `rrv`: recurrence rule version.
    pub recurrence_rule_version: i32,
}

/// Task wire properties (`p` fields for `Task6`).
#[derive(Debug)]
pub struct TaskProps {
    /// `tt`: title.
    pub title: String,
    /// `nt`: notes payload.
    pub notes: Option<TaskNotes>,
    /// `tp`: task type.
    pub item_type: TaskType,
    /// `ss`: task status.
    pub status: TaskStatus,
    /// `sp`: completion/cancellation time.
    pub stop_date: Option<UtcTime>,
    /// `st`: list location.
    pub start_location: TaskStart,
    /// `sr`: scheduled/start day timestamp.
    pub scheduled_date: Option<i64>,
    /// `tir`: today index reference day timestamp.
    pub today_index_reference: Option<i64>,
    /// `dd`: deadline day timestamp.
    pub deadline: Option<i64>,
    /// `dds`: deadline suppressed day (JSON text).
    pub deadline_suppressed_date: Option<String>,
    /// `pr`: parent project IDs.
    pub parent_project_ids: Vec<ThingsId>,
    /// `ar`: area IDs.
    pub area_ids: Vec<ThingsId>,
    /// `agr`: heading/action-group IDs.
    pub action_group_ids: Vec<ThingsId>,
    /// `tg`: applied tag IDs.
    pub tag_ids: Vec<ThingsId>,
    /// `ix`: structural sort index in its container.
    pub sort_index: i32,
    /// `ti`: Today-view sort index.
    pub today_sort_index: i32,
    /// `do`: due date offset.
    pub due_date_offset: i32,
    /// `rr`: recurrence rule.
    pub recurrence_rule: Option<RecurrenceRule>,
    /// `rt`: recurrence template IDs.
    pub recurrence_template_ids: Vec<ThingsId>,
    /// `icsd`: instance creation suppressed date timestamp.
    pub instance_creation_suppressed_date: Option<i64>,
    /// `acrd`: after-completion reference date timestamp.
    pub after_completion_reference_date: Option<i64>,
    /// `icc`: checklist item count.
    pub checklist_item_count: i32,
    /// `icp`: instance creation paused flag.
    pub instance_creation_paused: bool,
    /// `ato`: alarm time offset in seconds from day start.
    pub alarm_time_offset: Option<i64>,
    /// `lai`: last alarm interaction time.
    pub last_alarm_interaction: Option<UtcTime>,
    /// `sb`: evening section bit.
    pub evening_bit: i32,
    /// `lt`: leaves tombstone when deleted.
    pub leaves_tombstone: bool,
    /// `tr`: trashed state.
    pub trashed: bool,
    /// `dl`: deadline list metadata (JSON text per entry).
    pub deadline_list: Vec<String>,
    /// `xx`: conflict override metadata (JSON text).
    pub conflict_overrides: Option<String>,
    /// `cd`: creation time.
    pub creation_date: Option<UtcTime>,
    /// `md`: last user-modification time.
    pub modification_date: Option<UtcTime>,
}

/// Sparse patch fields for Task `t=1` updates.
#[derive(Debug)]
pub struct TaskPatch {
    pub title: Option<String>,
    pub notes: Option<TaskNotes>,
    pub start_location: Option<TaskStart>,
    pub scheduled_date: Option<Option<i64>>,
    pub today_index_reference: Option<Option<i64>>,
    pub parent_project_ids: Option<Vec<ThingsId>>,
    pub area_ids: Option<Vec<ThingsId>>,
    pub action_group_ids: Option<Vec<ThingsId>>,
    pub tag_ids: Option<Vec<ThingsId>>,
    pub evening_bit: Option<i32>,
    pub item_type: Option<TaskType>,
    pub status: Option<TaskStatus>,
    pub stop_date: Option<Option<UtcTime>>,
    pub deadline: Option<Option<UtcTime>>,
    pub sort_index: Option<i32>,
    pub today_sort_index: Option<i32>,
    pub recurrence_rule: Option<Option<RecurrenceRule>>,
    pub recurrence_template_ids: Option<Vec<ThingsId>>,
    pub instance_creation_paused: Option<bool>,
    pub leaves_tombstone: Option<bool>,
    pub trashed: Option<bool>,
    pub creation_date: Option<Option<UtcTime>>,
    pub modification_date: Option<UtcTime>,
}

/// Checklist item wire properties.
#[derive(Debug)]
pub struct ChecklistItemProps {
    pub title: String,
    pub status: TaskStatus,
    pub stop_date: Option<UtcTime>,
    /// `ts`: parent task IDs (normally a single task UUID).
    pub task_ids: Vec<ThingsId>,
    pub sort_index: i32,
    pub creation_date: Option<UtcTime>,
    pub modification_date: Option<UtcTime>,
    pub leaves_tombstone: bool,
    pub conflict_overrides: Option<String>,
}

/// Sparse patch fields for ChecklistItem `t=1` updates.
#[derive(Debug)]
pub struct ChecklistItemPatch {
    pub title: Option<String>,
    pub status: Option<TaskStatus>,
    pub task_ids: Option<Vec<ThingsId>>,
    pub sort_index: Option<i32>,
    pub creation_date: Option<UtcTime>,
    pub modification_date: Option<UtcTime>,
}

/// Tag wire properties.
#[derive(Debug)]
pub struct TagProps {
    pub title: String,
    /// `sh`: keyboard shortcut.
    pub shortcut: Option<String>,
    pub sort_index: i32,
    /// `pn`: parent tag IDs.
    pub parent_ids: Vec<ThingsId>,
    pub conflict_overrides: Option<String>,
}

/// Sparse patch fields for Tag `t=1` updates.
#[derive(Debug)]
pub struct TagPatch {
    pub title: Option<String>,
    pub parent_ids: Option<Vec<ThingsId>>,
    pub shortcut: Option<Option<String>>,
    pub sort_index: Option<i32>,
    pub modification_date: Option<UtcTime>,
}

/// Area wire properties.
#[derive(Debug)]
pub struct AreaProps {
    pub title: String,
    pub tag_ids: Vec<ThingsId>,
    pub sort_index: i32,
    pub conflict_overrides: Option<String>,
}

/// Sparse patch fields for Area `t=1` updates.
#[derive(Debug)]
pub struct AreaPatch {
    pub title: Option<String>,
    pub tag_ids: Option<Vec<ThingsId>>,
    pub sort_index: Option<i32>,
    pub modification_date: Option<UtcTime>,
}

/// Tombstone properties that mark a deleted object.
#[derive(Debug)]
pub struct TombstoneProps {
    /// `dloid`: deleted object UUID.
    pub deleted_object_id: ThingsId,
    /// `dld`: deletion time.
    pub delete_date: Option<UtcTime>,
}

/// One-shot command properties.
#[derive(Debug)]
pub struct CommandProps {
    /// `tp`: command type.
    pub command_type: i32,
    /// `cd`: creation timestamp.
    pub creation_date: Option<i64>,
    /// `if`: initial field payload (key and JSON text).
    pub initial_fields: Option<Vec<(String, String)>>,
}

/// Whether a task patch sets nothing.
pub open spec fn task_patch_is_empty(p: TaskPatch) -> bool {
    &&& p.title is None
    &&& p.notes is None
    &&& p.start_location is None
    &&& p.scheduled_date is None
    &&& p.today_index_reference is None
    &&& p.parent_project_ids is None
    &&& p.area_ids is None
    &&& p.action_group_ids is None
    &&& p.tag_ids is None
    &&& p.evening_bit is None
    &&& p.item_type is None
    &&& p.status is None
    &&& p.stop_date is None
    &&& p.deadline is None
    &&& p.sort_index is None
    &&& p.today_sort_index is None
    &&& p.recurrence_rule is None
    &&& p.recurrence_template_ids is None
    &&& p.instance_creation_paused is None
    &&& p.leaves_tombstone is None
    &&& p.trashed is None
    &&& p.creation_date is None
    &&& p.modification_date is None
}

/// A text field of a patch as a property value.
pub open spec fn text_view(v: Option<String>) -> Option<PropView> {
    match v {
        Some(x) => Some(PropView::Text(x@)),
        None => None,
    }
}

/// An identifier-list field of a patch as a property value.
pub open spec fn ids_view(v: Option<Vec<ThingsId>>) -> Option<PropView> {
    match v {
        Some(x) => Some(PropView::Ids(x@)),
        None => None,
    }
}

/// A 32-bit integer field of a patch as a property value.
pub open spec fn int_view(v: Option<i32>) -> Option<PropView> {
    match v {
        Some(x) => Some(PropView::Int(x as i64)),
        None => None,
    }
}

/// A boolean field of a patch as a property value.
pub open spec fn bool_view(v: Option<bool>) -> Option<PropView> {
    match v {
        Some(x) => Some(PropView::Bool(x)),
        None => None,
    }
}

/// A time field of a patch as a property value.
pub open spec fn time_view(v: Option<UtcTime>) -> Option<PropView> {
    match v {
        Some(x) => Some(PropView::Time(x)),
        None => None,
    }
}

/// A clearable day field of a patch: the day, or null to clear it.
pub open spec fn day_or_null(v: Option<Option<i64>>) -> Option<PropView> {
    match v {
        Some(Some(x)) => Some(PropView::Int(x)),
        Some(None) => Some(PropView::Null),
        None => None,
    }
}

/// A clearable time field of a patch: the time, or null to clear it.
pub open spec fn time_or_null(v: Option<Option<UtcTime>>) -> Option<PropView> {
    match v {
        Some(Some(x)) => Some(PropView::Time(x)),
        Some(None) => Some(PropView::Null),
        None => None,
    }
}

/// The property map a task patch stands for: each field it sets, under its
/// wire name.
pub open spec fn task_patch_props(p: TaskPatch) -> Map<Seq<char>, PropView> {
    let m = Map::<Seq<char>, PropView>::empty();
    let m = put(m, "tt"@, text_view(p.title));
    let m = put(m, "nt"@, match p.notes { Some(n) => Some(PropView::Notes(n)), None => None });
    let m = put(m, "st"@, match p.start_location { Some(x) => Some(PropView::Int(task_start_code(x) as i64)), None => None });
    let m = put(m, "sr"@, day_or_null(p.scheduled_date));
    let m = put(m, "tir"@, day_or_null(p.today_index_reference));
    let m = put(m, "pr"@, ids_view(p.parent_project_ids));
    let m = put(m, "ar"@, ids_view(p.area_ids));
    let m = put(m, "agr"@, ids_view(p.action_group_ids));
    let m = put(m, "tg"@, ids_view(p.tag_ids));
    let m = put(m, "sb"@, int_view(p.evening_bit));
    let m = put(m, "tp"@, match p.item_type { Some(x) => Some(PropView::Int(task_type_code(x) as i64)), None => None });
    let m = put(m, "ss"@, match p.status { Some(x) => Some(PropView::Int(task_status_code(x) as i64)), None => None });
    let m = put(m, "sp"@, time_or_null(p.stop_date));
    let m = put(m, "dd"@, time_or_null(p.deadline));
    let m = put(m, "ix"@, int_view(p.sort_index));
    let m = put(m, "ti"@, int_view(p.today_sort_index));
    let m = put(
        m,
        "rr"@,
        match p.recurrence_rule {
            Some(Some(r)) => Some(PropView::Rule(r)),
            Some(None) => Some(PropView::Null),
            None => None,
        },
    );
    let m = put(m, "rt"@, ids_view(p.recurrence_template_ids));
    let m = put(m, "icp"@, bool_view(p.instance_creation_paused));
    let m = put(m, "lt"@, bool_view(p.leaves_tombstone));
    let m = put(m, "tr"@, bool_view(p.trashed));
    let m = put(m, "cd"@, time_or_null(p.creation_date));
    put(m, "md"@, time_view(p.modification_date))
}

fn text_value(v: Option<String>) -> (r: Option<PropValue>)
    ensures
        opt_view(r) == text_view(v),
{
    match v {
        Some(x) => Some(PropValue::Text(x)),
        None => None,
    }
}

fn ids_value(v: Option<Vec<ThingsId>>) -> (r: Option<PropValue>)
    ensures
        opt_view(r) == ids_view(v),
{
    match v {
        Some(x) => Some(PropValue::Ids(x)),
        None => None,
    }
}

fn int_value(v: Option<i32>) -> (r: Option<PropValue>)
    ensures
        opt_view(r) == int_view(v),
{
    match v {
        Some(x) => Some(PropValue::Int(x as i64)),
        None => None,
    }
}

fn bool_value(v: Option<bool>) -> (r: Option<PropValue>)
    ensures
        opt_view(r) == bool_view(v),
{
    match v {
        Some(x) => Some(PropValue::Bool(x)),
        None => None,
    }
}

fn time_value(v: Option<UtcTime>) -> (r: Option<PropValue>)
    ensures
        opt_view(r) == time_view(v),
{
    match v {
        Some(x) => Some(PropValue::Time(x)),
        None => None,
    }
}

fn day_value(v: Option<Option<i64>>) -> (r: Option<PropValue>)
    ensures
        opt_view(r) == day_or_null(v),
{
    match v {
        Some(Some(x)) => Some(PropValue::Int(x)),
        Some(None) => Some(PropValue::Null),
        None => None,
    }
}

fn time_value_or_null(v: Option<Option<UtcTime>>) -> (r: Option<PropValue>)
    ensures
        opt_view(r) == time_or_null(v),
{
    match v {
        Some(Some(x)) => Some(PropValue::Time(x)),
        Some(None) => Some(PropValue::Null),
        None => None,
    }
}

/// A task patch stands for the empty property map exactly when it sets
/// nothing.
pub proof fn lemma_task_patch_props_empty(p: TaskPatch)
    ensures
        (task_patch_props(p) == Map::<Seq<char>, PropView>::empty()) <==> task_patch_is_empty(p),
{
    if task_patch_is_empty(p) {
        assert(task_patch_props(p) =~= Map::<Seq<char>, PropView>::empty());
    } else {
        let m = task_patch_props(p);
        if m == Map::<Seq<char>, PropView>::empty() {
            assert(p.title is Some ==> m.contains_key("tt"@));
            assert(p.notes is Some ==> m.contains_key("nt"@));
            assert(p.start_location is Some ==> m.contains_key("st"@));
            assert(p.scheduled_date is Some ==> m.contains_key("sr"@));
            assert(p.today_index_reference is Some ==> m.contains_key("tir"@));
            assert(p.parent_project_ids is Some ==> m.contains_key("pr"@));
            assert(p.area_ids is Some ==> m.contains_key("ar"@));
            assert(p.action_group_ids is Some ==> m.contains_key("agr"@));
            assert(p.tag_ids is Some ==> m.contains_key("tg"@));
            assert(p.evening_bit is Some ==> m.contains_key("sb"@));
            assert(p.item_type is Some ==> m.contains_key("tp"@));
            assert(p.status is Some ==> m.contains_key("ss"@));
            assert(p.stop_date is Some ==> m.contains_key("sp"@));
            assert(p.deadline is Some ==> m.contains_key("dd"@));
            assert(p.sort_index is Some ==> m.contains_key("ix"@));
            assert(p.today_sort_index is Some ==> m.contains_key("ti"@));
            assert(p.recurrence_rule is Some ==> m.contains_key("rr"@));
            assert(p.recurrence_template_ids is Some ==> m.contains_key("rt"@));
            assert(p.instance_creation_paused is Some ==> m.contains_key("icp"@));
            assert(p.leaves_tombstone is Some ==> m.contains_key("lt"@));
            assert(p.trashed is Some ==> m.contains_key("tr"@));
            assert(p.creation_date is Some ==> m.contains_key("cd"@));
            assert(p.modification_date is Some ==> m.contains_key("md"@));
        }
    }
}

impl TaskPatch {
    /// Whether the patch sets nothing.
    pub fn is_empty(&self) -> (r: bool)
        ensures
            r == task_patch_is_empty(*self),
    {
        self.title.is_none() && self.notes.is_none() && self.start_location.is_none()
            && self.scheduled_date.is_none() && self.today_index_reference.is_none()
            && self.parent_project_ids.is_none() && self.area_ids.is_none()
            && self.action_group_ids.is_none() && self.tag_ids.is_none()
            && self.evening_bit.is_none() && self.item_type.is_none() && self.status.is_none()
            && self.stop_date.is_none() && self.deadline.is_none() && self.sort_index.is_none()
            && self.today_sort_index.is_none() && self.recurrence_rule.is_none()
            && self.recurrence_template_ids.is_none() && self.instance_creation_paused.is_none()
            && self.leaves_tombstone.is_none() && self.trashed.is_none()
            && self.creation_date.is_none() && self.modification_date.is_none()
    }

    /// The property map the patch stands for: each field it sets, under its
    /// wire name; it is empty exactly when the patch sets nothing.
    pub fn into_properties(self) -> (r: PropMap)
        ensures
            r.wf(),
            r.values() == task_patch_props(self),
            (r@ == Map::<Seq<char>, PropValue>::empty()) <==> task_patch_is_empty(self),
    {
        let ghost p = self;
        let TaskPatch {
            title,
            notes,
            start_location,
            scheduled_date,
            today_index_reference,
            parent_project_ids,
            area_ids,
            action_group_ids,
            tag_ids,
            evening_bit,
            item_type,
            status,
            stop_date,
            deadline,
            sort_index,
            today_sort_index,
            recurrence_rule,
            recurrence_template_ids,
            instance_creation_paused,
            leaves_tombstone,
            trashed,
            creation_date,
            modification_date,
        } = self;
        let mut m = PropMap::new();
        proof {
            assert(m.values() =~= Map::<Seq<char>, PropView>::empty());
        }
        m.set_opt("tt", text_value(title));
        m.set_opt("nt", match notes { Some(n) => Some(PropValue::Notes(n)), None => None });
        m.set_opt("st", match start_location { Some(x) => Some(PropValue::Int(x.code() as i64)), None => None });
        m.set_opt("sr", day_value(scheduled_date));
        m.set_opt("tir", day_value(today_index_reference));
        m.set_opt("pr", ids_value(parent_project_ids));
        m.set_opt("ar", ids_value(area_ids));
        m.set_opt("agr", ids_value(action_group_ids));
        m.set_opt("tg", ids_value(tag_ids));
        m.set_opt("sb", int_value(evening_bit));
        m.set_opt("tp", match item_type { Some(x) => Some(PropValue::Int(x.code() as i64)), None => None });
        m.set_opt("ss", match status { Some(x) => Some(PropValue::Int(x.code() as i64)), None => None });
        m.set_opt("sp", time_value_or_null(stop_date));
        m.set_opt("dd", time_value_or_null(deadline));
        m.set_opt("ix", int_value(sort_index));
        m.set_opt("ti", int_value(today_sort_index));
        m.set_opt(
            "rr",
            match recurrence_rule {
                Some(Some(r)) => Some(PropValue::Rule(r)),
                Some(None) => Some(PropValue::Null),
                None => None,
            },
        );
        m.set_opt("rt", ids_value(recurrence_template_ids));
        m.set_opt("icp", bool_value(instance_creation_paused));
        m.set_opt("lt", bool_value(leaves_tombstone));
        m.set_opt("tr", bool_value(trashed));
        m.set_opt("cd", time_value_or_null(creation_date));
        m.set_opt("md", time_value(modification_date));
        proof {
            lemma_task_patch_props_empty(p);
            assert((m@ == Map::<Seq<char>, PropValue>::empty()) <==> m.values() == Map::<Seq<char>, PropView>::empty()) by {
                if m.values() == Map::<Seq<char>, PropView>::empty() {
                    assert(m@ =~= Map::<Seq<char>, PropValue>::empty()) by {
                        assert forall|k: Seq<char>| !m@.contains_key(k) by {
                            assert(!m.values().contains_key(k));
                        }
                    }
                }
            }
        }
        m
    }

    /// The patch that sets nothing.
    pub fn empty() -> (r: TaskPatch)
        ensures
            task_patch_is_empty(r),
    {
        TaskPatch {
            title: None,
            notes: None,
            start_location: None,
            scheduled_date: None,
            today_index_reference: None,
            parent_project_ids: None,
            area_ids: None,
            action_group_ids: None,
            tag_ids: None,
            evening_bit: None,
            item_type: None,
            status: None,
            stop_date: None,
            deadline: None,
            sort_index: None,
            today_sort_index: None,
            recurrence_rule: None,
            recurrence_template_ids: None,
            instance_creation_paused: None,
            leaves_tombstone: None,
            trashed: None,
            creation_date: None,
            modification_date: None,
        }
    }
}

/// Whether a checklist item patch sets nothing.
pub open spec fn checklist_patch_is_empty(p: ChecklistItemPatch) -> bool {
    &&& p.title is None
    &&& p.status is None
    &&& p.task_ids is None
    &&& p.sort_index is None
    &&& p.creation_date is None
    &&& p.modification_date is None
}

/// The property map a checklist item patch stands for: each field it sets, under
/// its wire name.
pub open spec fn checklist_patch_props(p: ChecklistItemPatch) -> Map<Seq<char>, PropView> {
    let m = Map::<Seq<char>, PropView>::empty();
    let m = put(m, "tt"@, text_view(p.title));
    let m = put(m, "ss"@, match p.status { Some(x) => Some(PropView::Int(task_status_code(x) as i64)), None => None });
    let m = put(m, "ts"@, ids_view(p.task_ids));
    let m = put(m, "ix"@, int_view(p.sort_index));
    let m = put(m, "cd"@, time_view(p.creation_date));
    put(m, "md"@, time_view(p.modification_date))
}

/// The patch stands for the empty property map exactly when it sets
/// nothing.
pub proof fn lemma_checklist_patch_props_empty(p: ChecklistItemPatch)
    ensures
        (checklist_patch_props(p) == Map::<Seq<char>, PropView>::empty()) <==> checklist_patch_is_empty(p),
{
    if checklist_patch_is_empty(p) {
        assert(checklist_patch_props(p) =~= Map::<Seq<char>, PropView>::empty());
    } else {
        let m = checklist_patch_props(p);
        if m == Map::<Seq<char>, PropView>::empty() {
            assert(p.title is Some ==> m.contains_key("tt"@));
            assert(p.status is Some ==> m.contains_key("ss"@));
            assert(p.task_ids is Some ==> m.contains_key("ts"@));
            assert(p.sort_index is Some ==> m.contains_key("ix"@));
            assert(p.creation_date is Some ==> m.contains_key("cd"@));
            assert(p.modification_date is Some ==> m.contains_key("md"@));
        }
    }
}

impl ChecklistItemPatch {
    /// The property map the patch stands for: each field it sets, under its
    /// wire name; it is empty exactly when the patch sets nothing.
    pub fn into_properties(self) -> (r: PropMap)
        ensures
            r.wf(),
            r.values() == checklist_patch_props(self),
            (r@ == Map::<Seq<char>, PropValue>::empty()) <==> checklist_patch_is_empty(self),
    {
        let ghost p = self;
        let ChecklistItemPatch { title, status, task_ids, sort_index, creation_date, modification_date } = self;
        let mut m = PropMap::new();
        proof {
            assert(m.values() =~= Map::<Seq<char>, PropView>::empty());
        }
        m.set_opt("tt", text_value(title));
        m.set_opt("ss", match status { Some(x) => Some(PropValue::Int(x.code() as i64)), None => None });
        m.set_opt("ts", ids_value(task_ids));
        m.set_opt("ix", int_value(sort_index));
        m.set_opt("cd", time_value(creation_date));
        m.set_opt("md", time_value(modification_date));
        proof {
            lemma_checklist_patch_props_empty(p);
            assert((m@ == Map::<Seq<char>, PropValue>::empty()) <==> m.values() == Map::<Seq<char>, PropView>::empty()) by {
                if m.values() == Map::<Seq<char>, PropView>::empty() {
                    assert(m@ =~= Map::<Seq<char>, PropValue>::empty()) by {
                        assert forall|k: Seq<char>| !m@.contains_key(k) by {
                            assert(!m.values().contains_key(k));
                        }
                    }
                }
            }
        }
        m
    }

    /// Whether the patch sets nothing.
    pub fn is_empty(&self) -> (r: bool)
        ensures
            r == checklist_patch_is_empty(*self),
    {
        self.title.is_none() && self.status.is_none() && self.task_ids.is_none()
            && self.sort_index.is_none() && self.creation_date.is_none()
            && self.modification_date.is_none()
    }

    /// The patch that sets nothing.
    pub fn empty() -> (r: ChecklistItemPatch)
        ensures
            checklist_patch_is_empty(r),
    {
        ChecklistItemPatch {
            title: None,
            status: None,
            task_ids: None,
            sort_index: None,
            creation_date: None,
            modification_date: None,
        }
    }
}

/// Whether a tag patch sets nothing.
pub open spec fn tag_patch_is_empty(p: TagPatch) -> bool {
    &&& p.title is None
    &&& p.parent_ids is None
    &&& p.shortcut is None
    &&& p.sort_index is None
    &&& p.modification_date is None
}

/// The property map a tag patch stands for: each field it sets, under its
/// wire name.
pub open spec fn tag_patch_props(p: TagPatch) -> Map<Seq<char>, PropView> {
    let m = Map::<Seq<char>, PropView>::empty();
    let m = put(m, "tt"@, text_view(p.title));
    let m = put(m, "pn"@, ids_view(p.parent_ids));
    let m = put(m, "sh"@, match p.shortcut { Some(Some(x)) => Some(PropView::Text(x@)), Some(None) => Some(PropView::Null), None => None });
    let m = put(m, "ix"@, int_view(p.sort_index));
    put(m, "md"@, time_view(p.modification_date))
}

/// The patch stands for the empty property map exactly when it sets
/// nothing.
pub proof fn lemma_tag_patch_props_empty(p: TagPatch)
    ensures
        (tag_patch_props(p) == Map::<Seq<char>, PropView>::empty()) <==> tag_patch_is_empty(p),
{
    if tag_patch_is_empty(p) {
        assert(tag_patch_props(p) =~= Map::<Seq<char>, PropView>::empty());
    } else {
        let m = tag_patch_props(p);
        if m == Map::<Seq<char>, PropView>::empty() {
            assert(p.title is Some ==> m.contains_key("tt"@));
            assert(p.parent_ids is Some ==> m.contains_key("pn"@));
            assert(p.shortcut is Some ==> m.contains_key("sh"@));
            assert(p.sort_index is Some ==> m.contains_key("ix"@));
            assert(p.modification_date is Some ==> m.contains_key("md"@));
        }
    }
}

impl TagPatch {
    /// The property map the patch stands for: each field it sets, under its
    /// wire name; it is empty exactly when the patch sets nothing.
    pub fn into_properties(self) -> (r: PropMap)
        ensures
            r.wf(),
            r.values() == tag_patch_props(self),
            (r@ == Map::<Seq<char>, PropValue>::empty()) <==> tag_patch_is_empty(self),
    {
        let ghost p = self;
        let TagPatch { title, parent_ids, shortcut, sort_index, modification_date } = self;
        let mut m = PropMap::new();
        proof {
            assert(m.values() =~= Map::<Seq<char>, PropView>::empty());
        }
        m.set_opt("tt", text_value(title));
        m.set_opt("pn", ids_value(parent_ids));
        m.set_opt("sh", match shortcut { Some(Some(x)) => Some(PropValue::Text(x)), Some(None) => Some(PropValue::Null), None => None });
        m.set_opt("ix", int_value(sort_index));
        m.set_opt("md", time_value(modification_date));
        proof {
            lemma_tag_patch_props_empty(p);
            assert((m@ == Map::<Seq<char>, PropValue>::empty()) <==> m.values() == Map::<Seq<char>, PropView>::empty()) by {
                if m.values() == Map::<Seq<char>, PropView>::empty() {
                    assert(m@ =~= Map::<Seq<char>, PropValue>::empty()) by {
                        assert forall|k: Seq<char>| !m@.contains_key(k) by {
                            assert(!m.values().contains_key(k));
                        }
                    }
                }
            }
        }
        m
    }

    /// Whether the patch sets nothing.
    pub fn is_empty(&self) -> (r: bool)
        ensures
            r == tag_patch_is_empty(*self),
    {
        self.title.is_none() && self.parent_ids.is_none() && self.shortcut.is_none()
            && self.sort_index.is_none() && self.modification_date.is_none()
    }

    /// The patch that sets nothing.
    pub fn empty() -> (r: TagPatch)
        ensures
            tag_patch_is_empty(r),
    {
        TagPatch {
            title: None,
            parent_ids: None,
            shortcut: None,
            sort_index: None,
            modification_date: None,
        }
    }
}

/// Whether an area patch sets nothing.
pub open spec fn area_patch_is_empty(p: AreaPatch) -> bool {
    &&& p.title is None
    &&& p.tag_ids is None
    &&& p.sort_index is None
    &&& p.modification_date is None
}

/// The property map an area patch stands for: each field it sets, under its
/// wire name.
pub open spec fn area_patch_props(p: AreaPatch) -> Map<Seq<char>, PropView> {
    let m = Map::<Seq<char>, PropView>::empty();
    let m = put(m, "tt"@, text_view(p.title));
    let m = put(m, "tg"@, ids_view(p.tag_ids));
    let m = put(m, "ix"@, int_view(p.sort_index));
    put(m, "md"@, time_view(p.modification_date))
}

/// The patch stands for the empty property map exactly when it sets
/// nothing.
pub proof fn lemma_area_patch_props_empty(p: AreaPatch)
    ensures
        (area_patch_props(p) == Map::<Seq<char>, PropView>::empty()) <==> area_patch_is_empty(p),
{
    if area_patch_is_empty(p) {
        assert(area_patch_props(p) =~= Map::<Seq<char>, PropView>::empty());
    } else {
        let m = area_patch_props(p);
        if m == Map::<Seq<char>, PropView>::empty() {
            assert(p.title is Some ==> m.contains_key("tt"@));
            assert(p.tag_ids is Some ==> m.contains_key("tg"@));
            assert(p.sort_index is Some ==> m.contains_key("ix"@));
            assert(p.modification_date is Some ==> m.contains_key("md"@));
        }
    }
}

impl AreaPatch {
    /// The property map the patch stands for: each field it sets, under its
    /// wire name; it is empty exactly when the patch sets nothing.
    pub fn into_properties(self) -> (r: PropMap)
        ensures
            r.wf(),
            r.values() == area_patch_props(self),
            (r@ == Map::<Seq<char>, PropValue>::empty()) <==> area_patch_is_empty(self),
    {
        let ghost p = self;
        let AreaPatch { title, tag_ids, sort_index, modification_date } = self;
        let mut m = PropMap::new();
        proof {
            assert(m.values() =~= Map::<Seq<char>, PropView>::empty());
        }
        m.set_opt("tt", text_value(title));
        m.set_opt("tg", ids_value(tag_ids));
        m.set_opt("ix", int_value(sort_index));
        m.set_opt("md", time_value(modification_date));
        proof {
            lemma_area_patch_props_empty(p);
            assert((m@ == Map::<Seq<char>, PropValue>::empty()) <==> m.values() == Map::<Seq<char>, PropView>::empty()) by {
                if m.values() == Map::<Seq<char>, PropView>::empty() {
                    assert(m@ =~= Map::<Seq<char>, PropValue>::empty()) by {
                        assert forall|k: Seq<char>| !m@.contains_key(k) by {
                            assert(!m.values().contains_key(k));
                        }
                    }
                }
            }
        }
        m
    }

    /// Whether the patch sets nothing.
    pub fn is_empty(&self) -> (r: bool)
        ensures
            r == area_patch_is_empty(*self),
    {
        self.title.is_none() && self.tag_ids.is_none() && self.sort_index.is_none()
            && self.modification_date.is_none()
    }

    /// The patch that sets nothing.
    pub fn empty() -> (r: AreaPatch)
        ensures
            area_patch_is_empty(r),
    {
        AreaPatch { title: None, tag_ids: None, sort_index: None, modification_date: None }
    }
}

impl Default for RecurrenceRule {
    fn default() -> (r: RecurrenceRule)
        ensures
            r.repeat_type == RecurrenceType::FixedSchedule,
            r.frequency_unit == FrequencyUnit::Weekly,
            r.frequency_amount == 0,
            r.offsets@.len() == 0,
            r.start_reference is None,
            r.initial_anchor is None,
            r.end_date == 0,
            r.repeat_count == 0,
            r.task_skip == 0,
            r.recurrence_rule_version == 0,
    {
        RecurrenceRule {
            repeat_type: RecurrenceType::FixedSchedule,
            frequency_unit: FrequencyUnit::Weekly,
            frequency_amount: 0,
            offsets: Vec::new(),
            start_reference: None,
            initial_anchor: None,
            end_date: 0,
            repeat_count: 0,
            task_skip: 0,
            recurrence_rule_version: 0,
        }
    }
}

impl RecurrenceRule {
    /// The rule a payload with no fields reads as: weekly, every one unit,
    /// ending far in the future, at the current rule version.
    pub fn protocol_default() -> (r: RecurrenceRule)
        ensures
            r.repeat_type == RecurrenceType::FixedSchedule,
            r.frequency_unit == FrequencyUnit::Weekly,
            r.frequency_amount == 1,
            r.offsets@.len() == 0,
            r.start_reference is None,
            r.initial_anchor is None,
            r.end_date == 64_092_211_200,
            r.repeat_count == 0,
            r.task_skip == 0,
            r.recurrence_rule_version == 4,
    {
        RecurrenceRule {
            repeat_type: RecurrenceType::FixedSchedule,
            frequency_unit: crate::wire::codes::default_frequency_unit(),
            frequency_amount: crate::wire::codes::default_frequency_amount(),
            offsets: Vec::new(),
            start_reference: None,
            initial_anchor: None,
            end_date: crate::wire::codes::default_recurrence_end_date(),
            repeat_count: 0,
            task_skip: 0,
            recurrence_rule_version: crate::wire::codes::default_recurrence_rule_version(),
        }
    }
}

impl Default for TaskProps {
    fn default() -> (r: TaskProps)
        ensures
            r.title@.len() == 0,
            r.notes is None,
            r.item_type == TaskType::Todo,
            r.status == TaskStatus::Incomplete,
            r.stop_date is None,
            r.start_location == TaskStart::Inbox,
            r.scheduled_date is None,
            r.today_index_reference is None,
            r.deadline is None,
            r.deadline_suppressed_date is None,
            r.parent_project_ids@.len() == 0,
            r.area_ids@.len() == 0,
            r.action_group_ids@.len() == 0,
            r.tag_ids@.len() == 0,
            r.sort_index == 0,
            r.today_sort_index == 0,
            r.due_date_offset == 0,
            r.recurrence_rule is None,
            r.recurrence_template_ids@.len() == 0,
            r.instance_creation_suppressed_date is None,
            r.after_completion_reference_date is None,
            r.checklist_item_count == 0,
            !r.instance_creation_paused,
            r.alarm_time_offset is None,
            r.last_alarm_interaction is None,
            r.evening_bit == 0,
            !r.leaves_tombstone,
            !r.trashed,
            r.deadline_list@.len() == 0,
            r.conflict_overrides is None,
            r.creation_date is None,
            r.modification_date is None,
    {
        TaskProps {
            title: String::new(),
            notes: None,
            item_type: TaskType::Todo,
            status: TaskStatus::Incomplete,
            stop_date: None,
            start_location: TaskStart::Inbox,
            scheduled_date: None,
            today_index_reference: None,
            deadline: None,
            deadline_suppressed_date: None,
            parent_project_ids: Vec::new(),
            area_ids: Vec::new(),
            action_group_ids: Vec::new(),
            tag_ids: Vec::new(),
            sort_index: 0,
            today_sort_index: 0,
            due_date_offset: 0,
            recurrence_rule: None,
            recurrence_template_ids: Vec::new(),
            instance_creation_suppressed_date: None,
            after_completion_reference_date: None,
            checklist_item_count: 0,
            instance_creation_paused: false,
            alarm_time_offset: None,
            last_alarm_interaction: None,
            evening_bit: 0,
            leaves_tombstone: false,
            trashed: false,
            deadline_list: Vec::new(),
            conflict_overrides: None,
            creation_date: None,
            modification_date: None,
        }
    }
}

impl Default for TaskPatch {
    fn default() -> (r: TaskPatch)
        ensures
            task_patch_is_empty(r),
    {
        TaskPatch::empty()
    }
}

} // verus!
