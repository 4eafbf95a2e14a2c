//! The entities the store shows: tasks, checklist items, areas and tags.
use vstd::prelude::*;

use crate::ids::things_id::ThingsId;
use crate::time::{time_le, UtcTime};
use crate::wire::codes::{TaskStart, TaskStatus, TaskType};
use crate::wire::props::RecurrenceRule;

verus! {

/// A tag.
#[derive(Debug)]
pub struct Tag {
    pub uuid: ThingsId,
    pub title: String,
    pub shortcut: Option<String>,
    pub index: i32,
    pub parent_uuid: Option<ThingsId>,
}

/// An area.
#[derive(Debug)]
pub struct Area {
    pub uuid: ThingsId,
    pub title: String,
    pub tags: Vec<ThingsId>,
    pub index: i32,
}

/// A checklist item of a task.
#[derive(Debug)]
pub struct ChecklistItem {
    pub uuid: ThingsId,
    pub title: String,
    pub task_uuid: ThingsId,
    pub status: TaskStatus,
    pub index: i32,
}

impl ChecklistItem {
    /// Whether the item is open.
    pub fn is_incomplete(&self) -> (r: bool)
        ensures
            r == (self.status == TaskStatus::Incomplete),
    {
        self.status == TaskStatus::Incomplete
    }

    /// Whether the item is done.
    pub fn is_completed(&self) -> (r: bool)
        ensures
            r == (self.status == TaskStatus::Completed),
    {
        self.status == TaskStatus::Completed
    }

    /// Whether the item is canceled.
    pub fn is_canceled(&self) -> (r: bool)
        ensures
            r == (self.status == TaskStatus::Canceled),
    {
        self.status == TaskStatus::Canceled
    }
}

/// Todo counts of a project: all its todos, and the completed ones.
#[derive(Clone, Copy, Debug, PartialEq, Eq, Structural)]
pub struct ProjectProgress {
    pub total: i32,
    pub done: i32,
}

impl Default for ProjectProgress {
    fn default() -> (r: ProjectProgress)
        ensures
            r == (ProjectProgress { total: 0, done: 0 }),
    {
        ProjectProgress { total: 0, done: 0 }
    }
}

/// A task, project or heading.
#[derive(Debug)]
pub struct Task {
    pub uuid: ThingsId,
    pub title: String,
    pub status: TaskStatus,
    pub start: TaskStart,
    pub item_type: TaskType,
    pub entity: String,
    pub notes: Option<String>,
    pub project: Option<ThingsId>,
    pub area: Option<ThingsId>,
    pub action_group: Option<ThingsId>,
    pub tags: Vec<ThingsId>,
    pub trashed: bool,
    pub deadline: Option<UtcTime>,
    pub start_date: Option<UtcTime>,
    pub stop_date: Option<UtcTime>,
    pub creation_date: Option<UtcTime>,
    pub modification_date: Option<UtcTime>,
    pub index: i32,
    pub today_index: i32,
    pub today_index_reference: Option<i64>,
    pub leaves_tombstone: bool,
    pub instance_creation_paused: bool,
    pub evening: bool,
    pub recurrence_rule: Option<RecurrenceRule>,
    pub recurrence_templates: Vec<ThingsId>,
    pub checklist_items: Vec<ChecklistItem>,
}

/// Whether a task sits in Today as of `today`: it has a start date no later
/// than `today` and lives in Anytime or Someday.
pub open spec fn spec_is_today(t: Task, today: UtcTime) -> bool {
    &&& t.start_date is Some
    &&& (t.start == TaskStart::Anytime || t.start == TaskStart::Someday)
    &&& time_le(t.start_date->0, today)
}

/// Whether a Someday task is due to show in Today as of `today`.
pub open spec fn spec_is_staged_for_today(t: Task, today: UtcTime) -> bool {
    &&& t.start_date is Some
    &&& t.start == TaskStart::Someday
    &&& time_le(t.start_date->0, today)
}

impl Task {
    /// Whether the task is open.
    pub fn is_incomplete(&self) -> (r: bool)
        ensures
            r == (self.status == TaskStatus::Incomplete),
    {
        self.status == TaskStatus::Incomplete
    }

    /// Whether the task is done.
    pub fn is_completed(&self) -> (r: bool)
        ensures
            r == (self.status == TaskStatus::Completed),
    {
        self.status == TaskStatus::Completed
    }

    /// Whether the task is canceled.
    pub fn is_canceled(&self) -> (r: bool)
        ensures
            r == (self.status == TaskStatus::Canceled),
    {
        self.status == TaskStatus::Canceled
    }

    /// Whether this is a plain todo.
    pub fn is_todo(&self) -> (r: bool)
        ensures
            r == (self.item_type == TaskType::Todo),
    {
        self.item_type == TaskType::Todo
    }

    /// Whether this is a project.
    pub fn is_project(&self) -> (r: bool)
        ensures
            r == (self.item_type == TaskType::Project),
    {
        self.item_type == TaskType::Project
    }

    /// Whether this is a heading.
    pub fn is_heading(&self) -> (r: bool)
        ensures
            r == (self.item_type == TaskType::Heading),
    {
        self.item_type == TaskType::Heading
    }

    /// Whether the task sits in Someday with no start date.
    pub fn in_someday(&self) -> (r: bool)
        ensures
            r == (self.start == TaskStart::Someday && self.start_date is None),
    {
        self.start == TaskStart::Someday && self.start_date.is_none()
    }

    /// Whether the task sits in Today as of `today`.
    pub fn is_today(&self, today: &UtcTime) -> (r: bool)
        ensures
            r == spec_is_today(*self, *today),
    {
        match self.start_date {
            None => false,
            Some(start_date) => {
                if self.start != TaskStart::Anytime && self.start != TaskStart::Someday {
                    false
                } else {
                    start_date.le(today)
                }
            },
        }
    }

    /// Whether a Someday task is due to show in Today as of `today`.
    pub fn is_staged_for_today(&self, today: &UtcTime) -> (r: bool)
        ensures
            r == spec_is_staged_for_today(*self, *today),
    {
        match self.start_date {
            None => false,
            Some(start_date) => self.start == TaskStart::Someday && start_date.le(today),
        }
    }

    /// Whether this is the template of a recurring series.
    pub fn is_recurrence_template(&self) -> (r: bool)
        ensures
            r == (self.recurrence_rule is Some && self.recurrence_templates@.len() == 0),
    {
        self.recurrence_rule.is_some() && self.recurrence_templates.len() == 0
    }

    /// Whether this is an instance of a recurring series.
    pub fn is_recurrence_instance(&self) -> (r: bool)
        ensures
            r == (self.recurrence_rule is None && self.recurrence_templates@.len() > 0),
    {
        self.recurrence_rule.is_none() && self.recurrence_templates.len() > 0
    }
}

} // verus!
