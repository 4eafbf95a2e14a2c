//! What a task line shows: its marker, title, context and deadline state.
use vstd::prelude::*;

use crate::ids::things_id::ThingsId;
use crate::store::model::{spec_is_staged_for_today, spec_is_today, Task};
use crate::store::queries::{spec_effective_area, spec_effective_project};
use crate::store::things_store::ThingsStore;
use crate::time::{time_lt, UtcTime};

verus! {

/// The marker before a task's title.
#[derive(Debug, Clone, Copy, PartialEq, Eq, Structural)]
pub enum LineMarker {
    Evening,
    Today,
    Staged,
    Nothing,
}

/// The marker of a task line as of `today`: with Today markers on, the
/// evening moon or the Today star; else (or when neither applies) the
/// staged dot when asked for and the task is staged for today.
pub open spec fn spec_line_marker(t: Task, today: UtcTime, show_today: bool, show_staged: bool) -> LineMarker {
    if show_today && t.evening {
        LineMarker::Evening
    } else if show_today && spec_is_today(t, today) {
        LineMarker::Today
    } else if show_staged && spec_is_staged_for_today(t, today) {
        LineMarker::Staged
    } else {
        LineMarker::Nothing
    }
}

/// The marker of a task line.
pub fn line_marker(task: &Task, today: &UtcTime, show_today: bool, show_staged: bool) -> (r: LineMarker)
    ensures
        r == spec_line_marker(*task, *today, show_today, show_staged),
{
    if show_today {
        if task.evening {
            return LineMarker::Evening;
        }
        if task.is_today(today) {
            return LineMarker::Today;
        }
    }
    if show_staged && task.is_staged_for_today(today) {
        return LineMarker::Staged;
    }
    LineMarker::Nothing
}

/// The title a task line shows: the title, or `(untitled)` when empty.
pub fn display_title(task: &Task) -> (r: String)
    ensures
        r@ == if task.title@.len() == 0 { "(untitled)"@ } else { task.title@ },
{
    if task.title.as_str().is_empty() {
        "(untitled)".to_owned()
    } else {
        task.title.clone()
    }
}

/// The container a task line names.
#[derive(Debug, Clone, Copy)]
pub enum LineContext {
    Project(ThingsId),
    Area(ThingsId),
    Nothing,
}

/// The container a task line names: its project when projects are shown
/// and it has one, else its area when areas are shown and it has one.
pub open spec fn spec_line_context(store: ThingsStore, t: Task, show_project: bool, show_area: bool) -> LineContext {
    if show_project && spec_effective_project(store.tasks@, t) is Some {
        LineContext::Project(spec_effective_project(store.tasks@, t)->0)
    } else if show_area && spec_effective_area(store.tasks@, t) is Some {
        LineContext::Area(spec_effective_area(store.tasks@, t)->0)
    } else {
        LineContext::Nothing
    }
}

/// The container a task line names.
pub fn line_context(store: &ThingsStore, task: &Task, show_project: bool, show_area: bool) -> (r: LineContext)
    ensures
        r == spec_line_context(*store, *task, show_project, show_area),
{
    if show_project {
        if let Some(p) = store.effective_project_uuid(task) {
            return LineContext::Project(p);
        }
    }
    if show_area {
        if let Some(a) = store.effective_area_uuid(task) {
            return LineContext::Area(a);
        }
    }
    LineContext::Nothing
}

/// Whether a deadline has passed as of `today` (shown in red).
pub fn deadline_overdue(deadline: &UtcTime, today: &UtcTime) -> (r: bool)
    ensures
        r == time_lt(*deadline, *today),
{
    deadline.lt(today)
}

} // verus!
