//! Widget layout.
use vstd::prelude::*;

use crate::ids::things_id::ThingsId;
use crate::store::model::{ChecklistItem, Task};
use crate::wire::codes::{TaskStart, TaskStatus};

verus! {

/// Width of the id column: the prefix length and one space, or nothing when
/// ids are hidden.
pub fn id_col_width(id_prefix_len: usize) -> (r: u16)
    requires
        (id_prefix_len as u16) < u16::MAX,
    ensures
        r == (id_prefix_len as u16) + if (id_prefix_len as u16) > 0 { 1int } else { 0int },
{
    #[verifier::truncate]
    let id_width: u16 = id_prefix_len as u16;
    id_width + if id_width > 0 { 1 } else { 0 }
}

/// The header line of an area group: the area's identifier (shown to
/// `id_prefix_len` characters) and title.
#[derive(Debug)]
pub struct AreaHeaderWidget<'a> {
    pub area_uuid: &'a ThingsId,
    pub title: &'a str,
    pub id_prefix_len: usize,
}

/// The header of a task group: an area or a project.
#[derive(Debug)]
pub enum TaskGroupHeader {
    Area { area_uuid: ThingsId, title: String, id_prefix_len: usize },
    Project { project_uuid: ThingsId, title: String, id_prefix_len: usize },
}

/// What task rows show.
#[derive(Debug, Clone, Copy)]
pub struct TaskOptions {
    pub detailed: bool,
    pub show_project: bool,
    pub show_area: bool,
    pub show_today_markers: bool,
    pub show_staged_today_marker: bool,
}

/// The height of a task list: its rows' heights added, saturating.
pub open spec fn rows_height(rows: Seq<u16>) -> int
    decreases rows.len(),
{
    if rows.len() == 0 {
        0
    } else {
        let h = rows_height(rows.drop_last()) + rows.last();
        if h > u16::MAX { u16::MAX as int } else { h }
    }
}

/// The height of a task list from its rows' heights, saturating.
pub fn tasks_height(rows: &Vec<u16>) -> (r: u16)
    ensures
        r == rows_height(rows@),
{
    let mut acc: u16 = 0;
    let mut k: usize = 0;
    while k < rows.len()
        invariant
            k <= rows@.len(),
            acc == rows_height(rows@.take(k as int)),
        decreases rows@.len() - k,
    {
        proof {
            assert(rows@.take(k as int + 1).drop_last() =~= rows@.take(k as int));
        }
        acc = acc.saturating_add(rows[k]);
        k = k + 1;
    }
    proof {
        assert(rows@.take(rows@.len() as int) =~= rows@);
    }
    acc
}

/// The height of a task group: a header line when it has one, its tasks,
/// and a line noting hidden tasks when some are hidden.
pub fn group_height(has_header: bool, tasks_h: u16, hidden_count: usize) -> (r: u16)
    requires
        tasks_h + 2 <= u16::MAX,
    ensures
        r == (if has_header { 1int } else { 0 }) + tasks_h + (if hidden_count > 0 { 1int } else { 0 }),
{
    let header_h: u16 = if has_header { 1 } else { 0 };
    let hidden_h: u16 = if hidden_count > 0 { 1 } else { 0 };
    header_h + tasks_h + hidden_h
}

/// How many newline characters a text holds.
pub open spec fn newlines(s: Seq<char>) -> nat
    decreases s.len(),
{
    if s.len() == 0 {
        0
    } else {
        newlines(s.drop_last()) + if s.last() == '\n' { 1nat } else { 0nat }
    }
}

/// How many lines `str::lines` yields for a text: none for empty text; else
/// one per newline, and one more when the text does not end with one.
pub open spec fn line_count(s: Seq<char>) -> nat {
    if s.len() == 0 {
        0
    } else {
        newlines(s) + if s.last() == '\n' { 0nat } else { 1nat }
    }
}

proof fn lemma_newlines_bound(s: Seq<char>)
    ensures
        newlines(s) <= s.len(),
    decreases s.len(),
{
    if s.len() > 0 {
        lemma_newlines_bound(s.drop_last());
    }
}

/// The number of lines of a text.
pub fn count_lines(s: &str) -> (r: usize)
    ensures
        r == line_count(s@),
{
    let cs = crate::text::chars_of(s);
    let mut n: usize = 0;
    let mut k: usize = 0;
    while k < cs.len()
        invariant
            k <= cs@.len(),
            n == newlines(cs@.take(k as int)),
            n <= k,
        decreases cs@.len() - k,
    {
        proof {
            assert(cs@.take(k as int + 1).drop_last() =~= cs@.take(k as int));
        }
        if cs[k] == '\n' {
            n = n + 1;
        }
        k = k + 1;
    }
    proof {
        assert(cs@.take(cs@.len() as int) =~= cs@);
    }
    if cs.len() == 0 {
        0
    } else if cs[cs.len() - 1] == '\n' {
        n
    } else {
        proof {
            lemma_newlines_bound(cs@.drop_last());
        }
        n + 1
    }
}

/// The number of note lines of a task.
pub open spec fn note_lines(t: Task) -> nat {
    match t.notes {
        Some(n) => line_count(n@),
        None => 0,
    }
}

/// The height of a task's detail block: its note lines, a spacer when it
/// has both notes and checklist items, and one line per checklist item
/// (cut to 16 bits).
pub open spec fn task_detail_lines(t: Task) -> u16 {
    let nl = note_lines(t);
    let cl = t.checklist_items@.len();
    (nl + (if nl > 0 && cl > 0 { 1nat } else { 0nat }) + cl) as u16
}

fn notes_lines_of(t: &Task) -> (r: usize)
    ensures
        r == note_lines(*t),
{
    match &t.notes {
        Some(n) => count_lines(n.as_str()),
        None => 0,
    }
}

/// The height of a task's detail block.
pub fn task_detail_height(task: &Task) -> (r: u16)
    ensures
        r == task_detail_lines(*task),
{
    let nl = notes_lines_of(task) as u128;
    let cl = task.checklist_items.len() as u128;
    let spacer: u128 = if nl > 0 && cl > 0 { 1 } else { 0 };
    #[verifier::truncate]
    let h: u16 = (nl + spacer + cl) as u16;
    h
}

/// The height of a project's detail block: its note lines (cut to 16
/// bits).
pub fn project_detail_height(project: &Task) -> (r: u16)
    ensures
        r == (note_lines(*project) as u16),
{
    #[verifier::truncate]
    let h: u16 = notes_lines_of(project) as u16;
    h
}

/// The box a task row shows.
#[derive(Debug, Clone, Copy, PartialEq, Eq, Structural)]
pub enum TaskMark {
    Done,
    Canceled,
    Someday,
    Open,
}

/// The box of a task: done, canceled, parked in Someday, or open.
pub fn task_mark(task: &Task) -> (r: TaskMark)
    ensures
        r == if task.status == TaskStatus::Completed {
            TaskMark::Done
        } else if task.status == TaskStatus::Canceled {
            TaskMark::Canceled
        } else if task.start == TaskStart::Someday && task.start_date is None {
            TaskMark::Someday
        } else {
            TaskMark::Open
        },
{
    if task.is_completed() {
        TaskMark::Done
    } else if task.is_canceled() {
        TaskMark::Canceled
    } else if task.in_someday() {
        TaskMark::Someday
    } else {
        TaskMark::Open
    }
}

/// The mark a checklist item shows.
#[derive(Debug, Clone, Copy, PartialEq, Eq, Structural)]
pub enum ChecklistMark {
    Done,
    Canceled,
    Open,
}

/// The mark of a checklist item: done, canceled, or open.
pub fn checklist_mark(item: &ChecklistItem) -> (r: ChecklistMark)
    ensures
        r == if item.status == TaskStatus::Completed {
            ChecklistMark::Done
        } else if item.status == TaskStatus::Canceled {
            ChecklistMark::Canceled
        } else {
            ChecklistMark::Open
        },
{
    if item.is_completed() {
        ChecklistMark::Done
    } else if item.is_canceled() {
        ChecklistMark::Canceled
    } else {
        ChecklistMark::Open
    }
}

} // verus!
