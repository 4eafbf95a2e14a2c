//! Lookups and list views over the store.
use vstd::prelude::*;

use crate::ids::base58::ascii_chars;
use crate::ids::matching::{
    id_sort_key, id_text, lemma_lcp_at_least, lemma_max_lcp_bounds, max_lcp_with_others, spec_id_key,
    spec_unique_prefix,
};
use crate::ids::things_id::{id_chars, ThingsId};
use crate::sorting::{sort_by, sorted_by};
use crate::store::model::{spec_is_today, Area, ProjectProgress, Tag, Task};
use crate::store::things_store::{first_match, first_where, refs, select, ThingsStore};
use crate::text::{concat2, concat3, spec_trim, str_eq, take_chars, trim_str};
use crate::time::{spec_chrono_timestamp_ok, time_le, time_lt, UtcTime};
use crate::wire::codes::{TaskStart, TaskStatus, TaskType};

verus! {

broadcast use vstd::seq_lib::group_to_multiset_ensures;

/// The task with identifier `id`, if any.
pub open spec fn task_by_id(tasks: Seq<Task>, id: ThingsId) -> Option<Task> {
    first_match(tasks, |t: Task| t.uuid == id)
}

/// The task whose compact text is `text`, if any.
pub open spec fn task_by_text(tasks: Seq<Task>, text: Seq<char>) -> Option<Task> {
    first_match(tasks, |t: Task| id_chars(t.uuid) == text)
}

/// The area whose compact text is `text`, if any.
pub open spec fn area_by_text(areas: Seq<Area>, text: Seq<char>) -> Option<Area> {
    first_match(areas, |a: Area| id_chars(a.uuid) == text)
}

/// The tag whose compact text is `text`, if any.
pub open spec fn tag_by_text(tags: Seq<Tag>, text: Seq<char>) -> Option<Tag> {
    first_match(tags, |t: Tag| id_chars(t.uuid) == text)
}

/// The project a task belongs to: its own, or its heading's.
pub open spec fn spec_effective_project(tasks: Seq<Task>, t: Task) -> Option<ThingsId> {
    if t.project is Some {
        t.project
    } else if t.action_group is Some && task_by_id(tasks, t.action_group->0) is Some
        && task_by_id(tasks, t.action_group->0)->0.project is Some {
        task_by_id(tasks, t.action_group->0)->0.project
    } else {
        None
    }
}

/// The area a task belongs to: its own, its project's, or its heading's.
pub open spec fn spec_effective_area(tasks: Seq<Task>, t: Task) -> Option<ThingsId> {
    if t.area is Some {
        t.area
    } else if spec_effective_project(tasks, t) is Some && task_by_id(
        tasks,
        spec_effective_project(tasks, t)->0,
    ) is Some && task_by_id(tasks, spec_effective_project(tasks, t)->0)->0.area is Some {
        task_by_id(tasks, spec_effective_project(tasks, t)->0)->0.area
    } else if t.action_group is Some && task_by_id(tasks, t.action_group->0) is Some
        && task_by_id(tasks, t.action_group->0)->0.area is Some {
        task_by_id(tasks, t.action_group->0)->0.area
    } else {
        None
    }
}

/// Whether a text is empty once trimmed.
pub open spec fn is_blank(s: Seq<char>) -> bool {
    spec_trim(s).len() == 0
}

/// Whether a task is of the current task entity.
pub open spec fn is_task6(t: Task) -> bool {
    t.entity@ == "Task6"@
}

fn has_id(id: &ThingsId, t: &Task) -> (b: bool)
    ensures
        b == (t.uuid == *id),
{
    t.uuid.same(id)
}

fn task_has_text(text: &&str, t: &Task) -> (b: bool)
    ensures
        b == (id_chars(t.uuid) == text@),
{
    let s = t.uuid.to_string();
    str_eq(s.as_str(), *text)
}

fn area_has_text(text: &&str, a: &Area) -> (b: bool)
    ensures
        b == (id_chars(a.uuid) == text@),
{
    let s = a.uuid.to_string();
    str_eq(s.as_str(), *text)
}

fn tag_has_text(text: &&str, t: &Tag) -> (b: bool)
    ensures
        b == (id_chars(t.uuid) == text@),
{
    let s = t.uuid.to_string();
    str_eq(s.as_str(), *text)
}

/// Whether a text is empty once trimmed.
pub fn blank(s: &String) -> (b: bool)
    ensures
        b == is_blank(s@),
{
    trim_str(s.as_str()).as_str().is_empty()
}

fn task6(t: &Task) -> (b: bool)
    ensures
        b == is_task6(*t),
{
    proof {
        reveal_strlit("Task6");
    }
    str_eq(t.entity.as_str(), "Task6")
}

/// Whether a task shows in the Inbox.
pub open spec fn inbox_filter(st: ThingsStore, t: Task) -> bool {
    &&& !t.trashed
    &&& t.status == TaskStatus::Incomplete
    &&& t.start == TaskStart::Inbox
    &&& spec_effective_project(st.tasks@, t) is None
    &&& spec_effective_area(st.tasks@, t) is None
    &&& t.item_type != TaskType::Project
    &&& t.item_type != TaskType::Heading
    &&& !is_blank(t.title@)
    &&& t.creation_date is Some
    &&& is_task6(t)
}

fn inbox_keep(st: &ThingsStore, t: &Task) -> (b: bool)
    ensures
        b == inbox_filter(*st, *t),
{
    !t.trashed && t.status == TaskStatus::Incomplete && t.start == TaskStart::Inbox
        && st.effective_project_uuid(t).is_none() && st.effective_area_uuid(t).is_none()
        && !t.is_project() && !t.is_heading() && !blank(&t.title) && t.creation_date.is_some()
        && task6(t)
}

/// Whether a task shows in Today as of `today`.
pub open spec fn today_filter(today: UtcTime, t: Task) -> bool {
    &&& !t.trashed
    &&& t.status == TaskStatus::Incomplete
    &&& t.item_type != TaskType::Heading
    &&& t.item_type != TaskType::Project
    &&& !is_blank(t.title@)
    &&& is_task6(t)
    &&& spec_is_today(t, today)
}

fn today_keep(today: &UtcTime, t: &Task) -> (b: bool)
    ensures
        b == today_filter(*today, *t),
{
    !t.trashed && t.status == TaskStatus::Incomplete && !t.is_heading() && !t.is_project() && !blank(
        &t.title,
    ) && task6(t) && t.is_today(today)
}

/// The order of Today: tasks never placed in Today first, newest start date
/// first; then placed ones, highest Today index first; ties by highest sort
/// index.
pub open spec fn today_key(t: &Task) -> (i128, i128, i128, i128) {
    if t.today_index == 0 {
        let sr: int = match t.start_date {
            Some(d) => d.secs as int,
            None => 0,
        };
        (0i128, (-sr) as i128, (-(t.index as int)) as i128, 0i128)
    } else {
        (1i128, (-(t.today_index as int)) as i128, (-(t.index as int)) as i128, 0i128)
    }
}

fn today_key_of(t: &&Task) -> (k: (i128, i128, i128, i128))
    ensures
        k == today_key(*t),
{
    if t.today_index == 0 {
        let sr: i128 = match t.start_date {
            Some(d) => d.secs as i128,
            None => 0,
        };
        (0i128, -sr, -(t.index as i128), 0i128)
    } else {
        (1i128, -(t.today_index as i128), -(t.index as i128), 0i128)
    }
}

/// The order by sort index.
pub open spec fn index_order(t: &Task) -> (i128, i128, i128, i128) {
    (t.index as i128, 0, 0, 0)
}

fn index_order_of(t: &&Task) -> (k: (i128, i128, i128, i128))
    ensures
        k == index_order(*t),
{
    (t.index as i128, 0i128, 0i128, 0i128)
}

/// Whether a task's project (if the store has it) is visible in Anytime as
/// of `today`.
pub open spec fn project_visible(st: ThingsStore, today: UtcTime, t: Task) -> bool {
    match spec_effective_project(st.tasks@, t) {
        None => true,
        Some(p) => match task_by_id(st.tasks@, p) {
            None => true,
            Some(project) => {
                &&& !project.trashed
                &&& project.status == TaskStatus::Incomplete
                &&& project.start != TaskStart::Someday
                &&& !(project.start_date matches Some(d) && time_lt(today, d))
            },
        },
    }
}

/// Whether a task shows in Anytime as of `c.1` in store `c.0`.
pub open spec fn anytime_filter(c: (ThingsStore, UtcTime), t: Task) -> bool {
    &&& !t.trashed
    &&& t.status == TaskStatus::Incomplete
    &&& t.start == TaskStart::Anytime
    &&& t.item_type != TaskType::Project
    &&& t.item_type != TaskType::Heading
    &&& !is_blank(t.title@)
    &&& is_task6(t)
    &&& (t.start_date matches Some(d) ==> time_le(d, c.1))
    &&& project_visible(c.0, c.1, t)
}

/// Whether a task shows in Someday.
pub open spec fn someday_filter(st: ThingsStore, t: Task) -> bool {
    &&& !t.trashed
    &&& t.status == TaskStatus::Incomplete
    &&& t.start == TaskStart::Someday
    &&& t.item_type != TaskType::Heading
    &&& !is_blank(t.title@)
    &&& is_task6(t)
    &&& !(t.recurrence_rule is Some && t.recurrence_templates@.len() == 0)
    &&& t.start_date is None
    &&& (t.item_type == TaskType::Project || spec_effective_project(st.tasks@, t) is None)
}

fn someday_keep(st: &ThingsStore, t: &Task) -> (b: bool)
    ensures
        b == someday_filter(*st, *t),
{
    !t.trashed && t.status == TaskStatus::Incomplete && t.start == TaskStart::Someday
        && !t.is_heading() && !blank(&t.title) && task6(t) && !t.is_recurrence_template()
        && t.start_date.is_none() && (t.is_project() || st.effective_project_uuid(t).is_none())
}

/// Whether a task is listed among projects with the optional status.
pub open spec fn projects_filter(status: Option<TaskStatus>, t: Task) -> bool {
    &&& !t.trashed
    &&& t.item_type == TaskType::Project
    &&& is_task6(t)
    &&& (status matches Some(s) ==> t.status == s)
}

fn projects_keep(status: &Option<TaskStatus>, t: &Task) -> (b: bool)
    ensures
        b == projects_filter(*status, *t),
{
    !t.trashed && t.is_project() && task6(t) && match status {
        Some(s) => t.status == *s,
        None => true,
    }
}

impl ThingsStore {
    /// The task with identifier `id`, if any.
    pub fn find_task(&self, id: &ThingsId) -> (r: Option<&Task>)
        ensures
            match r {
                Some(t) => task_by_id(self.tasks@, *id) == Some(*t),
                None => task_by_id(self.tasks@, *id) is None,
            },
    {
        let ghost p = |c: ThingsId, t: Task| t.uuid == c;
        let r = first_where(&self.tasks, id, has_id, Ghost(p));
        proof {
            assert((|x: Task| p(*id, x)) =~= (|t: Task| t.uuid == *id));
        }
        r
    }

    /// The task whose compact identifier text is `uuid`, if any.
    pub fn get_task(&self, uuid: &str) -> (r: Option<&Task>)
        ensures
            match r {
                Some(t) => task_by_text(self.tasks@, uuid@) == Some(*t),
                None => task_by_text(self.tasks@, uuid@) is None,
            },
    {
        let ghost p = |c: &str, t: Task| id_chars(t.uuid) == c@;
        let r = first_where(&self.tasks, &uuid, task_has_text, Ghost(p));
        proof {
            assert((|x: Task| p(uuid, x)) =~= (|t: Task| id_chars(t.uuid) == uuid@));
        }
        r
    }

    /// The area whose compact identifier text is `uuid`, if any.
    pub fn get_area(&self, uuid: &str) -> (r: Option<&Area>)
        ensures
            match r {
                Some(a) => area_by_text(self.areas@, uuid@) == Some(*a),
                None => area_by_text(self.areas@, uuid@) is None,
            },
    {
        let ghost p = |c: &str, a: Area| id_chars(a.uuid) == c@;
        let r = first_where(&self.areas, &uuid, area_has_text, Ghost(p));
        proof {
            assert((|x: Area| p(uuid, x)) =~= (|a: Area| id_chars(a.uuid) == uuid@));
        }
        r
    }

    /// The tag whose compact identifier text is `uuid`, if any.
    pub fn get_tag(&self, uuid: &str) -> (r: Option<&Tag>)
        ensures
            match r {
                Some(t) => tag_by_text(self.tags@, uuid@) == Some(*t),
                None => tag_by_text(self.tags@, uuid@) is None,
            },
    {
        let ghost p = |c: &str, t: Tag| id_chars(t.uuid) == c@;
        let r = first_where(&self.tags, &uuid, tag_has_text, Ghost(p));
        proof {
            assert((|x: Tag| p(uuid, x)) =~= (|t: Tag| id_chars(t.uuid) == uuid@));
        }
        r
    }

    /// The project a task belongs to: its own, or its heading's.
    pub fn effective_project_uuid(&self, task: &Task) -> (r: Option<ThingsId>)
        ensures
            r == spec_effective_project(self.tasks@, *task),
    {
        if let Some(project) = task.project {
            return Some(project);
        }
        if let Some(action_group) = task.action_group {
            if let Some(heading) = self.find_task(&action_group) {
                if let Some(project) = heading.project {
                    return Some(project);
                }
            }
        }
        None
    }

    /// The area a task belongs to: its own, its project's, or its heading's.
    pub fn effective_area_uuid(&self, task: &Task) -> (r: Option<ThingsId>)
        ensures
            r == spec_effective_area(self.tasks@, *task),
    {
        if let Some(area) = task.area {
            return Some(area);
        }
        if let Some(project_uuid) = self.effective_project_uuid(task) {
            if let Some(project) = self.find_task(&project_uuid) {
                if let Some(area) = project.area {
                    return Some(area);
                }
            }
        }
        if let Some(action_group) = task.action_group {
            if let Some(heading) = self.find_task(&action_group) {
                if let Some(area) = heading.area {
                    return Some(area);
                }
            }
        }
        None
    }

    /// The Inbox: open, unfiled, dated todos of the current entity, by
    /// sort index.
    pub fn inbox(&self) -> (r: Vec<&Task>)
        ensures
            r@.to_multiset() == refs(self.tasks@.filter(|t: Task| inbox_filter(*self, t))).to_multiset(),
            sorted_by(r@, |t: &Task| index_order(t)),
            forall|i: int|
                0 <= i < r@.len() ==> !(#[trigger] r@[i]).trashed && r@[i].status == TaskStatus::Incomplete
                    && r@[i].start == TaskStart::Inbox,
            forall|i: int, j: int| 0 <= i < j < r@.len() ==> (#[trigger] r@[i]).index <= (#[trigger] r@[j]).index,
    {
        let ghost p = |c: ThingsStore, t: Task| inbox_filter(c, t);
        let chosen = select(&self.tasks, self, inbox_keep, Ghost(p));
        proof {
            assert((|x: Task| p(*self, x)) =~= (|t: Task| inbox_filter(*self, t)));
        }
        let r = sort_by(chosen, index_order_of, Ghost(|t: &Task| index_order(t)));
        proof {
            lemma_inbox_listing(*self, r@);
        }
        r
    }

    /// Today as of `today`, in Today order.
    pub fn today(&self, today: &UtcTime) -> (r: Vec<&Task>)
        ensures
            r@.to_multiset() == refs(self.tasks@.filter(|t: Task| today_filter(*today, t))).to_multiset(),
            sorted_by(r@, |t: &Task| today_key(t)),
            forall|i: int|
                0 <= i < r@.len() ==> !(#[trigger] r@[i]).trashed && r@[i].status == TaskStatus::Incomplete,
            forall|i: int, j: int|
                0 <= i < j < r@.len() && (#[trigger] r@[i]).today_index != 0 && (#[trigger] r@[j]).today_index != 0
                    ==> r@[i].today_index >= r@[j].today_index,
    {
        let ghost p = |c: UtcTime, t: Task| today_filter(c, t);
        let chosen = select(&self.tasks, today, today_keep, Ghost(p));
        proof {
            assert((|x: Task| p(*today, x)) =~= (|t: Task| today_filter(*today, t)));
        }
        let r = sort_by(chosen, today_key_of, Ghost(|t: &Task| today_key(t)));
        proof {
            lemma_today_listing(*today, *self, r@);
        }
        r
    }

    /// Someday: open undated Someday items that are projects or belong to no
    /// project, and are no recurrence templates; by sort index.
    pub fn someday(&self) -> (r: Vec<&Task>)
        ensures
            r@.to_multiset() == refs(self.tasks@.filter(|t: Task| someday_filter(*self, t))).to_multiset(),
            sorted_by(r@, |t: &Task| index_order(t)),
            forall|i: int|
                0 <= i < r@.len() ==> !(#[trigger] r@[i]).trashed && r@[i].status == TaskStatus::Incomplete
                    && r@[i].start == TaskStart::Someday,
            forall|i: int, j: int| 0 <= i < j < r@.len() ==> (#[trigger] r@[i]).index <= (#[trigger] r@[j]).index,
    {
        let ghost p = |c: ThingsStore, t: Task| someday_filter(c, t);
        let chosen = select(&self.tasks, self, someday_keep, Ghost(p));
        proof {
            assert((|x: Task| p(*self, x)) =~= (|t: Task| someday_filter(*self, t)));
        }
        let r = sort_by(chosen, index_order_of, Ghost(|t: &Task| index_order(t)));
        proof {
            lemma_someday_listing(*self, r@);
        }
        r
    }

    /// Projects with the optional status, by sort index.
    pub fn projects(&self, status: Option<TaskStatus>) -> (r: Vec<&Task>)
        ensures
            r@.to_multiset() == refs(self.tasks@.filter(|t: Task| projects_filter(status, t))).to_multiset(),
            sorted_by(r@, |t: &Task| index_order(t)),
            forall|i: int|
                0 <= i < r@.len() ==> !(#[trigger] r@[i]).trashed && r@[i].item_type == TaskType::Project,
            forall|i: int, j: int| 0 <= i < j < r@.len() ==> (#[trigger] r@[i]).index <= (#[trigger] r@[j]).index,
    {
        let ghost p = |c: Option<TaskStatus>, t: Task| projects_filter(c, t);
        let chosen = select(&self.tasks, &status, projects_keep, Ghost(p));
        proof {
            assert((|x: Task| p(status, x)) =~= (|t: Task| projects_filter(status, t)));
        }
        let r = sort_by(chosen, index_order_of, Ghost(|t: &Task| index_order(t)));
        proof {
            lemma_projects_listing(*self, status, r@);
        }
        r
    }
}

fn anytime_keep(c: &(&ThingsStore, UtcTime), t: &Task) -> (b: bool)
    ensures
        b == anytime_filter((*c.0, c.1), *t),
{
    let st = c.0;
    let today = c.1;
    if t.trashed || t.status != TaskStatus::Incomplete || t.start != TaskStart::Anytime
        || t.is_project() || t.is_heading() || blank(&t.title) || !task6(t) {
        return false;
    }
    if let Some(d) = t.start_date {
        if !d.le(&today) {
            return false;
        }
    }
    match st.effective_project_uuid(t) {
        None => true,
        Some(p) => match st.find_task(&p) {
            None => true,
            Some(project) => {
                if project.trashed || project.status != TaskStatus::Incomplete {
                    false
                } else if project.start == TaskStart::Someday {
                    false
                } else {
                    match project.start_date {
                        Some(d) => !today.lt(&d),
                        None => true,
                    }
                }
            },
        },
    }
}

/// Midnight, in the zone `offset` seconds east of UTC, that starts the local
/// day holding instant `t`, as an instant; none when it leaves the
/// representable range.
pub open spec fn local_day_start(t: UtcTime, offset: i32) -> Option<UtcTime> {
    let local = t.secs + offset;
    let start = local - local % 86400 - offset;
    if i64::MIN <= start <= i64::MAX && spec_chrono_timestamp_ok(start as i64, 0) {
        Some(UtcTime { secs: start as i64, nanos: 0 })
    } else {
        None
    }
}

/// Local midnight starting the day that holds `t`.
pub fn local_day_start_of(t: &UtcTime, offset: i32) -> (r: Option<UtcTime>)
    ensures
        r == local_day_start(*t, offset),
{
    let local: i128 = t.secs as i128 + offset as i128;
    let rem: i128 = match local.checked_rem_euclid(86400) {
        Some(v) => v,
        None => 0,
    };
    let start: i128 = local - rem - offset as i128;
    if start < i64::MIN as i128 || start > i64::MAX as i128 {
        return None;
    }
    UtcTime::from_timestamp(start as i64, 0)
}

/// Whether a task shows in the logbook between the optional local days
/// (`offset` seconds east of UTC).
pub open spec fn logbook_filter(c: (Option<UtcTime>, Option<UtcTime>, i32), t: Task) -> bool {
    &&& !t.trashed
    &&& (t.status == TaskStatus::Completed || t.status == TaskStatus::Canceled)
    &&& t.item_type != TaskType::Heading
    &&& is_task6(t)
    &&& t.stop_date is Some
    &&& !(c.0 matches Some(from) && local_day_start(t.stop_date->0, c.2) matches Some(sd)
        && time_lt(sd, from))
    &&& !(c.1 matches Some(to) && local_day_start(t.stop_date->0, c.2) matches Some(sd)
        && time_lt(to, sd))
}

fn logbook_keep(c: &(Option<UtcTime>, Option<UtcTime>, i32), t: &Task) -> (b: bool)
    ensures
        b == logbook_filter(*c, *t),
{
    if t.trashed || !(t.status == TaskStatus::Completed || t.status == TaskStatus::Canceled) {
        return false;
    }
    if t.is_heading() || !task6(t) {
        return false;
    }
    let stop = match t.stop_date {
        Some(d) => d,
        None => {
            return false;
        },
    };
    let stop_day = local_day_start_of(&stop, c.2);
    if let Some(from) = c.0 {
        if let Some(sd) = stop_day {
            if sd.lt(&from) {
                return false;
            }
        }
    }
    if let Some(to) = c.1 {
        if let Some(sd) = stop_day {
            if to.lt(&sd) {
                return false;
            }
        }
    }
    true
}

/// The logbook order: latest stop time first, then highest sort index,
/// then identifier text.
pub open spec fn logbook_key(t: &Task) -> (i128, i128, i128, i128) {
    let stop: int = match t.stop_date {
        Some(d) => d.secs * 0x1_0000_0000 + d.nanos,
        None => 0,
    };
    ((-stop) as i128, (-(t.index as int)) as i128, spec_id_key(t.uuid).0 as i128, spec_id_key(t.uuid).1 as i128)
}

fn logbook_key_of(t: &&Task) -> (k: (i128, i128, i128, i128))
    ensures
        k == logbook_key(*t),
{
    let stop: i128 = match t.stop_date {
        Some(d) => d.secs as i128 * 0x1_0000_0000 + d.nanos as i128,
        None => 0,
    };
    let (hi, lo) = id_sort_key(&t.uuid);
    (-stop, -(t.index as i128), hi, lo)
}

/// Every item of a list that holds exactly the tasks a filter keeps passes
/// that filter.
pub proof fn lemma_listed_passes(r: Seq<&Task>, s: Seq<Task>, p: spec_fn(Task) -> bool, i: int)
    requires
        r.to_multiset() == refs(s.filter(p)).to_multiset(),
        0 <= i < r.len(),
    ensures
        p(*r[i]),
{
    broadcast use vstd::seq_lib::group_filter_ensures;

    let f = s.filter(p);
    let x = r[i];
    assert(r.contains(x));
    assert(r.to_multiset().count(x) > 0);
    assert(refs(f).to_multiset().count(x) > 0);
    assert(refs(f).contains(x));
    let k = choose|k: int| 0 <= k < refs(f).len() && refs(f)[k] == x;
    assert(refs(f)[k] == &f[k]);
    assert(p(f[k]));
}

/// A list in sort-index order has lower sort indexes first.
pub proof fn lemma_index_order(r: Seq<&Task>, i: int, j: int)
    requires
        sorted_by(r, |t: &Task| index_order(t)),
        0 <= i < j < r.len(),
    ensures
        r[i].index <= r[j].index,
{
    assert(crate::sorting::key_le(index_order(r[i]), index_order(r[j])));
}

/// The Inbox lists only open Inbox todos that are not trashed and belong to
/// no project or area, lowest sort index first.
pub proof fn lemma_inbox_listing(st: ThingsStore, r: Seq<&Task>)
    requires
        r.to_multiset() == refs(st.tasks@.filter(|t: Task| inbox_filter(st, t))).to_multiset(),
        sorted_by(r, |t: &Task| index_order(t)),
    ensures
        forall|i: int|
            0 <= i < r.len() ==> {
                &&& !(#[trigger] r[i]).trashed
                &&& r[i].status == TaskStatus::Incomplete
                &&& r[i].start == TaskStart::Inbox
                &&& r[i].item_type != TaskType::Project
                &&& r[i].item_type != TaskType::Heading
                &&& spec_effective_project(st.tasks@, *r[i]) is None
                &&& spec_effective_area(st.tasks@, *r[i]) is None
            },
        forall|i: int, j: int| 0 <= i < j < r.len() ==> (#[trigger] r[i]).index <= (#[trigger] r[j]).index,
{
    assert forall|i: int| 0 <= i < r.len() implies inbox_filter(st, *#[trigger] r[i]) by {
        lemma_listed_passes(r, st.tasks@, |t: Task| inbox_filter(st, t), i);
    }
    assert forall|i: int, j: int| 0 <= i < j < r.len() implies (#[trigger] r[i]).index <= (#[trigger] r[j]).index by {
        lemma_index_order(r, i, j);
    }
}

/// Someday lists only open, undated Someday items that are not trashed,
/// lowest sort index first.
pub proof fn lemma_someday_listing(st: ThingsStore, r: Seq<&Task>)
    requires
        r.to_multiset() == refs(st.tasks@.filter(|t: Task| someday_filter(st, t))).to_multiset(),
        sorted_by(r, |t: &Task| index_order(t)),
    ensures
        forall|i: int|
            0 <= i < r.len() ==> {
                &&& !(#[trigger] r[i]).trashed
                &&& r[i].status == TaskStatus::Incomplete
                &&& r[i].start == TaskStart::Someday
                &&& r[i].start_date is None
                &&& r[i].item_type != TaskType::Heading
            },
        forall|i: int, j: int| 0 <= i < j < r.len() ==> (#[trigger] r[i]).index <= (#[trigger] r[j]).index,
{
    assert forall|i: int| 0 <= i < r.len() implies someday_filter(st, *#[trigger] r[i]) by {
        lemma_listed_passes(r, st.tasks@, |t: Task| someday_filter(st, t), i);
    }
    assert forall|i: int, j: int| 0 <= i < j < r.len() implies (#[trigger] r[i]).index <= (#[trigger] r[j]).index by {
        lemma_index_order(r, i, j);
    }
}

/// Anytime lists only open Anytime todos that are not trashed and have
/// started by `today`, lowest sort index first.
pub proof fn lemma_anytime_listing(st: ThingsStore, today: UtcTime, r: Seq<&Task>)
    requires
        r.to_multiset() == refs(st.tasks@.filter(|t: Task| anytime_filter((st, today), t))).to_multiset(),
        sorted_by(r, |t: &Task| index_order(t)),
    ensures
        forall|i: int|
            0 <= i < r.len() ==> {
                &&& !(#[trigger] r[i]).trashed
                &&& r[i].status == TaskStatus::Incomplete
                &&& r[i].start == TaskStart::Anytime
                &&& r[i].item_type != TaskType::Project
                &&& r[i].item_type != TaskType::Heading
                &&& (r[i].start_date matches Some(d) ==> time_le(d, today))
            },
        forall|i: int, j: int| 0 <= i < j < r.len() ==> (#[trigger] r[i]).index <= (#[trigger] r[j]).index,
{
    assert forall|i: int| 0 <= i < r.len() implies anytime_filter((st, today), *#[trigger] r[i]) by {
        lemma_listed_passes(r, st.tasks@, |t: Task| anytime_filter((st, today), t), i);
    }
    assert forall|i: int, j: int| 0 <= i < j < r.len() implies (#[trigger] r[i]).index <= (#[trigger] r[j]).index by {
        lemma_index_order(r, i, j);
    }
}

/// The project list holds only untrashed projects with the asked status,
/// lowest sort index first.
pub proof fn lemma_projects_listing(st: ThingsStore, status: Option<TaskStatus>, r: Seq<&Task>)
    requires
        r.to_multiset() == refs(st.tasks@.filter(|t: Task| projects_filter(status, t))).to_multiset(),
        sorted_by(r, |t: &Task| index_order(t)),
    ensures
        forall|i: int|
            0 <= i < r.len() ==> {
                &&& !(#[trigger] r[i]).trashed
                &&& r[i].item_type == TaskType::Project
                &&& (status matches Some(s) ==> r[i].status == s)
            },
        forall|i: int, j: int| 0 <= i < j < r.len() ==> (#[trigger] r[i]).index <= (#[trigger] r[j]).index,
{
    assert forall|i: int| 0 <= i < r.len() implies projects_filter(status, *#[trigger] r[i]) by {
        lemma_listed_passes(r, st.tasks@, |t: Task| projects_filter(status, t), i);
    }
    assert forall|i: int, j: int| 0 <= i < j < r.len() implies (#[trigger] r[i]).index <= (#[trigger] r[j]).index by {
        lemma_index_order(r, i, j);
    }
}

/// The start day of a task in seconds, none counting as zero.
pub open spec fn start_secs(t: &Task) -> int {
    match t.start_date {
        Some(d) => d.secs as int,
        None => 0,
    }
}

/// Today lists only open todos that are not trashed: first those without a
/// Today index (latest start day first), then those with one (highest Today
/// index first).
pub proof fn lemma_today_listing(today: UtcTime, st: ThingsStore, r: Seq<&Task>)
    requires
        r.to_multiset() == refs(st.tasks@.filter(|t: Task| today_filter(today, t))).to_multiset(),
        sorted_by(r, |t: &Task| today_key(t)),
    ensures
        forall|i: int|
            0 <= i < r.len() ==> {
                &&& !(#[trigger] r[i]).trashed
                &&& r[i].status == TaskStatus::Incomplete
                &&& r[i].item_type != TaskType::Project
                &&& r[i].item_type != TaskType::Heading
            },
        forall|i: int, j: int|
            0 <= i < j < r.len() ==> {
                &&& ((#[trigger] r[i]).today_index != 0 ==> (#[trigger] r[j]).today_index != 0)
                &&& (r[i].today_index != 0 && r[j].today_index != 0 ==> r[i].today_index >= r[j].today_index)
                &&& (r[i].today_index == 0 && r[j].today_index == 0 ==> start_secs(r[i]) >= start_secs(r[j]))
            },
{
    assert forall|i: int| 0 <= i < r.len() implies today_filter(today, *#[trigger] r[i]) by {
        lemma_listed_passes(r, st.tasks@, |t: Task| today_filter(today, t), i);
    }
    assert forall|i: int, j: int| 0 <= i < j < r.len() implies {
        &&& ((#[trigger] r[i]).today_index != 0 ==> (#[trigger] r[j]).today_index != 0)
        &&& (r[i].today_index != 0 && r[j].today_index != 0 ==> r[i].today_index >= r[j].today_index)
        &&& (r[i].today_index == 0 && r[j].today_index == 0 ==> start_secs(r[i]) >= start_secs(r[j]))
    } by {
        assert(crate::sorting::key_le(today_key(r[i]), today_key(r[j])));
    }
}

/// The logbook lists only completed or canceled tasks that are not trashed
/// and have a stop time whose local day lies in the range asked for, latest
/// stop time first.
pub proof fn lemma_logbook_listing(c: (Option<UtcTime>, Option<UtcTime>, i32), st: ThingsStore, r: Seq<&Task>)
    requires
        r.to_multiset() == refs(st.tasks@.filter(|t: Task| logbook_filter(c, t))).to_multiset(),
        sorted_by(r, |t: &Task| logbook_key(t)),
    ensures
        forall|i: int|
            0 <= i < r.len() ==> {
                &&& !(#[trigger] r[i]).trashed
                &&& (r[i].status == TaskStatus::Completed || r[i].status == TaskStatus::Canceled)
                &&& r[i].item_type != TaskType::Heading
                &&& r[i].stop_date is Some
                &&& match (c.0, local_day_start(r[i].stop_date->0, c.2)) {
                    (Some(from), Some(sd)) => !time_lt(sd, from),
                    _ => true,
                }
                &&& match (c.1, local_day_start(r[i].stop_date->0, c.2)) {
                    (Some(to), Some(sd)) => !time_lt(to, sd),
                    _ => true,
                }
            },
        forall|i: int, j: int|
            0 <= i < j < r.len() ==> time_le((#[trigger] r[j]).stop_date->0, (#[trigger] r[i]).stop_date->0),
{
    assert forall|i: int| 0 <= i < r.len() implies logbook_filter(c, *#[trigger] r[i]) by {
        lemma_listed_passes(r, st.tasks@, |t: Task| logbook_filter(c, t), i);
    }
    assert forall|i: int, j: int| 0 <= i < j < r.len() implies time_le(
        (#[trigger] r[j]).stop_date->0,
        (#[trigger] r[i]).stop_date->0,
    ) by {
        assert(logbook_filter(c, *r[i]));
        assert(logbook_filter(c, *r[j]));
        assert(crate::sorting::key_le(logbook_key(r[i]), logbook_key(r[j])));
        let a = r[i].stop_date->0;
        let b = r[j].stop_date->0;
        let sa = a.secs * 0x1_0000_0000 + a.nanos;
        let sb = b.secs * 0x1_0000_0000 + b.nanos;
        assert(sa >= sb);
        if a.secs < b.secs {
            assert(a.secs * 0x1_0000_0000 + 0x1_0000_0000 <= b.secs * 0x1_0000_0000);
        }
    }
}

/// The order of areas and tags by sort index.
pub open spec fn area_key(a: &Area) -> (i128, i128, i128, i128) {
    (a.index as i128, 0, 0, 0)
}

fn area_key_of(a: &&Area) -> (k: (i128, i128, i128, i128))
    ensures
        k == area_key(*a),
{
    (a.index as i128, 0i128, 0i128, 0i128)
}

/// The order of tags by sort index.
pub open spec fn tag_key(t: &Tag) -> (i128, i128, i128, i128) {
    (t.index as i128, 0, 0, 0)
}

fn tag_key_of(t: &&Tag) -> (k: (i128, i128, i128, i128))
    ensures
        k == tag_key(*t),
{
    (t.index as i128, 0i128, 0i128, 0i128)
}

proof fn lemma_filter_all<T>(s: Seq<T>, f: spec_fn(T) -> bool)
    requires
        forall|x: T| #[trigger] f(x),
    ensures
        s.filter(f) == s,
    decreases s.len(),
{
    reveal(Seq::filter);
    if s.len() > 0 {
        lemma_filter_all(s.drop_last(), f);
        assert(s.drop_last().push(s.last()) =~= s);
    }
}

fn any_area(c: &(), a: &Area) -> (b: bool)
    ensures
        b,
{
    true
}

fn titled_tag(c: &(), t: &Tag) -> (b: bool)
    ensures
        b == !is_blank(t.title@),
{
    !blank(&t.title)
}

impl ThingsStore {
    /// Anytime as of `today`: open, started Anytime todos whose project (if
    /// known) is open, not in Someday and started; by sort index.
    pub fn anytime(&self, today: &UtcTime) -> (r: Vec<&Task>)
        ensures
            r@.to_multiset() == refs(self.tasks@.filter(|t: Task| anytime_filter((*self, *today), t))).to_multiset(),
            sorted_by(r@, |t: &Task| index_order(t)),
            forall|i: int|
                0 <= i < r@.len() ==> !(#[trigger] r@[i]).trashed && r@[i].status == TaskStatus::Incomplete
                    && r@[i].start == TaskStart::Anytime,
            forall|i: int, j: int| 0 <= i < j < r@.len() ==> (#[trigger] r@[i]).index <= (#[trigger] r@[j]).index,
    {
        let c = (self, *today);
        let ghost p = |c: (&ThingsStore, UtcTime), t: Task| anytime_filter((*c.0, c.1), t);
        let chosen = select(&self.tasks, &c, anytime_keep, Ghost(p));
        proof {
            assert((|x: Task| p(c, x)) =~= (|t: Task| anytime_filter((*self, *today), t)));
        }
        let r = sort_by(chosen, index_order_of, Ghost(|t: &Task| index_order(t)));
        proof {
            lemma_anytime_listing(*self, *today, r@);
        }
        r
    }

    /// The logbook: completed or canceled tasks whose local stop day (in the
    /// zone `offset` seconds east of UTC) lies within the optional bounds;
    /// latest first.
    pub fn logbook(&self, from_date: Option<UtcTime>, to_date: Option<UtcTime>, offset: i32) -> (r: Vec<&Task>)
        ensures
            r@.to_multiset() == refs(
                self.tasks@.filter(|t: Task| logbook_filter((from_date, to_date, offset), t)),
            ).to_multiset(),
            sorted_by(r@, |t: &Task| logbook_key(t)),
            forall|i: int|
                0 <= i < r@.len() ==> !(#[trigger] r@[i]).trashed && (r@[i].status == TaskStatus::Completed
                    || r@[i].status == TaskStatus::Canceled) && r@[i].stop_date is Some,
            forall|i: int, j: int|
                0 <= i < j < r@.len() ==> time_le((#[trigger] r@[j]).stop_date->0, (#[trigger] r@[i]).stop_date->0),
    {
        let c = (from_date, to_date, offset);
        let ghost p = |c: (Option<UtcTime>, Option<UtcTime>, i32), t: Task| logbook_filter(c, t);
        let chosen = select(&self.tasks, &c, logbook_keep, Ghost(p));
        proof {
            assert((|x: Task| p(c, x)) =~= (|t: Task| logbook_filter((from_date, to_date, offset), t)));
        }
        let r = sort_by(chosen, logbook_key_of, Ghost(|t: &Task| logbook_key(t)));
        proof {
            lemma_logbook_listing((from_date, to_date, offset), *self, r@);
        }
        r
    }

    /// All areas, by sort index.
    pub fn areas(&self) -> (r: Vec<&Area>)
        ensures
            r@.to_multiset() == refs(self.areas@).to_multiset(),
            sorted_by(r@, |a: &Area| area_key(a)),
    {
        let ghost p = |c: (), a: Area| true;
        let chosen = select(&self.areas, &(), any_area, Ghost(p));
        proof {
            lemma_filter_all(self.areas@, |x: Area| p((), x));
        }
        sort_by(chosen, area_key_of, Ghost(|a: &Area| area_key(a)))
    }

    /// Tags with a non-blank title, by sort index.
    pub fn tags(&self) -> (r: Vec<&Tag>)
        ensures
            r@.to_multiset() == refs(self.tags@.filter(|t: Tag| !is_blank(t.title@))).to_multiset(),
            sorted_by(r@, |t: &Tag| tag_key(t)),
    {
        let ghost p = |c: (), t: Tag| !is_blank(t.title@);
        let chosen = select(&self.tags, &(), titled_tag, Ghost(p));
        proof {
            assert((|x: Tag| p((), x)) =~= (|t: Tag| !is_blank(t.title@)));
        }
        sort_by(chosen, tag_key_of, Ghost(|t: &Tag| tag_key(t)))
    }
}

/// The short form recorded for the identifier whose text is `text`.
pub open spec fn short_by_text(short_ids: Seq<(ThingsId, String)>, text: Seq<char>) -> Option<(ThingsId, String)> {
    first_match(short_ids, |e: (ThingsId, String)| id_chars(e.0) == text)
}

/// The short form recorded for identifier `id`.
pub open spec fn short_by_id(short_ids: Seq<(ThingsId, String)>, id: ThingsId) -> Option<(ThingsId, String)> {
    first_match(short_ids, |e: (ThingsId, String)| e.0 == id)
}

/// The prefix length an identifier needs: its short form's, or six when it
/// has none.
pub open spec fn need_of(short_ids: Seq<(ThingsId, String)>, id: ThingsId) -> nat {
    match short_by_id(short_ids, id) {
        Some(e) => e.1@.len(),
        None => 6,
    }
}

/// The largest need among `ids`, and at least one.
pub open spec fn max_need(short_ids: Seq<(ThingsId, String)>, ids: Seq<ThingsId>) -> nat
    decreases ids.len(),
{
    if ids.len() == 0 {
        1
    } else {
        let m = max_need(short_ids, ids.drop_last());
        let n = need_of(short_ids, ids.last());
        if m < n {
            n
        } else {
            m
        }
    }
}

/// Whether a todo belongs to the project whose text is `project`, and
/// counts towards its progress.
pub open spec fn progress_member(st: ThingsStore, project: Seq<char>, t: Task) -> bool {
    &&& !t.trashed
    &&& t.item_type == TaskType::Todo
    &&& spec_effective_project(st.tasks@, t) is Some
    &&& id_chars(spec_effective_project(st.tasks@, t)->0) == project
}

fn short_has_text(text: &&str, e: &(ThingsId, String)) -> (b: bool)
    ensures
        b == (id_chars(e.0) == text@),
{
    let s = e.0.to_string();
    str_eq(s.as_str(), *text)
}

fn short_has_id(id: &ThingsId, e: &(ThingsId, String)) -> (b: bool)
    ensures
        b == (e.0 == *id),
{
    e.0.same(id)
}

proof fn lemma_filter_len_le<T>(s: Seq<T>, f: spec_fn(T) -> bool)
    ensures
        s.filter(f).len() <= s.len(),
    decreases s.len(),
{
    reveal(Seq::filter);
    if s.len() > 0 {
        lemma_filter_len_le(s.drop_last(), f);
    }
}

impl ThingsStore {
    /// The title of the tag whose text is `uuid`, or `uuid` itself when there
    /// is no such tag or its title is blank.
    pub fn resolve_tag_title(&self, uuid: &str) -> (r: String)
        ensures
            r@ == match tag_by_text(self.tags@, uuid@) {
                Some(t) => if !is_blank(t.title@) {
                    t.title@
                } else {
                    uuid@
                },
                None => uuid@,
            },
    {
        match self.get_tag(uuid) {
            Some(t) => {
                if !blank(&t.title) {
                    t.title.clone()
                } else {
                    uuid.to_owned()
                }
            },
            None => uuid.to_owned(),
        }
    }

    /// The title of the area whose text is `uuid`, or `uuid` itself.
    pub fn resolve_area_title(&self, uuid: &str) -> (r: String)
        ensures
            r@ == match area_by_text(self.areas@, uuid@) {
                Some(a) => a.title@,
                None => uuid@,
            },
    {
        match self.get_area(uuid) {
            Some(a) => a.title.clone(),
            None => uuid.to_owned(),
        }
    }

    /// The title of the project whose text is `uuid`; without one (or with a
    /// blank title), `(project)` or `(project ` with the first eight
    /// characters of `uuid` and `)`.
    pub fn resolve_project_title(&self, uuid: &str) -> (r: String)
        ensures
            r@ == match task_by_text(self.tasks@, uuid@) {
                Some(t) if !is_blank(t.title@) => t.title@,
                _ => if uuid@.len() == 0 {
                    "(project)"@
                } else {
                    "(project "@ + (if 8 < uuid@.len() { uuid@.take(8) } else { uuid@ }) + ")"@
                },
            },
    {
        if let Some(task) = self.get_task(uuid) {
            if !blank(&task.title) {
                return task.title.clone();
            }
        }
        if uuid.is_empty() {
            return crate::text::owned("(project)");
        }
        let short = take_chars(uuid, 8);
        concat3("(project ", short.as_str(), ")")
    }

    /// The short form of the identifier whose text is `uuid`, or `uuid`.
    pub fn short_id(&self, uuid: &str) -> (r: String)
        ensures
            r@ == match short_by_text(self.short_ids@, uuid@) {
                Some(e) => e.1@,
                None => uuid@,
            },
    {
        let ghost p = |c: &str, e: (ThingsId, String)| id_chars(e.0) == c@;
        let found = first_where(&self.short_ids, &uuid, short_has_text, Ghost(p));
        proof {
            assert((|x: (ThingsId, String)| p(uuid, x)) =~= (|e: (ThingsId, String)| id_chars(e.0) == uuid@));
        }
        match found {
            Some(e) => e.1.clone(),
            None => uuid.to_owned(),
        }
    }

    /// Todo counts of the project whose text is `project_uuid`: untrashed
    /// todos that belong to it, and those of them completed.
    pub fn project_progress(&self, project_uuid: &str) -> (r: ProjectProgress)
        requires
            self.tasks@.len() <= i32::MAX,
        ensures
            r.total == self.tasks@.filter(|t: Task| progress_member(*self, project_uuid@, t)).len(),
            r.done == self.tasks@.filter(
                |t: Task| progress_member(*self, project_uuid@, t) && t.status == TaskStatus::Completed,
            ).len(),
    {
        let ghost f = |t: Task| progress_member(*self, project_uuid@, t);
        let ghost g = |t: Task| progress_member(*self, project_uuid@, t) && t.status == TaskStatus::Completed;
        let mut total: i32 = 0;
        let mut done: i32 = 0;
        let mut i: usize = 0;
        while i < self.tasks.len()
            invariant
                i <= self.tasks@.len() <= i32::MAX,
                f == (|t: Task| progress_member(*self, project_uuid@, t)),
                g == (|t: Task| progress_member(*self, project_uuid@, t) && t.status == TaskStatus::Completed),
                total == self.tasks@.take(i as int).filter(f).len(),
                done == self.tasks@.take(i as int).filter(g).len(),
            decreases self.tasks@.len() - i,
        {
            let t = &self.tasks[i];
            proof {
                assert(self.tasks@.take(i as int + 1) =~= self.tasks@.take(i as int).push(*t));
                self.tasks@.take(i as int).lemma_filter_push(*t, f);
                self.tasks@.take(i as int).lemma_filter_push(*t, g);
                lemma_filter_len_le(self.tasks@.take(i as int), f);
                lemma_filter_len_le(self.tasks@.take(i as int), g);
            }
            if !t.trashed && t.is_todo() {
                if let Some(p) = self.effective_project_uuid(t) {
                    let text = p.to_string();
                    if str_eq(text.as_str(), project_uuid) {
                        total = total + 1;
                        if t.is_completed() {
                            done = done + 1;
                        }
                    }
                }
            }
            i = i + 1;
        }
        proof {
            assert(self.tasks@.take(self.tasks@.len() as int) =~= self.tasks@);
        }
        ProjectProgress { total, done }
    }

    /// The id prefix length that shows each of `ids` unambiguously: the
    /// longest of their short forms (six for one without), at least one;
    /// zero for no ids.
    pub fn unique_prefix_length(&self, ids: &[ThingsId]) -> (r: usize)
        ensures
            r == if ids@.len() == 0 {
                0
            } else {
                max_need(self.short_ids@, ids@)
            },
    {
        if ids.len() == 0 {
            return 0;
        }
        let mut max: usize = 1;
        let mut i: usize = 0;
        while i < ids.len()
            invariant
                i <= ids@.len(),
                max == max_need(self.short_ids@, ids@.take(i as int)),
            decreases ids@.len() - i,
        {
            let ghost p = |c: ThingsId, e: (ThingsId, String)| e.0 == c;
            let found = first_where(&self.short_ids, &ids[i], short_has_id, Ghost(p));
            proof {
                assert((|x: (ThingsId, String)| p(ids@[i as int], x)) =~= (|e: (ThingsId, String)| e.0 == ids@[i as int]));
                assert(ids@.take(i as int + 1).drop_last() =~= ids@.take(i as int));
            }
            let need: usize = match found {
                Some(e) => crate::text::chars_of(e.1.as_str()).len(),
                None => 6,
            };
            proof {
                assert(need == need_of(self.short_ids@, ids@[i as int]));
            }
            if max < need {
                max = need;
            }
            i = i + 1;
        }
        proof {
            assert(ids@.take(ids@.len() as int) =~= ids@);
        }
        max
    }
}

/// Finding the first match in a longer list: the old first match stays, or
/// the new last item when it matches and nothing did before.
pub proof fn lemma_first_match_push<T>(s: Seq<T>, x: T, p: spec_fn(T) -> bool)
    ensures
        first_match(s.push(x), p) == match first_match(s, p) {
            Some(y) => Some(y),
            None => if p(x) {
                Some(x)
            } else {
                None
            },
        },
    decreases s.len(),
{
    let t = s.push(x);
    if s.len() > 0 {
        assert(t.drop_first() =~= s.drop_first().push(x));
        assert(t[0] == s[0]);
        lemma_first_match_push(s.drop_first(), x, p);
        if p(s[0]) {
            assert(first_match(t, p) == Some(s[0]));
            assert(first_match(s, p) == Some(s[0]));
        } else {
            assert(first_match(t, p) == first_match(t.drop_first(), p));
            assert(first_match(s, p) == first_match(s.drop_first(), p));
        }
    } else {
        assert(t.drop_first() =~= Seq::<T>::empty());
        assert(t[0] == x);
        assert(first_match(t.drop_first(), p) is None);
        assert(first_match(s, p) is None);
    }
}

proof fn lemma_first_match_at<T>(s: Seq<T>, p: spec_fn(T) -> bool, i: int)
    requires
        0 <= i < s.len(),
        p(s[i]),
        forall|j: int| 0 <= j < i ==> !p(#[trigger] s[j]),
    ensures
        first_match(s, p) == Some(s[i]),
    decreases i,
{
    if i > 0 {
        assert(!p(s[0]));
        assert forall|j: int| 0 <= j < i - 1 implies !p(#[trigger] s.drop_first()[j]) by {
            assert(s.drop_first()[j] == s[j + 1]);
        }
        lemma_first_match_at(s.drop_first(), p, i - 1);
    }
}

/// Resolving an eligible item by the full compact text of its own
/// identifier finds that item, when no other item shares its identifier.
pub proof fn lemma_resolve_own_identifier<T>(
    items: Seq<T>,
    ok: spec_fn(T) -> bool,
    uid: spec_fn(T) -> ThingsId,
    i: int,
    label: Seq<char>,
)
    requires
        0 <= i < items.len(),
        ok(items[i]),
        forall|j: int| 0 <= j < items.len() && j != i ==> uid(#[trigger] items[j]) != uid(items[i]),
    ensures
        resolution_of(items, ok, uid, id_chars(uid(items[i])), label).0 == Some(items[i]),
{
    let text = id_chars(uid(items[i]));
    crate::ids::things_id::lemma_id_chars_shape(uid(items[i]));
    crate::text::lemma_trim_keeps_unpadded(text);
    let p = |x: T| ok(x) && id_chars(uid(x)) == text;
    assert forall|j: int| 0 <= j < i implies !p(#[trigger] items[j]) by {
        if id_chars(uid(items[j])) == text {
            crate::ids::things_id::lemma_id_chars_injective(uid(items[j]), uid(items[i]));
        }
    }
    lemma_first_match_at(items, p, i);
    assert(exact_item(items, ok, uid, text) == Some(items[i]));
}

proof fn lemma_first_match_none<T>(s: Seq<T>, p: spec_fn(T) -> bool)
    requires
        forall|j: int| 0 <= j < s.len() ==> !p(#[trigger] s[j]),
    ensures
        first_match(s, p) is None,
    decreases s.len(),
{
    if s.len() > 0 {
        assert(!p(s[0]));
        assert forall|j: int| 0 <= j < s.len() - 1 implies !p(#[trigger] s.drop_first()[j]) by {
            assert(s.drop_first()[j] == s[j + 1]);
        }
        lemma_first_match_none(s.drop_first(), p);
    }
}

proof fn lemma_filter_none<T>(s: Seq<T>, p: spec_fn(T) -> bool)
    requires
        forall|j: int| 0 <= j < s.len() ==> !p(#[trigger] s[j]),
    ensures
        s.filter(p) == Seq::<T>::empty(),
    decreases s.len(),
{
    reveal(Seq::filter);
    if s.len() > 0 {
        assert(!p(s.last()));
        assert forall|j: int| 0 <= j < s.len() - 1 implies !p(#[trigger] s.drop_last()[j]) by {
            assert(s.drop_last()[j] == s[j]);
        }
        lemma_filter_none(s.drop_last(), p);
    }
}

proof fn lemma_filter_only<T>(s: Seq<T>, p: spec_fn(T) -> bool, k: int)
    requires
        0 <= k < s.len(),
        p(s[k]),
        forall|j: int| 0 <= j < s.len() && j != k ==> !p(#[trigger] s[j]),
    ensures
        s.filter(p) == seq![s[k]],
    decreases s.len(),
{
    reveal(Seq::filter);
    let d = s.drop_last();
    if k == s.len() - 1 {
        assert forall|j: int| 0 <= j < d.len() implies !p(#[trigger] d[j]) by {
            assert(d[j] == s[j]);
        }
        lemma_filter_none(d, p);
        assert(s.filter(p) =~= Seq::<T>::empty().push(s[k]));
    } else {
        assert(!p(s.last()));
        assert(d[k] == s[k]);
        assert forall|j: int| 0 <= j < d.len() && j != k implies !p(#[trigger] d[j]) by {
            assert(d[j] == s[j]);
        }
        lemma_filter_only(d, p, k);
    }
}

proof fn lemma_ascii_prefix(a: Seq<u8>, b: Seq<u8>)
    requires
        ascii_chars(a).is_prefix_of(ascii_chars(b)),
    ensures
        a.is_prefix_of(b),
{
    assert forall|j: int| 0 <= j < a.len() implies b[j] == a[j] by {
        assert(ascii_chars(b)[j] == ascii_chars(a)[j]);
        assert((b[j] as char) == (a[j] as char));
    }
    assert(b.subrange(0, a.len() as int) =~= a);
}

/// The short identifier given to entry `i` of `ids` (its shortest unique
/// prefix) finds again, among eligible items whose identifiers all stand in
/// `ids`, the item with that entry's identifier.
pub proof fn lemma_short_id_resolves<T>(
    items: Seq<T>,
    ok: spec_fn(T) -> bool,
    uid: spec_fn(T) -> ThingsId,
    ids: Seq<ThingsId>,
    i: int,
    k: int,
    label: Seq<char>,
)
    requires
        0 <= i < ids.len(),
        0 <= k < items.len(),
        uid(items[k]) == ids[i],
        ok(items[k]),
        ids.no_duplicates(),
        forall|j: int| 0 <= j < items.len() ==> ids.contains(uid(#[trigger] items[j])),
        forall|a: int, b: int| 0 <= a < b < items.len() ==> uid(#[trigger] items[a]) != uid(#[trigger] items[b]),
    ensures
        resolution_of(items, ok, uid, ascii_chars(spec_unique_prefix(ids, i)), label).0 == Some(items[k]),
{
    let t = id_text(ids[i]);
    let m = max_lcp_with_others(t, ids, i);
    let p = spec_unique_prefix(ids, i);
    let pc = ascii_chars(p);
    let full = id_chars(ids[i]);
    lemma_max_lcp_bounds(t, ids, i);
    crate::ids::things_id::lemma_id_chars_shape(ids[i]);
    assert(full == ascii_chars(t));
    assert(p.is_prefix_of(t));
    assert(p.len() > 0);
    assert(pc.is_prefix_of(full));
    assert(!crate::text::is_ws(pc[0])) by {
        assert(pc[0] == full[0]);
    }
    assert(!crate::text::is_ws(pc.last())) by {
        assert(pc.last() == full[pc.len() - 1]);
    }
    crate::text::lemma_trim_keeps_unpadded(pc);
    let pe = |x: T| ok(x) && id_chars(uid(x)) == pc;
    let pm = |x: T| ok(x) && pc.is_prefix_of(id_chars(uid(x)));
    // Another entry's text never starts with a prefix shorter than the whole text.
    assert forall|j2: int| 0 <= j2 < ids.len() && j2 != i && p.len() < t.len() implies !p.is_prefix_of(
        id_text(#[trigger] ids[j2]),
    ) by {
        if p.is_prefix_of(id_text(ids[j2])) {
            let u = id_text(ids[j2]);
            assert(t.take((m + 1) as int) =~= p);
            assert(u.take((m + 1) as int) =~= p);
            lemma_lcp_at_least(t, u, (m + 1) as int);
        }
    }
    if full == pc {
        assert forall|j: int| 0 <= j < k implies !pe(#[trigger] items[j]) by {
            if pe(items[j]) {
                crate::ids::things_id::lemma_id_chars_injective(uid(items[j]), ids[i]);
            }
        }
        lemma_first_match_at(items, pe, k);
    } else {
        assert(p.len() < t.len()) by {
            if p.len() >= t.len() {
                assert(p =~= t);
            }
        }
        assert forall|j: int| 0 <= j < items.len() && j != k implies !pm(#[trigger] items[j]) by {
            if pm(items[j]) {
                let x = uid(items[j]);
                assert(ids.contains(x));
                let j2 = choose|j2: int| 0 <= j2 < ids.len() && ids[j2] == x;
                if j < k {
                    assert(uid(items[j]) != uid(items[k]));
                } else {
                    assert(uid(items[k]) != uid(items[j]));
                }
                lemma_ascii_prefix(p, id_text(ids[j2]));
            }
        }
        assert forall|j: int| 0 <= j < items.len() implies !pe(#[trigger] items[j]) by {
            if pe(items[j]) {
                assert(pm(items[j]));
                if j == k {
                    assert(full == pc);
                }
            }
        }
        lemma_first_match_none(items, pe);
        lemma_filter_only(items, pm, k);
        assert(prefix_items(items, ok, uid, pc) == items.filter(pm)) by {
            assert(pm =~= (|x: T| ok(x) && pc.is_prefix_of(id_chars(uid(x)))));
        }
    }
}

/// The eligible items whose identifier text is exactly `ident`.
pub open spec fn exact_item<T>(
    items: Seq<T>,
    ok: spec_fn(T) -> bool,
    uid: spec_fn(T) -> ThingsId,
    ident: Seq<char>,
) -> Option<T> {
    first_match(items, |x: T| ok(x) && id_chars(uid(x)) == ident)
}

/// The eligible items whose identifier text starts with `ident`, in order.
pub open spec fn prefix_items<T>(
    items: Seq<T>,
    ok: spec_fn(T) -> bool,
    uid: spec_fn(T) -> ThingsId,
    ident: Seq<char>,
) -> Seq<T> {
    items.filter(|x: T| ok(x) && ident.is_prefix_of(id_chars(uid(x))))
}

/// The note on an ambiguous prefix: how many matched, when more than the
/// ten shown.
pub open spec fn ambiguity_note(n: nat) -> Seq<char> {
    if n > 10 {
        " ("@ + crate::text::decimal(n) + " matches, showing first 10)"@
    } else {
        Seq::empty()
    }
}

/// How identifier `identifier` resolves among the eligible items: blank is
/// missing, an exact identifier or a single prefix match is found, several
/// prefix matches are ambiguous (all of them candidates), and none is not
/// found; with the message that says why nothing was found.
pub open spec fn resolution_of<T>(
    items: Seq<T>,
    ok: spec_fn(T) -> bool,
    uid: spec_fn(T) -> ThingsId,
    identifier: Seq<char>,
    label: Seq<char>,
) -> (Option<T>, Seq<char>, Seq<T>) {
    let ident = spec_trim(identifier);
    let ms = prefix_items(items, ok, uid, ident);
    if ident.len() == 0 {
        (None::<T>, "Missing "@ + crate::text::lower(label) + " identifier."@, Seq::<T>::empty())
    } else if exact_item(items, ok, uid, ident) is Some {
        (exact_item(items, ok, uid, ident), Seq::<char>::empty(), Seq::<T>::empty())
    } else if ms.len() == 1 {
        (Some(ms[0]), Seq::<char>::empty(), Seq::<T>::empty())
    } else if ms.len() > 1 {
        (None::<T>, "Ambiguous "@ + crate::text::lower(label) + " id prefix."@ + ambiguity_note(ms.len()), ms)
    } else {
        (None::<T>, label + " not found: "@ + identifier, Seq::<T>::empty())
    }
}

/// The ordering key of an identifier: its compact text's order.
pub open spec fn id_key_of(id: ThingsId) -> (i128, i128, i128, i128) {
    (spec_id_key(id).0 as i128, spec_id_key(id).1 as i128, 0i128, 0i128)
}

/// The ordering key of an item's identifier.
pub open spec fn id_order<T>(uid: spec_fn(T) -> ThingsId) -> spec_fn(T) -> (i128, i128, i128, i128) {
    |x: T| id_key_of(uid(x))
}

/// Whether `shown` lists candidates `ms` as an ambiguous prefix does: the
/// first ten of them in ascending identifier order.
pub open spec fn lists_candidates<T>(ms: Seq<T>, uid: spec_fn(T) -> ThingsId, shown: Seq<T>) -> bool {
    exists|o: Seq<T>|
        #![trigger o.to_multiset()]
        o.to_multiset() == ms.to_multiset() && sorted_by(o, id_order(uid)) && shown == (if o.len() > 10 {
            o.take(10)
        } else {
            o
        })
}

/// No candidates are listed where there are none.
pub proof fn lemma_no_candidates<T>(uid: spec_fn(T) -> ThingsId)
    ensures
        lists_candidates(Seq::<T>::empty(), uid, Seq::<T>::empty()),
{
    let o = Seq::<T>::empty();
    assert(o.to_multiset() == Seq::<T>::empty().to_multiset());
    assert(sorted_by(o, id_order(uid)));
}

/// As many candidates are listed as matched, up to ten.
pub proof fn lemma_candidates_len<T>(ms: Seq<T>, uid: spec_fn(T) -> ThingsId, shown: Seq<T>)
    requires
        lists_candidates(ms, uid, shown),
    ensures
        shown.len() == (if ms.len() > 10 { 10 } else { ms.len() }),
{
    let o = choose|o: Seq<T>|
        #![trigger o.to_multiset()]
        o.to_multiset() == ms.to_multiset() && sorted_by(o, id_order(uid)) && shown == (if o.len() > 10 {
            o.take(10)
        } else {
            o
        });
    assert(o.len() == o.to_multiset().len());
    assert(ms.len() == ms.to_multiset().len());
}

/// Whether `r` is how identifier `identifier` resolves among the eligible
/// items: the item and message of `resolution_of`, and its candidates listed.
pub open spec fn resolves_to<T>(
    items: Seq<T>,
    ok: spec_fn(T) -> bool,
    uid: spec_fn(T) -> ThingsId,
    identifier: Seq<char>,
    label: Seq<char>,
    r: (Option<T>, Seq<char>, Seq<T>),
) -> bool {
    let res = resolution_of(items, ok, uid, identifier, label);
    &&& r.0 == res.0
    &&& r.1 == res.1
    &&& lists_candidates(res.2, uid, r.2)
}

/// The plain values of a resolution result.
pub open spec fn resolution_view<T>(r: (Option<&T>, String, Vec<&T>)) -> (Option<T>, Seq<char>, Seq<T>) {
    (
        match r.0 {
            Some(x) => Some(*x),
            None => None,
        },
        r.1@,
        r.2@.map_values(|x: &T| *x),
    )
}

/// Resolves an identifier (exact text, or unique prefix) among the eligible
/// items; the message says why nothing was found, and an ambiguous prefix
/// lists up to ten candidates.
pub fn resolve_prefix<'a, T, U: Fn(&T) -> ThingsId, E: Fn(&T) -> bool>(
    items: &'a Vec<T>,
    uid: U,
    ok: E,
    Ghost(suid): Ghost<spec_fn(T) -> ThingsId>,
    Ghost(sok): Ghost<spec_fn(T) -> bool>,
    identifier: &str,
    label: &str,
) -> (r: (Option<&'a T>, String, Vec<&'a T>))
    requires
        forall|x: &T| #[trigger] uid.requires((x,)),
        forall|x: &T, u: ThingsId| uid.ensures((x,), u) ==> u == suid(*x),
        forall|x: &T| #[trigger] ok.requires((x,)),
        forall|x: &T, b: bool| ok.ensures((x,), b) ==> b == sok(*x),
    ensures
        resolves_to(items@, sok, suid, identifier@, label@, resolution_view(r)),
{
    let ident = trim_str(identifier);
    if ident.as_str().is_empty() {
        let l = crate::text::to_ascii_lowercase(label);
        let msg = concat3("Missing ", l.as_str(), " identifier.");
        let none: Vec<&'a T> = Vec::new();
        proof {
            reveal_strlit("Missing ");
            reveal_strlit(" identifier.");
            assert(none@.map_values(|x: &T| *x) =~= Seq::<T>::empty());
            lemma_no_candidates(suid);
        }
        return (None, msg, none);
    }
    let ghost id_s = ident@;
    let ghost pe = |x: T| sok(x) && id_chars(suid(x)) == id_s;
    let ghost pm = |x: T| sok(x) && id_s.is_prefix_of(id_chars(suid(x)));
    let mut exact: Option<&'a T> = None;
    let mut matches: Vec<&'a T> = Vec::new();
    let mut i: usize = 0;
    while i < items.len()
        invariant
            forall|x: &T| #[trigger] uid.requires((x,)),
            forall|x: &T, u: ThingsId| uid.ensures((x,), u) ==> u == suid(*x),
            forall|x: &T| #[trigger] ok.requires((x,)),
            forall|x: &T, b: bool| ok.ensures((x,), b) ==> b == sok(*x),
            id_s == ident@,
            pe == (|x: T| sok(x) && id_chars(suid(x)) == id_s),
            pm == (|x: T| sok(x) && id_s.is_prefix_of(id_chars(suid(x)))),
            i <= items@.len(),
            match exact {
                Some(e) => first_match(items@.take(i as int), pe) == Some(*e),
                None => first_match(items@.take(i as int), pe) is None,
            },
            matches@ == refs(items@.take(i as int).filter(pm)),
        decreases items@.len() - i,
    {
        let x = &items[i];
        proof {
            assert(items@.take(i as int + 1) =~= items@.take(i as int).push(*x));
            items@.take(i as int).lemma_filter_push(*x, pm);
            lemma_first_match_push(items@.take(i as int), *x, pe);
        }
        if ok(x) {
            let text = uid(x).to_string();
            if exact.is_none() && str_eq(text.as_str(), ident.as_str()) {
                exact = Some(x);
            }
            if crate::text::str_starts_with(text.as_str(), ident.as_str()) {
                matches.push(x);
            }
        }
        i = i + 1;
        proof {
            assert(matches@ =~= refs(items@.take(i as int).filter(pm)));
        }
    }
    let ghost deref = |x: &T| *x;
    proof {
        assert(items@.take(items@.len() as int) =~= items@);
        assert((|x: T| sok(x) && id_chars(suid(x)) == spec_trim(identifier@)) =~= pe);
        assert((|x: T| sok(x) && spec_trim(identifier@).is_prefix_of(id_chars(suid(x)))) =~= pm);
        assert(matches@.map_values(deref) =~= items@.filter(pm));
    }
    let none: Vec<&'a T> = Vec::new();
    proof {
        assert(none@.map_values(|x: &T| *x) =~= Seq::<T>::empty());
        lemma_no_candidates(suid);
    }
    if let Some(e) = exact {
        return (Some(e), String::new(), none);
    }
    let n = matches.len();
    if n == 1 {
        return (Some(matches[0]), String::new(), none);
    }
    if n > 1 {
        let uref = &uid;
        let key = |x: &&'a T| -> (k: (i128, i128, i128, i128))
            requires
                uref.requires((*x,)),
            ensures
                exists|u: ThingsId| uref.ensures((*x,), u) && k == id_key_of(u),
        {
            let id = uref(*x);
            let (hi, lo) = id_sort_key(&id);
            proof {
                assert(uref.ensures((*x,), id) && (hi, lo, 0i128, 0i128) == id_key_of(id));
            }
            (hi, lo, 0, 0)
        };
        let ghost skey = |x: &T| id_order(suid)(*x);
        let ghost before = matches@;
        let ordered = sort_by(matches, key, Ghost(skey));
        proof {
            assert(ordered@.len() == ordered@.to_multiset().len());
            assert(before.len() == before.to_multiset().len());
        }
        let mut shown: Vec<&'a T> = Vec::new();
        let mut k: usize = 0;
        while k < n && k < 10
            invariant
                n == ordered@.len(),
                k <= n,
                k <= 10,
                shown@ == ordered@.take(k as int),
            decreases n - k,
        {
            shown.push(ordered[k]);
            k = k + 1;
            proof {
                assert(shown@ =~= ordered@.take(k as int));
            }
        }
        let l = crate::text::to_ascii_lowercase(label);
        let head = concat3("Ambiguous ", l.as_str(), " id prefix.");
        let msg = if n > 10 {
            let count = crate::text::decimal_string(n as u64);
            let note = concat3(" (", count.as_str(), " matches, showing first 10)");
            concat2(head.as_str(), note.as_str())
        } else {
            head
        };
        proof {
            reveal_strlit("Ambiguous ");
            reveal_strlit(" id prefix.");
            reveal_strlit(" (");
            reveal_strlit(" matches, showing first 10)");
            assert(msg@ =~= "Ambiguous "@ + crate::text::lower(label@) + " id prefix."@ + ambiguity_note(n as nat));
            let ms = items@.filter(pm);
            let o = ordered@.map_values(deref);
            crate::sorting::lemma_map_values_to_multiset(ordered@, before, deref);
            assert(o.to_multiset() == ms.to_multiset());
            assert forall|a: int, b: int| 0 <= a < b < o.len() implies crate::sorting::key_le(
                id_order(suid)(#[trigger] o[a]),
                id_order(suid)(#[trigger] o[b]),
            ) by {
                assert(crate::sorting::key_le(skey(ordered@[a]), skey(ordered@[b])));
            }
            assert(sorted_by(o, id_order(suid)));
            if n > 10 {
                assert(shown@.map_values(deref) =~= o.take(10));
            } else {
                assert(ordered@.take(n as int) =~= ordered@);
                assert(shown@.map_values(deref) =~= o);
            }
            assert(lists_candidates(ms, suid, shown@.map_values(deref)));
        }
        return (None, msg, shown);
    }
    let msg = concat3(label, " not found: ", identifier);
    proof {
        reveal_strlit(" not found: ");
    }
    (None, msg, none)
}

fn task_uid(t: &Task) -> (u: ThingsId)
    ensures
        u == t.uuid,
{
    t.uuid
}

fn area_uid(a: &Area) -> (u: ThingsId)
    ensures
        u == a.uuid,
{
    a.uuid
}

fn any_task(t: &Task) -> (b: bool)
    ensures
        b,
{
    true
}

fn any_area_item(a: &Area) -> (b: bool)
    ensures
        b,
{
    true
}

/// Whether a task can be marked: untrashed, no heading, of the current task
/// entity.
pub open spec fn is_markable(t: Task) -> bool {
    !t.trashed && t.item_type != TaskType::Heading && is_task6(t)
}

fn markable(t: &Task) -> (b: bool)
    ensures
        b == is_markable(*t),
{
    !t.trashed && !t.is_heading() && task6(t)
}

impl ThingsStore {
    /// Resolves a markable item (task or project) by identifier or prefix.
    pub fn resolve_mark_identifier(&self, identifier: &str) -> (r: (Option<&Task>, String, Vec<&Task>))
        ensures
            resolves_to(
                self.tasks@,
                |t: Task| is_markable(t),
                |t: Task| t.uuid,
                identifier@,
                "Item"@,
                resolution_view(r),
            ),
    {
        resolve_prefix(
            &self.tasks,
            task_uid,
            markable,
            Ghost(|t: Task| t.uuid),
            Ghost(|t: Task| is_markable(t)),
            identifier,
            "Item",
        )
    }

    /// Resolves an area by identifier or prefix.
    pub fn resolve_area_identifier(&self, identifier: &str) -> (r: (Option<&Area>, String, Vec<&Area>))
        ensures
            resolves_to(
                self.areas@,
                |a: Area| true,
                |a: Area| a.uuid,
                identifier@,
                "Area"@,
                resolution_view(r),
            ),
    {
        resolve_prefix(
            &self.areas,
            area_uid,
            any_area_item,
            Ghost(|a: Area| a.uuid),
            Ghost(|a: Area| true),
            identifier,
            "Area",
        )
    }

    /// Resolves a task by identifier or prefix.
    pub fn resolve_task_identifier(&self, identifier: &str) -> (r: (Option<&Task>, String, Vec<&Task>))
        ensures
            resolves_to(
                self.tasks@,
                |t: Task| true,
                |t: Task| t.uuid,
                identifier@,
                "Task"@,
                resolution_view(r),
            ),
    {
        resolve_prefix(
            &self.tasks,
            task_uid,
            any_task,
            Ghost(|t: Task| t.uuid),
            Ghost(|t: Task| true),
            identifier,
            "Task",
        )
    }
}

} // verus!
