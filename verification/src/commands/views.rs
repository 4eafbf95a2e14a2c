//! What the project and area views show.
use vstd::prelude::*;
use vstd::multiset::Multiset;

use crate::ids::matching::{id_sort_key, spec_id_key};
use crate::ids::things_id::ThingsId;
use crate::sorting::{sort_by, sorted_by};
use crate::store::model::{Area, Task};
use crate::store::queries::{
    is_markable, lemma_listed_passes, lemma_no_candidates, lists_candidates, projects_filter,
    resolution_of, resolution_view, spec_effective_project,
};
use crate::store::things_store::{refs, select, tasks_filter, ThingsStore};
use crate::text::{concat2, concat3, decimal, decimal_string};
use crate::time::{time_le, UtcTime};
use crate::wire::codes::{TaskStart, TaskStatus, TaskType};

verus! {

broadcast use vstd::seq_lib::group_to_multiset_ensures;

/// Arguments of `project`.
#[derive(Debug)]
pub struct ProjectArgs {
    /// Project identifier (or unique prefix).
    pub project_id: String,
    /// Show notes beneath each task.
    pub detailed: bool,
}

/// Arguments of `area`.
#[derive(Debug)]
pub struct AreaArgs {
    /// Area identifier (or unique prefix).
    pub area_id: String,
    /// Show notes beneath each task or project.
    pub detailed: bool,
    /// Include completed and canceled items.
    pub all: bool,
}

/// What the project view lists: the project, all its tasks, those under no
/// heading, and each heading that has tasks with its tasks.
#[derive(Debug)]
pub struct ProjectContents<'a> {
    pub project: &'a Task,
    pub children: Vec<&'a Task>,
    pub ungrouped: Vec<&'a Task>,
    pub groups: Vec<(&'a Task, Vec<&'a Task>)>,
}

/// The order by sort index.
pub open spec fn by_index(t: &Task) -> (i128, i128, i128, i128) {
    (t.index as i128, 0, 0, 0)
}

fn by_index_of(t: &&Task) -> (k: (i128, i128, i128, i128))
    ensures
        k == by_index(*t),
{
    (t.index as i128, 0i128, 0i128, 0i128)
}

/// The order of headings: by sort index, then by identifier text.
pub open spec fn heading_order(t: &Task) -> (i128, i128, i128, i128) {
    (t.index as i128, spec_id_key(t.uuid).0 as i128, spec_id_key(t.uuid).1 as i128, 0)
}

fn heading_order_of(t: &&Task) -> (k: (i128, i128, i128, i128))
    ensures
        k == heading_order(*t),
{
    let idk = id_sort_key(&t.uuid);
    (t.index as i128, idk.0, idk.1, 0i128)
}

/// Whether a task is listed in project `pid`: no heading, not trashed, and
/// in the project directly or through its heading.
pub open spec fn child_of(store: ThingsStore, pid: ThingsId, t: Task) -> bool {
    &&& tasks_filter((None, Some(false), None), t)
    &&& spec_effective_project(store.tasks@, t) == Some(pid)
}

/// Whether a task is a live heading of project `pid`.
pub open spec fn heading_of(pid: ThingsId, t: Task) -> bool {
    t.item_type == TaskType::Heading && !t.trashed && t.project == Some(pid)
}

/// Whether `hid` identifies a live heading of project `pid`.
pub open spec fn is_heading_id(store: ThingsStore, pid: ThingsId, hid: ThingsId) -> bool {
    exists|k: int| 0 <= k < store.tasks@.len() && heading_of(pid, #[trigger] store.tasks@[k]) && store.tasks@[k].uuid == hid
}

/// Whether a task of project `pid` sits under none of its live headings.
pub open spec fn ungrouped_of(store: ThingsStore, pid: ThingsId, t: Task) -> bool {
    child_of(store, pid, t) && !(t.action_group matches Some(h) && is_heading_id(store, pid, h))
}

/// Whether a task of project `pid` sits under heading `hid`.
pub open spec fn member_of(store: ThingsStore, pid: ThingsId, hid: ThingsId, t: Task) -> bool {
    child_of(store, pid, t) && t.action_group == Some(hid)
}

/// Whether a task is a live heading of project `pid` with some task under it.
pub open spec fn shown_heading(store: ThingsStore, pid: ThingsId, h: Task) -> bool {
    heading_of(pid, h) && exists|k: int| 0 <= k < store.tasks@.len() && member_of(store, pid, h.uuid, #[trigger] store.tasks@[k])
}

fn child_keep(c: &(&ThingsStore, ThingsId), t: &Task) -> (b: bool)
    ensures
        b == child_of(*c.0, c.1, *t),
{
    !t.trashed && !t.is_heading() && match c.0.effective_project_uuid(t) {
        Some(p) => p.same(&c.1),
        None => false,
    }
}

fn heading_id_known(store: &ThingsStore, pid: &ThingsId, hid: &ThingsId) -> (b: bool)
    ensures
        b == is_heading_id(*store, *pid, *hid),
{
    let mut k: usize = 0;
    while k < store.tasks.len()
        invariant
            k <= store.tasks@.len(),
            forall|j: int| 0 <= j < k ==> !(heading_of(*pid, #[trigger] store.tasks@[j]) && store.tasks@[j].uuid == *hid),
        decreases store.tasks@.len() - k,
    {
        let t = &store.tasks[k];
        let live = t.is_heading() && !t.trashed && match t.project {
            Some(p) => p.same(pid),
            None => false,
        };
        if live && t.uuid.same(hid) {
            return true;
        }
        k = k + 1;
    }
    false
}

fn ungrouped_keep(c: &(&ThingsStore, ThingsId), t: &Task) -> (b: bool)
    ensures
        b == ungrouped_of(*c.0, c.1, *t),
{
    child_keep(c, t) && match t.action_group {
        Some(h) => !heading_id_known(c.0, &c.1, &h),
        None => true,
    }
}

fn member_keep(c: &(&ThingsStore, ThingsId, ThingsId), t: &Task) -> (b: bool)
    ensures
        b == member_of(*c.0, c.1, c.2, *t),
{
    child_keep(&(c.0, c.1), t) && match t.action_group {
        Some(h) => h.same(&c.2),
        None => false,
    }
}

fn shown_heading_keep(c: &(&ThingsStore, ThingsId), h: &Task) -> (b: bool)
    ensures
        b == shown_heading(*c.0, c.1, *h),
{
    let live = h.is_heading() && !h.trashed && match h.project {
        Some(p) => p.same(&c.1),
        None => false,
    };
    if !live {
        return false;
    }
    let store = c.0;
    let mc = (store, c.1, h.uuid);
    let mut k: usize = 0;
    while k < store.tasks.len()
        invariant
            k <= store.tasks@.len(),
            mc == (store, c.1, h.uuid),
            store == c.0,
            heading_of(c.1, *h),
            forall|j: int| 0 <= j < k ==> !member_of(*store, c.1, h.uuid, #[trigger] store.tasks@[j]),
        decreases store.tasks@.len() - k,
    {
        if member_keep(&mc, &store.tasks[k]) {
            proof {
                assert(member_of(*store, c.1, h.uuid, store.tasks@[k as int]));
            }
            return true;
        }
        k = k + 1;
    }
    false
}

/// The tasks of a store that `p` keeps, as references, in any order.
pub open spec fn kept<'a>(store: ThingsStore, p: spec_fn(Task) -> bool) -> Multiset<&'a Task> {
    refs(store.tasks@.filter(p)).to_multiset()
}

/// Whether `c` is the content of project `pid` in `store`: each list holds
/// what its filter keeps, tasks by sort index and headings by sort index
/// and identifier.
pub open spec fn project_contents_ok(store: ThingsStore, pid: ThingsId, c: ProjectContents) -> bool {
    &&& c.project.uuid == pid
    &&& c.children@.to_multiset() == kept(store, |t: Task| child_of(store, pid, t))
    &&& sorted_by(c.children@, |t: &Task| by_index(t))
    &&& c.ungrouped@.to_multiset() == kept(store, |t: Task| ungrouped_of(store, pid, t))
    &&& sorted_by(c.ungrouped@, |t: &Task| by_index(t))
    &&& c.groups@.map_values(|g: (&Task, Vec<&Task>)| g.0).to_multiset() == kept(
        store,
        |h: Task| shown_heading(store, pid, h),
    )
    &&& sorted_by(c.groups@.map_values(|g: (&Task, Vec<&Task>)| g.0), |t: &Task| heading_order(t))
    &&& forall|i: int|
        0 <= i < c.groups@.len() ==> {
            &&& (#[trigger] c.groups@[i]).1@.to_multiset() == kept(
                store,
                |t: Task| member_of(store, pid, c.groups@[i].0.uuid, t),
            )
            &&& sorted_by(c.groups@[i].1@, |t: &Task| by_index(t))
        }
}

/// How the project view resolves its identifier among markable items: the
/// project, or the message (with the ambiguous candidates) that stops it.
pub open spec fn project_view_target(store: ThingsStore, id: Seq<char>) -> Result<Task, (Seq<char>, Seq<Task>)> {
    let r = resolution_of(store.tasks@, |t: Task| is_markable(t), |t: Task| t.uuid, id, "Item"@);
    match r.0 {
        None => Err((r.1, r.2)),
        Some(t) => if t.item_type == TaskType::Project {
            Ok(t)
        } else {
            Err(("Not a project: "@ + t.title@, Seq::empty()))
        },
    }
}

/// A list in sort-index order has lower sort indexes first.
pub proof fn lemma_by_index(r: Seq<&Task>)
    requires
        sorted_by(r, |t: &Task| by_index(t)),
    ensures
        forall|i: int, j: int| 0 <= i < j < r.len() ==> (#[trigger] r[i]).index <= (#[trigger] r[j]).index,
{
    assert forall|i: int, j: int| 0 <= i < j < r.len() implies (#[trigger] r[i]).index <= (#[trigger] r[j]).index by {
        assert(crate::sorting::key_le(by_index(r[i]), by_index(r[j])));
    }
}

/// The project view lists its tasks, its ungrouped tasks, its headings and
/// each heading's tasks with lower sort indexes first.
pub proof fn lemma_project_contents_in_order(store: ThingsStore, pid: ThingsId, c: ProjectContents)
    requires
        project_contents_ok(store, pid, c),
    ensures
        forall|i: int, j: int|
            0 <= i < j < c.children@.len() ==> (#[trigger] c.children@[i]).index <= (#[trigger] c.children@[j]).index,
        forall|i: int, j: int|
            0 <= i < j < c.ungrouped@.len() ==> (#[trigger] c.ungrouped@[i]).index <= (#[trigger] c.ungrouped@[j]).index,
        forall|i: int, j: int|
            0 <= i < j < c.groups@.len() ==> (#[trigger] c.groups@[i]).0.index <= (#[trigger] c.groups@[j]).0.index,
        forall|g: int, i: int, j: int|
            0 <= g < c.groups@.len() && 0 <= i < j < c.groups@[g].1@.len() ==> (#[trigger] c.groups@[g].1@[i]).index
                <= (#[trigger] c.groups@[g].1@[j]).index,
{
    lemma_by_index(c.children@);
    lemma_by_index(c.ungrouped@);
    let hs = c.groups@.map_values(|g: (&Task, Vec<&Task>)| g.0);
    assert forall|i: int, j: int| 0 <= i < j < c.groups@.len() implies (#[trigger] c.groups@[i]).0.index
        <= (#[trigger] c.groups@[j]).0.index by {
        assert(hs[i] == c.groups@[i].0 && hs[j] == c.groups@[j].0);
        assert(crate::sorting::key_le(heading_order(hs[i]), heading_order(hs[j])));
    }
    assert forall|g: int, i: int, j: int|
        0 <= g < c.groups@.len() && 0 <= i < j < c.groups@[g].1@.len() implies (#[trigger] c.groups@[g].1@[i]).index
            <= (#[trigger] c.groups@[g].1@[j]).index by {
        lemma_by_index(c.groups@[g].1@);
    }
}

fn group_tasks<'a>(store: &'a ThingsStore, pid: ThingsId, hid: ThingsId) -> (r: Vec<&'a Task>)
    ensures
        r@.to_multiset() == kept(*store, |t: Task| member_of(*store, pid, hid, t)),
        sorted_by(r@, |t: &Task| by_index(t)),
{
    let c = (store, pid, hid);
    let ghost p = |c: (&ThingsStore, ThingsId, ThingsId), t: Task| member_of(*c.0, c.1, c.2, t);
    let chosen = select(&store.tasks, &c, member_keep, Ghost(p));
    proof {
        assert((|x: Task| p(c, x)) =~= (|t: Task| member_of(*store, pid, hid, t)));
    }
    sort_by(chosen, by_index_of, Ghost(|t: &Task| by_index(t)))
}

/// The contents of project `project` as the project view lists them.
pub fn project_contents<'a>(store: &'a ThingsStore, project: &'a Task) -> (r: ProjectContents<'a>)
    ensures
        r.project == project,
        project_contents_ok(*store, project.uuid, r),
{
    let pid = project.uuid;
    let c = (store, pid);
    let ghost pc = |c: (&ThingsStore, ThingsId), t: Task| child_of(*c.0, c.1, t);
    let ghost pu = |c: (&ThingsStore, ThingsId), t: Task| ungrouped_of(*c.0, c.1, t);
    let ghost ph = |c: (&ThingsStore, ThingsId), t: Task| shown_heading(*c.0, c.1, t);
    let children = sort_by(select(&store.tasks, &c, child_keep, Ghost(pc)), by_index_of, Ghost(|t: &Task| by_index(t)));
    let ungrouped = sort_by(select(&store.tasks, &c, ungrouped_keep, Ghost(pu)), by_index_of, Ghost(|t: &Task| by_index(t)));
    let heads = sort_by(select(&store.tasks, &c, shown_heading_keep, Ghost(ph)), heading_order_of, Ghost(|t: &Task| heading_order(t)));
    proof {
        assert((|x: Task| pc(c, x)) =~= (|t: Task| child_of(*store, pid, t)));
        assert((|x: Task| pu(c, x)) =~= (|t: Task| ungrouped_of(*store, pid, t)));
        assert((|x: Task| ph(c, x)) =~= (|t: Task| shown_heading(*store, pid, t)));
    }
    let mut groups: Vec<(&'a Task, Vec<&'a Task>)> = Vec::new();
    let mut k: usize = 0;
    while k < heads.len()
        invariant
            k <= heads@.len(),
            groups@.map_values(|g: (&Task, Vec<&Task>)| g.0) == heads@.take(k as int),
            forall|i: int|
                0 <= i < groups@.len() ==> {
                    &&& (#[trigger] groups@[i]).1@.to_multiset() == kept(
                        *store,
                        |t: Task| member_of(*store, pid, groups@[i].0.uuid, t),
                    )
                    &&& sorted_by(groups@[i].1@, |t: &Task| by_index(t))
                },
        decreases heads@.len() - k,
    {
        let h = heads[k];
        let items = group_tasks(store, pid, h.uuid);
        let ghost before = groups@;
        groups.push((h, items));
        proof {
            let f = |g: (&Task, Vec<&Task>)| g.0;
            assert(groups@ == before.push((h, items)));
            assert(groups@.map_values(f) =~= before.map_values(f).push(h));
            assert(heads@.take(k as int + 1) =~= heads@.take(k as int).push(h));
        }
        k = k + 1;
    }
    proof {
        assert(heads@.take(heads@.len() as int) =~= heads@);
    }
    ProjectContents { project, children, ungrouped, groups }
}

/// Resolves the project view's identifier and lists the project's
/// contents; or the message, with the ambiguous candidates, that stops it.
pub fn project_view<'a>(store: &'a ThingsStore, project_id: &str) -> (r: Result<ProjectContents<'a>, (String, Vec<&'a Task>)>)
    ensures
        match project_view_target(*store, project_id@) {
            Ok(t) => r matches Ok(c) && *c.project == t && project_contents_ok(*store, t.uuid, c),
            Err((e, amb)) => r matches Err((m, v)) && m@ == e && lists_candidates(amb, |t: Task| t.uuid, v@.map_values(|x: &Task| *x)),
        },
{
    let (found, err, ambiguous) = store.resolve_mark_identifier(project_id);
    match found {
        None => Err((err, ambiguous)),
        Some(t) => {
            if t.is_project() {
                Ok(project_contents(store, t))
            } else {
                proof {
                    reveal_strlit("Not a project: ");
                }
                let none: Vec<&'a Task> = Vec::new();
                proof {
                    assert(none@.map_values(|x: &Task| *x) =~= Seq::<Task>::empty());
                    lemma_no_candidates(|t: Task| t.uuid);
                }
                Err((concat2("Not a project: ", t.title.as_str()), none))
            }
        },
    }
}

/// What the area view lists: the area, its projects and its tasks that
/// belong to no project.
#[derive(Debug)]
pub struct AreaContents<'a> {
    pub area: &'a Area,
    pub projects: Vec<&'a Task>,
    pub loose_tasks: Vec<&'a Task>,
}

/// Whether a project is listed in area `aid` with the optional status.
pub open spec fn area_project_of(status: Option<TaskStatus>, aid: ThingsId, t: Task) -> bool {
    projects_filter(status, t) && t.area == Some(aid)
}

/// Whether a task is listed loose in area `aid`: live, of the optional
/// status, filed directly in the area, no project and in no project.
pub open spec fn loose_of(store: ThingsStore, status: Option<TaskStatus>, aid: ThingsId, t: Task) -> bool {
    &&& tasks_filter((status, Some(false), None), t)
    &&& t.area == Some(aid)
    &&& t.item_type != TaskType::Project
    &&& spec_effective_project(store.tasks@, t) is None
}

fn area_project_keep(c: &(Option<TaskStatus>, ThingsId), t: &Task) -> (b: bool)
    ensures
        b == area_project_of(c.0, c.1, *t),
{
    proof {
        reveal_strlit("Task6");
    }
    !t.trashed && t.is_project() && crate::text::str_eq(t.entity.as_str(), "Task6") && match c.0 {
        Some(s) => t.status == s,
        None => true,
    } && match t.area {
        Some(a) => a.same(&c.1),
        None => false,
    }
}

fn loose_keep(c: &(&ThingsStore, Option<TaskStatus>, ThingsId), t: &Task) -> (b: bool)
    ensures
        b == loose_of(*c.0, c.1, c.2, *t),
{
    !t.trashed && !t.is_heading() && match c.1 {
        Some(s) => t.status == s,
        None => true,
    } && match t.area {
        Some(a) => a.same(&c.2),
        None => false,
    } && !t.is_project() && c.0.effective_project_uuid(t).is_none()
}

/// The contents of area `area`, with every status when `all`, else open
/// items only.
pub fn area_contents<'a>(store: &'a ThingsStore, area: &'a Area, all: bool) -> (r: AreaContents<'a>)
    ensures
        r.area == area,
        r.projects@.to_multiset() == kept(
            *store,
            |t: Task| area_project_of(if all { None } else { Some(TaskStatus::Incomplete) }, area.uuid, t),
        ),
        sorted_by(r.projects@, |t: &Task| by_index(t)),
        r.loose_tasks@.to_multiset() == kept(
            *store,
            |t: Task| loose_of(*store, if all { None } else { Some(TaskStatus::Incomplete) }, area.uuid, t),
        ),
        sorted_by(r.loose_tasks@, |t: &Task| by_index(t)),
{
    let status = if all {
        None
    } else {
        Some(TaskStatus::Incomplete)
    };
    let aid = area.uuid;
    let pc = (status, aid);
    let lc = (store, status, aid);
    let ghost pp = |c: (Option<TaskStatus>, ThingsId), t: Task| area_project_of(c.0, c.1, t);
    let ghost pl = |c: (&ThingsStore, Option<TaskStatus>, ThingsId), t: Task| loose_of(*c.0, c.1, c.2, t);
    let projects = sort_by(select(&store.tasks, &pc, area_project_keep, Ghost(pp)), by_index_of, Ghost(|t: &Task| by_index(t)));
    let loose_tasks = sort_by(select(&store.tasks, &lc, loose_keep, Ghost(pl)), by_index_of, Ghost(|t: &Task| by_index(t)));
    proof {
        assert((|x: Task| pp(pc, x)) =~= (|t: Task| area_project_of(status, aid, t)));
        assert((|x: Task| pl(lc, x)) =~= (|t: Task| loose_of(*store, status, aid, t)));
    }
    AreaContents { area, projects, loose_tasks }
}

/// Resolves the area view's identifier and lists the area's contents; or
/// the message, with the ambiguous candidates, that stops it.
pub fn area_view<'a>(store: &'a ThingsStore, args: &AreaArgs) -> (r: Result<AreaContents<'a>, (String, Vec<&'a Area>)>)
    ensures
        match resolution_of(store.areas@, |a: Area| true, |a: Area| a.uuid, args.area_id@, "Area"@) {
            (Some(a), _, _) => r matches Ok(c) && *c.area == a && c.projects@.to_multiset() == kept(
                *store,
                |t: Task| area_project_of(if args.all { None } else { Some(TaskStatus::Incomplete) }, a.uuid, t),
            ) && sorted_by(c.projects@, |t: &Task| by_index(t)) && c.loose_tasks@.to_multiset() == kept(
                *store,
                |t: Task| loose_of(*store, if args.all { None } else { Some(TaskStatus::Incomplete) }, a.uuid, t),
            ) && sorted_by(c.loose_tasks@, |t: &Task| by_index(t)),
            (None, e, amb) => r matches Err((m, v)) && m@ == e && lists_candidates(amb, |a: Area| a.uuid, v@.map_values(|x: &Area| *x)),
        },
{
    let (found, err, ambiguous) = store.resolve_area_identifier(args.area_id.as_str());
    match found {
        None => Err((err, ambiguous)),
        Some(a) => Ok(area_contents(store, a, args.all)),
    }
}

/// The plural suffix for a count.
pub open spec fn plural(n: nat) -> Seq<char> {
    if n == 1 { Seq::empty() } else { "s"@ }
}

/// The count note of the area view: how many projects and tasks it lists,
/// each part only when nonzero.
pub open spec fn area_count_note(projects: nat, tasks: nat) -> Seq<char> {
    let pl = decimal(projects) + " project"@ + plural(projects);
    let tl = decimal(tasks) + " task"@ + plural(tasks);
    if projects > 0 && tasks > 0 {
        "  ("@ + pl + ", "@ + tl + ")"@
    } else if projects > 0 {
        "  ("@ + pl + ")"@
    } else if tasks > 0 {
        "  ("@ + tl + ")"@
    } else {
        Seq::empty()
    }
}

fn count_part(n: usize, noun: &str) -> (r: String)
    ensures
        r@ == decimal(n as nat) + noun@ + plural(n as nat),
{
    let d = decimal_string(n as u64);
    proof {
        reveal_strlit("s");
        reveal_strlit("");
    }
    if n == 1 {
        concat3(d.as_str(), noun, "")
    } else {
        concat3(d.as_str(), noun, "s")
    }
}

/// The count note of the area view.
pub fn area_count_label(projects: usize, tasks: usize) -> (r: String)
    ensures
        r@ == area_count_note(projects as nat, tasks as nat),
{
    let pl = count_part(projects, " project");
    let tl = count_part(tasks, " task");
    if projects > 0 && tasks > 0 {
        let inner = concat3(pl.as_str(), ", ", tl.as_str());
        concat3("  (", inner.as_str(), ")")
    } else if projects > 0 {
        concat3("  (", pl.as_str(), ")")
    } else if tasks > 0 {
        concat3("  (", tl.as_str(), ")")
    } else {
        proof {
            reveal_strlit("");
        }
        String::new()
    }
}

/// Arguments of `upcoming`.
#[derive(Debug)]
pub struct UpcomingArgs {
    /// Show notes beneath each task.
    pub detailed: bool,
}

/// Whether a task is upcoming as of `today`: open, live, not parked in
/// Someday, with a start day after `today`'s second.
pub open spec fn upcoming_filter(today: UtcTime, t: Task) -> bool {
    &&& tasks_filter((Some(TaskStatus::Incomplete), Some(false), None), t)
    &&& !(t.start == TaskStart::Someday && t.start_date is None)
    &&& t.start_date matches Some(s) && s.secs > today.secs
}

/// The order of upcoming tasks: by start instant, then by sort index.
pub open spec fn upcoming_order(t: &Task) -> (i128, i128, i128, i128) {
    match t.start_date {
        Some(s) => (s.secs as i128, s.nanos as i128, t.index as i128, 0),
        None => (-9223372036854775809i128, 0, t.index as i128, 0),
    }
}

fn upcoming_order_of(t: &&Task) -> (k: (i128, i128, i128, i128))
    ensures
        k == upcoming_order(*t),
{
    match t.start_date {
        Some(s) => (s.secs as i128, s.nanos as i128, t.index as i128, 0i128),
        None => (-9223372036854775809i128, 0i128, t.index as i128, 0i128),
    }
}

fn upcoming_keep(today: &UtcTime, t: &Task) -> (b: bool)
    ensures
        b == upcoming_filter(*today, *t),
{
    !t.trashed && !t.is_heading() && t.status == TaskStatus::Incomplete && !t.in_someday() && match t.start_date {
        Some(s) => s.secs > today.secs,
        None => false,
    }
}

/// Upcoming lists only open, untrashed tasks that start after `today`,
/// earliest start first.
pub proof fn lemma_upcoming_listing(st: ThingsStore, today: UtcTime, r: Seq<&Task>)
    requires
        r.to_multiset() == kept(st, |t: Task| upcoming_filter(today, t)),
        sorted_by(r, |t: &Task| upcoming_order(t)),
    ensures
        forall|i: int|
            0 <= i < r.len() ==> {
                &&& !(#[trigger] r[i]).trashed
                &&& r[i].status == TaskStatus::Incomplete
                &&& r[i].start_date matches Some(s) && s.secs > today.secs
            },
        forall|i: int, j: int|
            0 <= i < j < r.len() ==> time_le(
                (#[trigger] r[i]).start_date->0,
                (#[trigger] r[j]).start_date->0,
            ),
{
    assert forall|i: int| 0 <= i < r.len() implies upcoming_filter(today, *#[trigger] r[i]) by {
        lemma_listed_passes(r, st.tasks@, |t: Task| upcoming_filter(today, t), i);
    }
    assert forall|i: int, j: int| 0 <= i < j < r.len() implies time_le(
        (#[trigger] r[i]).start_date->0,
        (#[trigger] r[j]).start_date->0,
    ) by {
        assert(upcoming_filter(today, *r[i]));
        assert(upcoming_filter(today, *r[j]));
        assert(crate::sorting::key_le(upcoming_order(r[i]), upcoming_order(r[j])));
    }
}

impl ThingsStore {
    /// The upcoming tasks as of `today`, by start instant then sort index.
    pub fn upcoming(&self, today: &UtcTime) -> (r: Vec<&Task>)
        ensures
            r@.to_multiset() == kept(*self, |t: Task| upcoming_filter(*today, t)),
            sorted_by(r@, |t: &Task| upcoming_order(t)),
            forall|i: int|
                0 <= i < r@.len() ==> !(#[trigger] r@[i]).trashed && r@[i].status == TaskStatus::Incomplete
                    && (r@[i].start_date matches Some(s) && s.secs > today.secs),
            forall|i: int, j: int|
                0 <= i < j < r@.len() ==> time_le((#[trigger] r@[i]).start_date->0, (#[trigger] r@[j]).start_date->0),
    {
        let ghost p = |c: UtcTime, t: Task| upcoming_filter(c, t);
        let chosen = select(&self.tasks, today, upcoming_keep, Ghost(p));
        proof {
            assert((|x: Task| p(*today, x)) =~= (|t: Task| upcoming_filter(*today, t)));
        }
        let r = sort_by(chosen, upcoming_order_of, Ghost(|t: &Task| upcoming_order(t)));
        proof {
            lemma_upcoming_listing(*self, *today, r@);
        }
        r
    }
}

/// Whether a task shows in the Today view as of `today`: open, live, no
/// heading, titled, of the current task entity, and due today or marked
/// for this evening.
pub open spec fn today_view_filter(today: UtcTime, t: Task) -> bool {
    &&& tasks_filter((Some(TaskStatus::Incomplete), Some(false), None), t)
    &&& !crate::store::queries::is_blank(t.title@)
    &&& crate::store::queries::is_task6(t)
    &&& (crate::store::model::spec_is_today(t, today) || t.evening)
}

/// The order of the Today view: latest Today reference first (none counts
/// as zero), then by Today index, then by sort index descending.
pub open spec fn today_view_order(t: &Task) -> (i128, i128, i128, i128) {
    (
        (-(match t.today_index_reference { Some(r) => r as int, None => 0 })) as i128,
        t.today_index as i128,
        (-(t.index as int)) as i128,
        0,
    )
}

/// The Today view lists only open, untrashed items that are due today or
/// marked for this evening.
pub proof fn lemma_today_view_listing(st: ThingsStore, today: UtcTime, r: Seq<&Task>)
    requires
        r.to_multiset() == kept(st, |t: Task| today_view_filter(today, t)),
    ensures
        forall|i: int|
            0 <= i < r.len() ==> {
                &&& !(#[trigger] r[i]).trashed
                &&& r[i].status == TaskStatus::Incomplete
                &&& r[i].item_type != TaskType::Heading
                &&& (crate::store::model::spec_is_today(*r[i], today) || r[i].evening)
            },
{
    assert forall|i: int| 0 <= i < r.len() implies today_view_filter(today, *#[trigger] r[i]) by {
        lemma_listed_passes(r, st.tasks@, |t: Task| today_view_filter(today, t), i);
    }
}

/// The Today reference of an item, none counting as zero.
pub open spec fn today_ref(t: &Task) -> int {
    match t.today_index_reference {
        Some(r) => r as int,
        None => 0,
    }
}

/// In Today order, a later Today reference comes first, and of two items
/// with the same Today reference the one with the smaller Today index comes
/// first.
pub proof fn lemma_today_order(s: Seq<&Task>, i: int, j: int)
    requires
        sorted_by(s, |t: &Task| today_view_order(t)),
        0 <= i < j < s.len(),
    ensures
        today_ref(s[i]) >= today_ref(s[j]),
        today_ref(s[i]) == today_ref(s[j]) ==> s[i].today_index <= s[j].today_index,
{
    assert(crate::sorting::key_le(today_view_order(s[i]), today_view_order(s[j])));
}

fn today_view_order_of(t: &&Task) -> (k: (i128, i128, i128, i128))
    ensures
        k == today_view_order(*t),
{
    let tir: i64 = match t.today_index_reference {
        Some(r) => r,
        None => 0,
    };
    (-(tir as i128), t.today_index as i128, -(t.index as i128), 0i128)
}

fn today_view_keep(today: &UtcTime, t: &Task) -> (b: bool)
    ensures
        b == today_view_filter(*today, *t),
{
    proof {
        reveal_strlit("Task6");
    }
    !t.trashed && !t.is_heading() && t.status == TaskStatus::Incomplete && !crate::store::queries::blank(&t.title)
        && crate::text::str_eq(t.entity.as_str(), "Task6") && (t.is_today(today) || t.evening)
}

impl ThingsStore {
    /// The items of the Today view as of `today`, in Today order.
    pub fn today_items(&self, today: &UtcTime) -> (r: Vec<&Task>)
        ensures
            r@.to_multiset() == kept(*self, |t: Task| today_view_filter(*today, t)),
            sorted_by(r@, |t: &Task| today_view_order(t)),
            forall|i: int|
                0 <= i < r@.len() ==> !(#[trigger] r@[i]).trashed && r@[i].status == TaskStatus::Incomplete,
            forall|i: int, j: int|
                0 <= i < j < r@.len() ==> today_ref(#[trigger] r@[i]) >= today_ref(#[trigger] r@[j]) && (
                today_ref(r@[i]) == today_ref(r@[j]) ==> r@[i].today_index <= r@[j].today_index),
    {
        let ghost p = |c: UtcTime, t: Task| today_view_filter(c, t);
        let chosen = select(&self.tasks, today, today_view_keep, Ghost(p));
        proof {
            assert((|x: Task| p(*today, x)) =~= (|t: Task| today_view_filter(*today, t)));
        }
        let r = sort_by(chosen, today_view_order_of, Ghost(|t: &Task| today_view_order(t)));
        proof {
            lemma_today_view_listing(*self, *today, r@);
            assert forall|i: int, j: int| 0 <= i < j < r@.len() implies today_ref(#[trigger] r@[i])
                >= today_ref(#[trigger] r@[j]) && (today_ref(r@[i]) == today_ref(r@[j]) ==> r@[i].today_index
                <= r@[j].today_index) by {
                lemma_today_order(r@, i, j);
            }
        }
        r
    }
}

/// How the logbook's date bounds read: each optional day, and an error
/// when a bound is unreadable or `from` lies after `to`.
pub open spec fn logbook_bounds(from: Option<Seq<char>>, to: Option<Seq<char>>, offset: i32) -> Result<
    (Option<UtcTime>, Option<UtcTime>),
    Seq<char>,
> {
    let f: Result<Option<UtcTime>, Seq<char>> = match from {
        None => Ok(None),
        Some(d) => match crate::common::day_reading(d, "--from"@, offset) {
            Ok(t) => Ok(Some(t)),
            Err(e) => Err(e),
        },
    };
    let t: Result<Option<UtcTime>, Seq<char>> = match to {
        None => Ok(None),
        Some(d) => match crate::common::day_reading(d, "--to"@, offset) {
            Ok(t) => Ok(Some(t)),
            Err(e) => Err(e),
        },
    };
    match f {
        Err(e) => Err(e),
        Ok(f) => match t {
            Err(e) => Err(e),
            Ok(t) => if f matches Some(a) && t matches Some(b) && crate::time::time_lt(b, a) {
                Err("--from date must be before or equal to --to date"@)
            } else {
                Ok((f, t))
            },
        },
    }
}

/// Reads the logbook's date bounds.
pub fn logbook_range(from: Option<&str>, to: Option<&str>, offset: i32) -> (r: Result<(Option<UtcTime>, Option<UtcTime>), String>)
    ensures
        match logbook_bounds(
            match from { Some(d) => Some(d@), None => None },
            match to { Some(d) => Some(d@), None => None },
            offset,
        ) {
            Ok(x) => r matches Ok(y) && y == x,
            Err(e) => r matches Err(m) && m@ == e,
        },
{
    let f = match crate::common::parse_day(from, "--from", offset) {
        Err(e) => {
            return Err(e);
        },
        Ok(f) => f,
    };
    let t = match crate::common::parse_day(to, "--to", offset) {
        Err(e) => {
            return Err(e);
        },
        Ok(t) => t,
    };
    if let (Some(a), Some(b)) = (f, t) {
        if b.lt(&a) {
            proof {
                reveal_strlit("--from date must be before or equal to --to date");
            }
            return Err("--from date must be before or equal to --to date".to_owned());
        }
    }
    Ok((f, t))
}

} // verus!
