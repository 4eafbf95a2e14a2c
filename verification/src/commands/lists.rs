//! Which list an item sits in, and props maps of planned changes.
use vstd::prelude::*;

use crate::ids::things_id::ThingsId;
use crate::store::model::Task;
use crate::store::queries::{spec_effective_area, spec_effective_project};
use crate::store::things_store::ThingsStore;
use crate::wire::codes::{task_start_code, TaskType};
use crate::wire::value::{PropMap, PropValue, PropView};

verus! {

/// The list an item sits in, for ordering among siblings: a heading in its
/// project, a project in its area, a task in its project (and heading), in
/// its area (and start list), or at the root (by start list).
#[derive(Debug)]
pub enum Bucket {
    Heading(Option<ThingsId>),
    Project(Option<ThingsId>),
    TaskProject(ThingsId, Option<ThingsId>),
    TaskArea(ThingsId, i64),
    TaskRoot(i64),
}

/// The list a stored task sits in.
pub open spec fn spec_task_bucket(tasks: Seq<Task>, t: Task) -> Bucket {
    if t.item_type == TaskType::Heading {
        Bucket::Heading(t.project)
    } else if t.item_type == TaskType::Project {
        Bucket::Project(t.area)
    } else if spec_effective_project(tasks, t) is Some {
        Bucket::TaskProject(spec_effective_project(tasks, t)->0, t.action_group)
    } else if spec_effective_area(tasks, t) is Some {
        Bucket::TaskArea(spec_effective_area(tasks, t)->0, task_start_code(t.start) as i64)
    } else {
        Bucket::TaskRoot(task_start_code(t.start) as i64)
    }
}

fn same_opt_id(a: &Option<ThingsId>, b: &Option<ThingsId>) -> (r: bool)
    ensures
        r == (*a == *b),
{
    match (a, b) {
        (Some(x), Some(y)) => x.same(y),
        (None, None) => true,
        _ => false,
    }
}

/// Whether two lists are the same list.
pub fn same_bucket(a: &Bucket, b: &Bucket) -> (r: bool)
    ensures
        r == (*a == *b),
{
    match (a, b) {
        (Bucket::Heading(x), Bucket::Heading(y)) => same_opt_id(x, y),
        (Bucket::Project(x), Bucket::Project(y)) => same_opt_id(x, y),
        (Bucket::TaskProject(p, g), Bucket::TaskProject(q, h)) => p.same(q) && same_opt_id(g, h),
        (Bucket::TaskArea(p, s), Bucket::TaskArea(q, t)) => p.same(q) && *s == *t,
        (Bucket::TaskRoot(s), Bucket::TaskRoot(t)) => *s == *t,
        _ => false,
    }
}

/// The list a stored task sits in.
pub fn task_bucket(task: &Task, store: &ThingsStore) -> (r: Bucket)
    ensures
        r == spec_task_bucket(store.tasks@, *task),
{
    if task.is_heading() {
        return Bucket::Heading(task.project);
    }
    if task.is_project() {
        return Bucket::Project(task.area);
    }
    if let Some(project_uuid) = store.effective_project_uuid(task) {
        return Bucket::TaskProject(project_uuid, task.action_group);
    }
    if let Some(area_uuid) = store.effective_area_uuid(task) {
        return Bucket::TaskArea(area_uuid, task.start.code() as i64);
    }
    Bucket::TaskRoot(task.start.code() as i64)
}

/// An integer property, or 0.
pub open spec fn int_prop(m: Map<Seq<char>, PropView>, k: Seq<char>) -> i64 {
    if m.contains_key(k) && m[k] is Int {
        m[k]->Int_0
    } else {
        0
    }
}

/// The first identifier of an identifier-list property, if any.
pub open spec fn first_id_prop(m: Map<Seq<char>, PropView>, k: Seq<char>) -> Option<ThingsId> {
    if m.contains_key(k) && m[k] is Ids && m[k]->Ids_0.len() > 0 {
        Some(m[k]->Ids_0[0])
    } else {
        None
    }
}

/// The list new task properties place a task in.
pub open spec fn spec_props_bucket(m: Map<Seq<char>, PropView>) -> Bucket {
    if first_id_prop(m, "pr"@) is Some {
        Bucket::TaskProject(first_id_prop(m, "pr"@)->0, None)
    } else if first_id_prop(m, "ar"@) is Some {
        Bucket::TaskArea(first_id_prop(m, "ar"@)->0, int_prop(m, "st"@))
    } else {
        Bucket::TaskRoot(int_prop(m, "st"@))
    }
}

fn int_of(props: &PropMap, k: &str) -> (r: i64)
    requires
        props.wf(),
    ensures
        r == int_prop(props.values(), k@),
{
    match props.get(k) {
        Some(PropValue::Int(v)) => *v,
        _ => 0,
    }
}

fn first_id_of(props: &PropMap, k: &str) -> (r: Option<ThingsId>)
    requires
        props.wf(),
    ensures
        r == first_id_prop(props.values(), k@),
{
    match props.get(k) {
        Some(PropValue::Ids(v)) => {
            if v.len() > 0 {
                Some(v[0])
            } else {
                None
            }
        },
        _ => None,
    }
}

/// The list new task properties place a task in.
pub fn props_bucket(props: &PropMap) -> (r: Bucket)
    requires
        props.wf(),
    ensures
        r == spec_props_bucket(props.values()),
{
    if let Some(p) = first_id_of(props, "pr") {
        return Bucket::TaskProject(p, None);
    }
    if let Some(a) = first_id_of(props, "ar") {
        return Bucket::TaskArea(a, int_of(props, "st"));
    }
    Bucket::TaskRoot(int_of(props, "st"))
}

/// Whether new task properties put the task in Today as of day `today_ts`:
/// it starts in Anytime or Someday on a day no later than today.
pub open spec fn spec_props_today(m: Map<Seq<char>, PropView>, today_ts: i64) -> bool {
    &&& (int_prop(m, "st"@) == 1 || int_prop(m, "st"@) == 2)
    &&& m.contains_key("sr"@)
    &&& m["sr"@] is Int
    &&& m["sr"@]->Int_0 <= today_ts
}

/// Whether new task properties put the task in Today.
pub fn props_today(props: &PropMap, today_ts: i64) -> (r: bool)
    requires
        props.wf(),
    ensures
        r == spec_props_today(props.values(), today_ts),
{
    let st = int_of(props, "st");
    if st != 1 && st != 2 {
        return false;
    }
    match props.get("sr") {
        Some(PropValue::Int(v)) => *v <= today_ts,
        _ => false,
    }
}

/// Sets a property, tracking the plain values.
pub fn set_prop(props: &mut PropMap, k: &str, v: PropValue)
    requires
        old(props).wf(),
    ensures
        final(props).wf(),
        final(props).values() == old(props).values().insert(k@, v@),
{
    let ghost v2 = v;
    props.set(k, v);
    proof {
        assert(final(props).values() =~= old(props).values().insert(k@, v2@));
    }
}

} // verus!
