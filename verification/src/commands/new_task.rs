//! Planning the creation of a task (`new`).
use vstd::prelude::*;

use crate::commands::lists::{
    props_bucket, props_today, same_bucket, set_prop, spec_props_bucket, spec_props_today,
    spec_task_bucket, task_bucket, Bucket,
};
use crate::commands::placement::{indexes_of, new_index, placement_fits, plan_ix_insert, rebalance_updates};
use crate::common::{day_reading, list_tokens, parse_day, resolve_all, resolve_tag_list, task6_note};
use crate::ids::matching::{id_sort_key, spec_id_key};
use crate::ids::things_id::ThingsId;
use crate::sorting::{sort_by, sorted_by};
use crate::store::model::{spec_is_today, Area, Task};
use crate::store::queries::{is_markable, resolution_of};
use crate::store::things_store::{refs, select, ThingsStore};
use crate::text::{concat3, eq_ignore_ascii_case, lower, spec_trim, trim_str};
use crate::time::UtcTime;
use crate::wire::codes::{TaskStart, TaskStatus, TaskType};
use crate::wire::entity::EntityType;
use crate::wire::value::{PropMap, PropValue, PropView};
use crate::wire::wire_object::{Properties, WireObject};

verus! {

broadcast use vstd::seq_lib::group_to_multiset_ensures;

/// Arguments of `new`.
#[derive(Debug)]
pub struct NewArgs {
    /// Task title.
    pub title: String,
    /// Container: inbox, a project or an area (identifier or prefix).
    pub in_target: String,
    /// Schedule: anytime, someday, today, or `YYYY-MM-DD`.
    pub when: Option<String>,
    /// Insert before this sibling task.
    pub before_id: Option<String>,
    /// Insert after this sibling task.
    pub after_id: Option<String>,
    /// Task notes.
    pub notes: String,
    /// Comma-separated tags (titles or id prefixes).
    pub tags: Option<String>,
    /// Deadline date (`YYYY-MM-DD`).
    pub deadline_date: Option<String>,
}

/// The changes that create a task, and what the command reports.
#[derive(Debug)]
pub struct NewPlan {
    pub new_uuid: String,
    pub changes: Vec<(String, WireObject)>,
    pub title: String,
}

/// The conflict-override marker of a fresh task.
pub const EMPTY_CONFLICTS: &'static str = "{\"_t\":\"oo\",\"sn\":{}}";

/// The full property set of a fresh inbox todo.
#[verifier::opaque]
pub open spec fn base_props(title: Seq<char>, now: UtcTime) -> Map<Seq<char>, PropView> {
    Map::empty().insert("acrd"@, PropView::Null).insert("agr"@, PropView::Ids(Seq::empty())).insert(
        "ar"@,
        PropView::Ids(Seq::empty()),
    ).insert("ato"@, PropView::Null).insert("tt"@, PropView::Text(title)).insert(
        "tp"@,
        PropView::Int(0),
    ).insert("ss"@, PropView::Int(0)).insert("sp"@, PropView::Null).insert(
        "st"@,
        PropView::Int(0),
    ).insert("sr"@, PropView::Null).insert("tir"@, PropView::Null).insert(
        "ti"@,
        PropView::Int(0),
    ).insert("sb"@, PropView::Int(0)).insert("pr"@, PropView::Ids(Seq::empty())).insert(
        "tg"@,
        PropView::Ids(Seq::empty()),
    ).insert("dd"@, PropView::Null).insert("dds"@, PropView::Null).insert(
        "dl"@,
        PropView::Json("[]"@),
    ).insert("do"@, PropView::Int(0)).insert("rr"@, PropView::Null).insert(
        "rt"@,
        PropView::Ids(Seq::empty()),
    ).insert("icsd"@, PropView::Null).insert("icc"@, PropView::Int(0)).insert(
        "icp"@,
        PropView::Bool(false),
    ).insert("lai"@, PropView::Null).insert("lt"@, PropView::Bool(false)).insert(
        "tr"@,
        PropView::Bool(false),
    ).insert("cd"@, PropView::Time(now)).insert("md"@, PropView::Time(now)).insert(
        "nt"@,
        PropView::Null,
    ).insert("xx"@, PropView::Json(EMPTY_CONFLICTS@)).insert("ix"@, PropView::Int(0))
}

/// The full property set of a fresh inbox todo.
pub fn base_new_props(title: &str, now: UtcTime) -> (r: PropMap)
    ensures
        r.wf(),
        r.values() == base_props(title@, now),
{
    let mut p = PropMap::new();
    proof {
        assert(p.values() =~= Map::<Seq<char>, PropView>::empty());
        reveal(base_props);
    }
    set_prop(&mut p, "acrd", PropValue::Null);
    set_prop(&mut p, "agr", PropValue::Ids(Vec::new()));
    set_prop(&mut p, "ar", PropValue::Ids(Vec::new()));
    set_prop(&mut p, "ato", PropValue::Null);
    set_prop(&mut p, "tt", PropValue::Text(title.to_owned()));
    set_prop(&mut p, "tp", PropValue::Int(0));
    set_prop(&mut p, "ss", PropValue::Int(0));
    set_prop(&mut p, "sp", PropValue::Null);
    set_prop(&mut p, "st", PropValue::Int(0));
    set_prop(&mut p, "sr", PropValue::Null);
    set_prop(&mut p, "tir", PropValue::Null);
    set_prop(&mut p, "ti", PropValue::Int(0));
    set_prop(&mut p, "sb", PropValue::Int(0));
    set_prop(&mut p, "pr", PropValue::Ids(Vec::new()));
    set_prop(&mut p, "tg", PropValue::Ids(Vec::new()));
    set_prop(&mut p, "dd", PropValue::Null);
    set_prop(&mut p, "dds", PropValue::Null);
    set_prop(&mut p, "dl", PropValue::Json("[]".to_owned()));
    set_prop(&mut p, "do", PropValue::Int(0));
    set_prop(&mut p, "rr", PropValue::Null);
    set_prop(&mut p, "rt", PropValue::Ids(Vec::new()));
    set_prop(&mut p, "icsd", PropValue::Null);
    set_prop(&mut p, "icc", PropValue::Int(0));
    set_prop(&mut p, "icp", PropValue::Bool(false));
    set_prop(&mut p, "lai", PropValue::Null);
    set_prop(&mut p, "lt", PropValue::Bool(false));
    set_prop(&mut p, "tr", PropValue::Bool(false));
    set_prop(&mut p, "cd", PropValue::Time(now));
    set_prop(&mut p, "md", PropValue::Time(now));
    set_prop(&mut p, "nt", PropValue::Null);
    set_prop(&mut p, "xx", PropValue::Json(EMPTY_CONFLICTS.to_owned()));
    set_prop(&mut p, "ix", PropValue::Int(0));
    p
}

/// Where a new task goes.
#[derive(Debug, Clone, Copy)]
pub enum Container {
    Inbox,
    Project(ThingsId),
    Area(ThingsId),
}

/// How an `--in` target resolves: inbox, a project, an area, or the message
/// why it does not.
pub open spec fn spec_container(store: ThingsStore, target: Seq<char>) -> Result<Container, Seq<char>> {
    let t = spec_trim(target);
    if lower(t) == lower("inbox"@) {
        Ok(Container::Inbox)
    } else {
        let proj = resolution_of(store.tasks@, |x: Task| is_markable(x), |x: Task| x.uuid, t, "Item"@).0;
        let area = resolution_of(store.areas@, |a: Area| true, |a: Area| a.uuid, t, "Area"@).0;
        let is_proj = proj is Some && proj->0.item_type == TaskType::Project;
        if is_proj && area is Some {
            Err("Ambiguous --in target '"@ + t + "' (matches project and area)."@)
        } else if proj is Some && !is_proj {
            Err("--in target must be inbox, a project ID, or an area ID."@)
        } else if is_proj {
            Ok(Container::Project(proj->0.uuid))
        } else if area is Some {
            Ok(Container::Area(area->0.uuid))
        } else {
            Err("Container not found: "@ + t)
        }
    }
}

/// Resolves an `--in` target.
pub fn resolve_container(store: &ThingsStore, target: &str) -> (r: Result<Container, String>)
    ensures
        match spec_container(*store, target@) {
            Ok(c) => r matches Ok(c2) && c2 == c,
            Err(e) => r matches Err(m) && m@ == e,
        },
{
    let t = trim_str(target);
    if eq_ignore_ascii_case(t.as_str(), "inbox") {
        return Ok(Container::Inbox);
    }
    let (proj, _, _) = store.resolve_mark_identifier(t.as_str());
    let (area, _, _) = store.resolve_area_identifier(t.as_str());
    let is_proj = match proj {
        Some(p) => p.is_project(),
        None => false,
    };
    proof {
        reveal_strlit("Ambiguous --in target '");
        reveal_strlit("' (matches project and area).");
        reveal_strlit("--in target must be inbox, a project ID, or an area ID.");
        reveal_strlit("Container not found: ");
    }
    if is_proj && area.is_some() {
        return Err(concat3("Ambiguous --in target '", t.as_str(), "' (matches project and area)."));
    }
    if proj.is_some() && !is_proj {
        return Err("--in target must be inbox, a project ID, or an area ID.".to_owned());
    }
    if is_proj {
        return Ok(Container::Project(proj.unwrap().uuid));
    }
    match area {
        Some(a) => Ok(Container::Area(a.uuid)),
        None => Err(crate::text::concat2("Container not found: ", t.as_str())),
    }
}

/// A schedule choice of `new`.
#[derive(Debug, Clone, Copy)]
pub enum WhenChoice {
    Anytime,
    Someday,
    Today,
    /// A local day, by its midnight's timestamp.
    Day(i64),
}

/// How a `--when` value reads.
pub open spec fn spec_when(when: Seq<char>, offset: i32) -> Result<WhenChoice, Seq<char>> {
    let w = spec_trim(when);
    if lower(w) == lower("anytime"@) {
        Ok(WhenChoice::Anytime)
    } else if lower(w) == lower("someday"@) {
        Ok(WhenChoice::Someday)
    } else if lower(w) == lower("today"@) {
        Ok(WhenChoice::Today)
    } else {
        match day_reading(w, "--when"@, offset) {
            Ok(t) => Ok(WhenChoice::Day(t.secs)),
            Err(e) => Err(e),
        }
    }
}

/// Reads a `--when` value.
pub fn read_when(when: &str, offset: i32) -> (r: Result<WhenChoice, String>)
    ensures
        match spec_when(when@, offset) {
            Ok(c) => r matches Ok(c2) && c2 == c,
            Err(e) => r matches Err(m) && m@ == e,
        },
{
    let w = trim_str(when);
    if eq_ignore_ascii_case(w.as_str(), "anytime") {
        return Ok(WhenChoice::Anytime);
    }
    if eq_ignore_ascii_case(w.as_str(), "someday") {
        return Ok(WhenChoice::Someday);
    }
    if eq_ignore_ascii_case(w.as_str(), "today") {
        return Ok(WhenChoice::Today);
    }
    match parse_day(Some(w.as_str()), "--when", offset) {
        Ok(Some(t)) => Ok(WhenChoice::Day(t.secs)),
        Ok(None) => Ok(WhenChoice::Anytime),
        Err(e) => Err(e),
    }
}

/// The anchor identifier of `new`: `--before`, else `--after`.
pub open spec fn anchor_ident(args: NewArgs) -> Option<Seq<char>> {
    match args.before_id {
        Some(b) => Some(b@),
        None => match args.after_id {
            Some(a) => Some(a@),
            None => None,
        },
    }
}

/// How the anchor identifier resolves among all tasks.
pub open spec fn anchor_resolution(store: ThingsStore, id: Seq<char>) -> (Option<Task>, Seq<char>, Seq<Task>) {
    resolution_of(store.tasks@, |t: Task| true, |t: Task| t.uuid, id, "Task"@)
}

/// The properties a schedule choice sets.
pub open spec fn with_when(m: Map<Seq<char>, PropView>, w: WhenChoice, today_ts: i64) -> Map<Seq<char>, PropView> {
    match w {
        WhenChoice::Anytime => m.insert("st"@, PropView::Int(1)).insert("sr"@, PropView::Null),
        WhenChoice::Someday => m.insert("st"@, PropView::Int(2)).insert("sr"@, PropView::Null),
        WhenChoice::Today => m.insert("st"@, PropView::Int(1)).insert("sr"@, PropView::Int(today_ts)).insert(
            "tir"@,
            PropView::Int(today_ts),
        ),
        WhenChoice::Day(ts) => m.insert("st"@, PropView::Int(2)).insert("sr"@, PropView::Int(ts)).insert(
            "tir"@,
            PropView::Int(ts),
        ),
    }
}

/// The properties a container sets.
pub open spec fn with_container(m: Map<Seq<char>, PropView>, c: Container) -> Map<Seq<char>, PropView> {
    match c {
        Container::Inbox => m,
        Container::Project(p) => m.insert("pr"@, PropView::Ids(seq![p])).insert("st"@, PropView::Int(1)),
        Container::Area(a) => m.insert("ar"@, PropView::Ids(seq![a])).insert("st"@, PropView::Int(1)),
    }
}

/// The properties of a new task once title, container, schedule, tags and
/// deadline are settled (notes aside), or the first message that stops it.
#[verifier::opaque]
pub open spec fn new_settled(
    args: NewArgs,
    store: ThingsStore,
    now: UtcTime,
    today_ts: i64,
    offset: i32,
) -> Result<Map<Seq<char>, PropView>, Seq<char>> {
    let title = spec_trim(args.title@);
    if title.len() == 0 {
        Err("Task title cannot be empty."@)
    } else if anchor_ident(args) is Some && anchor_resolution(store, anchor_ident(args)->0).0 is None {
        Err(anchor_resolution(store, anchor_ident(args)->0).1)
    } else {
        match spec_container(store, args.in_target@) {
            Err(e) => Err(e),
            Ok(c) => {
                let m1 = with_container(base_props(title, now), c);
                let w: Result<Option<WhenChoice>, Seq<char>> = match args.when {
                    None => Ok(None),
                    Some(w) => match spec_when(w@, offset) {
                        Ok(x) => Ok(Some(x)),
                        Err(e) => Err(e),
                    },
                };
                match w {
                    Err(e) => Err(e),
                    Ok(wc) => {
                        let m2 = match wc {
                            None => m1,
                            Some(x) => with_when(m1, x, today_ts),
                        };
                        let tg: Result<Option<Seq<ThingsId>>, Seq<char>> = match args.tags {
                            None => Ok(None),
                            Some(t) => match resolve_all(store.tags@, list_tokens(t@)) {
                                Ok(ids) => Ok(Some(ids)),
                                Err(e) => Err(e),
                            },
                        };
                        match tg {
                            Err(e) => Err(e),
                            Ok(tg) => {
                                let m3 = match tg {
                                    None => m2,
                                    Some(ids) => m2.insert("tg"@, PropView::Ids(ids)),
                                };
                                match args.deadline_date {
                                    None => Ok(m3),
                                    Some(d) => match day_reading(d@, "--deadline"@, offset) {
                                        Ok(t) => Ok(m3.insert("dd"@, PropView::Int(t.secs))),
                                        Err(e) => Err(e),
                                    },
                                }
                            },
                        }
                    },
                }
            },
        }
    }
}

/// Whether the notes property holds the structured notes of `notes` (or
/// nothing when `notes` is empty).
pub open spec fn notes_prop_ok(m: Map<Seq<char>, PropView>, notes: Seq<char>) -> bool {
    m.contains_key("nt"@) && if notes.len() == 0 {
        m["nt"@] == PropView::Null
    } else {
        m["nt"@] matches PropView::Notes(n) && crate::common::is_task6_note(n, notes)
    }
}

/// Settles the properties of a new task (all but its placement).
pub fn settle_new_props<'a>(
    args: &NewArgs,
    store: &'a ThingsStore,
    now: UtcTime,
    today_ts: i64,
    offset: i32,
) -> (r: Result<(PropMap, Option<&'a Task>), String>)
    ensures
        match new_settled(*args, *store, now, today_ts, offset) {
            Err(e) => r matches Err(m) && m@ == e,
            Ok(m) => r matches Ok((p, a)) && {
                &&& p.wf()
                &&& p.values().remove("nt"@) == m.remove("nt"@)
                &&& notes_prop_ok(p.values(), args.notes@)
                &&& match anchor_ident(*args) {
                    None => a is None,
                    Some(i) => a matches Some(t) && anchor_resolution(*store, i).0 == Some(*t),
                }
            },
        },
{
    proof {
        reveal(new_settled);
        reveal(base_props);
        reveal_strlit("nt");
        reveal_strlit("pr");
        reveal_strlit("ar");
        reveal_strlit("st");
        reveal_strlit("sr");
        reveal_strlit("tir");
        reveal_strlit("tg");
        reveal_strlit("dd");
        reveal_strlit("xx");
        reveal_strlit("ix");
        assert("xx"@[0] != "nt"@[0]);
        assert("ix"@[0] != "nt"@[0]);
        assert("pr"@[0] != "nt"@[0]);
        assert("ar"@[0] != "nt"@[0]);
        assert("st"@[0] != "nt"@[0]);
        assert("sr"@[0] != "nt"@[0]);
        assert("tir"@[0] != "nt"@[0]);
        assert("tg"@[0] != "nt"@[0]);
        assert("dd"@[0] != "nt"@[0]);
    }
    let title = trim_str(args.title.as_str());
    if title.as_str().is_empty() {
        proof {
            reveal_strlit("Task title cannot be empty.");
        }
        return Err("Task title cannot be empty.".to_owned());
    }
    let mut props = base_new_props(title.as_str(), now);
    let ghost mut exp = base_props(title@, now);
    if !args.notes.as_str().is_empty() {
        set_prop(&mut props, "nt", PropValue::Notes(task6_note(args.notes.as_str())));
    }
    proof {
        assert(props.values().remove("nt"@) =~= exp.remove("nt"@));
        assert(notes_prop_ok(props.values(), args.notes@));
    }
    let ghost ntv = props.values()["nt"@];
    let anchor_id: Option<&String> = match &args.before_id {
        Some(b) => Some(b),
        None => match &args.after_id {
            Some(a) => Some(a),
            None => None,
        },
    };
    let mut anchor: Option<&'a Task> = None;
    if let Some(id) = anchor_id {
        let (t, err, _) = store.resolve_task_identifier(id.as_str());
        if t.is_none() {
            return Err(err);
        }
        anchor = t;
    }
    let container = match resolve_container(store, args.in_target.as_str()) {
        Ok(c) => c,
        Err(e) => {
            return Err(e);
        },
    };
    match container {
        Container::Inbox => {},
        Container::Project(p) => {
            let mut ids: Vec<ThingsId> = Vec::new();
            ids.push(p);
            proof {
                assert(ids@ =~= seq![p]);
            }
            set_prop(&mut props, "pr", PropValue::Ids(ids));
            set_prop(&mut props, "st", PropValue::Int(1));
        },
        Container::Area(a) => {
            let mut ids: Vec<ThingsId> = Vec::new();
            ids.push(a);
            proof {
                assert(ids@ =~= seq![a]);
            }
            set_prop(&mut props, "ar", PropValue::Ids(ids));
            set_prop(&mut props, "st", PropValue::Int(1));
        },
    }
    proof {
        exp = with_container(exp, container);
        assert(props.values().remove("nt"@) =~= exp.remove("nt"@));
    }
    if let Some(w) = &args.when {
        let choice = match read_when(w.as_str(), offset) {
            Err(e) => {
                return Err(e);
            },
            Ok(c) => c,
        };
        match choice {
            WhenChoice::Anytime => {
                set_prop(&mut props, "st", PropValue::Int(1));
                set_prop(&mut props, "sr", PropValue::Null);
            },
            WhenChoice::Someday => {
                set_prop(&mut props, "st", PropValue::Int(2));
                set_prop(&mut props, "sr", PropValue::Null);
            },
            WhenChoice::Today => {
                set_prop(&mut props, "st", PropValue::Int(1));
                set_prop(&mut props, "sr", PropValue::Int(today_ts));
                set_prop(&mut props, "tir", PropValue::Int(today_ts));
            },
            WhenChoice::Day(ts) => {
                set_prop(&mut props, "st", PropValue::Int(2));
                set_prop(&mut props, "sr", PropValue::Int(ts));
                set_prop(&mut props, "tir", PropValue::Int(ts));
            },
        }
        proof {
            exp = with_when(exp, choice, today_ts);
            assert(props.values().remove("nt"@) =~= exp.remove("nt"@));
        }
    }
    if let Some(tags) = &args.tags {
        let ids = match resolve_tag_list(store, tags.as_str()) {
            Ok(ids) => ids,
            Err(e) => {
                return Err(e);
            },
        };
        let ghost idv = ids@;
        set_prop(&mut props, "tg", PropValue::Ids(ids));
        proof {
            exp = exp.insert("tg"@, PropView::Ids(idv));
            assert(props.values().remove("nt"@) =~= exp.remove("nt"@));
        }
    }
    if let Some(d) = &args.deadline_date {
        match parse_day(Some(d.as_str()), "--deadline", offset) {
            Ok(Some(t)) => {
                set_prop(&mut props, "dd", PropValue::Int(t.secs));
                proof {
                    exp = exp.insert("dd"@, PropView::Int(t.secs));
                    assert(props.values().remove("nt"@) =~= exp.remove("nt"@));
                }
            },
            Ok(None) => {},
            Err(e) => {
                return Err(e);
            },
        }
    }
    proof {
        assert(new_settled(*args, *store, now, today_ts, offset) == Ok::<Map<Seq<char>, PropView>, Seq<char>>(exp));
        assert(props.values().contains_key("nt"@));
        assert(props.values()["nt"@] == ntv);
    }
    Ok((props, anchor))
}

/// Whether a stored task is an open, untrashed sibling in list `target`.
pub open spec fn sibling_of(store: ThingsStore, target: Bucket, t: Task) -> bool {
    !t.trashed && t.status == TaskStatus::Incomplete && spec_task_bucket(store.tasks@, t) == target
}

fn sibling_keep(c: &(&ThingsStore, Bucket), t: &Task) -> (b: bool)
    ensures
        b == sibling_of(*c.0, c.1, *t),
{
    !t.trashed && t.status == TaskStatus::Incomplete && same_bucket(&task_bucket(t, c.0), &c.1)
}

/// Sibling order: sort index, then identifier text.
pub open spec fn sibling_key(t: &Task) -> (i128, i128, i128, i128) {
    (t.index as i128, spec_id_key(t.uuid).0 as i128, spec_id_key(t.uuid).1 as i128, 0i128)
}

fn sibling_key_of(t: &&Task) -> (k: (i128, i128, i128, i128))
    ensures
        k == sibling_key(*t),
{
    let (hi, lo) = id_sort_key(&t.uuid);
    (t.index as i128, hi, lo, 0i128)
}

/// Whether `sibs` are the siblings of list `target`, in sibling order.
#[verifier::opaque]
pub open spec fn ordered_siblings(store: ThingsStore, target: Bucket, sibs: Seq<&Task>) -> bool {
    &&& sibs.to_multiset() == refs(store.tasks@.filter(|t: Task| sibling_of(store, target, t))).to_multiset()
    &&& sorted_by(sibs, |t: &Task| sibling_key(t))
}

/// The open siblings of a list, in sibling order.
pub fn siblings<'a>(store: &'a ThingsStore, target: &Bucket) -> (r: Vec<&'a Task>)
    ensures
        ordered_siblings(*store, *target, r@),
{
    let t = match target {
        Bucket::Heading(p) => Bucket::Heading(*p),
        Bucket::Project(a) => Bucket::Project(*a),
        Bucket::TaskProject(p, g) => Bucket::TaskProject(*p, *g),
        Bucket::TaskArea(a, s) => Bucket::TaskArea(*a, *s),
        Bucket::TaskRoot(s) => Bucket::TaskRoot(*s),
    };
    let c = (store, t);
    let ghost p = |c: (&ThingsStore, Bucket), t: Task| sibling_of(*c.0, c.1, t);
    let chosen = select(&store.tasks, &c, sibling_keep, Ghost(p));
    proof {
        assert((|x: Task| p(c, x)) =~= (|t: Task| sibling_of(*store, *target, t)));
        reveal(ordered_siblings);
    }
    sort_by(chosen, sibling_key_of, Ghost(|t: &Task| sibling_key(t)))
}

/// The first position of task `id` in a list, if any.
pub open spec fn spec_pos(s: Seq<&Task>, id: ThingsId) -> Option<int> {
    if exists|k: int| 0 <= k < s.len() && s[k].uuid == id {
        Some(choose|k: int| 0 <= k < s.len() && s[k].uuid == id && forall|j: int| 0 <= j < k ==> s[j].uuid != id)
    } else {
        None
    }
}

/// The first position of task `id` in a list, if any.
pub fn position_of(s: &Vec<&Task>, id: &ThingsId) -> (r: Option<usize>)
    ensures
        match r {
            Some(k) => spec_pos(s@, *id) == Some(k as int) && k < s@.len(),
            None => spec_pos(s@, *id) is None,
        },
{
    let mut k: usize = 0;
    while k < s.len()
        invariant
            k <= s@.len(),
            forall|j: int| 0 <= j < k ==> s@[j].uuid != *id,
        decreases s@.len() - k,
    {
        if s[k].uuid.same(id) {
            proof {
                let c = choose|c: int| 0 <= c < s@.len() && s@[c].uuid == *id && forall|j: int| 0 <= j < c ==> s@[j].uuid != *id;
                assert(c == k) by {
                    if c < k {
                    } else if c > k {
                        assert(s@[k as int].uuid == *id);
                    }
                }
            }
            return Some(k);
        }
        k = k + 1;
    }
    None
}

/// Where among the siblings the new task goes: before or after an anchor in
/// the same list, else first.
pub open spec fn insert_position(
    store: ThingsStore,
    target: Bucket,
    sibs: Seq<&Task>,
    anchor: Option<Task>,
    before: bool,
) -> int {
    match anchor {
        Some(a) => if spec_task_bucket(store.tasks@, a) == target && spec_pos(sibs, a.uuid) is Some {
            if before {
                spec_pos(sibs, a.uuid)->0
            } else {
                spec_pos(sibs, a.uuid)->0 + 1
            }
        } else {
            0
        },
        None => 0,
    }
}

/// Whether an anchor sits in Today (or this evening) in Anytime.
pub open spec fn anchor_today(a: Task, today: UtcTime) -> bool {
    a.start == TaskStart::Anytime && (spec_is_today(a, today) || a.evening)
}

/// Whether a stored task is in the Today section (`evening` or not).
pub open spec fn today_member(today: UtcTime, evening: bool, t: Task) -> bool {
    &&& !t.trashed
    &&& t.status == TaskStatus::Incomplete
    &&& t.start == TaskStart::Anytime
    &&& (spec_is_today(t, today) || t.evening)
    &&& t.evening == evening
}

fn today_keep(c: &(UtcTime, bool), t: &Task) -> (b: bool)
    ensures
        b == today_member(c.0, c.1, *t),
{
    !t.trashed && t.status == TaskStatus::Incomplete && t.start == TaskStart::Anytime && (t.is_today(
        &c.0,
    ) || t.evening) && t.evening == c.1
}

/// Today order: latest today reference first, then Today index, then
/// highest sort index.
pub open spec fn today_order(t: &Task) -> (i128, i128, i128, i128) {
    let tir: int = match t.today_index_reference {
        Some(v) => v as int,
        None => 0,
    };
    ((-tir) as i128, t.today_index as i128, (-(t.index as int)) as i128, 0i128)
}

fn today_order_of(t: &&Task) -> (k: (i128, i128, i128, i128))
    ensures
        k == today_order(*t),
{
    let tir: i128 = match t.today_index_reference {
        Some(v) => v as i128,
        None => 0,
    };
    (-tir, t.today_index as i128, -(t.index as i128), 0i128)
}

/// Whether `s` are the members of a Today section, in Today order.
#[verifier::opaque]
pub open spec fn ordered_today(store: ThingsStore, today: UtcTime, evening: bool, s: Seq<&Task>) -> bool {
    &&& s.to_multiset() == refs(store.tasks@.filter(|t: Task| today_member(today, evening, t))).to_multiset()
    &&& sorted_by(s, |t: &Task| today_order(t))
}

/// The members of a Today section, in Today order.
pub fn today_section<'a>(store: &'a ThingsStore, today: UtcTime, evening: bool) -> (r: Vec<&'a Task>)
    ensures
        ordered_today(*store, today, evening, r@),
{
    let c = (today, evening);
    let ghost p = |c: (UtcTime, bool), t: Task| today_member(c.0, c.1, t);
    let chosen = select(&store.tasks, &c, today_keep, Ghost(p));
    proof {
        assert((|x: Task| p(c, x)) =~= (|t: Task| today_member(today, evening, t)));
        reveal(ordered_today);
    }
    sort_by(chosen, today_order_of, Ghost(|t: &Task| today_order(t)))
}

/// The Today placement `(tir, ti)` of a new task at position `at` of a
/// Today section: next to the following task (one index before it), else
/// after the preceding one, else first of today.
pub open spec fn today_place(s: Seq<&Task>, at: int, today_ts: i64) -> (i64, int) {
    if at < s.len() {
        (
            match s[at].today_index_reference {
                Some(v) => v,
                None => today_ts,
            },
            s[at].today_index - 1,
        )
    } else if 0 < at {
        (
            match s[at - 1].today_index_reference {
                Some(v) => v,
                None => today_ts,
            },
            s[at - 1].today_index + 1,
        )
    } else {
        (today_ts, 0)
    }
}

/// The day `new` plans with: UTC midnight of `today_ts` (of `now` when that
/// is no valid instant).
pub open spec fn plan_today(today_ts: i64, now: UtcTime) -> UtcTime {
    let base = if crate::time::spec_chrono_timestamp_ok(today_ts, 0) {
        UtcTime { secs: today_ts, nanos: 0 }
    } else {
        now
    };
    if crate::time::day_floor(base.secs as int) >= i64::MIN {
        UtcTime { secs: crate::time::day_floor(base.secs as int) as i64, nanos: 0 }
    } else {
        base
    }
}

/// The day commands read as today: UTC midnight of `today_ts` (of `now`
/// when that is no valid instant).
pub fn plan_today_of(today_ts: i64, now: UtcTime) -> (r: UtcTime)
    ensures
        r == plan_today(today_ts, now),
{
    let base = match UtcTime::from_timestamp(today_ts, 0) {
        Some(t) => t,
        None => now,
    };
    match base.day_start() {
        Some(d) => d,
        None => base,
    }
}

/// The index changes of siblings that a rebalance renumbers, as updates.
pub open spec fn index_update_ok(u: (String, WireObject), up: (ThingsId, i32, String), now: UtcTime) -> bool {
    &&& u.0@ == crate::ids::things_id::id_chars(up.0)
    &&& u.1.operation_type == crate::wire::codes::OperationType::Update
    &&& u.1.entity_type matches Some(e) && e@ == crate::wire::entity::kind_of_name(up.2@)
    &&& u.1.payload matches Properties::Unknown(p) && p.wf() && p.values() == Map::<Seq<char>, PropView>::empty().insert(
        "ix"@,
        PropView::Int(up.1 as i64),
    ).insert("md"@, PropView::Time(now))
}

/// What a successful plan holds once the placement is known: the create of
/// the new task with its final properties, then the sibling updates.
#[verifier::opaque]
pub open spec fn plan_holds(
    plan: NewPlan,
    args: NewArgs,
    final_props: Map<Seq<char>, PropView>,
    sibs: Seq<&Task>,
    at: int,
    new_id: Seq<char>,
    now: UtcTime,
) -> bool {
    let ups_ok = |ups: Seq<(ThingsId, i32, String)>|
        plan.changes@.len() == 1 + ups.len() && forall|k: int|
            0 <= k < ups.len() ==> index_update_ok(#[trigger] plan.changes@[k + 1], ups[k], now);
    &&& plan.new_uuid@ == new_id
    &&& plan.title@ == spec_trim(args.title@)
    &&& plan.changes@.len() >= 1
    &&& plan.changes@[0].0@ == new_id
    &&& plan.changes@[0].1.operation_type == crate::wire::codes::OperationType::Create
    &&& plan.changes@[0].1.entity_type == Some(EntityType::Task6)
    &&& plan.changes@[0].1.payload matches Properties::Unknown(p) && {
        &&& p.wf()
        &&& p.values().remove("nt"@) == final_props.remove("nt"@)
        &&& notes_prop_ok(p.values(), args.notes@)
    }
    &&& (crate::commands::placement::needs_rebalance(indexes_of(sibs), at)
        ==> exists|ups: Seq<(ThingsId, i32, String)>| rebalance_updates(sibs, at, ups) && ups_ok(ups))
    &&& (!crate::commands::placement::needs_rebalance(indexes_of(sibs), at)
        ==> plan.changes@.len() == 1)
}

/// The anchor task of `new`, if any.
pub open spec fn plan_anchor(args: NewArgs, store: ThingsStore) -> Option<Task> {
    match anchor_ident(args) {
        Some(i) => anchor_resolution(store, i).0,
        None => None,
    }
}

/// Whether `r` places the new task in a Today section `ts` next to Today
/// anchor `a`, with properties `m1` so far.
#[verifier::opaque]
pub open spec fn today_ok(
    args: NewArgs,
    a: Task,
    today_ts: i64,
    m1: Map<Seq<char>, PropView>,
    sibs: Seq<&Task>,
    at: int,
    new_id: Seq<char>,
    now: UtcTime,
    ts: Seq<&Task>,
    r: Result<NewPlan, String>,
) -> bool {
    let before = args.before_id is Some;
    let tat = match spec_pos(ts, a.uuid) {
        Some(k) => if before {
            k
        } else {
            k + 1
        },
        None => 0,
    };
    let place = today_place(ts, tat, today_ts);
    let m2 = m1.insert("sb"@, PropView::Int(if a.evening { 1 } else { 0 })).insert(
        "tir"@,
        PropView::Int(place.0),
    ).insert("ti"@, PropView::Int(place.1 as i64));
    if !(i32::MIN <= place.1 <= i32::MAX) {
        r matches Err(msg) && msg@ == "Sort index out of range."@
    } else {
        r matches Ok(plan) && plan_holds(plan, args, m2, sibs, at, new_id, now)
    }
}

/// Whether `r` places a new task with settled properties `m` among the
/// ordered siblings `sibs` of its list.
#[verifier::opaque]
pub open spec fn placed_ok(
    args: NewArgs,
    store: ThingsStore,
    now: UtcTime,
    today_ts: i64,
    new_id: Seq<char>,
    m: Map<Seq<char>, PropView>,
    sibs: Seq<&Task>,
    r: Result<NewPlan, String>,
) -> bool {
    let today = plan_today(today_ts, now);
    let anchor = plan_anchor(args, store);
    let before = args.before_id is Some;
    let target = spec_props_bucket(m);
    let a_today = anchor matches Some(a) && anchor_today(a, today);
    let at = insert_position(store, target, sibs, anchor, before);
    let ixs = indexes_of(sibs);
    let m1 = m.insert("ix"@, PropView::Int(new_index(ixs, at) as i64));
    if anchor is Some && spec_task_bucket(store.tasks@, anchor->0) == target && spec_pos(
        sibs,
        anchor->0.uuid,
    ) is None {
        r matches Err(msg) && msg@ == "Anchor not found in target list."@
    } else if !placement_fits(ixs, at) {
        r matches Err(msg) && msg@ == "Sort index out of range."@
    } else if spec_props_today(m1, today_ts) && a_today {
        exists|ts: Seq<&Task>|
            #[trigger] ordered_today(store, today, anchor->0.evening, ts) && today_ok(
                args,
                anchor->0,
                today_ts,
                m1,
                sibs,
                at,
                new_id,
                now,
                ts,
                r,
            )
    } else {
        r matches Ok(plan) && plan_holds(plan, args, m1, sibs, at, new_id, now)
    }
}

/// Whether `r` is the plan `new` makes: the settled properties placed among
/// the ordered siblings of their list (and in Today next to a Today anchor),
/// or the message that stops it.
#[verifier::opaque]
pub open spec fn new_plan_ok(
    args: NewArgs,
    store: ThingsStore,
    now: UtcTime,
    today_ts: i64,
    offset: i32,
    new_id: Seq<char>,
    r: Result<NewPlan, String>,
) -> bool {
    match new_settled(args, store, now, today_ts, offset) {
        Err(e) => r matches Err(m) && m@ == e,
        Ok(m) => {
            let today = plan_today(today_ts, now);
            let anchor = plan_anchor(args, store);
            let target = spec_props_bucket(m);
            let a_today = anchor matches Some(a) && anchor_today(a, today);
            if anchor is Some && !a_today && spec_task_bucket(store.tasks@, anchor->0) != target {
                r matches Err(msg) && msg@ == "Cannot place new task relative to an item in a different container/list."@
            } else {
                exists|sibs: Seq<&Task>|
                    #[trigger] ordered_siblings(store, target, sibs) && placed_ok(
                        args,
                        store,
                        now,
                        today_ts,
                        new_id,
                        m,
                        sibs,
                        r,
                    )
            }
        },
    }
}

proof fn lemma_insert_agree(a: Map<Seq<char>, PropView>, b: Map<Seq<char>, PropView>, k: Seq<char>, v: PropView)
    requires
        a.remove("nt"@) == b.remove("nt"@),
        k != "nt"@,
    ensures
        a.insert(k, v).remove("nt"@) == b.insert(k, v).remove("nt"@),
{
    assert(a.insert(k, v).remove("nt"@) =~= a.remove("nt"@).insert(k, v));
    assert(b.insert(k, v).remove("nt"@) =~= b.remove("nt"@).insert(k, v));
}

proof fn lemma_agree_except_nt(a: Map<Seq<char>, PropView>, b: Map<Seq<char>, PropView>, k: Seq<char>)
    requires
        a.remove("nt"@) == b.remove("nt"@),
        k != "nt"@,
    ensures
        a.contains_key(k) == b.contains_key(k),
        a.contains_key(k) ==> a[k] == b[k],
{
    assert(a.remove("nt"@).contains_key(k) == a.contains_key(k));
    assert(b.remove("nt"@).contains_key(k) == b.contains_key(k));
    if a.contains_key(k) {
        assert(a.remove("nt"@)[k] == a[k]);
        assert(b.remove("nt"@)[k] == b[k]);
    }
}

fn fits(sibs: &Vec<&Task>, at: usize) -> (r: bool)
    requires
        at <= sibs@.len(),
    ensures
        r == placement_fits(indexes_of(sibs@), at as int),
{
    let ghost ixs = indexes_of(sibs@);
    let n = sibs.len();
    if n > 0 && at == 0 && sibs[0].index == i32::MIN {
        return false;
    }
    if n > 0 && at == n && sibs[n - 1].index == i32::MAX {
        return false;
    }
    if 0 < at && at < n {
        let p = sibs[at - 1].index as i64;
        let q = sibs[at].index as i64;
        if p == i32::MAX as i64 || p + q < i32::MIN as i64 || p + q > i32::MAX as i64 {
            return false;
        }
        if !(p + 1 < q) && (n as u128 + 1) * 1024 > i32::MAX as u128 {
            return false;
        }
    }
    true
}

fn index_update(up: (ThingsId, i32, String), now: UtcTime) -> (u: (String, WireObject))
    ensures
        index_update_ok(u, up, now),
{
    let mut p = PropMap::new();
    proof {
        assert(p.values() =~= Map::<Seq<char>, PropView>::empty());
    }
    set_prop(&mut p, "ix", PropValue::Int(up.1 as i64));
    set_prop(&mut p, "md", PropValue::Time(now));
    (up.0.to_string(), WireObject::update(EntityType::from_name(up.2.as_str()), Properties::Unknown(p)))
}

/// Assembles a plan from the final properties and the sibling updates.
fn finish_plan(
    props: PropMap,
    updates: Vec<(ThingsId, i32, String)>,
    new_id: String,
    now: UtcTime,
    args: &NewArgs,
    Ghost(final_props): Ghost<Map<Seq<char>, PropView>>,
    Ghost(sibs): Ghost<Seq<&Task>>,
    Ghost(at): Ghost<int>,
) -> (plan: NewPlan)
    requires
        props.wf(),
        props.values().remove("nt"@) == final_props.remove("nt"@),
        notes_prop_ok(props.values(), args.notes@),
        crate::commands::placement::needs_rebalance(indexes_of(sibs), at)
            ==> rebalance_updates(sibs, at, updates@),
        !crate::commands::placement::needs_rebalance(indexes_of(sibs), at)
            ==> updates@.len() == 0,
    ensures
        plan_holds(plan, *args, final_props, sibs, at, new_id@, now),
{
    let ghost id_view = new_id@;
    let mut changes: Vec<(String, WireObject)> = Vec::new();
    changes.push((new_id.clone(), WireObject::create(EntityType::Task6, Properties::Unknown(props))));
    let n = updates.len();
    let mut k: usize = 0;
    while k < n
        invariant
            n == updates@.len(),
            k <= n,
            changes@.len() == 1 + k,
            changes@[0].0@ == id_view,
            changes@[0].1.operation_type == crate::wire::codes::OperationType::Create,
            changes@[0].1.entity_type == Some(EntityType::Task6),
            changes@[0].1.payload matches Properties::Unknown(p) && {
                &&& p.wf()
                &&& p.values().remove("nt"@) == final_props.remove("nt"@)
                &&& notes_prop_ok(p.values(), args.notes@)
            },
            forall|j: int| 0 <= j < k ==> index_update_ok(#[trigger] changes@[j + 1], updates@[j], now),
        decreases n - k,
    {
        let up = (updates[k].0, updates[k].1, updates[k].2.clone());
        changes.push(index_update(up, now));
        k = k + 1;
    }
    let title = trim_str(args.title.as_str());
    let plan = NewPlan { new_uuid: new_id, changes, title };
    proof {
        reveal(plan_holds);
        if crate::commands::placement::needs_rebalance(indexes_of(sibs), at) {
            assert(rebalance_updates(sibs, at, updates@));
        }
    }
    plan
}

/// The Today placement next to a Today anchor, or none when the index
/// leaves `i32`.
fn today_placement(ts: &Vec<&Task>, tat: usize, today_ts: i64) -> (r: Option<(i64, i64)>)
    requires
        tat <= ts@.len(),
    ensures
        match r {
            Some((tir, ti)) => today_place(ts@, tat as int, today_ts) == (tir, ti as int) && i32::MIN <= ti <= i32::MAX,
            None => !(i32::MIN <= today_place(ts@, tat as int, today_ts).1 <= i32::MAX),
        },
{
    let (tir, ti): (i64, i64) = if tat < ts.len() {
        let next = ts[tat];
        let tir = match next.today_index_reference {
            Some(v) => v,
            None => today_ts,
        };
        (tir, next.today_index as i64 - 1)
    } else if tat > 0 {
        let prev = ts[tat - 1];
        let tir = match prev.today_index_reference {
            Some(v) => v,
            None => today_ts,
        };
        (tir, prev.today_index as i64 + 1)
    } else {
        (today_ts, 0)
    };
    if ti < i32::MIN as i64 || ti > i32::MAX as i64 {
        return None;
    }
    Some((tir, ti))
}

/// Plans the creation of a task: its properties from the arguments, its
/// place among the open siblings of its list (before or after an anchor),
/// and, next to a Today anchor, its place in Today; `new_id` is the new
/// task's identifier text.
pub fn build_new_plan(
    args: &NewArgs,
    store: &ThingsStore,
    now: UtcTime,
    today_ts: i64,
    offset: i32,
    new_id: String,
) -> (r: Result<NewPlan, String>)
    ensures
        new_plan_ok(*args, *store, now, today_ts, offset, new_id@, r),
{
    let today = plan_today_of(today_ts, now);
    let (mut props, anchor) = match settle_new_props(args, store, now, today_ts, offset) {
        Ok(x) => x,
        Err(e) => {
            proof {
                reveal(new_plan_ok);
            }
            return Err(e);
        },
    };
    let ghost m = new_settled(*args, *store, now, today_ts, offset)->Ok_0;
    let before = args.before_id.is_some();
    let anchor_is_today = match anchor {
        Some(a) => a.start == TaskStart::Anytime && (a.is_today(&today) || a.evening),
        None => false,
    };
    let target = props_bucket(&props);
    proof {
        reveal_strlit("nt");
        reveal_strlit("pr");
        reveal_strlit("ar");
        reveal_strlit("st");
        assert("pr"@[0] != "nt"@[0]);
        assert("ar"@[0] != "nt"@[0]);
        assert("st"@[0] != "nt"@[0]);
        lemma_agree_except_nt(props.values(), m, "pr"@);
        lemma_agree_except_nt(props.values(), m, "ar"@);
        lemma_agree_except_nt(props.values(), m, "st"@);
        assert(spec_props_bucket(props.values()) == spec_props_bucket(m));
    }
    let mut anchor_in_list = false;
    if let Some(a) = anchor {
        anchor_in_list = same_bucket(&task_bucket(a, store), &target);
        if !anchor_is_today && !anchor_in_list {
            proof {
                reveal_strlit("Cannot place new task relative to an item in a different container/list.");
                reveal(new_plan_ok);
            }
            return Err("Cannot place new task relative to an item in a different container/list.".to_owned());
        }
    }
    let sibs = siblings(store, &target);
    let ghost sibs_view = sibs@;
    let mut insert_at: usize = 0;
    if let Some(a) = anchor {
        if anchor_in_list {
            match position_of(&sibs, &a.uuid) {
                None => {
                    let r: Result<NewPlan, String> = Err("Anchor not found in target list.".to_owned());
                    proof {
                        reveal_strlit("Anchor not found in target list.");
                        reveal(new_plan_ok);
                        reveal(placed_ok);
                        assert(ordered_siblings(*store, target, sibs_view));
                        assert(placed_ok(*args, *store, now, today_ts, new_id@, m, sibs_view, r));
                    }
                    return r;
                },
                Some(k) => {
                    assert(k < sibs.len());
                    insert_at = if before { k } else { k + 1 };
                },
            }
        }
    }
    let r = place_new(args, store, now, today_ts, new_id, props, anchor, sibs, insert_at, Ghost(m));
    proof {
        reveal(new_plan_ok);
        assert(ordered_siblings(*store, target, sibs_view));
    }
    r
}

/// Places a new task with settled properties among its ordered siblings.
#[verifier::rlimit(40)]
fn place_new<'a>(
    args: &NewArgs,
    store: &'a ThingsStore,
    now: UtcTime,
    today_ts: i64,
    new_id: String,
    props: PropMap,
    anchor: Option<&'a Task>,
    sibs: Vec<&'a Task>,
    insert_at: usize,
    Ghost(m): Ghost<Map<Seq<char>, PropView>>,
) -> (r: Result<NewPlan, String>)
    requires
        props.wf(),
        props.values().remove("nt"@) == m.remove("nt"@),
        notes_prop_ok(props.values(), args.notes@),
        match anchor {
            Some(a) => plan_anchor(*args, *store) == Some(*a),
            None => plan_anchor(*args, *store) is None,
        },
        ordered_siblings(*store, spec_props_bucket(m), sibs@),
        insert_at <= sibs@.len(),
        insert_at == insert_position(*store, spec_props_bucket(m), sibs@, plan_anchor(*args, *store), args.before_id is Some),
        !(plan_anchor(*args, *store) is Some && spec_task_bucket(store.tasks@, plan_anchor(*args, *store)->0) == spec_props_bucket(m)
            && spec_pos(sibs@, plan_anchor(*args, *store)->0.uuid) is None),
    ensures
        placed_ok(*args, *store, now, today_ts, new_id@, m, sibs@, r),
{
    let today = plan_today_of(today_ts, now);
    let before = args.before_id.is_some();
    let mut props = props;
    let ghost at = insert_at as int;
    let ghost ixs = indexes_of(sibs@);
    let anchor_is_today = match anchor {
        Some(a) => a.start == TaskStart::Anytime && (a.is_today(&today) || a.evening),
        None => false,
    };
    if !fits(&sibs, insert_at) {
        proof {
            reveal_strlit("Sort index out of range.");
            reveal(placed_ok);
        }
        return Err("Sort index out of range.".to_owned());
    }
    let (ix, updates) = plan_ix_insert(&sibs, insert_at);
    let ghost m1 = m.insert("ix"@, PropView::Int(new_index(ixs, at) as i64));
    let ghost old_values = props.values();
    set_prop(&mut props, "ix", PropValue::Int(ix as i64));
    proof {
        reveal_strlit("nt");
        reveal_strlit("ix");
        reveal_strlit("sr");
        reveal_strlit("st");
        assert("ix"@[0] != "nt"@[0]);
        assert("sr"@[0] != "nt"@[0]);
        assert("st"@[0] != "nt"@[0]);
        lemma_insert_agree(old_values, m, "ix"@, PropView::Int(ix as i64));
        lemma_agree_except_nt(props.values(), m1, "st"@);
        lemma_agree_except_nt(props.values(), m1, "sr"@);
        reveal_strlit("sb");
        reveal_strlit("tir");
        reveal_strlit("ti");
        assert("sb"@[0] != "nt"@[0]);
        assert("tir"@[0] != "nt"@[0]);
        assert("ti"@[0] != "nt"@[0]);
    }
    let new_is_today = props_today(&props, today_ts);
    if new_is_today && anchor_is_today {
        let a = anchor.unwrap();
        let section: i64 = if a.evening { 1 } else { 0 };
        let ghost v0 = props.values();
        set_prop(&mut props, "sb", PropValue::Int(section));
        let ts = today_section(store, today, a.evening);
        let mut tat: usize = 0;
        if let Some(k) = position_of(&ts, &a.uuid) {
            let n = ts.len();
            assert(k < n);
            tat = if before { k } else { k + 1 };
        }
        let ghost tsv = ts@;
        let r = match today_placement(&ts, tat, today_ts) {
            None => {
                proof {
                    reveal_strlit("Sort index out of range.");
                }
                Err("Sort index out of range.".to_owned())
            },
            Some((tir, ti)) => {
                set_prop(&mut props, "tir", PropValue::Int(tir));
                set_prop(&mut props, "ti", PropValue::Int(ti));
                let ghost m2 = m1.insert("sb"@, PropView::Int(section)).insert("tir"@, PropView::Int(tir)).insert(
                    "ti"@,
                    PropView::Int(ti),
                );
                proof {
                    lemma_insert_agree(v0, m1, "sb"@, PropView::Int(section));
                    lemma_insert_agree(v0.insert("sb"@, PropView::Int(section)), m1.insert("sb"@, PropView::Int(section)), "tir"@, PropView::Int(tir));
                    lemma_insert_agree(v0.insert("sb"@, PropView::Int(section)).insert("tir"@, PropView::Int(tir)), m1.insert("sb"@, PropView::Int(section)).insert("tir"@, PropView::Int(tir)), "ti"@, PropView::Int(ti));
                }
                Ok(finish_plan(props, updates, new_id, now, args, Ghost(m2), Ghost(sibs@), Ghost(at)))
            },
        };
        proof {
            reveal(today_ok);
            reveal(placed_ok);
            assert(ordered_today(*store, today, a.evening, tsv));
            assert(today_ok(*args, *a, today_ts, m1, sibs@, at, new_id@, now, tsv, r));
        }
        return r;
    }
    let r = Ok(finish_plan(props, updates, new_id, now, args, Ghost(m1), Ghost(sibs@), Ghost(at)));
    proof {
        reveal(placed_ok);
    }
    r
}

} // verus!
