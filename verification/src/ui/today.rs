//! How the Today view groups its items.
use vstd::prelude::*;

use crate::ids::things_id::ThingsId;
use crate::store::model::Task;
use crate::store::queries::{spec_effective_area, spec_effective_project};
use crate::store::things_store::ThingsStore;
use crate::text::{concat2, concat3, decimal, decimal_string};
use crate::wire::codes::TaskType;

verus! {

/// Where an item of Today's regular section is grouped.
#[derive(Debug, Clone, Copy)]
pub enum TodayScope {
    Unscoped,
    Project(ThingsId),
    Area(ThingsId),
}

/// Where an item is grouped: a project under its area (or ungrouped); a
/// task under its project even when that project has an area, else under
/// its area, else ungrouped.
pub open spec fn today_scope(store: ThingsStore, t: Task) -> TodayScope {
    if t.item_type == TaskType::Project {
        match spec_effective_area(store.tasks@, t) {
            Some(a) => TodayScope::Area(a),
            None => TodayScope::Unscoped,
        }
    } else {
        match spec_effective_project(store.tasks@, t) {
            Some(p) => TodayScope::Project(p),
            None => match spec_effective_area(store.tasks@, t) {
                Some(a) => TodayScope::Area(a),
                None => TodayScope::Unscoped,
            },
        }
    }
}

fn scope_of(store: &ThingsStore, t: &Task) -> (r: TodayScope)
    ensures
        r == today_scope(*store, *t),
{
    if t.is_project() {
        return match store.effective_area_uuid(t) {
            Some(a) => TodayScope::Area(a),
            None => TodayScope::Unscoped,
        };
    }
    match store.effective_project_uuid(t) {
        Some(p) => TodayScope::Project(p),
        None => match store.effective_area_uuid(t) {
            Some(a) => TodayScope::Area(a),
            None => TodayScope::Unscoped,
        },
    }
}

/// The regular section of Today grouped: ungrouped items, then one group per
/// project, then one per area, groups in order of first appearance.
#[derive(Debug)]
pub struct TodayGroups<'a> {
    pub unscoped: Vec<&'a Task>,
    pub project_only: Vec<(ThingsId, Vec<&'a Task>)>,
    pub by_area: Vec<(ThingsId, Vec<&'a Task>)>,
}

/// The project identifier of a scope, if it is one.
pub open spec fn project_key(s: TodayScope) -> Option<ThingsId> {
    match s {
        TodayScope::Project(p) => Some(p),
        _ => None,
    }
}

/// The area identifier of a scope, if it is one.
pub open spec fn area_key(s: TodayScope) -> Option<ThingsId> {
    match s {
        TodayScope::Area(a) => Some(a),
        _ => None,
    }
}

/// The keys that `key` gives the items, each once, in order of first
/// appearance.
pub open spec fn first_seen(store: ThingsStore, items: Seq<&Task>, key: spec_fn(TodayScope) -> Option<ThingsId>) -> Seq<ThingsId>
    decreases items.len(),
{
    if items.len() == 0 {
        Seq::empty()
    } else {
        let r = first_seen(store, items.drop_last(), key);
        match key(today_scope(store, *items.last())) {
            Some(k) => if r.contains(k) {
                r
            } else {
                r.push(k)
            },
            None => r,
        }
    }
}

/// The groups of Today's regular section name exactly the keys that its
/// items carry, each once.
pub proof fn lemma_first_seen_keys(store: ThingsStore, items: Seq<&Task>, key: spec_fn(TodayScope) -> Option<ThingsId>)
    ensures
        forall|k: ThingsId|
            first_seen(store, items, key).contains(k) <==> exists|i: int|
                0 <= i < items.len() && key(today_scope(store, *#[trigger] items[i])) == Some(k),
        forall|a: int, b: int|
            0 <= a < b < first_seen(store, items, key).len() ==> first_seen(store, items, key)[a]
                != first_seen(store, items, key)[b],
    decreases items.len(),
{
    if items.len() > 0 {
        let init = items.drop_last();
        lemma_first_seen_keys(store, init, key);
        let r = first_seen(store, init, key);
        let fs = first_seen(store, items, key);
        let kl = key(today_scope(store, *items.last()));
        assert(fs == match kl {
            Some(k0) => if r.contains(k0) { r } else { r.push(k0) },
            None => r,
        });
        assert forall|k: ThingsId|
            fs.contains(k) implies exists|i: int|
                0 <= i < items.len() && key(today_scope(store, *#[trigger] items[i])) == Some(k) by {
            if r.contains(k) {
                let i = choose|i: int| 0 <= i < init.len() && key(today_scope(store, *#[trigger] init[i])) == Some(k);
                assert(items[i] == init[i]);
            } else {
                let w = choose|w: int| 0 <= w < fs.len() && fs[w] == k;
                assert(w == r.len());
                assert(kl == Some(k));
                assert(items[items.len() - 1] == items.last());
            }
        }
        assert forall|k: ThingsId|
            (exists|i: int| 0 <= i < items.len() && key(today_scope(store, *#[trigger] items[i])) == Some(k))
                implies fs.contains(k) by {
            let i = choose|i: int| 0 <= i < items.len() && key(today_scope(store, *#[trigger] items[i])) == Some(k);
            if i < items.len() - 1 {
                assert(init[i] == items[i]);
                assert(r.contains(k));
                let w = choose|w: int| 0 <= w < r.len() && r[w] == k;
                assert(fs[w] == k);
            } else {
                assert(items[i] == items.last());
                if r.contains(k) {
                    let w = choose|w: int| 0 <= w < r.len() && r[w] == k;
                    assert(fs[w] == k);
                } else {
                    assert(fs[r.len() as int] == k);
                }
            }
        }
    }
}

/// The items of Today's regular section (not for this evening), in order.
pub open spec fn regular(items: Seq<&Task>) -> Seq<&Task> {
    items.filter(|t: &Task| !t.evening)
}

/// The items of Today's evening section, in order.
pub open spec fn evening(items: Seq<&Task>) -> Seq<&Task> {
    items.filter(|t: &Task| t.evening)
}

fn first_seen_of(store: &ThingsStore, items: &Vec<&Task>, projects: bool) -> (r: Vec<ThingsId>)
    ensures
        r@ == first_seen(*store, items@, if projects { |s: TodayScope| project_key(s) } else { |s: TodayScope| area_key(s) }),
{
    let ghost key = if projects { |s: TodayScope| project_key(s) } else { |s: TodayScope| area_key(s) };
    let mut r: Vec<ThingsId> = Vec::new();
    let mut k: usize = 0;
    proof {
        assert(items@.take(0) =~= Seq::<&Task>::empty());
    }
    while k < items.len()
        invariant
            k <= items@.len(),
            key == (if projects { |s: TodayScope| project_key(s) } else { |s: TodayScope| area_key(s) }),
            r@ == first_seen(*store, items@.take(k as int), key),
        decreases items@.len() - k,
    {
        let t = items[k];
        proof {
            assert(items@.take(k as int + 1).drop_last() =~= items@.take(k as int));
            assert(items@.take(k as int + 1).last() == t);
        }
        let s = scope_of(store, t);
        let found: Option<ThingsId> = match s {
            TodayScope::Project(p) => if projects {
                Some(p)
            } else {
                None
            },
            TodayScope::Area(a) => if projects {
                None
            } else {
                Some(a)
            },
            TodayScope::Unscoped => None,
        };
        if let Some(id) = found {
            let mut seen = false;
            let mut j: usize = 0;
            while j < r.len()
                invariant
                    j <= r@.len(),
                    seen == exists|m: int| 0 <= m < j && r@[m] == id,
                decreases r@.len() - j,
            {
                if r[j].same(&id) {
                    seen = true;
                }
                j = j + 1;
            }
            if !seen {
                r.push(id);
            }
        }
        k = k + 1;
    }
    proof {
        assert(items@.take(items@.len() as int) =~= items@);
    }
    r
}

fn same_scope(a: &TodayScope, b: &TodayScope) -> (r: bool)
    ensures
        r == (*a == *b),
{
    match (a, b) {
        (TodayScope::Unscoped, TodayScope::Unscoped) => true,
        (TodayScope::Project(x), TodayScope::Project(y)) => x.same(y),
        (TodayScope::Area(x), TodayScope::Area(y)) => x.same(y),
        _ => false,
    }
}

fn scoped_items<'a>(store: &ThingsStore, items: &Vec<&'a Task>, scope: TodayScope) -> (r: Vec<&'a Task>)
    ensures
        r@ == items@.filter(|t: &Task| today_scope(*store, *t) == scope),
{
    let ghost f = |t: &Task| today_scope(*store, *t) == scope;
    let mut r: Vec<&'a Task> = Vec::new();
    let mut k: usize = 0;
    while k < items.len()
        invariant
            k <= items@.len(),
            f == (|t: &Task| today_scope(*store, *t) == scope),
            r@ == items@.take(k as int).filter(f),
        decreases items@.len() - k,
    {
        let t = items[k];
        proof {
            assert(items@.take(k as int + 1) =~= items@.take(k as int).push(t));
            items@.take(k as int).lemma_filter_push(t, f);
        }
        if same_scope(&scope_of(store, t), &scope) {
            r.push(t);
        }
        k = k + 1;
    }
    proof {
        assert(items@.take(items@.len() as int) =~= items@);
    }
    r
}

/// The items whose `evening` flag is `flag`, in order.
pub fn section_items<'a>(items: &Vec<&'a Task>, flag: bool) -> (r: Vec<&'a Task>)
    ensures
        r@ == items@.filter(|t: &Task| t.evening == flag),
{
    let ghost f = |t: &Task| t.evening == flag;
    let mut r: Vec<&'a Task> = Vec::new();
    let mut k: usize = 0;
    while k < items.len()
        invariant
            k <= items@.len(),
            f == (|t: &Task| t.evening == flag),
            r@ == items@.take(k as int).filter(f),
        decreases items@.len() - k,
    {
        let t = items[k];
        proof {
            assert(items@.take(k as int + 1) =~= items@.take(k as int).push(t));
            items@.take(k as int).lemma_filter_push(t, f);
        }
        if t.evening == flag {
            r.push(t);
        }
        k = k + 1;
    }
    proof {
        assert(items@.take(items@.len() as int) =~= items@);
    }
    r
}

/// Groups Today's regular items (those not for this evening).
pub fn group_regular_items<'a>(store: &ThingsStore, items: &Vec<&'a Task>) -> (r: TodayGroups<'a>)
    ensures
        ({
            let reg = items@.filter(|t: &Task| t.evening == false);
            &&& r.unscoped@ == reg.filter(|t: &Task| today_scope(*store, *t) == TodayScope::Unscoped)
            &&& r.project_only@.map_values(|g: (ThingsId, Vec<&Task>)| g.0) == first_seen(*store, reg, |s: TodayScope| project_key(s))
            &&& forall|i: int| 0 <= i < r.project_only@.len() ==> (#[trigger] r.project_only@[i]).1@ == reg.filter(
                |t: &Task| today_scope(*store, *t) == TodayScope::Project(r.project_only@[i].0),
            )
            &&& r.by_area@.map_values(|g: (ThingsId, Vec<&Task>)| g.0) == first_seen(*store, reg, |s: TodayScope| area_key(s))
            &&& forall|i: int| 0 <= i < r.by_area@.len() ==> (#[trigger] r.by_area@[i]).1@ == reg.filter(
                |t: &Task| today_scope(*store, *t) == TodayScope::Area(r.by_area@[i].0),
            )
        }),
{
    let reg = section_items(items, false);
    let unscoped = scoped_items(store, &reg, TodayScope::Unscoped);
    let pkeys = first_seen_of(store, &reg, true);
    let akeys = first_seen_of(store, &reg, false);
    let mut project_only: Vec<(ThingsId, Vec<&'a Task>)> = Vec::new();
    let mut k: usize = 0;
    while k < pkeys.len()
        invariant
            k <= pkeys@.len(),
            project_only@.map_values(|g: (ThingsId, Vec<&Task>)| g.0) == pkeys@.take(k as int),
            forall|i: int| 0 <= i < project_only@.len() ==> (#[trigger] project_only@[i]).1@ == reg@.filter(
                |t: &Task| today_scope(*store, *t) == TodayScope::Project(project_only@[i].0),
            ),
        decreases pkeys@.len() - k,
    {
        let p = pkeys[k];
        let members = scoped_items(store, &reg, TodayScope::Project(p));
        let ghost before = project_only@;
        project_only.push((p, members));
        proof {
            let f = |g: (ThingsId, Vec<&Task>)| g.0;
            assert(project_only@.map_values(f) =~= before.map_values(f).push(p));
            assert(pkeys@.take(k as int + 1) =~= pkeys@.take(k as int).push(p));
        }
        k = k + 1;
    }
    let mut by_area: Vec<(ThingsId, Vec<&'a Task>)> = Vec::new();
    let mut k: usize = 0;
    while k < akeys.len()
        invariant
            k <= akeys@.len(),
            by_area@.map_values(|g: (ThingsId, Vec<&Task>)| g.0) == akeys@.take(k as int),
            forall|i: int| 0 <= i < by_area@.len() ==> (#[trigger] by_area@[i]).1@ == reg@.filter(
                |t: &Task| today_scope(*store, *t) == TodayScope::Area(by_area@[i].0),
            ),
        decreases akeys@.len() - k,
    {
        let a = akeys[k];
        let members = scoped_items(store, &reg, TodayScope::Area(a));
        let ghost before = by_area@;
        by_area.push((a, members));
        proof {
            let f = |g: (ThingsId, Vec<&Task>)| g.0;
            assert(by_area@.map_values(f) =~= before.map_values(f).push(a));
            assert(akeys@.take(k as int + 1) =~= akeys@.take(k as int).push(a));
        }
        k = k + 1;
    }
    proof {
        assert(pkeys@.take(pkeys@.len() as int) =~= pkeys@);
        assert(akeys@.take(akeys@.len() as int) =~= akeys@);
    }
    TodayGroups { unscoped, project_only, by_area }
}

/// `a + b`, saturating at `u16::MAX`.
pub open spec fn sat(a: int, b: int) -> int {
    if a + b > u16::MAX { u16::MAX as int } else { a + b }
}

/// The height after stacking groups under `h`: each group adds a line and
/// its own height, saturating.
pub open spec fn stack_groups(h: int, groups: Seq<u16>) -> int
    decreases groups.len(),
{
    if groups.len() == 0 {
        h
    } else {
        sat(sat(stack_groups(h, groups.drop_last()), 1), groups.last() as int)
    }
}

/// The height of Today's regular section: the ungrouped block (when there
/// is one), then each project group and each area group with a line each,
/// then a gap line between blocks (the count of gaps cut to 16 bits),
/// saturating throughout.
pub open spec fn regular_height(unscoped: Option<u16>, projects: Seq<u16>, areas: Seq<u16>) -> int {
    let h0 = match unscoped { Some(u) => u as int, None => 0 };
    let h1 = stack_groups(stack_groups(h0, projects), areas);
    let blocks = (if unscoped is Some { 1int } else { 0 }) + projects.len() + areas.len();
    if blocks > 1 { sat(h1, ((blocks - 1) as u16) as int) } else { h1 }
}

fn stack<'a>(h: u16, groups: &Vec<u16>) -> (r: u16)
    ensures
        r == stack_groups(h as int, groups@),
{
    let mut acc = h;
    let mut k: usize = 0;
    while k < groups.len()
        invariant
            k <= groups@.len(),
            acc == stack_groups(h as int, groups@.take(k as int)),
        decreases groups@.len() - k,
    {
        proof {
            assert(groups@.take(k as int + 1).drop_last() =~= groups@.take(k as int));
        }
        acc = acc.saturating_add(1).saturating_add(groups[k]);
        k = k + 1;
    }
    proof {
        assert(groups@.take(groups@.len() as int) =~= groups@);
    }
    acc
}

/// The height of Today's regular section from its blocks' heights (each
/// group's height with its header).
pub fn regular_grouped_height(unscoped: Option<u16>, projects: &Vec<u16>, areas: &Vec<u16>) -> (r: u16)
    ensures
        r == regular_height(unscoped, projects@, areas@),
{
    let h0: u16 = match unscoped {
        Some(u) => u,
        None => 0,
    };
    let h1 = stack(stack(h0, projects), areas);
    let first: usize = if unscoped.is_some() { 1 } else { 0 };
    let blocks: u128 = first as u128 + projects.len() as u128 + areas.len() as u128;
    if blocks > 1 {
        #[verifier::truncate]
        let gaps: u16 = (blocks - 1) as u16;
        proof {
            assert(gaps == ((blocks - 1) as u16));
        }
        h1.saturating_add(gaps)
    } else {
        h1
    }
}

/// The height of the Today view: one line when it is empty; else the header,
/// then a gap and the regular section when there is one, then a gap, the
/// evening header, a gap and the evening tasks when there are some;
/// saturating.
pub open spec fn today_view_height(empty: bool, regular: Option<u16>, evening: Option<u16>) -> int {
    if empty {
        1
    } else {
        let h1 = match regular { Some(r) => sat(sat(1, 1), r as int), None => 1 };
        match evening {
            Some(e) => sat(sat(sat(sat(h1, 1), 1), 1), e as int),
            None => h1,
        }
    }
}

/// The height of the Today view from its sections' heights.
pub fn today_height(empty: bool, regular: Option<u16>, evening: Option<u16>) -> (r: u16)
    ensures
        r == today_view_height(empty, regular, evening),
{
    if empty {
        return 1;
    }
    let mut h: u16 = 1;
    if let Some(rh) = regular {
        h = h.saturating_add(1);
        h = h.saturating_add(rh);
    }
    if let Some(eh) = evening {
        h = h.saturating_add(1);
        h = h.saturating_add(1);
        h = h.saturating_add(1);
        h = h.saturating_add(eh);
    }
    h
}

/// How many of the items are projects.
pub open spec fn project_count(items: Seq<&Task>) -> nat {
    items.filter(|t: &Task| t.item_type == TaskType::Project).len()
}

/// How many of the items are not projects.
pub open spec fn task_count(items: Seq<&Task>) -> nat {
    items.filter(|t: &Task| t.item_type != TaskType::Project).len()
}

/// The header line of Today: its icon and name, how many tasks, and how many
/// projects when there are any.
pub open spec fn today_header(items: Seq<&Task>) -> Seq<char> {
    let p = project_count(items);
    let projects = if p > 0 {
        ", "@ + decimal(p) + if p == 1 {
            " project"@
        } else {
            " projects"@
        }
    } else {
        Seq::empty()
    };
    "\u{2b51} Today  ("@ + decimal(task_count(items)) + " tasks"@ + projects + ")"@
}

/// The header line of Today for its items.
pub fn today_header_text(items: &Vec<&Task>) -> (r: String)
    ensures
        r@ == today_header(items@),
{
    let ghost fp = |t: &Task| t.item_type == TaskType::Project;
    let ghost ft = |t: &Task| t.item_type != TaskType::Project;
    let mut projects: usize = 0;
    let mut tasks: usize = 0;
    let mut k: usize = 0;
    while k < items.len()
        invariant
            k <= items@.len(),
            fp == (|t: &Task| t.item_type == TaskType::Project),
            ft == (|t: &Task| t.item_type != TaskType::Project),
            projects == items@.take(k as int).filter(fp).len(),
            tasks == items@.take(k as int).filter(ft).len(),
            projects + tasks == k,
        decreases items@.len() - k,
    {
        let t = items[k];
        proof {
            assert(items@.take(k as int + 1) =~= items@.take(k as int).push(t));
            items@.take(k as int).lemma_filter_push(t, fp);
            items@.take(k as int).lemma_filter_push(t, ft);
        }
        if t.is_project() {
            projects = projects + 1;
        } else {
            tasks = tasks + 1;
        }
        k = k + 1;
    }
    proof {
        assert(items@.take(items@.len() as int) =~= items@);
    }
    let count = decimal_string(tasks as u64);
    let head = concat3("\u{2b51} Today  (", count.as_str(), " tasks");
    let tail = if projects > 0 {
        let n = decimal_string(projects as u64);
        let label = if projects == 1 { " project" } else { " projects" };
        concat3(", ", n.as_str(), label)
    } else {
        String::new()
    };
    let body = concat2(head.as_str(), tail.as_str());
    let r = concat2(body.as_str(), ")");
    proof {
        reveal_strlit("\u{2b51} Today  (");
        reveal_strlit(" tasks");
        reveal_strlit(", ");
        reveal_strlit(" project");
        reveal_strlit(" projects");
        reveal_strlit(")");
        assert(r@ =~= today_header(items@));
    }
    r
}

} // verus!
