//! How the projects list groups open projects by area.
use vstd::prelude::*;

use crate::commands::views::{by_index, kept};
use crate::ids::matching::{id_sort_key, spec_id_key};
use crate::ids::things_id::ThingsId;
use crate::sorting::{key_le, sort_by, sorted_by};
use crate::store::model::{Area, Task};
use crate::store::queries::projects_filter;
use crate::store::things_store::{first_match, first_where, select, ThingsStore};
use crate::wire::codes::{TaskStatus, TaskType};

verus! {

broadcast use vstd::seq_lib::group_to_multiset_ensures;

/// Arguments of `projects list`.
#[derive(Debug)]
pub struct ProjectsListArgs {
    /// Show notes for each project.
    pub detailed: bool,
}

/// The open projects grouped for listing: those in no area, then each area
/// that holds some, with its projects.
#[derive(Debug)]
pub struct ProjectsListing<'a> {
    pub no_area: Vec<&'a Task>,
    pub by_area: Vec<(ThingsId, Vec<&'a Task>)>,
}

/// Whether a project is listed: an open project.
pub open spec fn listed(t: Task) -> bool {
    projects_filter(Some(TaskStatus::Incomplete), t)
}

/// Where an area sorts: its sort index, or last when the store lacks it.
pub open spec fn area_rank(store: ThingsStore, id: ThingsId) -> i32 {
    match first_match(store.areas@, |a: Area| a.uuid == id) {
        Some(a) => a.index,
        None => i32::MAX,
    }
}

/// The order of area groups: by rank, then by identifier text.
pub open spec fn area_order(store: ThingsStore, id: ThingsId) -> (i128, i128, i128, i128) {
    (area_rank(store, id) as i128, spec_id_key(id).0 as i128, spec_id_key(id).1 as i128, 0)
}

/// The order of ranked area identifiers.
pub open spec fn ranked_order(p: (i32, ThingsId)) -> (i128, i128, i128, i128) {
    (p.0 as i128, spec_id_key(p.1).0 as i128, spec_id_key(p.1).1 as i128, 0)
}

fn ranked_order_of(p: &(i32, ThingsId)) -> (k: (i128, i128, i128, i128))
    ensures
        k == ranked_order(*p),
{
    let idk = id_sort_key(&p.1);
    (p.0 as i128, idk.0, idk.1, 0i128)
}

fn by_index_of(t: &&Task) -> (k: (i128, i128, i128, i128))
    ensures
        k == by_index(*t),
{
    (t.index as i128, 0i128, 0i128, 0i128)
}

fn area_id_is(id: &ThingsId, a: &Area) -> (b: bool)
    ensures
        b == (a.uuid == *id),
{
    a.uuid.same(id)
}

fn area_rank_of(store: &ThingsStore, id: &ThingsId) -> (r: i32)
    ensures
        r == area_rank(*store, *id),
{
    let ghost p = |c: ThingsId, a: Area| a.uuid == c;
    let found = first_where(&store.areas, id, area_id_is, Ghost(p));
    proof {
        assert((|x: Area| p(*id, x)) =~= (|a: Area| a.uuid == *id));
    }
    match found {
        Some(a) => a.index,
        None => i32::MAX,
    }
}

fn no_area_keep(c: &(), t: &Task) -> (b: bool)
    ensures
        b == (listed(*t) && t.area is None),
{
    proof {
        reveal_strlit("Task6");
    }
    !t.trashed && t.is_project() && crate::text::str_eq(t.entity.as_str(), "Task6") && t.status
        == TaskStatus::Incomplete && t.area.is_none()
}

fn in_area_keep(c: &ThingsId, t: &Task) -> (b: bool)
    ensures
        b == (listed(*t) && t.area == Some(*c)),
{
    proof {
        reveal_strlit("Task6");
    }
    !t.trashed && t.is_project() && crate::text::str_eq(t.entity.as_str(), "Task6") && t.status
        == TaskStatus::Incomplete && match t.area {
        Some(a) => a.same(c),
        None => false,
    }
}

/// Whether some listed project lies in area `a`.
pub open spec fn area_used(store: ThingsStore, a: ThingsId) -> bool {
    exists|k: int| 0 <= k < store.tasks@.len() && listed(#[trigger] store.tasks@[k]) && store.tasks@[k].area == Some(a)
}

fn ranked_areas(store: &ThingsStore) -> (r: Vec<(i32, ThingsId)>)
    ensures
        forall|i: int| 0 <= i < r@.len() ==> (#[trigger] r@[i]).0 == area_rank(*store, r@[i].1),
        forall|a: ThingsId| r@.contains((area_rank(*store, a), a)) <==> area_used(*store, a),
{
    let mut r: Vec<(i32, ThingsId)> = Vec::new();
    let mut k: usize = 0;
    while k < store.tasks.len()
        invariant
            k <= store.tasks@.len(),
            forall|i: int| 0 <= i < r@.len() ==> (#[trigger] r@[i]).0 == area_rank(*store, r@[i].1),
            forall|a: ThingsId| r@.contains((area_rank(*store, a), a)) <==> exists|j: int|
                0 <= j < k && listed(#[trigger] store.tasks@[j]) && store.tasks@[j].area == Some(a),
        decreases store.tasks@.len() - k,
    {
        let t = &store.tasks[k];
        let ghost before = r@;
        if no_area_keep_listed(t) {
            if let Some(a) = t.area {
                let rank = area_rank_of(store, &a);
                r.push((rank, a));
                proof {
                    assert forall|b: ThingsId| r@.contains((area_rank(*store, b), b)) <==> exists|j: int|
                        0 <= j < k + 1 && listed(#[trigger] store.tasks@[j]) && store.tasks@[j].area == Some(b) by {
                        if b == a {
                            assert(r@[r@.len() - 1] == (area_rank(*store, b), b));
                        }
                        if before.contains((area_rank(*store, b), b)) {
                            let w = choose|w: int| 0 <= w < before.len() && before[w] == (area_rank(*store, b), b);
                            assert(r@[w] == before[w]);
                        }
                        if r@.contains((area_rank(*store, b), b)) && b != a {
                            let w = choose|w: int| 0 <= w < r@.len() && r@[w] == (area_rank(*store, b), b);
                            assert(before[w] == r@[w]);
                        }
                    }
                }
            }
        }
        k = k + 1;
    }
    r
}

fn no_area_keep_listed(t: &Task) -> (b: bool)
    ensures
        b == listed(*t),
{
    proof {
        reveal_strlit("Task6");
    }
    !t.trashed && t.is_project() && crate::text::str_eq(t.entity.as_str(), "Task6") && t.status
        == TaskStatus::Incomplete
}

fn contains_id(v: &Vec<(i32, ThingsId)>, id: &ThingsId) -> (b: bool)
    ensures
        b == exists|j: int| 0 <= j < v@.len() && (#[trigger] v@[j]).1 == *id,
{
    let mut j: usize = 0;
    while j < v.len()
        invariant
            j <= v@.len(),
            forall|m: int| 0 <= m < j ==> (#[trigger] v@[m]).1 != *id,
        decreases v@.len() - j,
    {
        if v[j].1.same(id) {
            return true;
        }
        j = j + 1;
    }
    false
}

/// The areas that hold listed projects, each once, in group order.
fn area_keys(store: &ThingsStore) -> (r: Vec<(i32, ThingsId)>)
    ensures
        forall|i: int, j: int| 0 <= i < j < r@.len() ==> (#[trigger] r@[i]).1 != (#[trigger] r@[j]).1,
        forall|i: int| 0 <= i < r@.len() ==> (#[trigger] r@[i]).0 == area_rank(*store, r@[i].1),
        forall|a: ThingsId| (exists|i: int| 0 <= i < r@.len() && (#[trigger] r@[i]).1 == a) <==> area_used(*store, a),
        sorted_by(r@, |p: (i32, ThingsId)| ranked_order(p)),
{
    let ranked = ranked_areas(store);
    let sorted = sort_by(ranked, ranked_order_of, Ghost(|p: (i32, ThingsId)| ranked_order(p)));
    proof {
        assert forall|a: ThingsId| sorted@.contains((area_rank(*store, a), a)) <==> area_used(*store, a) by {
            assert(sorted@.to_multiset().count((area_rank(*store, a), a)) == ranked@.to_multiset().count((area_rank(*store, a), a)));
        }
        assert forall|i: int| 0 <= i < sorted@.len() implies (#[trigger] sorted@[i]).0 == area_rank(*store, sorted@[i].1) by {
            assert(sorted@.contains(sorted@[i]));
            assert(sorted@.to_multiset().count(sorted@[i]) > 0);
            assert(ranked@.contains(sorted@[i]));
        }
    }
    let mut out: Vec<(i32, ThingsId)> = Vec::new();
    let mut i: usize = 0;
    while i < sorted.len()
        invariant
            i <= sorted@.len(),
            sorted_by(sorted@, |p: (i32, ThingsId)| ranked_order(p)),
            forall|m: int| 0 <= m < sorted@.len() ==> (#[trigger] sorted@[m]).0 == area_rank(*store, sorted@[m].1),
            forall|a: ThingsId| sorted@.contains((area_rank(*store, a), a)) <==> area_used(*store, a),
            forall|x: int, y: int| 0 <= x < y < out@.len() ==> (#[trigger] out@[x]).1 != (#[trigger] out@[y]).1,
            forall|x: int| 0 <= x < out@.len() ==> sorted@.contains(#[trigger] out@[x]),
            forall|m: int| 0 <= m < i ==> exists|x: int| 0 <= x < out@.len() && (#[trigger] out@[x]).1 == (#[trigger] sorted@[m]).1,
            sorted_by(out@, |p: (i32, ThingsId)| ranked_order(p)),
            forall|x: int, m: int| 0 <= x < out@.len() && i <= m < sorted@.len() ==> key_le(ranked_order(#[trigger] out@[x]), ranked_order(#[trigger] sorted@[m])),
        decreases sorted@.len() - i,
    {
        let p = sorted[i];
        if !contains_id(&out, &p.1) {
            let ghost before = out@;
            out.push(p);
            proof {
                assert forall|x: int, m: int| 0 <= x < out@.len() && i + 1 <= m < sorted@.len() implies key_le(ranked_order(#[trigger] out@[x]), ranked_order(#[trigger] sorted@[m])) by {
                    if x < before.len() {
                        assert(key_le(ranked_order(before[x]), ranked_order(sorted@[m])));
                    } else {
                        assert(key_le(ranked_order(sorted@[i as int]), ranked_order(sorted@[m])));
                    }
                }
                assert forall|x: int, y: int| 0 <= x < y < out@.len() implies key_le(ranked_order(#[trigger] out@[x]), ranked_order(#[trigger] out@[y])) by {
                    if y < before.len() {
                        assert(key_le(ranked_order(before[x]), ranked_order(before[y])));
                    } else {
                        assert(key_le(ranked_order(before[x]), ranked_order(sorted@[i as int])));
                    }
                }
                assert forall|m: int| 0 <= m < i + 1 implies exists|x: int| 0 <= x < out@.len() && (#[trigger] out@[x]).1 == (#[trigger] sorted@[m]).1 by {
                    if m < i {
                        let x = choose|x: int| 0 <= x < before.len() && (#[trigger] before[x]).1 == sorted@[m].1;
                        assert(out@[x] == before[x]);
                    } else {
                        assert(out@[out@.len() - 1] == sorted@[m]);
                    }
                }
                assert forall|x: int, y: int| 0 <= x < y < out@.len() implies (#[trigger] out@[x]).1 != (#[trigger] out@[y]).1 by {
                    if y == out@.len() - 1 {
                        assert(before[x] == out@[x]);
                    }
                }
                assert forall|x: int| 0 <= x < out@.len() implies sorted@.contains(#[trigger] out@[x]) by {
                    if x < before.len() {
                        assert(before[x] == out@[x]);
                    } else {
                        assert(sorted@[i as int] == out@[x]);
                    }
                }
            }
        } else {
            proof {
                assert forall|m: int| 0 <= m < i + 1 implies exists|x: int| 0 <= x < out@.len() && (#[trigger] out@[x]).1 == (#[trigger] sorted@[m]).1 by {
                    if m == i {
                        let x = choose|x: int| 0 <= x < out@.len() && (#[trigger] out@[x]).1 == p.1;
                        assert(out@[x].1 == sorted@[m].1);
                    }
                }
            }
        }
        i = i + 1;
    }
    proof {
        assert forall|a: ThingsId| (exists|x: int| 0 <= x < out@.len() && (#[trigger] out@[x]).1 == a) <==> area_used(*store, a) by {
            if area_used(*store, a) {
                assert(sorted@.contains((area_rank(*store, a), a)));
                let m = choose|m: int| 0 <= m < sorted@.len() && sorted@[m] == (area_rank(*store, a), a);
                assert(exists|x: int| 0 <= x < out@.len() && (#[trigger] out@[x]).1 == sorted@[m].1);
            }
            if exists|x: int| 0 <= x < out@.len() && (#[trigger] out@[x]).1 == a {
                let x = choose|x: int| 0 <= x < out@.len() && (#[trigger] out@[x]).1 == a;
                assert(sorted@.contains(out@[x]));
                let m = choose|m: int| 0 <= m < sorted@.len() && sorted@[m] == out@[x];
                assert(sorted@[m].0 == area_rank(*store, sorted@[m].1));
            }
        }
        assert forall|x: int| 0 <= x < out@.len() implies (#[trigger] out@[x]).0 == area_rank(*store, out@[x].1) by {
            assert(sorted@.contains(out@[x]));
            let m = choose|m: int| 0 <= m < sorted@.len() && sorted@[m] == out@[x];
            assert(sorted@[m].0 == area_rank(*store, sorted@[m].1));
        }
    }
    out
}

/// The open projects grouped as the projects list shows them: those in no
/// area by sort index; then each area holding some, once, by the area's
/// sort index (unknown areas last) and identifier, with its projects by
/// sort index.
pub fn project_listing<'a>(store: &'a ThingsStore) -> (r: ProjectsListing<'a>)
    ensures
        r.no_area@.to_multiset() == kept(*store, |t: Task| listed(t) && t.area is None),
        sorted_by(r.no_area@, |t: &Task| by_index(t)),
        forall|i: int, j: int| 0 <= i < j < r.by_area@.len() ==> (#[trigger] r.by_area@[i]).0 != (#[trigger] r.by_area@[j]).0,
        forall|a: ThingsId| (exists|i: int| 0 <= i < r.by_area@.len() && (#[trigger] r.by_area@[i]).0 == a) <==> area_used(*store, a),
        forall|i: int, j: int| 0 <= i < j < r.by_area@.len() ==> key_le(
            area_order(*store, (#[trigger] r.by_area@[i]).0),
            area_order(*store, (#[trigger] r.by_area@[j]).0),
        ),
        forall|i: int|
            0 <= i < r.by_area@.len() ==> {
                &&& (#[trigger] r.by_area@[i]).1@.to_multiset() == kept(*store, |t: Task| listed(t) && t.area == Some(r.by_area@[i].0))
                &&& sorted_by(r.by_area@[i].1@, |t: &Task| by_index(t))
            },
{
    let ghost pn = |c: (), t: Task| listed(t) && t.area is None;
    let no_area = sort_by(select(&store.tasks, &(), no_area_keep, Ghost(pn)), by_index_of, Ghost(|t: &Task| by_index(t)));
    proof {
        assert((|x: Task| pn((), x)) =~= (|t: Task| listed(t) && t.area is None));
    }
    let keys = area_keys(store);
    let mut by_area: Vec<(ThingsId, Vec<&'a Task>)> = Vec::new();
    let mut k: usize = 0;
    while k < keys.len()
        invariant
            k <= keys@.len(),
            by_area@.len() == k,
            forall|i: int| 0 <= i < k ==> (#[trigger] by_area@[i]).0 == keys@[i].1,
            forall|i: int|
                0 <= i < k ==> {
                    &&& (#[trigger] by_area@[i]).1@.to_multiset() == kept(*store, |t: Task| listed(t) && t.area == Some(by_area@[i].0))
                    &&& sorted_by(by_area@[i].1@, |t: &Task| by_index(t))
                },
        decreases keys@.len() - k,
    {
        let a = keys[k].1;
        let ghost pa = |c: ThingsId, t: Task| listed(t) && t.area == Some(c);
        let items = sort_by(select(&store.tasks, &a, in_area_keep, Ghost(pa)), by_index_of, Ghost(|t: &Task| by_index(t)));
        proof {
            assert((|x: Task| pa(a, x)) =~= (|t: Task| listed(t) && t.area == Some(a)));
        }
        by_area.push((a, items));
        k = k + 1;
    }
    proof {
        assert forall|i: int, j: int| 0 <= i < j < by_area@.len() implies key_le(
            area_order(*store, (#[trigger] by_area@[i]).0),
            area_order(*store, (#[trigger] by_area@[j]).0),
        ) by {
            assert(key_le(ranked_order(keys@[i]), ranked_order(keys@[j])));
        }
        assert forall|i: int, j: int| 0 <= i < j < by_area@.len() implies (#[trigger] by_area@[i]).0 != (#[trigger] by_area@[j]).0 by {
            assert(keys@[i].1 != keys@[j].1);
        }
        assert forall|a: ThingsId| (exists|i: int| 0 <= i < by_area@.len() && (#[trigger] by_area@[i]).0 == a) <==> area_used(*store, a) by {
            if exists|i: int| 0 <= i < by_area@.len() && (#[trigger] by_area@[i]).0 == a {
                let i = choose|i: int| 0 <= i < by_area@.len() && (#[trigger] by_area@[i]).0 == a;
                assert(keys@[i].1 == a);
            }
            if area_used(*store, a) {
                let i = choose|i: int| 0 <= i < keys@.len() && (#[trigger] keys@[i]).1 == a;
                assert(by_area@[i].0 == a);
            }
        }
    }
    let r = ProjectsListing { no_area, by_area };
    proof {
        assert(r.by_area@ == by_area@);
    }
    r
}

/// The projects list shows only open, untrashed projects, and its area
/// groups come in ascending order of the areas' sort indexes (areas the
/// store lacks last).
pub proof fn lemma_listing_order(store: ThingsStore, ids: Seq<ThingsId>, t: Task)
    requires
        forall|i: int, j: int| 0 <= i < j < ids.len() ==> key_le(
            area_order(store, #[trigger] ids[i]),
            area_order(store, #[trigger] ids[j]),
        ),
    ensures
        listed(t) ==> !t.trashed && t.item_type == TaskType::Project && t.status == TaskStatus::Incomplete,
        forall|i: int, j: int| 0 <= i < j < ids.len() ==> area_rank(store, #[trigger] ids[i]) <= area_rank(store, #[trigger] ids[j]),
        forall|i: int| 0 <= i < ids.len() ==> (area_rank(store, #[trigger] ids[i]) == i32::MAX || exists|k: int|
            0 <= k < store.areas@.len() && store.areas@[k].uuid == ids[i] && store.areas@[k].index == area_rank(store, ids[i])),
{
    assert forall|i: int| 0 <= i < ids.len() implies (area_rank(store, #[trigger] ids[i]) == i32::MAX || exists|k: int|
        0 <= k < store.areas@.len() && store.areas@[k].uuid == ids[i] && store.areas@[k].index == area_rank(store, ids[i])) by {
        lemma_first_match_found(store.areas@, |a: Area| a.uuid == ids[i]);
    }
}

proof fn lemma_first_match_found<T>(s: Seq<T>, p: spec_fn(T) -> bool)
    ensures
        match first_match(s, p) {
            Some(x) => exists|k: int| 0 <= k < s.len() && s[k] == x && p(x),
            None => true,
        },
    decreases s.len(),
{
    if s.len() > 0 && !p(s[0]) {
        lemma_first_match_found(s.drop_first(), p);
        if let Some(x) = first_match(s, p) {
            let k = choose|k: int| 0 <= k < s.drop_first().len() && s.drop_first()[k] == x && p(x);
            assert(s[k + 1] == x);
        }
    }
}

} // verus!
