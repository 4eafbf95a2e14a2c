//! Placing an item among ordered siblings by sort index.
use vstd::prelude::*;

use crate::ids::things_id::ThingsId;
use crate::store::model::Task;

verus! {

/// The sort indexes of a list of tasks.
pub open spec fn indexes_of(s: Seq<&Task>) -> Seq<i32> {
    s.map_values(|t: &Task| t.index)
}

/// Halving that rounds toward zero, as integer division does.
pub open spec fn half(x: int) -> int {
    if x >= 0 {
        x / 2
    } else {
        -((-x) / 2)
    }
}

/// The spacing of sort indexes after a rebalance.
pub const STRIDE: i32 = 1024;

/// The slot a sibling takes when a new item goes in at `at`.
pub open spec fn slot_of(j: int, at: int) -> int {
    if j < at {
        j
    } else {
        j + 1
    }
}

/// Whether placing at `at` among sibling indexes `ixs` needs a rebalance:
/// both neighbours exist and leave no room between them.
pub open spec fn needs_rebalance(ixs: Seq<i32>, at: int) -> bool {
    0 < at < ixs.len() && !(ixs[at - 1] + 1 < ixs[at])
}

/// The sort index a new item gets at position `at` among siblings with
/// indexes `ixs`: 0 alone, one below the first, one above the last, midway
/// between neighbours with room, and its slot's multiple of the stride in a
/// rebalance.
pub open spec fn new_index(ixs: Seq<i32>, at: int) -> int {
    if ixs.len() == 0 {
        0
    } else if at == 0 {
        ixs[0] - 1
    } else if at == ixs.len() {
        ixs[at - 1] + 1
    } else if ixs[at - 1] + 1 < ixs[at] {
        half(ixs[at - 1] + ixs[at])
    } else {
        (at + 1) * 1024
    }
}

/// The siblings (by position) a rebalance renumbers: those whose index is
/// not already their slot's multiple of the stride.
pub open spec fn moved(ixs: Seq<i32>, at: int, j: int) -> bool {
    ixs[j] != (slot_of(j, at) + 1) * 1024
}

/// Whether `ups` lists, in sibling order, the renumbered siblings of a
/// rebalance with their new indexes.
pub open spec fn rebalance_updates(ordered: Seq<&Task>, at: int, ups: Seq<(ThingsId, i32, String)>) -> bool {
    let ixs = indexes_of(ordered);
    let js = Seq::new(ordered.len(), |j: int| j).filter(|j: int| moved(ixs, at, j));
    &&& ups.len() == js.len()
    &&& forall|k: int|
        0 <= k < ups.len() ==> {
            &&& (#[trigger] ups[k]).0 == ordered[js[k]].uuid
            &&& ups[k].1 == (slot_of(js[k], at) + 1) * 1024
            &&& ups[k].2 == ordered[js[k]].entity
        }
}

/// Whether placing at `at` stays within `i32` arithmetic.
pub open spec fn placement_fits(ixs: Seq<i32>, at: int) -> bool {
    &&& (ixs.len() > 0 && at == 0 ==> ixs[0] > i32::MIN)
    &&& (ixs.len() > 0 && at == ixs.len() ==> ixs[at - 1] < i32::MAX)
    &&& (0 < at < ixs.len() ==> ixs[at - 1] < i32::MAX && i32::MIN <= ixs[at - 1] + ixs[at]
        <= i32::MAX)
    &&& (needs_rebalance(ixs, at) ==> (ixs.len() + 1) * 1024 <= i32::MAX)
}

/// Sort index for a new item at position `insert_at` among `ordered`
/// siblings, and the index updates of siblings a rebalance renumbers.
pub fn plan_ix_insert(ordered: &Vec<&Task>, insert_at: usize) -> (r: (i32, Vec<(ThingsId, i32, String)>))
    requires
        insert_at <= ordered@.len(),
        placement_fits(indexes_of(ordered@), insert_at as int),
    ensures
        r.0 == new_index(indexes_of(ordered@), insert_at as int),
        needs_rebalance(indexes_of(ordered@), insert_at as int) ==> rebalance_updates(
            ordered@,
            insert_at as int,
            r.1@,
        ),
        !needs_rebalance(indexes_of(ordered@), insert_at as int) ==> r.1@.len()
            == 0,
{
    let ghost ixs = indexes_of(ordered@);
    let n = ordered.len();
    let mut updates: Vec<(ThingsId, i32, String)> = Vec::new();
    if n == 0 {
        return (0, updates);
    }
    if insert_at == 0 {
        return (ordered[0].index - 1, updates);
    }
    if insert_at == n {
        return (ordered[n - 1].index + 1, updates);
    }
    let prev = ordered[insert_at - 1].index;
    let next = ordered[insert_at].index;
    if prev + 1 < next {
        return ((prev + next) / 2, updates);
    }
    let ghost js = Seq::new(n as nat, |j: int| j).filter(|j: int| moved(ixs, insert_at as int, j));
    let mut j: usize = 0;
    let ghost mut done: Seq<int> = Seq::empty();
    while j < n
        invariant
            n == ordered@.len(),
            0 < insert_at < n,
            ixs == indexes_of(ordered@),
            (n + 1) * 1024 <= i32::MAX,
            j <= n,
            done == Seq::new(j as nat, |k: int| k).filter(|k: int| moved(ixs, insert_at as int, k)),
            updates@.len() == done.len(),
            forall|k: int|
                0 <= k < updates@.len() ==> {
                    &&& (#[trigger] updates@[k]).0 == ordered@[done[k]].uuid
                    &&& updates@[k].1 == (slot_of(done[k], insert_at as int) + 1) * 1024
                    &&& updates@[k].2 == ordered@[done[k]].entity
                },
        decreases n - j,
    {
        let slot: usize = if j < insert_at { j } else { j + 1 };
        let target: i32 = ((slot + 1) as i32) * STRIDE;
        let entry = ordered[j];
        proof {
            assert(Seq::new(j as nat + 1, |k: int| k) =~= Seq::new(j as nat, |k: int| k).push(j as int));
            Seq::new(j as nat, |k: int| k).lemma_filter_push(j as int, |k: int| moved(ixs, insert_at as int, k));
            assert(ixs[j as int] == entry.index);
        }
        if entry.index != target {
            updates.push((entry.uuid, target, entry.entity.clone()));
        }
        j = j + 1;
        proof {
            done = Seq::new(j as nat, |k: int| k).filter(|k: int| moved(ixs, insert_at as int, k));
        }
    }
    let new_ix: i32 = ((insert_at + 1) as i32) * STRIDE;
    (new_ix, updates)
}

/// The index a sibling ends with once the planned updates apply.
pub open spec fn final_index(ixs: Seq<i32>, at: int, j: int) -> int {
    if needs_rebalance(ixs, at) {
        (slot_of(j, at) + 1) * 1024
    } else {
        ixs[j] as int
    }
}

/// Without a rebalance, the new index sits strictly between its neighbours:
/// below the sibling it goes before and above the one it goes after.
pub proof fn lemma_new_index_between(ixs: Seq<i32>, at: int)
    requires
        0 <= at <= ixs.len(),
        !needs_rebalance(ixs, at),
    ensures
        at < ixs.len() ==> new_index(ixs, at) < ixs[at],
        0 < at ==> ixs[at - 1] < new_index(ixs, at),
{
    if 0 < at < ixs.len() {
        let p = ixs[at - 1] as int;
        let n = ixs[at] as int;
        assert(p + 1 < n);
        assert(p < half(p + n) < n) by (nonlinear_arith)
            requires
                p + 1 < n,
                half(p + n) == if p + n >= 0 {
                    (p + n) / 2
                } else {
                    -((-(p + n)) / 2)
                },
        ;
    }
}

/// After a rebalance every sibling and the new item sit on distinct
/// multiples of the stride in slot order, the new item in slot `at`: the
/// order of the list with the new item inserted is strict.
pub proof fn lemma_rebalance_orders(ixs: Seq<i32>, at: int)
    requires
        needs_rebalance(ixs, at),
    ensures
        forall|j1: int, j2: int|
            0 <= j1 < j2 < ixs.len() ==> #[trigger] final_index(ixs, at, j1) < #[trigger] final_index(
                ixs,
                at,
                j2,
            ),
        forall|j: int| 0 <= j < at ==> #[trigger] final_index(ixs, at, j) < new_index(ixs, at),
        forall|j: int| at <= j < ixs.len() ==> new_index(ixs, at) < #[trigger] final_index(ixs, at, j),
{
}

} // verus!
