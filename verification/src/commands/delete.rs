//! Planning deletions of tasks, projects, headings and areas (`delete`).
use vstd::prelude::*;

use crate::ids::things_id::{id_chars, ThingsId};
use crate::store::model::{Area, Task};
use crate::store::queries::{lemma_candidates_len, resolution_of};
use crate::store::things_store::ThingsStore;
use crate::text::{concat2, concat3};
use crate::wire::codes::OperationType;
use crate::wire::entity::{kind_of_name, EntityType};
use crate::wire::wire_object::WireObject;

verus! {

/// Arguments of `delete`.
#[derive(Debug)]
pub struct DeleteArgs {
    /// Item identifiers (or unique prefixes).
    pub item_ids: Vec<String>,
}

/// What `delete` removes and reports: the targets (identifier text, entity
/// name, title), their delete operations, and one message per identifier
/// that was skipped.
#[derive(Debug)]
pub struct DeletePlan {
    pub targets: Vec<(String, String, String)>,
    pub changes: Vec<(String, WireObject)>,
    pub messages: Vec<String>,
}

/// The targets so far (identifier, entity name, title) and the messages.
pub type DeleteState = (Seq<(ThingsId, Seq<char>, Seq<char>)>, Seq<Seq<char>>);

/// Whether an identifier is already among the targets.
pub open spec fn targeted(s: Seq<(ThingsId, Seq<char>, Seq<char>)>, id: ThingsId) -> bool {
    exists|k: int| 0 <= k < s.len() && s[k].0 == id
}

/// What one identifier adds to the deletion: a task or an area it names
/// (trashed tasks, repeats and unclear identifiers are skipped, the unclear
/// ones with a message).
pub open spec fn delete_step(store: ThingsStore, st: DeleteState, ident: Seq<char>) -> DeleteState {
    let tr = resolution_of(store.tasks@, |t: Task| true, |t: Task| t.uuid, ident, "Task"@);
    let ar = resolution_of(store.areas@, |a: Area| true, |a: Area| a.uuid, ident, "Area"@);
    if tr.0 is Some && ar.0 is Some {
        (st.0, st.1.push("Ambiguous identifier '"@ + ident + "' (matches task and area)."@))
    } else if tr.0 is None && ar.0 is None {
        let msg = if tr.2.len() > 0 && ar.2.len() > 0 {
            "Ambiguous identifier '"@ + ident + "' (matches multiple tasks and areas)."@
        } else if tr.2.len() > 0 {
            tr.1
        } else if ar.2.len() > 0 {
            ar.1
        } else {
            "Item not found: "@ + ident
        };
        (st.0, st.1.push(msg))
    } else if tr.0 is Some {
        let t = tr.0->0;
        if t.trashed {
            (st.0, st.1.push("Item already deleted: "@ + t.title@))
        } else if targeted(st.0, t.uuid) {
            st
        } else {
            (st.0.push((t.uuid, t.entity@, t.title@)), st.1)
        }
    } else {
        let a = ar.0->0;
        if targeted(st.0, a.uuid) {
            st
        } else {
            (st.0.push((a.uuid, "Area3"@, a.title@)), st.1)
        }
    }
}

/// The deletion that the identifiers ask for, in order.
pub open spec fn delete_fold(store: ThingsStore, idents: Seq<Seq<char>>) -> DeleteState
    decreases idents.len(),
{
    if idents.len() == 0 {
        (Seq::empty(), Seq::empty())
    } else {
        delete_step(store, delete_fold(store, idents.drop_last()), idents.last())
    }
}

/// Whether no two targets share an identifier.
pub open spec fn distinct_targets(s: Seq<(ThingsId, Seq<char>, Seq<char>)>) -> bool {
    forall|a: int, b: int| 0 <= a < b < s.len() ==> (#[trigger] s[a]).0 != (#[trigger] s[b]).0
}

/// However often the identifiers name an item, it is deleted once: the
/// targets of a deletion have distinct identifiers.
pub proof fn lemma_delete_targets_distinct(store: ThingsStore, idents: Seq<Seq<char>>)
    ensures
        distinct_targets(delete_fold(store, idents).0),
    decreases idents.len(),
{
    if idents.len() > 0 {
        let st = delete_fold(store, idents.drop_last());
        lemma_delete_targets_distinct(store, idents.drop_last());
        let s2 = delete_fold(store, idents).0;
        if s2.len() > st.0.len() {
            assert(s2 == st.0.push(s2.last()));
            assert(!targeted(st.0, s2.last().0));
            assert forall|a: int, b: int| 0 <= a < b < s2.len() implies (#[trigger] s2[a]).0 != (#[trigger] s2[b]).0 by {
                if b == s2.len() - 1 {
                    assert(st.0[a] == s2[a]);
                } else {
                    assert(st.0[a] == s2[a] && st.0[b] == s2[b]);
                }
            }
        }
    }
}

/// The plain targets of a plan.
pub open spec fn target_views(v: Seq<(String, String, String)>) -> Seq<(Seq<char>, Seq<char>, Seq<char>)> {
    v.map_values(|t: (String, String, String)| (t.0@, t.1@, t.2@))
}

/// The plain form of spec targets.
pub open spec fn spec_target_views(v: Seq<(ThingsId, Seq<char>, Seq<char>)>) -> Seq<(Seq<char>, Seq<char>, Seq<char>)> {
    v.map_values(|t: (ThingsId, Seq<char>, Seq<char>)| (id_chars(t.0), t.1, t.2))
}

/// Whether a change is the delete operation of a target.
pub open spec fn deletes(c: (String, WireObject), t: (ThingsId, Seq<char>, Seq<char>)) -> bool {
    &&& c.0@ == id_chars(t.0)
    &&& c.1.operation_type == OperationType::Delete
    &&& c.1.entity_type matches Some(e) && e@ == kind_of_name(t.1)
    &&& c.1.payload is Delete
}

fn is_targeted(ids: &Vec<ThingsId>, id: &ThingsId) -> (r: bool)
    ensures
        r == ids@.contains(*id),
{
    let mut i: usize = 0;
    while i < ids.len()
        invariant
            i <= ids@.len(),
            forall|j: int| 0 <= j < i ==> ids@[j] != *id,
        decreases ids@.len() - i,
    {
        if ids[i].same(id) {
            return true;
        }
        i = i + 1;
    }
    false
}

/// Plans the deletion of the items the identifiers name.
pub fn build_delete_plan(args: &DeleteArgs, store: &ThingsStore) -> (r: DeletePlan)
    ensures
        ({
            let st = delete_fold(*store, args.item_ids@.map_values(|s: String| s@));
            &&& target_views(r.targets@) == spec_target_views(st.0)
            &&& r.messages@.map_values(|s: String| s@) == st.1
            &&& r.changes@.len() == st.0.len()
            &&& forall|k: int| 0 <= k < st.0.len() ==> deletes(#[trigger] r.changes@[k], st.0[k])
        }),
{
    let ghost idents = args.item_ids@.map_values(|s: String| s@);
    let mut ids: Vec<ThingsId> = Vec::new();
    let mut targets: Vec<(String, String, String)> = Vec::new();
    let mut messages: Vec<String> = Vec::new();
    let ghost mut st: DeleteState = (Seq::empty(), Seq::empty());
    let mut i: usize = 0;
    while i < args.item_ids.len()
        invariant
            i <= args.item_ids@.len(),
            idents == args.item_ids@.map_values(|s: String| s@),
            st == delete_fold(*store, idents.take(i as int)),
            ids@ == st.0.map_values(|t: (ThingsId, Seq<char>, Seq<char>)| t.0),
            target_views(targets@) == spec_target_views(st.0),
            messages@.map_values(|s: String| s@) == st.1,
        decreases args.item_ids@.len() - i,
    {
        let ident = args.item_ids[i].as_str();
        proof {
            assert(idents.take(i as int + 1).drop_last() =~= idents.take(i as int));
            assert(idents.take(i as int + 1).last() == ident@);
            reveal_strlit("Ambiguous identifier '");
            reveal_strlit("' (matches task and area).");
            reveal_strlit("' (matches multiple tasks and areas).");
            reveal_strlit("Item not found: ");
            reveal_strlit("Item already deleted: ");
            reveal_strlit("Area3");
        }
        let (task, task_err, task_amb) = store.resolve_task_identifier(ident);
        let (area, area_err, area_amb) = store.resolve_area_identifier(ident);
        proof {
            let tr = resolution_of(store.tasks@, |t: Task| true, |t: Task| t.uuid, ident@, "Task"@);
            let ar = resolution_of(store.areas@, |a: Area| true, |a: Area| a.uuid, ident@, "Area"@);
            lemma_candidates_len(tr.2, |t: Task| t.uuid, task_amb@.map_values(|x: &Task| *x));
            lemma_candidates_len(ar.2, |a: Area| a.uuid, area_amb@.map_values(|x: &Area| *x));
        }
        let ghost before_ids = ids@;
        if task.is_some() && area.is_some() {
            messages.push(concat3("Ambiguous identifier '", ident, "' (matches task and area)."));
        } else if task.is_none() && area.is_none() {
            let msg = if task_amb.len() > 0 && area_amb.len() > 0 {
                concat3("Ambiguous identifier '", ident, "' (matches multiple tasks and areas).")
            } else if task_amb.len() > 0 {
                task_err
            } else if area_amb.len() > 0 {
                area_err
            } else {
                concat2("Item not found: ", ident)
            };
            messages.push(msg);
        } else if let Some(t) = task {
            if t.trashed {
                messages.push(concat2("Item already deleted: ", t.title.as_str()));
            } else if !is_targeted(&ids, &t.uuid) {
                ids.push(t.uuid);
                let ghost tv0 = targets@;
                targets.push((t.uuid.to_string(), t.entity.clone(), t.title.clone()));
                proof {
                    assert(target_views(targets@) =~= target_views(tv0).push((id_chars(t.uuid), t.entity@, t.title@)));
                }
            }
        } else if let Some(a) = area {
            if !is_targeted(&ids, &a.uuid) {
                ids.push(a.uuid);
                let ghost tv0 = targets@;
                targets.push((a.uuid.to_string(), "Area3".to_owned(), a.title.clone()));
                proof {
                    assert(target_views(targets@) =~= target_views(tv0).push((id_chars(a.uuid), "Area3"@, a.title@)));
                }
            }
        }
        proof {
            let st2 = delete_step(*store, st, ident@);
            assert forall|id: ThingsId| before_ids.contains(id) == targeted(st.0, id) by {
                if targeted(st.0, id) {
                    let k = choose|k: int| 0 <= k < st.0.len() && st.0[k].0 == id;
                    assert(before_ids[k] == id);
                }
                if before_ids.contains(id) {
                    let k = choose|k: int| 0 <= k < before_ids.len() && before_ids[k] == id;
                    assert(st.0[k].0 == id);
                }
            }
            st = st2;
            assert(ids@ =~= st.0.map_values(|t: (ThingsId, Seq<char>, Seq<char>)| t.0));
            assert(target_views(targets@) =~= spec_target_views(st.0));
            assert(messages@.map_values(|s: String| s@) =~= st.1);
        }
        i = i + 1;
    }
    proof {
        assert(idents.take(args.item_ids@.len() as int) =~= idents);
        assert(target_views(targets@).len() == targets@.len());
        assert(spec_target_views(st.0).len() == st.0.len());
    }
    let mut changes: Vec<(String, WireObject)> = Vec::new();
    let mut k: usize = 0;
    while k < targets.len()
        invariant
            k <= targets@.len(),
            targets@.len() == st.0.len(),
            target_views(targets@) == spec_target_views(st.0),
            changes@.len() == k,
            forall|j: int| 0 <= j < k ==> deletes(#[trigger] changes@[j], st.0[j]),
        decreases targets@.len() - k,
    {
        proof {
            assert(target_views(targets@)[k as int] == spec_target_views(st.0)[k as int]);
        }
        let uuid = targets[k].0.clone();
        let entity = EntityType::from_name(targets[k].1.as_str());
        changes.push((uuid, WireObject::delete(entity)));
        k = k + 1;
    }
    DeletePlan { targets, changes, messages }
}

} // verus!
