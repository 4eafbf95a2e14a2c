//! Replaying wire items into per-UUID state.
use vstd::prelude::*;

use crate::ids::things_id::{parse_things_id, spec_parse_things_id, ThingsId};
use crate::store::entities::{
    apply_update_payload, state_of_payload, state_properties_from, update_applied, StateObject,
    StateProperties,
};
use crate::wire::codes::OperationType;
use crate::wire::wire_object::WireObject;

verus! {

/// Folded state keyed by UUID, held as its entries; no UUID occurs twice.
#[derive(Debug)]
pub struct RawState {
    pub entries: Vec<(ThingsId, StateObject)>,
}

/// No key occurs twice among the entries.
pub open spec fn keys_unique(s: Seq<(ThingsId, StateObject)>) -> bool {
    forall|i: int, j: int| 0 <= i < s.len() && 0 <= j < s.len() && i != j ==> s[i].0 != s[j].0
}

/// Whether some entry has key `k`.
pub open spec fn has_key(s: Seq<(ThingsId, StateObject)>, k: ThingsId) -> bool {
    exists|i: int| 0 <= i < s.len() && s[i].0 == k
}

/// The position of an entry with key `k`.
pub open spec fn key_pos(s: Seq<(ThingsId, StateObject)>, k: ThingsId) -> int {
    choose|i: int| 0 <= i < s.len() && s[i].0 == k
}

/// The entries as a map from key to object.
pub open spec fn entries_map(s: Seq<(ThingsId, StateObject)>) -> Map<ThingsId, StateObject> {
    Map::new(|k: ThingsId| has_key(s, k), |k: ThingsId| s[key_pos(s, k)].1)
}

impl View for RawState {
    type V = Map<ThingsId, StateObject>;

    open spec fn view(&self) -> Map<ThingsId, StateObject> {
        entries_map(self.entries@)
    }
}

/// With unique keys, the entry at `i` is the one its key maps to.
pub proof fn lemma_entry_at(s: Seq<(ThingsId, StateObject)>, i: int)
    requires
        keys_unique(s),
        0 <= i < s.len(),
    ensures
        has_key(s, s[i].0),
        key_pos(s, s[i].0) == i,
        entries_map(s).contains_key(s[i].0),
        entries_map(s)[s[i].0] == s[i].1,
{
    assert(has_key(s, s[i].0));
}

/// Setting the entry at a key's position to a new object for that key maps
/// the key to the new object and leaves every other key alone.
proof fn lemma_replace_entry(s: Seq<(ThingsId, StateObject)>, i: int, k: ThingsId, v: StateObject)
    requires
        keys_unique(s),
        0 <= i < s.len(),
        s[i].0 == k,
    ensures
        keys_unique(s.update(i, (k, v))),
        entries_map(s.update(i, (k, v))) == entries_map(s).insert(k, v),
{
    let t = s.update(i, (k, v));
    assert forall|k2: ThingsId| #[trigger] has_key(t, k2) == has_key(s, k2) by {
        if has_key(s, k2) {
            let j = choose|j: int| 0 <= j < s.len() && s[j].0 == k2;
            assert(t[j].0 == k2);
        }
        if has_key(t, k2) {
            let j = choose|j: int| 0 <= j < t.len() && t[j].0 == k2;
            assert(s[j].0 == k2);
        }
    }
    assert forall|k2: ThingsId| entries_map(t).contains_key(k2) implies entries_map(t)[k2] == entries_map(s).insert(k, v)[k2] by {
        let j = choose|j: int| 0 <= j < t.len() && t[j].0 == k2;
        lemma_entry_at(t, j);
        lemma_entry_at(s, j);
    }
    lemma_entry_at(s, i);
    assert(entries_map(t) =~= entries_map(s).insert(k, v));
}

/// Appending an entry with a new key maps that key and leaves the others.
proof fn lemma_push_entry(s: Seq<(ThingsId, StateObject)>, k: ThingsId, v: StateObject)
    requires
        keys_unique(s),
        !has_key(s, k),
    ensures
        keys_unique(s.push((k, v))),
        entries_map(s.push((k, v))) == entries_map(s).insert(k, v),
{
    let t = s.push((k, v));
    assert forall|k2: ThingsId| #[trigger] has_key(t, k2) == (has_key(s, k2) || k2 == k) by {
        if has_key(s, k2) {
            let j = choose|j: int| 0 <= j < s.len() && s[j].0 == k2;
            assert(t[j].0 == k2);
        }
        if k2 == k {
            assert(t[s.len() as int].0 == k2);
        }
        if has_key(t, k2) && k2 != k {
            let j = choose|j: int| 0 <= j < t.len() && t[j].0 == k2;
            assert(s[j].0 == k2);
        }
    }
    assert forall|k2: ThingsId| entries_map(t).contains_key(k2) implies entries_map(t)[k2] == entries_map(s).insert(k, v)[k2] by {
        let j = choose|j: int| 0 <= j < t.len() && t[j].0 == k2;
        lemma_entry_at(t, j);
        if j < s.len() {
            lemma_entry_at(s, j);
        }
    }
    assert(entries_map(t) =~= entries_map(s).insert(k, v));
}

/// Dropping the entry at a key's position unmaps that key only.
proof fn lemma_remove_entry(s: Seq<(ThingsId, StateObject)>, i: int)
    requires
        keys_unique(s),
        0 <= i < s.len(),
    ensures
        keys_unique(s.remove(i)),
        entries_map(s.remove(i)) == entries_map(s).remove(s[i].0),
{
    let k = s[i].0;
    let t = s.remove(i);
    assert forall|k2: ThingsId| #[trigger] has_key(t, k2) == (has_key(s, k2) && k2 != k) by {
        if has_key(s, k2) && k2 != k {
            let j = choose|j: int| 0 <= j < s.len() && s[j].0 == k2;
            if j < i {
                assert(t[j].0 == k2);
            } else {
                assert(t[j - 1].0 == k2);
            }
        }
        if has_key(t, k2) {
            let j = choose|j: int| 0 <= j < t.len() && t[j].0 == k2;
            if j < i {
                assert(s[j].0 == k2);
            } else {
                assert(s[j + 1].0 == k2);
            }
        }
    }
    assert forall|k2: ThingsId| entries_map(t).contains_key(k2) implies entries_map(t)[k2] == entries_map(s).remove(k)[k2] by {
        let j = choose|j: int| 0 <= j < t.len() && t[j].0 == k2;
        lemma_entry_at(t, j);
        if j < i {
            lemma_entry_at(s, j);
        } else {
            lemma_entry_at(s, j + 1);
        }
    }
    assert(entries_map(t) =~= entries_map(s).remove(k));
}

impl RawState {
    /// Whether no UUID occurs twice.
    pub open spec fn wf(&self) -> bool {
        keys_unique(self.entries@)
    }

    /// The empty state.
    pub fn new() -> (r: RawState)
        ensures
            r.wf(),
            r@ == Map::<ThingsId, StateObject>::empty(),
    {
        let r = RawState { entries: Vec::new() };
        proof {
            assert(r@ =~= Map::<ThingsId, StateObject>::empty());
        }
        r
    }

    /// The position of the entry for `k`, if any.
    pub fn position(&self, k: &ThingsId) -> (r: Option<usize>)
        ensures
            match r {
                Some(i) => i < self.entries@.len() && self.entries@[i as int].0 == *k,
                None => !has_key(self.entries@, *k),
            },
    {
        let mut i: usize = 0;
        while i < self.entries.len()
            invariant
                i <= self.entries@.len(),
                forall|j: int| 0 <= j < i ==> self.entries@[j].0 != *k,
            decreases self.entries@.len() - i,
        {
            if self.entries[i].0.same(k) {
                return Some(i);
            }
            i = i + 1;
        }
        None
    }

    /// The object folded for `k`, if any.
    pub fn get(&self, k: &ThingsId) -> (r: Option<&StateObject>)
        requires
            self.wf(),
        ensures
            match r {
                Some(o) => self@.contains_key(*k) && self@[*k] == *o,
                None => !self@.contains_key(*k),
            },
    {
        match self.position(k) {
            Some(i) => {
                proof {
                    lemma_entry_at(self.entries@, i as int);
                }
                Some(&self.entries[i].1)
            },
            None => None,
        }
    }

    /// Maps `k` to `v`, replacing what it mapped to.
    pub fn insert(&mut self, k: ThingsId, v: StateObject)
        requires
            old(self).wf(),
        ensures
            final(self).wf(),
            final(self)@ == old(self)@.insert(k, v),
    {
        match self.position(&k) {
            Some(i) => {
                proof {
                    lemma_replace_entry(self.entries@, i as int, k, v);
                }
                self.entries.set(i, (k, v));
            },
            None => {
                proof {
                    lemma_push_entry(self.entries@, k, v);
                }
                self.entries.push((k, v));
            },
        }
    }

    /// Unmaps `k`.
    pub fn remove(&mut self, k: &ThingsId)
        requires
            old(self).wf(),
        ensures
            final(self).wf(),
            final(self)@ == old(self)@.remove(*k),
    {
        match self.position(k) {
            Some(i) => {
                proof {
                    lemma_remove_entry(self.entries@, i as int);
                }
                let _ = self.entries.remove(i);
            },
            None => {
                proof {
                    assert(self@ =~= self@.remove(*k));
                }
            },
        }
    }
}

/// The object a create leaves, or an update of a UUID with no state.
pub open spec fn created(obj: WireObject, o: StateObject) -> bool {
    &&& o.entity_type == obj.entity_type
    &&& state_of_payload(obj.payload, o.properties)
}

/// The object an update leaves on existing state `old`: the payload applied
/// to the properties, and the entity type replaced when the update names one.
pub open spec fn updated(old: StateObject, obj: WireObject, o: StateObject) -> bool {
    &&& update_applied(old.properties, obj.payload, o.properties)
    &&& o.entity_type == match obj.entity_type {
        Some(e) => Some(e),
        None => old.entity_type,
    }
}

/// Whether `m2` maps `k` to some object that `ok` accepts, and agrees with
/// `m` on every other key.
pub open spec fn set_key_to(
    m: Map<ThingsId, StateObject>,
    k: ThingsId,
    m2: Map<ThingsId, StateObject>,
    ok: spec_fn(StateObject) -> bool,
) -> bool {
    &&& m2.contains_key(k)
    &&& ok(m2[k])
    &&& m2.remove(k) == m.remove(k)
}

/// What one wire object for UUID `k` does to folded state `m`.
pub open spec fn fold_step(
    m: Map<ThingsId, StateObject>,
    k: ThingsId,
    obj: WireObject,
    m2: Map<ThingsId, StateObject>,
) -> bool {
    match obj.operation_type {
        OperationType::Create => set_key_to(m, k, m2, |o: StateObject| created(obj, o)),
        OperationType::Update => if m.contains_key(k) {
            set_key_to(m, k, m2, |o: StateObject| updated(m[k], obj, o))
        } else {
            set_key_to(m, k, m2, |o: StateObject| created(obj, o))
        },
        OperationType::Delete => m2 == m.remove(k),
        OperationType::Unknown(_) => m2 == m,
    }
}

/// What one keyed entry of a wire item does: entries whose key is not an
/// identifier are skipped.
pub open spec fn item_step(
    m: Map<ThingsId, StateObject>,
    key: Seq<char>,
    obj: WireObject,
    m2: Map<ThingsId, StateObject>,
) -> bool {
    match spec_parse_things_id(key) {
        None => m2 == m,
        Some(b) => exists|k: ThingsId| k.spec_bytes() == b && fold_step(m, k, obj, m2),
    }
}

/// Whether `ms` is the run of states that replaying `item` from `ms[0]`
/// passes through.
pub open spec fn item_run(
    item: Seq<(String, WireObject)>,
    ms: Seq<Map<ThingsId, StateObject>>,
) -> bool {
    &&& ms.len() == item.len() + 1
    &&& forall|i: int| #![trigger ms[i + 1]] 0 <= i < item.len() ==> item_step(ms[i], item[i].0@, item[i].1, ms[i + 1])
}

/// Replaying a wire item from `m` can end in `m2`.
pub open spec fn folds_to(
    m: Map<ThingsId, StateObject>,
    item: Seq<(String, WireObject)>,
    m2: Map<ThingsId, StateObject>,
) -> bool {
    exists|ms: Seq<Map<ThingsId, StateObject>>| item_run(item, ms) && ms[0] == m && ms.last() == m2
}

/// Applies one wire object for UUID `uuid`.
pub fn fold_object(state: &mut RawState, uuid: ThingsId, obj: WireObject)
    requires
        old(state).wf(),
    ensures
        final(state).wf(),
        fold_step(old(state)@, uuid, obj, final(state)@),
{
    let ghost obj0 = obj;
    let ghost m = state@;
    match obj.operation_type {
        OperationType::Create => {
            let o = StateObject {
                entity_type: obj.entity_type,
                properties: state_properties_from(obj.payload),
            };
            state.insert(uuid, o);
            proof {
                assert(state@.remove(uuid) =~= m.remove(uuid));
            }
        },
        OperationType::Update => {
            match state.position(&uuid) {
                Some(i) => {
                    proof {
                        lemma_entry_at(state.entries@, i as int);
                    }
                    let (_, mut existing) = state.entries.remove(i);
                    apply_update_payload(&mut existing.properties, obj.payload);
                    if obj.entity_type.is_some() {
                        existing.entity_type = obj.entity_type;
                    }
                    let ghost e = existing;
                    let ghost before = state.entries@;
                    state.entries.insert(i, (uuid, existing));
                    proof {
                        let s0 = before.insert(i as int, (uuid, m[uuid]));
                        assert(s0 =~= old(state).entries@);
                        assert(state.entries@ =~= s0.update(i as int, (uuid, e)));
                        lemma_replace_entry(s0, i as int, uuid, e);
                        assert(state@.remove(uuid) =~= m.remove(uuid));
                    }
                },
                None => {
                    let o = StateObject {
                        entity_type: obj.entity_type,
                        properties: state_properties_from(obj.payload),
                    };
                    state.insert(uuid, o);
                    proof {
                        assert(state@.remove(uuid) =~= m.remove(uuid));
                    }
                },
            }
        },
        OperationType::Delete => {
            state.remove(&uuid);
        },
        OperationType::Unknown(_) => {},
    }
}

/// The entries of `v` in reverse order.
fn reversed<T>(v: Vec<T>) -> (r: Vec<T>)
    ensures
        r@ == v@.reverse(),
{
    let ghost orig = v@;
    let mut v = v;
    let mut r: Vec<T> = Vec::new();
    while v.len() > 0
        invariant
            v@.len() <= orig.len(),
            v@ == orig.take(v@.len() as int),
            r@ == orig.subrange(v@.len() as int, orig.len() as int).reverse(),
        decreases v@.len(),
    {
        let x = v.pop().unwrap();
        r.push(x);
        proof {
            assert(v@ =~= orig.take(v@.len() as int));
            assert(r@ =~= orig.subrange(v@.len() as int, orig.len() as int).reverse());
        }
    }
    proof {
        assert(orig.subrange(0, orig.len() as int) =~= orig);
    }
    r
}

/// Replays one wire item (keyed entries, in key order) onto the state.
/// Entries whose key is not an identifier are skipped.
pub fn fold_item(item: Vec<(String, WireObject)>, state: &mut RawState)
    requires
        old(state).wf(),
    ensures
        final(state).wf(),
        folds_to(old(state)@, item@, final(state)@),
{
    let ghost items = item@;
    let ghost mut ms: Seq<Map<ThingsId, StateObject>> = seq![state@];
    let mut rest = reversed(item);
    let ghost mut done: int = 0;
    while rest.len() > 0
        invariant
            state.wf(),
            0 <= done <= items.len(),
            rest@ == items.subrange(done, items.len() as int).reverse(),
            ms.len() == done + 1,
            ms[0] == old(state)@,
            ms.last() == state@,
            forall|i: int| #![trigger ms[i + 1]] 0 <= i < done ==> item_step(ms[i], items[i].0@, items[i].1, ms[i + 1]),
        decreases rest@.len(),
    {
        let (key, obj) = rest.pop().unwrap();
        proof {
            assert(items[done] == (key, obj));
        }
        let ghost before = state@;
        match parse_things_id(key.as_str()) {
            Ok(uuid) => {
                fold_object(state, uuid, obj);
            },
            Err(_) => {},
        }
        proof {
            ms = ms.push(state@);
            done = done + 1;
            assert(rest@ =~= items.subrange(done, items.len() as int).reverse());
        }
    }
    proof {
        assert(item_run(items, ms));
    }
}

/// Replaying wire items in order from `m` can end in `m2`.
pub open spec fn folds_all_to(
    m: Map<ThingsId, StateObject>,
    items: Seq<Vec<(String, WireObject)>>,
    m2: Map<ThingsId, StateObject>,
) -> bool {
    exists|ms: Seq<Map<ThingsId, StateObject>>|
        {
            &&& ms.len() == items.len() + 1
            &&& ms[0] == m
            &&& ms.last() == m2
            &&& forall|i: int| #![trigger ms[i + 1]] 0 <= i < items.len() ==> folds_to(ms[i], items[i]@, ms[i + 1])
        }
}

/// Replays wire items, in order, from empty state.
pub fn fold_items(items: Vec<Vec<(String, WireObject)>>) -> (r: RawState)
    ensures
        r.wf(),
        folds_all_to(Map::empty(), items@, r@),
{
    let ghost all = items@;
    let mut state = RawState::new();
    let ghost mut ms: Seq<Map<ThingsId, StateObject>> = seq![state@];
    let mut rest = reversed(items);
    let ghost mut done: int = 0;
    while rest.len() > 0
        invariant
            state.wf(),
            0 <= done <= all.len(),
            rest@ == all.subrange(done, all.len() as int).reverse(),
            ms.len() == done + 1,
            ms[0] == Map::<ThingsId, StateObject>::empty(),
            ms.last() == state@,
            forall|i: int| #![trigger ms[i + 1]] 0 <= i < done ==> folds_to(ms[i], all[i]@, ms[i + 1]),
        decreases rest@.len(),
    {
        let item = rest.pop().unwrap();
        proof {
            assert(all[done] == item);
        }
        fold_item(item, &mut state);
        proof {
            ms = ms.push(state@);
            done = done + 1;
            assert(rest@ =~= all.subrange(done, all.len() as int).reverse());
        }
    }
    state
}

/// A wire object for one UUID leaves every other UUID's state as it was.
pub proof fn lemma_fold_step_other_keys(
    m: Map<ThingsId, StateObject>,
    k: ThingsId,
    obj: WireObject,
    m2: Map<ThingsId, StateObject>,
    other: ThingsId,
)
    requires
        fold_step(m, k, obj, m2),
        other != k,
    ensures
        m2.contains_key(other) == m.contains_key(other),
        m.contains_key(other) ==> m2[other] == m[other],
{
    if !(obj.operation_type is Delete) && !(obj.operation_type is Unknown) {
        assert(m2.remove(k).contains_key(other) == m.remove(k).contains_key(other));
        if m.contains_key(other) {
            assert(m2.remove(k)[other] == m.remove(k)[other]);
        }
    }
}

/// After a delete, the UUID has no state, whatever it had before.
pub proof fn lemma_delete_removes(
    m: Map<ThingsId, StateObject>,
    k: ThingsId,
    obj: WireObject,
    m2: Map<ThingsId, StateObject>,
)
    requires
        fold_step(m, k, obj, m2),
        obj.operation_type is Delete,
    ensures
        !m2.contains_key(k),
{
}

/// After a create, the UUID holds exactly what the create says, whatever it
/// held before.
pub proof fn lemma_create_replaces(
    m: Map<ThingsId, StateObject>,
    k: ThingsId,
    obj: WireObject,
    m2: Map<ThingsId, StateObject>,
)
    requires
        fold_step(m, k, obj, m2),
        obj.operation_type is Create,
    ensures
        m2.contains_key(k),
        m2[k].entity_type == obj.entity_type,
        state_of_payload(obj.payload, m2[k].properties),
{
}

/// An update whose payload is unknown keeps the folded properties of a UUID
/// that has state; only a named entity type replaces the old one.
pub proof fn lemma_unknown_update_keeps_properties(
    m: Map<ThingsId, StateObject>,
    k: ThingsId,
    obj: WireObject,
    m2: Map<ThingsId, StateObject>,
)
    requires
        fold_step(m, k, obj, m2),
        obj.operation_type is Update,
        obj.payload is Unknown,
        m.contains_key(k),
    ensures
        m2.contains_key(k),
        m2[k].properties == m[k].properties,
        obj.entity_type is None ==> m2[k].entity_type == m[k].entity_type,
{
}

/// An update of a UUID with no state acts as a create.
pub proof fn lemma_update_of_missing_creates(
    m: Map<ThingsId, StateObject>,
    k: ThingsId,
    obj: WireObject,
    m2: Map<ThingsId, StateObject>,
)
    requires
        fold_step(m, k, obj, m2),
        obj.operation_type is Update,
        !m.contains_key(k),
    ensures
        m2.contains_key(k),
        created(obj, m2[k]),
{
}

/// A task patch on folded task state keeps it task state.
pub proof fn lemma_task_patch_keeps_task(
    m: Map<ThingsId, StateObject>,
    k: ThingsId,
    obj: WireObject,
    m2: Map<ThingsId, StateObject>,
)
    requires
        fold_step(m, k, obj, m2),
        obj.operation_type is Update,
        obj.payload is TaskUpdate,
        m.contains_key(k),
        m[k].properties is Task,
    ensures
        m2.contains_key(k),
        m2[k].properties is Task,
{
}

/// An operation of unknown type changes nothing.
pub proof fn lemma_unknown_operation_is_ignored(
    m: Map<ThingsId, StateObject>,
    k: ThingsId,
    obj: WireObject,
    m2: Map<ThingsId, StateObject>,
)
    requires
        fold_step(m, k, obj, m2),
        obj.operation_type is Unknown,
    ensures
        m2 == m,
{
}

} // verus!
