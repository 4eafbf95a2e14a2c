//! Loose property maps: wire properties keyed by their short names.
use vstd::prelude::*;

use crate::ids::things_id::ThingsId;
use crate::text::str_eq;
use crate::time::UtcTime;
use crate::wire::notes::TaskNotes;
use crate::wire::props::RecurrenceRule;

verus! {

/// One property value as it travels on the wire.
#[derive(Debug)]
pub enum PropValue {
    Null,
    Bool(bool),
    Int(i64),
    /// A timestamp written as fractional seconds.
    Time(UtcTime),
    Text(String),
    Ids(Vec<ThingsId>),
    Notes(TaskNotes),
    /// A recurrence rule object.
    Rule(RecurrenceRule),
    /// Any other JSON value, as its text.
    Json(String),
}

/// The plain value of a property.
pub ghost enum PropView {
    Null,
    Bool(bool),
    Int(i64),
    Time(UtcTime),
    Text(Seq<char>),
    Ids(Seq<ThingsId>),
    Notes(TaskNotes),
    Rule(RecurrenceRule),
    Json(Seq<char>),
}

impl View for PropValue {
    type V = PropView;

    open spec fn view(&self) -> PropView {
        match self {
            PropValue::Null => PropView::Null,
            PropValue::Bool(b) => PropView::Bool(*b),
            PropValue::Int(i) => PropView::Int(*i),
            PropValue::Time(t) => PropView::Time(*t),
            PropValue::Text(s) => PropView::Text(s@),
            PropValue::Ids(v) => PropView::Ids(v@),
            PropValue::Notes(n) => PropView::Notes(*n),
            PropValue::Rule(r) => PropView::Rule(*r),
            PropValue::Json(s) => PropView::Json(s@),
        }
    }
}

/// Properties keyed by wire name; no name occurs twice.
#[derive(Debug)]
pub struct PropMap {
    pub entries: Vec<(String, PropValue)>,
}

/// No name occurs twice among the entries.
pub open spec fn names_unique(s: Seq<(String, PropValue)>) -> bool {
    forall|i: int, j: int| 0 <= i < s.len() && 0 <= j < s.len() && i != j ==> s[i].0@ != s[j].0@
}

/// Whether some entry is named `k`.
pub open spec fn has_name(s: Seq<(String, PropValue)>, k: Seq<char>) -> bool {
    exists|i: int| 0 <= i < s.len() && s[i].0@ == k
}

/// The position of an entry named `k`.
pub open spec fn name_pos(s: Seq<(String, PropValue)>, k: Seq<char>) -> int {
    choose|i: int| 0 <= i < s.len() && s[i].0@ == k
}

/// The entries as a map from name to value.
pub open spec fn props_map(s: Seq<(String, PropValue)>) -> Map<Seq<char>, PropValue> {
    Map::new(|k: Seq<char>| has_name(s, k), |k: Seq<char>| s[name_pos(s, k)].1)
}

impl View for PropMap {
    type V = Map<Seq<char>, PropValue>;

    open spec fn view(&self) -> Map<Seq<char>, PropValue> {
        props_map(self.entries@)
    }
}

proof fn lemma_name_at(s: Seq<(String, PropValue)>, i: int)
    requires
        names_unique(s),
        0 <= i < s.len(),
    ensures
        has_name(s, s[i].0@),
        name_pos(s, s[i].0@) == i,
        props_map(s).contains_key(s[i].0@),
        props_map(s)[s[i].0@] == s[i].1,
{
    assert(has_name(s, s[i].0@));
}

proof fn lemma_replace_name(s: Seq<(String, PropValue)>, i: int, k: String, v: PropValue)
    requires
        names_unique(s),
        0 <= i < s.len(),
        s[i].0@ == k@,
    ensures
        names_unique(s.update(i, (k, v))),
        props_map(s.update(i, (k, v))) == props_map(s).insert(k@, v),
{
    let t = s.update(i, (k, v));
    assert forall|k2: Seq<char>| #[trigger] has_name(t, k2) == has_name(s, k2) by {
        if has_name(s, k2) {
            let j = choose|j: int| 0 <= j < s.len() && s[j].0@ == k2;
            assert(t[j].0@ == k2);
        }
        if has_name(t, k2) {
            let j = choose|j: int| 0 <= j < t.len() && t[j].0@ == k2;
            assert(s[j].0@ == k2);
        }
    }
    assert forall|k2: Seq<char>| props_map(t).contains_key(k2) implies props_map(t)[k2] == props_map(s).insert(k@, v)[k2] by {
        let j = choose|j: int| 0 <= j < t.len() && t[j].0@ == k2;
        lemma_name_at(t, j);
        lemma_name_at(s, j);
    }
    lemma_name_at(s, i);
    assert(props_map(t) =~= props_map(s).insert(k@, v));
}

proof fn lemma_push_name(s: Seq<(String, PropValue)>, k: String, v: PropValue)
    requires
        names_unique(s),
        !has_name(s, k@),
    ensures
        names_unique(s.push((k, v))),
        props_map(s.push((k, v))) == props_map(s).insert(k@, v),
{
    let t = s.push((k, v));
    assert forall|k2: Seq<char>| #[trigger] has_name(t, k2) == (has_name(s, k2) || k2 == k@) by {
        if has_name(s, k2) {
            let j = choose|j: int| 0 <= j < s.len() && s[j].0@ == k2;
            assert(t[j].0@ == k2);
        }
        if k2 == k@ {
            assert(t[s.len() as int].0@ == k2);
        }
        if has_name(t, k2) && k2 != k@ {
            let j = choose|j: int| 0 <= j < t.len() && t[j].0@ == k2;
            assert(s[j].0@ == k2);
        }
    }
    assert forall|k2: Seq<char>| props_map(t).contains_key(k2) implies props_map(t)[k2] == props_map(s).insert(k@, v)[k2] by {
        let j = choose|j: int| 0 <= j < t.len() && t[j].0@ == k2;
        lemma_name_at(t, j);
        if j < s.len() {
            lemma_name_at(s, j);
        }
    }
    assert(props_map(t) =~= props_map(s).insert(k@, v));
}

/// The plain values `m` with `k` set to `v` when there is a value.
pub open spec fn put(m: Map<Seq<char>, PropView>, k: Seq<char>, v: Option<PropView>) -> Map<Seq<char>, PropView> {
    match v {
        Some(x) => m.insert(k, x),
        None => m,
    }
}

/// The plain form of an optional value.
pub open spec fn opt_view(v: Option<PropValue>) -> Option<PropView> {
    match v {
        Some(x) => Some(x@),
        None => None,
    }
}

impl PropMap {
    /// The plain values of the properties, by name.
    pub open spec fn values(&self) -> Map<Seq<char>, PropView> {
        self@.map_values(|v: PropValue| v@)
    }

    /// Whether no name occurs twice.
    pub open spec fn wf(&self) -> bool {
        names_unique(self.entries@)
    }

    /// The empty map.
    pub fn new() -> (r: PropMap)
        ensures
            r.wf(),
            r@ == Map::<Seq<char>, PropValue>::empty(),
    {
        let r = PropMap { entries: Vec::new() };
        proof {
            assert(r@ =~= Map::<Seq<char>, PropValue>::empty());
        }
        r
    }

    /// The position of the entry named `k`, if any.
    fn position(&self, k: &str) -> (r: Option<usize>)
        ensures
            match r {
                Some(i) => i < self.entries@.len() && self.entries@[i as int].0@ == k@,
                None => !has_name(self.entries@, k@),
            },
    {
        let mut i: usize = 0;
        while i < self.entries.len()
            invariant
                i <= self.entries@.len(),
                forall|j: int| 0 <= j < i ==> self.entries@[j].0@ != k@,
            decreases self.entries@.len() - i,
        {
            if str_eq(self.entries[i].0.as_str(), k) {
                return Some(i);
            }
            i = i + 1;
        }
        None
    }

    /// Sets property `k` to `v`, replacing what it held.
    pub fn set(&mut self, k: &str, v: PropValue)
        requires
            old(self).wf(),
        ensures
            final(self).wf(),
            final(self)@ == old(self)@.insert(k@, v),
    {
        let key = k.to_owned();
        match self.position(k) {
            Some(i) => {
                proof {
                    lemma_replace_name(self.entries@, i as int, key, v);
                }
                self.entries.set(i, (key, v));
            },
            None => {
                proof {
                    lemma_push_name(self.entries@, key, v);
                }
                self.entries.push((key, v));
            },
        }
    }

    /// The value of property `k`, if set.
    pub fn get(&self, k: &str) -> (r: Option<&PropValue>)
        requires
            self.wf(),
        ensures
            match r {
                Some(v) => self@.contains_key(k@) && self@[k@] == *v,
                None => !self@.contains_key(k@),
            },
    {
        match self.position(k) {
            Some(i) => {
                proof {
                    lemma_name_at(self.entries@, i as int);
                }
                Some(&self.entries[i].1)
            },
            None => None,
        }
    }
}

impl PropMap {
    /// Sets property `k` to `v` when there is a value; leaves the map as it is
    /// otherwise.
    pub fn set_opt(&mut self, k: &str, v: Option<PropValue>)
        requires
            old(self).wf(),
        ensures
            final(self).wf(),
            final(self).values() == put(old(self).values(), k@, opt_view(v)),
    {
        match v {
            Some(x) => {
                let ghost before = self@;
                let ghost xv = x@;
                self.set(k, x);
                proof {
                    assert(self.values() =~= before.map_values(|w: PropValue| w@).insert(k@, xv));
                }
            },
            None => {},
        }
    }

    /// Whether no property is set.
    pub fn is_empty(&self) -> (r: bool)
        ensures
            r == (self.entries@.len() == 0),
            r == (self@ == Map::<Seq<char>, PropValue>::empty()),
    {
        proof {
            if self.entries@.len() > 0 {
                assert(has_name(self.entries@, self.entries@[0].0@));
                assert(self@.contains_key(self.entries@[0].0@));
            } else {
                assert(self@ =~= Map::<Seq<char>, PropValue>::empty());
            }
        }
        self.entries.len() == 0
    }
}

} // verus!
