//! The indexed store built from folded state.
use vstd::prelude::*;

use crate::ids::base58::ascii_chars;
use crate::ids::matching::{shortest_unique_prefixes, spec_unique_prefix};
use crate::ids::things_id::{copy_ids, ThingsId};
use crate::sorting::{key_le, sort_by, sorted_by};
use crate::store::entities::{
    AreaStateProps, ChecklistItemStateProps, StateObject, StateProperties, TagStateProps,
    TaskStateProps,
};
use crate::store::model::{Area, ChecklistItem, Tag, Task};
use crate::store::state::RawState;
use crate::time::{spec_chrono_timestamp_ok, UtcTime};
use crate::wire::codes::{TaskStatus, TaskType};
use crate::wire::entity::{EntityKind, EntityType};
use crate::wire::props::RecurrenceRule;
use crate::wire::wire_object::{entity_view, is_area_like, is_tag_like, is_task_like};

verus! {

broadcast use vstd::seq_lib::group_to_multiset_ensures;

/// The first identifier of a list, if any.
pub open spec fn first_id(s: Seq<ThingsId>) -> Option<ThingsId> {
    if s.len() > 0 {
        Some(s[0])
    } else {
        None
    }
}

/// An instant as the store keeps it: only when chrono can represent it.
pub open spec fn valid_time(t: Option<UtcTime>) -> Option<UtcTime> {
    match t {
        Some(x) => if spec_chrono_timestamp_ok(x.secs, x.nanos) {
            Some(x)
        } else {
            None
        },
        None => None,
    }
}

/// Two recurrence rules hold the same values.
pub open spec fn rule_same(a: Option<RecurrenceRule>, b: Option<RecurrenceRule>) -> bool {
    match (a, b) {
        (Some(x), Some(y)) => {
            &&& x.repeat_type == y.repeat_type
            &&& x.frequency_unit == y.frequency_unit
            &&& x.frequency_amount == y.frequency_amount
            &&& x.offsets@ == y.offsets@
            &&& x.start_reference == y.start_reference
            &&& x.initial_anchor == y.initial_anchor
            &&& x.end_date == y.end_date
            &&& x.repeat_count == y.repeat_count
            &&& x.task_skip == y.task_skip
            &&& x.recurrence_rule_version == y.recurrence_rule_version
        },
        (None, None) => true,
        _ => false,
    }
}

/// The task that folded task properties show, before checklist items are
/// attached.
pub open spec fn task_from_state(uuid: ThingsId, p: TaskStateProps, entity: Seq<char>, t: Task) -> bool {
    &&& t.uuid == uuid
    &&& t.title == p.title
    &&& t.status == p.status
    &&& t.start == p.start_location
    &&& t.item_type == p.item_type
    &&& t.entity@ == entity
    &&& t.notes == p.notes
    &&& t.project == first_id(p.parent_project_ids@)
    &&& t.area == first_id(p.area_ids@)
    &&& t.action_group == first_id(p.action_group_ids@)
    &&& t.tags@ == p.tag_ids@
    &&& t.trashed == p.trashed
    &&& t.deadline == valid_time(p.deadline)
    &&& t.start_date == valid_time(p.scheduled_date)
    &&& t.stop_date == valid_time(p.stop_date)
    &&& t.creation_date == valid_time(p.creation_date)
    &&& t.modification_date == valid_time(p.modification_date)
    &&& t.index == p.sort_index
    &&& t.today_index == p.today_sort_index
    &&& t.today_index_reference == p.today_index_reference
    &&& t.leaves_tombstone == p.leaves_tombstone
    &&& t.instance_creation_paused == p.instance_creation_paused
    &&& t.evening == (p.evening_bit != 0)
    &&& rule_same(t.recurrence_rule, p.recurrence_rule)
    &&& t.recurrence_templates@ == p.recurrence_template_ids@
}

/// The checklist item that folded checklist properties show.
pub open spec fn checklist_of(uuid: ThingsId, p: ChecklistItemStateProps) -> ChecklistItem {
    ChecklistItem {
        uuid,
        title: p.title,
        task_uuid: match first_id(p.task_ids@) {
            Some(t) => t,
            None => ThingsId::spec_zero(),
        },
        status: p.status,
        index: p.sort_index,
    }
}

/// The area that folded area properties show.
pub open spec fn area_from_state(uuid: ThingsId, p: AreaStateProps, a: Area) -> bool {
    &&& a.uuid == uuid
    &&& a.title == p.title
    &&& a.tags@ == p.tag_ids@
    &&& a.index == p.sort_index
}

/// The tag that folded tag properties show.
pub open spec fn tag_of(uuid: ThingsId, p: TagStateProps) -> Tag {
    Tag {
        uuid,
        title: p.title,
        shortcut: p.shortcut,
        index: p.sort_index,
        parent_uuid: first_id(p.parent_ids@),
    }
}

/// The entity name a task shows: an unknown name as it is, `Task6` otherwise.
pub open spec fn task_entity_name(e: Option<EntityKind>) -> Seq<char> {
    match e {
        Some(EntityKind::Unknown(n)) => n,
        _ => "Task6"@,
    }
}

/// Whether a folded entry shows as a task.
pub open spec fn is_task_entry(e: (ThingsId, StateObject)) -> bool {
    is_task_like(entity_view(e.1.entity_type)) && e.1.properties is Task
}

/// Whether a folded entry shows as an area.
pub open spec fn is_area_entry(e: (ThingsId, StateObject)) -> bool {
    !is_task_like(entity_view(e.1.entity_type)) && is_area_like(entity_view(e.1.entity_type))
        && e.1.properties is Area
}

/// Whether a folded entry shows as a tag.
pub open spec fn is_tag_entry(e: (ThingsId, StateObject)) -> bool {
    !is_task_like(entity_view(e.1.entity_type)) && !is_area_like(entity_view(e.1.entity_type))
        && is_tag_like(entity_view(e.1.entity_type)) && e.1.properties is Tag
}

/// Whether a folded entry shows as a checklist item.
pub open spec fn is_checklist_entry(e: (ThingsId, StateObject)) -> bool {
    entity_view(e.1.entity_type) == Some(EntityKind::ChecklistItem3)
        && e.1.properties is ChecklistItem
}

/// The checklist item a checklist entry shows.
pub open spec fn entry_checklist(e: (ThingsId, StateObject)) -> ChecklistItem {
    checklist_of(e.0, e.1.properties->ChecklistItem_0)
}

/// Whether `t` is the task a task entry shows, with its checklist items
/// drawn from `pool`: those naming the task, in index order.
pub open spec fn task_built(e: (ThingsId, StateObject), pool: Seq<ChecklistItem>, t: Task) -> bool {
    &&& task_from_state(
        e.0,
        e.1.properties->Task_0,
        task_entity_name(entity_view(e.1.entity_type)),
        t,
    )
    &&& t.checklist_items@.to_multiset() == pool.filter(|c: ChecklistItem| c.task_uuid == e.0).to_multiset()
    &&& forall|i: int, j: int|
        0 <= i < j < t.checklist_items@.len() ==> #[trigger] t.checklist_items@[i].index
            <= #[trigger] t.checklist_items@[j].index
}

/// Whether `a` is the area an area entry shows.
pub open spec fn area_built(e: (ThingsId, StateObject), a: Area) -> bool {
    area_from_state(e.0, e.1.properties->Area_0, a)
}

/// The tag a tag entry shows.
pub open spec fn entry_tag(e: (ThingsId, StateObject)) -> Tag {
    tag_of(e.0, e.1.properties->Tag_0)
}

/// The store: tasks, areas and tags in folded-state order, with the indexes
/// built over them.
#[derive(Debug)]
pub struct ThingsStore {
    pub tasks: Vec<Task>,
    pub areas: Vec<Area>,
    pub tags: Vec<Tag>,
    /// Each identifier of the folded state (tombstones aside) with the
    /// shortest prefix of its text that no other one shares.
    pub short_ids: Vec<(ThingsId, String)>,
}

fn valid(t: Option<UtcTime>) -> (r: Option<UtcTime>)
    ensures
        r == valid_time(t),
{
    match t {
        Some(x) => UtcTime::from_timestamp(x.secs, x.nanos),
        None => None,
    }
}

fn first_of(ids: &Vec<ThingsId>) -> (r: Option<ThingsId>)
    ensures
        r == first_id(ids@),
{
    if ids.len() > 0 {
        Some(ids[0])
    } else {
        None
    }
}

fn copy_opt_string(s: &Option<String>) -> (r: Option<String>)
    ensures
        r == *s,
{
    match s {
        Some(x) => Some(x.clone()),
        None => None,
    }
}

fn copy_strings(v: &Vec<String>) -> (r: Vec<String>)
    ensures
        r@ == v@,
{
    let mut r: Vec<String> = Vec::new();
    let mut i: usize = 0;
    while i < v.len()
        invariant
            i <= v@.len(),
            r@ == v@.take(i as int),
        decreases v@.len() - i,
    {
        r.push(v[i].clone());
        i = i + 1;
        proof {
            assert(r@ =~= v@.take(i as int));
        }
    }
    proof {
        assert(v@.take(v@.len() as int) =~= v@);
    }
    r
}

fn copy_rule(r: &Option<RecurrenceRule>) -> (c: Option<RecurrenceRule>)
    ensures
        rule_same(c, *r),
{
    match r {
        Some(x) => Some(
            RecurrenceRule {
                repeat_type: x.repeat_type,
                frequency_unit: x.frequency_unit,
                frequency_amount: x.frequency_amount,
                offsets: copy_strings(&x.offsets),
                start_reference: x.start_reference,
                initial_anchor: x.initial_anchor,
                end_date: x.end_date,
                repeat_count: x.repeat_count,
                task_skip: x.task_skip,
                recurrence_rule_version: x.recurrence_rule_version,
            },
        ),
        None => None,
    }
}

/// The task that folded task properties show, with no checklist items.
pub fn parse_task(uuid: &ThingsId, p: &TaskStateProps, entity: String) -> (t: Task)
    ensures
        task_from_state(*uuid, *p, entity@, t),
        t.checklist_items@.len() == 0,
{
    Task {
        uuid: *uuid,
        title: p.title.clone(),
        status: p.status,
        start: p.start_location,
        item_type: p.item_type,
        entity,
        notes: copy_opt_string(&p.notes),
        project: first_of(&p.parent_project_ids),
        area: first_of(&p.area_ids),
        action_group: first_of(&p.action_group_ids),
        tags: copy_ids(&p.tag_ids),
        trashed: p.trashed,
        deadline: valid(p.deadline),
        start_date: valid(p.scheduled_date),
        stop_date: valid(p.stop_date),
        creation_date: valid(p.creation_date),
        modification_date: valid(p.modification_date),
        index: p.sort_index,
        today_index: p.today_sort_index,
        today_index_reference: p.today_index_reference,
        leaves_tombstone: p.leaves_tombstone,
        instance_creation_paused: p.instance_creation_paused,
        evening: p.evening_bit != 0,
        recurrence_rule: copy_rule(&p.recurrence_rule),
        recurrence_templates: copy_ids(&p.recurrence_template_ids),
        checklist_items: Vec::new(),
    }
}

/// The checklist item that folded checklist properties show.
pub fn parse_checklist_item(uuid: &ThingsId, p: &ChecklistItemStateProps) -> (c: ChecklistItem)
    ensures
        c == checklist_of(*uuid, *p),
{
    let task_uuid = match first_of(&p.task_ids) {
        Some(t) => t,
        None => ThingsId::zero(),
    };
    ChecklistItem {
        uuid: *uuid,
        title: p.title.clone(),
        task_uuid,
        status: p.status,
        index: p.sort_index,
    }
}

/// The area that folded area properties show.
pub fn parse_area(uuid: &ThingsId, p: &AreaStateProps) -> (a: Area)
    ensures
        area_from_state(*uuid, *p, a),
{
    Area { uuid: *uuid, title: p.title.clone(), tags: copy_ids(&p.tag_ids), index: p.sort_index }
}

/// The tag that folded tag properties show.
pub fn parse_tag(uuid: &ThingsId, p: &TagStateProps) -> (t: Tag)
    ensures
        t == tag_of(*uuid, *p),
{
    Tag {
        uuid: *uuid,
        title: p.title.clone(),
        shortcut: copy_opt_string(&p.shortcut),
        index: p.sort_index,
        parent_uuid: first_of(&p.parent_ids),
    }
}

fn copy_checklist_item(c: &ChecklistItem) -> (r: ChecklistItem)
    ensures
        r == *c,
{
    ChecklistItem {
        uuid: c.uuid,
        title: c.title.clone(),
        task_uuid: c.task_uuid,
        status: c.status,
        index: c.index,
    }
}

/// The key that orders checklist items: their index.
pub open spec fn checklist_key(c: ChecklistItem) -> (i128, i128, i128, i128) {
    (c.index as i128, 0, 0, 0)
}

fn checklist_key_of(c: &ChecklistItem) -> (k: (i128, i128, i128, i128))
    ensures
        k == checklist_key(*c),
{
    (c.index as i128, 0i128, 0i128, 0i128)
}

/// The items of `pool` that name task `uuid`, in index order.
fn checklist_for(pool: &Vec<ChecklistItem>, uuid: &ThingsId) -> (r: Vec<ChecklistItem>)
    ensures
        r@.to_multiset() == pool@.filter(|c: ChecklistItem| c.task_uuid == *uuid).to_multiset(),
        forall|i: int, j: int|
            0 <= i < j < r@.len() ==> #[trigger] r@[i].index <= #[trigger] r@[j].index,
{
    let ghost f = |c: ChecklistItem| c.task_uuid == *uuid;
    let mut chosen: Vec<ChecklistItem> = Vec::new();
    let mut i: usize = 0;
    while i < pool.len()
        invariant
            i <= pool@.len(),
            f == (|c: ChecklistItem| c.task_uuid == *uuid),
            chosen@ == pool@.take(i as int).filter(f),
        decreases pool@.len() - i,
    {
        let c = &pool[i];
        proof {
            assert(pool@.take(i as int + 1) =~= pool@.take(i as int).push(pool@[i as int]));
            pool@.take(i as int).lemma_filter_push(pool@[i as int], f);
        }
        if c.task_uuid.same(uuid) {
            chosen.push(copy_checklist_item(c));
        }
        i = i + 1;
    }
    proof {
        assert(pool@.take(pool@.len() as int) =~= pool@);
    }
    let r = sort_by(
        chosen,
        checklist_key_of,
        Ghost(|c: ChecklistItem| checklist_key(c)),
    );
    proof {
        assert forall|a: int, b: int| 0 <= a < b < r@.len() implies #[trigger] r@[a].index <= #[trigger] r@[b].index by {
            assert(key_le(checklist_key(r@[a]), checklist_key(r@[b])));
        }
    }
    r
}

/// Whether an entity type is task-like.
fn entity_task_like(e: &Option<EntityType>) -> (r: bool)
    ensures
        r == is_task_like(entity_view(*e)),
{
    proof {
        reveal_strlit("Task");
    }
    match e {
        Some(EntityType::Task6) => true,
        Some(t) => t.unknown_starts_with("Task"),
        None => false,
    }
}

/// Whether an entity type is area-like.
fn entity_area_like(e: &Option<EntityType>) -> (r: bool)
    ensures
        r == is_area_like(entity_view(*e)),
{
    proof {
        reveal_strlit("Area");
    }
    match e {
        Some(EntityType::Area3) => true,
        Some(t) => t.unknown_starts_with("Area"),
        None => false,
    }
}

/// Whether an entity type is tag-like.
fn entity_tag_like(e: &Option<EntityType>) -> (r: bool)
    ensures
        r == is_tag_like(entity_view(*e)),
{
    proof {
        reveal_strlit("Tag");
    }
    match e {
        Some(EntityType::Tag4) => true,
        Some(t) => t.unknown_starts_with("Tag"),
        None => false,
    }
}

/// The entity name a task shows.
fn task_entity_string(e: &Option<EntityType>) -> (r: String)
    ensures
        r@ == task_entity_name(entity_view(*e)),
{
    match e {
        Some(EntityType::Unknown(s)) => s.clone(),
        _ => {
            proof {
                reveal_strlit("Task6");
            }
            crate::text::owned("Task6")
        },
    }
}

/// The task entries of folded state, in order.
pub open spec fn task_entries(s: Seq<(ThingsId, StateObject)>) -> Seq<(ThingsId, StateObject)> {
    s.filter(|e: (ThingsId, StateObject)| is_task_entry(e))
}

/// The area entries of folded state, in order.
pub open spec fn area_entries(s: Seq<(ThingsId, StateObject)>) -> Seq<(ThingsId, StateObject)> {
    s.filter(|e: (ThingsId, StateObject)| is_area_entry(e))
}

/// The tags of folded state, in order.
pub open spec fn state_tags(s: Seq<(ThingsId, StateObject)>) -> Seq<Tag> {
    s.filter(|e: (ThingsId, StateObject)| is_tag_entry(e)).map_values(
        |e: (ThingsId, StateObject)| entry_tag(e),
    )
}

/// The checklist items of folded state, in order.
pub open spec fn state_checklist_items(s: Seq<(ThingsId, StateObject)>) -> Seq<ChecklistItem> {
    s.filter(|e: (ThingsId, StateObject)| is_checklist_entry(e)).map_values(
        |e: (ThingsId, StateObject)| entry_checklist(e),
    )
}

/// Whether a folded entry is a tombstone.
pub open spec fn is_tombstone_entry(e: (ThingsId, StateObject)) -> bool {
    entity_view(e.1.entity_type) == Some(EntityKind::Tombstone2) || entity_view(e.1.entity_type)
        == Some(EntityKind::Unknown("Tombstone"@))
}

/// The identifiers that get short forms: those of non-tombstone entries.
pub open spec fn short_id_domain(s: Seq<(ThingsId, StateObject)>) -> Seq<ThingsId> {
    s.filter(|e: (ThingsId, StateObject)| !is_tombstone_entry(e)).map_values(
        |e: (ThingsId, StateObject)| e.0,
    )
}

fn tombstone(e: &Option<EntityType>) -> (r: bool)
    ensures
        r == is_tombstone_entry((ThingsId::spec_zero(), StateObject { entity_type: *e, properties: StateProperties::Other })),
{
    proof {
        reveal_strlit("Tombstone");
    }
    match e {
        Some(EntityType::Tombstone2) => true,
        Some(EntityType::Unknown(s)) => crate::text::str_eq(s.as_str(), "Tombstone"),
        _ => false,
    }
}

/// The identifiers that get short forms.
fn short_domain(raw: &RawState) -> (r: Vec<ThingsId>)
    ensures
        r@ == short_id_domain(raw.entries@),
{
    let ghost s = raw.entries@;
    let ghost f = |e: (ThingsId, StateObject)| !is_tombstone_entry(e);
    let ghost m = |e: (ThingsId, StateObject)| e.0;
    let mut r: Vec<ThingsId> = Vec::new();
    let mut i: usize = 0;
    while i < raw.entries.len()
        invariant
            s == raw.entries@,
            i <= s.len(),
            f == (|e: (ThingsId, StateObject)| !is_tombstone_entry(e)),
            m == (|e: (ThingsId, StateObject)| e.0),
            r@ == s.take(i as int).filter(f).map_values(m),
        decreases s.len() - i,
    {
        let ghost e = s[i as int];
        proof {
            assert(s.take(i as int + 1) =~= s.take(i as int).push(e));
            s.take(i as int).lemma_filter_push(e, f);
            assert(s.take(i as int).filter(f).push(e).map_values(m) =~= s.take(i as int).filter(
                f,
            ).map_values(m).push(e.0));
        }
        if !tombstone(&raw.entries[i].1.entity_type) {
            r.push(raw.entries[i].0);
        }
        i = i + 1;
    }
    proof {
        assert(s.take(s.len() as int) =~= s);
    }
    r
}

/// Whether `st` is the store that folded state `s` shows.
pub open spec fn store_of(s: Seq<(ThingsId, StateObject)>, st: ThingsStore) -> bool {
    &&& st.tasks@.len() == task_entries(s).len()
    &&& forall|i: int|
        0 <= i < st.tasks@.len() ==> task_built(
            #[trigger] task_entries(s)[i],
            state_checklist_items(s),
            st.tasks@[i],
        )
    &&& st.areas@.len() == area_entries(s).len()
    &&& forall|i: int|
        0 <= i < st.areas@.len() ==> area_built(#[trigger] area_entries(s)[i], st.areas@[i])
    &&& st.tags@ == state_tags(s)
    &&& st.short_ids@.len() == short_id_domain(s).len()
    &&& forall|i: int|
        0 <= i < st.short_ids@.len() ==> {
            &&& (#[trigger] st.short_ids@[i]).0 == short_id_domain(s)[i]
            &&& st.short_ids@[i].1@ == ascii_chars(spec_unique_prefix(short_id_domain(s), i))
        }
}

impl ThingsStore {
    /// The store that folded state shows: its tasks (with their checklist
    /// items in index order), areas and tags.
    pub fn from_raw_state(raw: &RawState) -> (st: ThingsStore)
        ensures
            store_of(raw.entries@, st),
    {
        let ghost s = raw.entries@;
        let ghost ft = |e: (ThingsId, StateObject)| is_task_entry(e);
        let ghost fa = |e: (ThingsId, StateObject)| is_area_entry(e);
        let ghost fg = |e: (ThingsId, StateObject)| is_tag_entry(e);
        let ghost fc = |e: (ThingsId, StateObject)| is_checklist_entry(e);
        let ghost mg = |e: (ThingsId, StateObject)| entry_tag(e);
        let ghost mc = |e: (ThingsId, StateObject)| entry_checklist(e);
        let mut tasks: Vec<Task> = Vec::new();
        let mut areas: Vec<Area> = Vec::new();
        let mut tags: Vec<Tag> = Vec::new();
        let mut pool: Vec<ChecklistItem> = Vec::new();
        let mut i: usize = 0;
        while i < raw.entries.len()
            invariant
                s == raw.entries@,
                i <= s.len(),
                ft == (|e: (ThingsId, StateObject)| is_task_entry(e)),
                fa == (|e: (ThingsId, StateObject)| is_area_entry(e)),
                fg == (|e: (ThingsId, StateObject)| is_tag_entry(e)),
                fc == (|e: (ThingsId, StateObject)| is_checklist_entry(e)),
                mg == (|e: (ThingsId, StateObject)| entry_tag(e)),
                mc == (|e: (ThingsId, StateObject)| entry_checklist(e)),
                tasks@.len() == s.take(i as int).filter(ft).len(),
                forall|j: int|
                    0 <= j < tasks@.len() ==> {
                        let e = #[trigger] s.take(i as int).filter(ft)[j];
                        &&& task_from_state(
                            e.0,
                            e.1.properties->Task_0,
                            task_entity_name(entity_view(e.1.entity_type)),
                            tasks@[j],
                        )
                    },
                areas@.len() == s.take(i as int).filter(fa).len(),
                forall|j: int|
                    0 <= j < areas@.len() ==> area_built(
                        #[trigger] s.take(i as int).filter(fa)[j],
                        areas@[j],
                    ),
                tags@ == s.take(i as int).filter(fg).map_values(mg),
                pool@ == s.take(i as int).filter(fc).map_values(mc),
            decreases s.len() - i,
        {
            let uuid = &raw.entries[i].0;
            let obj = &raw.entries[i].1;
            let ghost e = s[i as int];
            proof {
                assert(s.take(i as int + 1) =~= s.take(i as int).push(e));
                s.take(i as int).lemma_filter_push(e, ft);
                s.take(i as int).lemma_filter_push(e, fa);
                s.take(i as int).lemma_filter_push(e, fg);
                s.take(i as int).lemma_filter_push(e, fc);
                assert(s.take(i as int).filter(fg).push(e).map_values(mg) =~= s.take(i as int).filter(
                    fg,
                ).map_values(mg).push(entry_tag(e)));
                assert(s.take(i as int).filter(fc).push(e).map_values(mc) =~= s.take(i as int).filter(
                    fc,
                ).map_values(mc).push(entry_checklist(e)));
            }
            let task_like = entity_task_like(&obj.entity_type);
            if task_like {
                if let StateProperties::Task(props) = &obj.properties {
                    let entity = task_entity_string(&obj.entity_type);
                    tasks.push(parse_task(uuid, props, entity));
                }
            } else if entity_area_like(&obj.entity_type) {
                if let StateProperties::Area(props) = &obj.properties {
                    areas.push(parse_area(uuid, props));
                }
            } else if entity_tag_like(&obj.entity_type) {
                if let StateProperties::Tag(props) = &obj.properties {
                    tags.push(parse_tag(uuid, props));
                }
            } else if matches!(obj.entity_type, Some(EntityType::ChecklistItem3)) {
                if let StateProperties::ChecklistItem(props) = &obj.properties {
                    pool.push(parse_checklist_item(uuid, props));
                }
            }
            i = i + 1;
        }
        proof {
            assert(s.take(s.len() as int) =~= s);
        }
        let mut j: usize = 0;
        while j < tasks.len()
            invariant
                s == raw.entries@,
                ft == (|e: (ThingsId, StateObject)| is_task_entry(e)),
                pool@ == state_checklist_items(s),
                tasks@.len() == task_entries(s).len(),
                j <= tasks@.len(),
                forall|k: int|
                    0 <= k < tasks@.len() ==> {
                        let e = #[trigger] task_entries(s)[k];
                        &&& task_from_state(
                            e.0,
                            e.1.properties->Task_0,
                            task_entity_name(entity_view(e.1.entity_type)),
                            tasks@[k],
                        )
                    },
                forall|k: int|
                    0 <= k < j ==> task_built(
                        #[trigger] task_entries(s)[k],
                        state_checklist_items(s),
                        tasks@[k],
                    ),
            decreases tasks@.len() - j,
        {
            let uuid = tasks[j].uuid;
            let items = checklist_for(&pool, &uuid);
            tasks[j].checklist_items = items;
            j = j + 1;
        }
        let domain = short_domain(raw);
        let short_ids = shortest_unique_prefixes(domain.as_slice());
        ThingsStore { tasks, areas, tags, short_ids }
    }
}

/// The first item satisfying `p`, if any.
pub open spec fn first_match<T>(s: Seq<T>, p: spec_fn(T) -> bool) -> Option<T>
    decreases s.len(),
{
    if s.len() == 0 {
        None
    } else if p(s[0]) {
        Some(s[0])
    } else {
        first_match(s.drop_first(), p)
    }
}

/// References to the items of a list.
pub open spec fn refs<'a, T>(s: Seq<T>) -> Seq<&'a T> {
    s.map_values(|t: T| &t)
}

/// The items of `s` that `keep` accepts given `ctx`, in order; `keep`
/// decides what `p` names.
pub fn select<'a, T, C, F: Fn(&C, &T) -> bool>(
    s: &'a Vec<T>,
    ctx: &C,
    keep: F,
    Ghost(p): Ghost<spec_fn(C, T) -> bool>,
) -> (r: Vec<&'a T>)
    requires
        forall|c: &C, x: &T| #[trigger] keep.requires((c, x)),
        forall|c: &C, x: &T, b: bool| keep.ensures((c, x), b) ==> b == p(*c, *x),
    ensures
        r@ == refs(s@.filter(|x: T| p(*ctx, x))),
{
    let ghost q = |x: T| p(*ctx, x);
    let mut r: Vec<&'a T> = Vec::new();
    let mut i: usize = 0;
    while i < s.len()
        invariant
            forall|c: &C, x: &T| #[trigger] keep.requires((c, x)),
            forall|c: &C, x: &T, b: bool| keep.ensures((c, x), b) ==> b == p(*c, *x),
            q == (|x: T| p(*ctx, x)),
            i <= s@.len(),
            r@ == refs(s@.take(i as int).filter(q)),
        decreases s@.len() - i,
    {
        proof {
            assert(s@.take(i as int + 1) =~= s@.take(i as int).push(s@[i as int]));
            s@.take(i as int).lemma_filter_push(s@[i as int], q);
        }
        let item = &s[i];
        if keep(ctx, item) {
            r.push(item);
        }
        i = i + 1;
        proof {
            assert(r@ =~= refs(s@.take(i as int).filter(q)));
        }
    }
    proof {
        assert(s@.take(s@.len() as int) =~= s@);
    }
    r
}

/// The key ordering tasks by their sort index.
pub open spec fn index_key(t: &Task) -> (i128, i128, i128, i128) {
    (t.index as i128, 0, 0, 0)
}

fn index_key_of(t: &&Task) -> (k: (i128, i128, i128, i128))
    ensures
        k == index_key(*t),
{
    (t.index as i128, 0i128, 0i128, 0i128)
}

/// Whether a task passes the optional status, trashed and type filters and
/// is no heading.
pub open spec fn tasks_filter(f: (Option<TaskStatus>, Option<bool>, Option<TaskType>), t: Task) -> bool {
    &&& (f.1 matches Some(x) ==> t.trashed == x)
    &&& (f.0 matches Some(x) ==> t.status == x)
    &&& (f.2 matches Some(x) ==> t.item_type == x)
    &&& t.item_type != TaskType::Heading
}

fn tasks_keep(f: &(Option<TaskStatus>, Option<bool>, Option<TaskType>), t: &Task) -> (b: bool)
    ensures
        b == tasks_filter(*f, *t),
{
    (match f.1 {
        Some(x) => t.trashed == x,
        None => true,
    }) && (match f.0 {
        Some(x) => t.status == x,
        None => true,
    }) && (match f.2 {
        Some(x) => t.item_type == x,
        None => true,
    }) && !t.is_heading()
}

impl ThingsStore {
    /// Tasks (no headings) matching the optional filters, by sort index.
    pub fn tasks(
        &self,
        status: Option<TaskStatus>,
        trashed: Option<bool>,
        item_type: Option<TaskType>,
    ) -> (r: Vec<&Task>)
        ensures
            r@.to_multiset() == refs(
                self.tasks@.filter(|t: Task| tasks_filter((status, trashed, item_type), t)),
            ).to_multiset(),
            sorted_by(r@, |t: &Task| index_key(t)),
    {
        let f = (status, trashed, item_type);
        let ghost p = |f: (Option<TaskStatus>, Option<bool>, Option<TaskType>), t: Task| tasks_filter(f, t);
        let chosen = select(&self.tasks, &f, tasks_keep, Ghost(p));
        proof {
            assert((|x: Task| p(f, x)) =~= (|t: Task| tasks_filter((status, trashed, item_type), t)));
        }
        sort_by(chosen, index_key_of, Ghost(|t: &Task| index_key(t)))
    }
}

/// The first item of `s` that `keep` accepts given `ctx`; `keep` decides
/// what `p` names.
pub fn first_where<'a, T, C, F: Fn(&C, &T) -> bool>(
    s: &'a Vec<T>,
    ctx: &C,
    keep: F,
    Ghost(p): Ghost<spec_fn(C, T) -> bool>,
) -> (r: Option<&'a T>)
    requires
        forall|c: &C, x: &T| #[trigger] keep.requires((c, x)),
        forall|c: &C, x: &T, b: bool| keep.ensures((c, x), b) ==> b == p(*c, *x),
    ensures
        match r {
            Some(x) => first_match(s@, |x: T| p(*ctx, x)) == Some(*x),
            None => first_match(s@, |x: T| p(*ctx, x)) is None,
        },
{
    let ghost q = |x: T| p(*ctx, x);
    let mut i: usize = 0;
    proof {
        assert(s@.subrange(0, s@.len() as int) =~= s@);
    }
    while i < s.len()
        invariant
            forall|c: &C, x: &T| #[trigger] keep.requires((c, x)),
            forall|c: &C, x: &T, b: bool| keep.ensures((c, x), b) ==> b == p(*c, *x),
            q == (|x: T| p(*ctx, x)),
            i <= s@.len(),
            first_match(s@, q) == first_match(s@.subrange(i as int, s@.len() as int), q),
        decreases s@.len() - i,
    {
        let item = &s[i];
        proof {
            let rest = s@.subrange(i as int, s@.len() as int);
            assert(rest[0] == s@[i as int]);
            assert(rest.drop_first() =~= s@.subrange(i as int + 1, s@.len() as int));
        }
        if keep(ctx, item) {
            return Some(item);
        }
        i = i + 1;
    }
    None
}

} // verus!
