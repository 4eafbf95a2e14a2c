use things3_cloud::ids::things_id::{parse_things_id, ThingsId};
use things3_cloud::store::entities::StateProperties;
use things3_cloud::store::state::{fold_items, RawState};
use things3_cloud::store::things_store::ThingsStore;
use things3_cloud::time::UtcTime;
use things3_cloud::wire::codes::{
    default_frequency_amount, default_frequency_unit, default_recurrence_end_date,
    default_recurrence_rule_version, FrequencyUnit, OperationType, TaskStart, TaskStatus, TaskType,
};
use things3_cloud::wire::entity::EntityType;
use things3_cloud::wire::props::{AreaPatch, ChecklistItemPatch, RecurrenceRule, TagPatch, TaskPatch, TaskProps};
use things3_cloud::wire::value::{PropMap, PropValue};
use things3_cloud::wire::wire_object::{PayloadKind, Properties, WireObject};

const TASK_ID: &str = "A7h5eCi24RvAWKC3Hv3muf";

fn at(secs: i64) -> UtcTime {
    UtcTime { secs, nanos: 0 }
}

fn task6_create() -> Vec<(String, WireObject)> {
    let props = TaskProps {
        title: "Send tracking number".to_string(),
        item_type: TaskType::Todo,
        status: TaskStatus::Incomplete,
        start_location: TaskStart::Anytime,
        creation_date: Some(at(1)),
        modification_date: Some(at(1)),
        ..TaskProps::default()
    };
    vec![(
        TASK_ID.to_string(),
        WireObject::create(EntityType::Task6, Properties::TaskCreate(props)),
    )]
}

fn update(entity: &str, payload: Properties) -> Vec<(String, WireObject)> {
    vec![(
        TASK_ID.to_string(),
        WireObject::update(EntityType::from_name(entity), payload),
    )]
}

fn task_props(state: &RawState, id: &ThingsId) -> Option<(String, TaskStatus)> {
    match &state.get(id)?.properties {
        StateProperties::Task(p) => Some((p.title.clone(), p.status)),
        _ => None,
    }
}

#[test]
fn recurrence_rule_defaults_match_protocol() {
    let parsed = RecurrenceRule::protocol_default();
    assert_eq!(parsed.frequency_unit, FrequencyUnit::Weekly);
    assert_eq!(parsed.frequency_amount, 1);
    assert_eq!(parsed.end_date, 64_092_211_200);
    assert_eq!(parsed.recurrence_rule_version, 4);
}

#[test]
fn protocol_defaults_match_the_default_functions() {
    assert_eq!(default_frequency_unit(), FrequencyUnit::Weekly);
    assert_eq!(default_frequency_amount(), 1);
    assert_eq!(default_recurrence_end_date(), 64_092_211_200);
    assert_eq!(default_recurrence_rule_version(), 4);
    let plain = RecurrenceRule::default();
    assert_eq!(plain.frequency_amount, 0);
    assert_eq!(plain.end_date, 0);
}

#[test]
fn operation_enum_serializes_to_wire_integer() {
    let object = WireObject::delete(EntityType::Task6);
    assert_eq!(object.operation_type.code(), 2);
    assert_eq!(OperationType::Create.code(), 0);
    assert_eq!(OperationType::Update.code(), 1);
}

#[test]
fn unknown_numeric_enum_values_round_trip() {
    let parsed = OperationType::from_code(99);
    assert_eq!(parsed, OperationType::Unknown(99));
    assert_eq!(parsed.code(), 99);
}

#[test]
fn unknown_entity_values_round_trip() {
    let parsed = EntityType::from_name("Task7");
    assert_eq!(parsed, EntityType::Unknown("Task7".to_string()));
    assert_eq!(parsed.name(), "Task7");
}

#[test]
fn known_codes_round_trip() {
    for v in [0, 1, 2, 3] {
        assert_eq!(TaskStatus::from_code(v).code(), v);
        assert_eq!(TaskType::from_code(v).code(), v);
        assert_eq!(TaskStart::from_code(v).code(), v);
    }
    assert_eq!(TaskStatus::from_code(3), TaskStatus::Completed);
    assert_eq!(TaskStart::from_code(1), TaskStart::Anytime);
    assert_eq!(TaskType::from_code(1), TaskType::Project);
}

#[test]
fn typed_properties_dispatch_for_task_create() {
    let kind = WireObject::payload_kind(OperationType::Create, Some(&EntityType::Task6));
    assert_eq!(kind, PayloadKind::TaskCreate);
    let kind7 = WireObject::payload_kind(OperationType::Update, Some(&EntityType::Unknown("Task7".to_string())));
    assert_eq!(kind7, PayloadKind::TaskUpdate);
}

#[test]
fn typed_properties_dispatch_for_delete() {
    let kind = WireObject::payload_kind(OperationType::Delete, Some(&EntityType::Task6));
    assert_eq!(kind, PayloadKind::Delete);
}

#[test]
fn unknown_operations_and_entities_stay_unknown() {
    assert_eq!(WireObject::payload_kind(OperationType::Unknown(7), Some(&EntityType::Task6)), PayloadKind::Unknown);
    assert_eq!(WireObject::payload_kind(OperationType::Create, None), PayloadKind::Unknown);
    assert_eq!(WireObject::payload_kind(OperationType::Create, Some(&EntityType::Area3)), PayloadKind::AreaCreate);
    assert_eq!(WireObject::payload_kind(OperationType::Update, Some(&EntityType::Tag4)), PayloadKind::TagUpdate);
}

#[test]
fn task7_update_preserves_task_state_and_promotes_entity() {
    let patch = TaskPatch {
        status: Some(TaskStatus::Incomplete),
        stop_date: Some(None),
        modification_date: Some(at(2)),
        ..TaskPatch::default()
    };
    let state = fold_items(vec![task6_create(), update("Task7", Properties::TaskUpdate(patch))]);
    let task_id: ThingsId = TASK_ID.parse().expect("valid task id");
    let object = state.get(&task_id).expect("task state should remain");

    assert_eq!(object.entity_type, Some(EntityType::Unknown("Task7".to_string())));
    let StateProperties::Task(properties) = &object.properties else {
        panic!("Task7 update replaced typed task state");
    };
    assert_eq!(properties.title, "Send tracking number");
    assert_eq!(properties.status, TaskStatus::Incomplete);
    assert_eq!(properties.modification_date, Some(at(2)));

    let store = ThingsStore::from_raw_state(&state);
    let task = store.get_task(TASK_ID).expect("Task7 task should be visible");
    assert_eq!(task.item_type, TaskType::Todo);
    assert_eq!(task.entity, "Task7");
}

#[test]
fn unknown_future_task_update_does_not_destroy_known_state() {
    let mut loose = PropMap::new();
    loose.set("future", PropValue::Bool(true));
    let state = fold_items(vec![task6_create(), update("Task8", Properties::Unknown(loose))]);
    let task_id: ThingsId = TASK_ID.parse().expect("valid task id");
    let object = state.get(&task_id).expect("task state should remain");

    assert_eq!(object.entity_type, Some(EntityType::Unknown("Task8".to_string())));
    assert!(matches!(object.properties, StateProperties::Task(_)));
    assert!(ThingsStore::from_raw_state(&state).get_task(TASK_ID).is_some());
}

#[test]
fn malformed_task7_patch_is_preserved_as_unknown_and_ignored() {
    let mut loose = PropMap::new();
    loose.set("ss", PropValue::Json("\"future\"".to_string()));
    let object = WireObject::update(EntityType::from_name("Task7"), Properties::Unknown(loose));
    assert!(matches!(object.payload, Properties::Unknown(_)));

    let state = fold_items(vec![task6_create(), vec![(TASK_ID.to_string(), object)]]);
    let task_id: ThingsId = TASK_ID.parse().expect("valid task id");
    let (title, status) = task_props(&state, &task_id).expect("malformed Task7 patch replaced typed task state");
    assert_eq!(title, "Send tracking number");
    assert_eq!(status, TaskStatus::Incomplete);
}

#[test]
fn delete_removes_and_create_replaces() {
    let task_id = parse_things_id(TASK_ID).unwrap();
    let gone = fold_items(vec![
        task6_create(),
        vec![(TASK_ID.to_string(), WireObject::delete(EntityType::Task6))],
    ]);
    assert!(gone.get(&task_id).is_none());

    let renamed = TaskProps { title: "Second".to_string(), ..TaskProps::default() };
    let again = fold_items(vec![
        task6_create(),
        vec![(TASK_ID.to_string(), WireObject::create(EntityType::Task6, Properties::TaskCreate(renamed)))],
    ]);
    assert_eq!(task_props(&again, &task_id).unwrap().0, "Second");
}

#[test]
fn update_of_missing_object_creates_it() {
    let patch = TaskPatch { title: Some("Fresh".to_string()), ..TaskPatch::default() };
    let state = fold_items(vec![update("Task6", Properties::TaskUpdate(patch))]);
    let task_id = parse_things_id(TASK_ID).unwrap();
    assert!(state.get(&task_id).is_some());
}

#[test]
fn unknown_operation_is_ignored() {
    let task_id = parse_things_id(TASK_ID).unwrap();
    let odd = WireObject {
        operation_type: OperationType::Unknown(42),
        entity_type: Some(EntityType::Task6),
        payload: Properties::Delete,
    };
    let state = fold_items(vec![task6_create(), vec![(TASK_ID.to_string(), odd)]]);
    assert_eq!(task_props(&state, &task_id).unwrap().0, "Send tracking number");
}

#[test]
fn prop_map_set_replaces_and_get_reads() {
    let mut p = PropMap::new();
    p.set("tt", PropValue::Text("A".to_string()));
    p.set("tt", PropValue::Text("B".to_string()));
    p.set("ix", PropValue::Int(3));
    assert_eq!(p.entries.len(), 2);
    assert!(matches!(p.get("tt"), Some(PropValue::Text(t)) if t == "B"));
    assert!(matches!(p.get("ix"), Some(PropValue::Int(3))));
    assert!(p.get("md").is_none());
}

#[test]
fn patch_property_maps_hold_exactly_what_is_set() {
    let empty = TaskPatch::empty();
    assert!(empty.is_empty());
    assert!(TaskPatch::empty().into_properties().is_empty());

    let patch = TaskPatch {
        title: Some("Renamed".to_string()),
        stop_date: Some(None),
        evening_bit: Some(1),
        status: Some(TaskStatus::Completed),
        modification_date: Some(UtcTime { secs: 10, nanos: 0 }),
        ..TaskPatch::empty()
    };
    assert!(!patch.is_empty());
    let map = patch.into_properties();
    assert_eq!(map.entries.len(), 5);
    assert!(matches!(map.get("tt"), Some(PropValue::Text(t)) if t == "Renamed"));
    assert!(matches!(map.get("sp"), Some(PropValue::Null)));
    assert!(matches!(map.get("sb"), Some(PropValue::Int(1))));
    assert!(matches!(map.get("ss"), Some(PropValue::Int(3))));
    assert!(matches!(map.get("md"), Some(PropValue::Time(t)) if t.secs == 10));
    assert!(map.get("dd").is_none());

    let rule = TaskPatch { recurrence_rule: Some(Some(RecurrenceRule::protocol_default())), ..TaskPatch::empty() };
    assert!(matches!(rule.into_properties().get("rr"), Some(PropValue::Rule(_))));

    assert!(ChecklistItemPatch::empty().into_properties().is_empty());
    let item = ChecklistItemPatch { title: Some("x".to_string()), ..ChecklistItemPatch::empty() };
    assert_eq!(item.into_properties().entries.len(), 1);

    assert!(TagPatch::empty().into_properties().is_empty());
    let tag = TagPatch { shortcut: Some(None), ..TagPatch::empty() };
    assert!(matches!(tag.into_properties().get("sh"), Some(PropValue::Null)));

    assert!(AreaPatch::empty().into_properties().is_empty());
    let area = AreaPatch { sort_index: Some(4), ..AreaPatch::empty() };
    assert!(matches!(area.into_properties().get("ix"), Some(PropValue::Int(4))));
}
