use things3_cloud::commands::delete::{build_delete_plan, DeleteArgs};
use things3_cloud::commands::edits::{
    build_areas_edit_plan, build_projects_edit_plan, build_tags_edit_plan, AreasEditArgs,
    ProjectsEditArgs, TagDeltaArgs, TagsEditArgs,
};
use things3_cloud::commands::new_task::{build_new_plan, NewArgs};
use things3_cloud::commands::schedule::{build_schedule_plan, ScheduleArgs};
use things3_cloud::common::{day_to_timestamp, parse_day};
use things3_cloud::ids::things_id::{parse_things_id, ThingsId};
use things3_cloud::store::state::fold_items;
use things3_cloud::store::things_store::ThingsStore;
use things3_cloud::time::UtcTime;
use things3_cloud::wire::codes::{OperationType, TaskStart, TaskStatus, TaskType};
use things3_cloud::wire::entity::EntityType;
use things3_cloud::wire::props::{AreaProps, TagProps, TaskProps};
use things3_cloud::wire::value::{PropMap, PropValue};
use things3_cloud::wire::wire_object::{Properties, WireObject};

fn at(secs: i64) -> UtcTime {
    UtcTime { secs, nanos: 0 }
}

fn id(s: &str) -> ThingsId {
    parse_things_id(s).expect("valid id")
}

fn build_store(entries: Vec<(String, WireObject)>) -> ThingsStore {
    ThingsStore::from_raw_state(&fold_items(vec![entries]))
}

fn task_entry(uuid: &str, props: TaskProps) -> (String, WireObject) {
    (uuid.to_string(), WireObject::create(EntityType::Task6, Properties::TaskCreate(props)))
}

fn task(uuid: &str, title: &str, st: TaskStart, ix: i32) -> (String, WireObject) {
    task_entry(
        uuid,
        TaskProps {
            title: title.to_string(),
            item_type: TaskType::Todo,
            status: TaskStatus::Incomplete,
            start_location: st,
            sort_index: ix,
            creation_date: Some(at(1)),
            modification_date: Some(at(1)),
            ..TaskProps::default()
        },
    )
}

fn trashed_task(uuid: &str, title: &str, trashed: bool) -> (String, WireObject) {
    task_entry(
        uuid,
        TaskProps {
            title: title.to_string(),
            trashed,
            creation_date: Some(at(1)),
            modification_date: Some(at(1)),
            ..TaskProps::default()
        },
    )
}

fn project(uuid: &str, title: &str, tags: Vec<&str>) -> (String, WireObject) {
    task_entry(
        uuid,
        TaskProps {
            title: title.to_string(),
            item_type: TaskType::Project,
            status: TaskStatus::Incomplete,
            start_location: TaskStart::Anytime,
            tag_ids: tags.into_iter().map(id).collect(),
            creation_date: Some(at(1)),
            modification_date: Some(at(1)),
            ..TaskProps::default()
        },
    )
}

fn area(uuid: &str, title: &str, tags: Vec<&str>) -> (String, WireObject) {
    (
        uuid.to_string(),
        WireObject::create(
            EntityType::Area3,
            Properties::AreaCreate(AreaProps {
                title: title.to_string(),
                tag_ids: tags.into_iter().map(id).collect(),
                sort_index: 0,
                conflict_overrides: None,
            }),
        ),
    )
}

fn tag(uuid: &str, title: &str, parent: Option<&str>) -> (String, WireObject) {
    (
        uuid.to_string(),
        WireObject::create(
            EntityType::Tag4,
            Properties::TagCreate(TagProps {
                title: title.to_string(),
                shortcut: None,
                sort_index: 0,
                parent_ids: parent.into_iter().map(id).collect(),
                conflict_overrides: None,
            }),
        ),
    )
}

fn payload(obj: &WireObject) -> &PropMap {
    match &obj.payload {
        Properties::Unknown(p) => p,
        other => panic!("unexpected payload {other:?}"),
    }
}

fn int_prop(p: &PropMap, k: &str) -> Option<i64> {
    match p.get(k) {
        Some(PropValue::Int(v)) => Some(*v),
        _ => None,
    }
}

fn text_prop(p: &PropMap, k: &str) -> Option<String> {
    match p.get(k) {
        Some(PropValue::Text(v)) => Some(v.clone()),
        _ => None,
    }
}

fn time_prop(p: &PropMap, k: &str) -> Option<UtcTime> {
    match p.get(k) {
        Some(PropValue::Time(v)) => Some(*v),
        _ => None,
    }
}

fn ids_prop(p: &PropMap, k: &str) -> Option<Vec<String>> {
    match p.get(k) {
        Some(PropValue::Ids(v)) => Some(v.iter().map(|i| i.to_string()).collect()),
        _ => None,
    }
}

fn new_args(title: &str, in_target: &str) -> NewArgs {
    NewArgs {
        title: title.to_string(),
        in_target: in_target.to_string(),
        when: None,
        before_id: None,
        after_id: None,
        notes: String::new(),
        tags: None,
        deadline_date: None,
    }
}

fn no_tags() -> TagDeltaArgs {
    TagDeltaArgs { add_tags: None, remove_tags: None }
}


const NEW_NOW: i64 = 1_700_000_000;
const NEW_UUID: &str = "MpkEei6ybkFS2n6SXvwfLf";
const INBOX_ANCHOR_UUID: &str = "A7h5eCi24RvAWKC3Hv3muf";
const INBOX_OTHER_UUID: &str = "KGvAPpMrzHAKMdgMiERP1V";
const PROJECT_UUID: &str = "JFdhhhp37fpryAKu8UXwzK";
const AREA_UUID: &str = "74rgJf6Qh9wYp2TcVk8mNB";
const TAG_A_UUID: &str = "By8mN2qRk5Wv7Xc9Dt3HpL";
const TAG_B_UUID: &str = "Cv9nP3sTk6Xw8Yd4Eu5JqM";
const TODAY: i64 = 1_700_000_000;

#[test]
fn new_payload_parity_cases() {
    let now = at(NEW_NOW);
    let bare = build_new_plan(&new_args("Ship release", "inbox"), &build_store(vec![]), now, TODAY, 0, NEW_UUID.to_string())
        .expect("bare");
    let (key, obj) = &bare.changes[0];
    assert_eq!(key, NEW_UUID);
    assert_eq!(obj.operation_type.code(), 0);
    assert_eq!(obj.entity_type, Some(EntityType::Task6));
    let p = payload(obj);
    assert_eq!(text_prop(p, "tt").as_deref(), Some("Ship release"));
    assert_eq!(int_prop(p, "st"), Some(0));
    assert_eq!(time_prop(p, "cd"), Some(now));
    assert_eq!(time_prop(p, "md"), Some(now));

    let mut today_args = new_args("Task today", "inbox");
    today_args.when = Some("today".to_string());
    let when_today = build_new_plan(&today_args, &build_store(vec![]), now, TODAY, 0, NEW_UUID.to_string()).expect("today");
    let p = payload(&when_today.changes[0].1);
    assert_eq!(int_prop(p, "st"), Some(1));
    assert_eq!(int_prop(p, "sr"), Some(TODAY));
    assert_eq!(int_prop(p, "tir"), Some(TODAY));

    let full_store = build_store(vec![
        project(PROJECT_UUID, "Roadmap", vec![]),
        area(AREA_UUID, "Work", vec![]),
        tag(TAG_A_UUID, "urgent", None),
        tag(TAG_B_UUID, "backend", None),
    ]);
    let mut in_project_args = new_args("Project task", PROJECT_UUID);
    in_project_args.notes = "line one".to_string();
    in_project_args.tags = Some("urgent,backend".to_string());
    in_project_args.deadline_date = Some("2032-05-06".to_string());
    let in_project = build_new_plan(&in_project_args, &full_store, now, TODAY, 0, NEW_UUID.to_string()).expect("in project");
    let p = payload(&in_project.changes[0].1);
    let deadline_ts = day_to_timestamp(parse_day(Some("2032-05-06"), "--deadline", 0).expect("parse").expect("day"));
    assert_eq!(ids_prop(p, "pr"), Some(vec![PROJECT_UUID.to_string()]));
    assert_eq!(int_prop(p, "st"), Some(1));
    assert_eq!(ids_prop(p, "tg"), Some(vec![TAG_A_UUID.to_string(), TAG_B_UUID.to_string()]));
    assert_eq!(int_prop(p, "dd"), Some(deadline_ts));
}

#[test]
fn new_after_gap_and_rebalance() {
    let now = at(NEW_NOW);
    let gap_store = build_store(vec![
        task(INBOX_ANCHOR_UUID, "Anchor", TaskStart::Inbox, 1024),
        task(INBOX_OTHER_UUID, "Other", TaskStart::Inbox, 2048),
    ]);
    let mut args = new_args("Inserted", "inbox");
    args.after_id = Some(INBOX_ANCHOR_UUID.to_string());
    let gap = build_new_plan(&args, &gap_store, now, TODAY, 0, NEW_UUID.to_string()).expect("gap");
    assert_eq!(int_prop(payload(&gap.changes[0].1), "ix"), Some(1536));

    let rebalance_store = build_store(vec![
        task(INBOX_ANCHOR_UUID, "Anchor", TaskStart::Inbox, 1024),
        task(INBOX_OTHER_UUID, "Other", TaskStart::Inbox, 1025),
    ]);
    let rebalance = build_new_plan(&args, &rebalance_store, now, TODAY, 0, NEW_UUID.to_string()).expect("rebalance");
    assert_eq!(int_prop(payload(&rebalance.changes[0].1), "ix"), Some(2048));
    let (_, other) = rebalance
        .changes
        .iter()
        .find(|(k, _)| k == INBOX_OTHER_UUID)
        .expect("other task moved");
    let p = payload(other);
    assert_eq!(p.entries.len(), 2);
    assert_eq!(int_prop(p, "ix"), Some(3072));
    assert_eq!(time_prop(p, "md"), Some(now));
}

#[test]
fn new_rejections() {
    let now = at(NEW_NOW);
    let empty_title = build_new_plan(&new_args("   ", "inbox"), &build_store(vec![]), now, TODAY, 0, NEW_UUID.to_string())
        .expect_err("empty title");
    assert_eq!(empty_title, "Task title cannot be empty.");

    let unknown_container = build_new_plan(&new_args("Ship", "nope"), &build_store(vec![]), now, TODAY, 0, NEW_UUID.to_string())
        .expect_err("unknown container");
    assert_eq!(unknown_container, "Container not found: nope");
}

const SCHED_NOW: i64 = 1_700_000_333;
const TASK_UUID: &str = "A7h5eCi24RvAWKC3Hv3muf";

fn schedule_args(when: Option<&str>, deadline: Option<&str>, clear: bool) -> ScheduleArgs {
    ScheduleArgs {
        task_id: TASK_UUID.to_string(),
        when: when.map(str::to_string),
        deadline_date: deadline.map(str::to_string),
        clear_deadline: clear,
    }
}

#[test]
fn schedule_when_variants_payloads() {
    let store = build_store(vec![task(TASK_UUID, "Schedule me", TaskStart::Inbox, 0)]);
    let now = at(SCHED_NOW);
    let future_ts = day_to_timestamp(parse_day(Some("2099-05-10"), "--when", 0).expect("parse").expect("day"));
    let cases = [
        ("today", TaskStart::Anytime, Some(TODAY), 0),
        ("someday", TaskStart::Someday, None, 0),
        ("anytime", TaskStart::Anytime, None, 0),
        ("evening", TaskStart::Anytime, Some(TODAY), 1),
        ("2099-05-10", TaskStart::Someday, Some(future_ts), 0),
    ];
    for (when, st, sr, sb) in cases {
        let plan = build_schedule_plan(&schedule_args(Some(when), None, false), &store, now, TODAY, 0).expect("schedule plan");
        let u = &plan.update;
        assert_eq!(u.start_location, Some(st));
        assert_eq!(u.scheduled_date, Some(sr));
        assert_eq!(u.today_index_reference, Some(sr));
        assert_eq!(u.evening_bit, Some(sb));
        assert_eq!(u.modification_date, Some(now));
        assert!(u.deadline.is_none());
        assert!(u.title.is_none());
    }
}

#[test]
fn schedule_deadline_and_clear_payloads() {
    let store = build_store(vec![task(TASK_UUID, "Schedule me", TaskStart::Inbox, 0)]);
    let now = at(SCHED_NOW);
    let deadline_ts = day_to_timestamp(parse_day(Some("2034-02-01"), "--deadline", 0).expect("parse").expect("day"));

    let deadline = build_schedule_plan(&schedule_args(None, Some("2034-02-01"), false), &store, now, TODAY, 0).expect("deadline plan");
    assert_eq!(deadline.update.deadline, Some(Some(at(deadline_ts))));
    assert_eq!(deadline.update.modification_date, Some(now));
    assert!(deadline.update.start_location.is_none());

    let clear = build_schedule_plan(&schedule_args(None, None, true), &store, now, TODAY, 0).expect("clear plan");
    assert_eq!(clear.update.deadline, Some(None));
    assert_eq!(clear.update.modification_date, Some(now));
}

#[test]
fn schedule_rejections() {
    let store = build_store(vec![task(TASK_UUID, "A", TaskStart::Inbox, 0)]);
    let now = at(SCHED_NOW);
    let no_changes = build_schedule_plan(&schedule_args(None, None, false), &store, now, TODAY, 0).expect_err("no changes");
    assert_eq!(no_changes, "No schedule changes requested.");

    let invalid_when = build_schedule_plan(&schedule_args(Some("2024-02-31"), None, false), &store, now, TODAY, 0)
        .expect_err("invalid when");
    assert_eq!(invalid_when, "Invalid --when date: 2024-02-31 (expected YYYY-MM-DD)");
}

const TASK_A: &str = "A7h5eCi24RvAWKC3Hv3muf";
const TASK_B: &str = "KGvAPpMrzHAKMdgMiERP1V";
const AREA_A: &str = "MpkEei6ybkFS2n6SXvwfLf";

fn deleted(changes: &[(String, WireObject)]) -> Vec<(String, EntityType)> {
    changes
        .iter()
        .map(|(k, o)| {
            assert_eq!(o.operation_type, OperationType::Delete);
            assert!(matches!(o.payload, Properties::Delete));
            (k.clone(), o.entity_type.clone().expect("entity"))
        })
        .collect()
}

#[test]
fn delete_payloads_match_python_cases() {
    let single = build_delete_plan(
        &DeleteArgs { item_ids: vec![TASK_A.to_string()] },
        &build_store(vec![trashed_task(TASK_A, "Alpha", false)]),
    );
    assert_eq!(deleted(&single.changes), vec![(TASK_A.to_string(), EntityType::Task6)]);

    let multi = build_delete_plan(
        &DeleteArgs { item_ids: vec![TASK_A.to_string(), AREA_A.to_string()] },
        &build_store(vec![trashed_task(TASK_A, "Alpha", false), area(AREA_A, "Work", vec![])]),
    );
    assert_eq!(
        deleted(&multi.changes),
        vec![(TASK_A.to_string(), EntityType::Task6), (AREA_A.to_string(), EntityType::Area3)]
    );

    let skip_trashed = build_delete_plan(
        &DeleteArgs { item_ids: vec![TASK_A.to_string(), TASK_B.to_string()] },
        &build_store(vec![trashed_task(TASK_A, "Active", false), trashed_task(TASK_B, "Trashed", true)]),
    );
    assert_eq!(deleted(&skip_trashed.changes), vec![(TASK_A.to_string(), EntityType::Task6)]);
}

#[test]
fn delete_names_each_item_once() {
    let prefix = &TASK_A[..8];
    let plan = build_delete_plan(
        &DeleteArgs { item_ids: vec![TASK_A.to_string(), prefix.to_string(), TASK_A.to_string()] },
        &build_store(vec![trashed_task(TASK_A, "Alpha", false)]),
    );
    assert_eq!(deleted(&plan.changes), vec![(TASK_A.to_string(), EntityType::Task6)]);
    assert_eq!(plan.targets.len(), 1);
    assert!(plan.messages.is_empty());
}

const EDIT_NOW: i64 = 1_700_000_222;
const EDIT_PROJECT_UUID: &str = "KGvAPpMrzHAKMdgMiERP1V";

fn projects_edit<'a>(store: &'a ThingsStore, title: Option<&str>, move_target: Option<&str>, remove: Option<&str>) -> Result<things3_cloud::commands::edits::ProjectsEditPlan<'a>, String> {
    build_projects_edit_plan(
        &ProjectsEditArgs {
            project_id: EDIT_PROJECT_UUID.to_string(),
            title: title.map(str::to_string),
            move_target: move_target.map(str::to_string),
            notes: None,
            tag_delta: TagDeltaArgs { add_tags: None, remove_tags: remove.map(str::to_string) },
        },
        store,
        at(EDIT_NOW),
    )
}

#[test]
fn projects_edit_payload_variants() {
    let target_area_uuid = "JFdhhhp37fpryAKu8UXwzK";
    let store = build_store(vec![
        project(EDIT_PROJECT_UUID, "Roadmap", vec![]),
        area(target_area_uuid, "Personal", vec![]),
    ]);

    let title_plan = projects_edit(&store, Some("Roadmap v2"), None, None).expect("title plan");
    assert_eq!(title_plan.update.title.as_deref(), Some("Roadmap v2"));
    assert_eq!(title_plan.update.modification_date, Some(at(EDIT_NOW)));

    let clear_plan = projects_edit(&store, None, Some("clear"), None).expect("clear plan");
    assert_eq!(clear_plan.update.area_ids, Some(vec![]));

    let move_plan = projects_edit(&store, None, Some(target_area_uuid), None).expect("move area plan");
    assert_eq!(move_plan.update.area_ids, Some(vec![id(target_area_uuid)]));
}

#[test]
fn projects_edit_tags_and_errors() {
    let tag1 = "WukwpDdL5Z88nX3okGMKTC";
    let tag2 = "JiqwiDaS3CAyjCmHihBDnB";
    let store = build_store(vec![
        project(EDIT_PROJECT_UUID, "Roadmap", vec![tag1, tag2]),
        tag(tag1, "Work", None),
        tag(tag2, "Focus", None),
    ]);

    let remove_plan = projects_edit(&store, None, None, Some("Work")).expect("remove tags");
    assert_eq!(remove_plan.update.tag_ids, Some(vec![id(tag2)]));

    let no_change = projects_edit(&store, None, None, None).expect_err("no changes");
    assert_eq!(no_change, "No edit changes requested.");

    let inbox = projects_edit(&store, None, Some("inbox"), None).expect_err("cannot move inbox");
    assert_eq!(inbox, "Projects cannot be moved to Inbox.");
}

const EDIT_AREA_UUID: &str = "MpkEei6ybkFS2n6SXvwfLf";

fn areas_edit<'a>(store: &'a ThingsStore, title: Option<&str>, remove: Option<&str>) -> Result<things3_cloud::commands::edits::AreasEditPlan<'a>, String> {
    build_areas_edit_plan(
        &AreasEditArgs {
            area_id: EDIT_AREA_UUID.to_string(),
            title: title.map(str::to_string),
            tag_delta: TagDeltaArgs { add_tags: None, remove_tags: remove.map(str::to_string) },
        },
        store,
        at(EDIT_NOW),
    )
}

#[test]
fn areas_edit_payload_and_errors() {
    let tag1 = "WukwpDdL5Z88nX3okGMKTC";
    let tag2 = "JiqwiDaS3CAyjCmHihBDnB";
    let store = build_store(vec![
        area(EDIT_AREA_UUID, "Home", vec![tag1, tag2]),
        tag(tag1, "Work", None),
        tag(tag2, "Focus", None),
    ]);

    let title = areas_edit(&store, Some("New Name"), None).expect("title plan");
    assert_eq!(title.update.title.as_deref(), Some("New Name"));
    assert_eq!(title.update.modification_date, Some(at(EDIT_NOW)));

    let remove = areas_edit(&store, None, Some("Work")).expect("remove tag");
    assert_eq!(remove.update.tag_ids, Some(vec![id(tag2)]));

    let no_change = areas_edit(&store, None, None).expect_err("no change");
    assert_eq!(no_change, "No edit changes requested.");

    let empty_title = areas_edit(&store, Some(""), None).expect_err("empty title");
    assert_eq!(empty_title, "Area title cannot be empty.");
}

const TAG_UUID: &str = "WukwpDdL5Z88nX3okGMKTC";
const CHILD_UUID: &str = "JiqwiDaS3CAyjCmHihBDnB";

fn tags_edit(store: &ThingsStore, tag_id: &str, name: Option<&str>, move_target: Option<&str>) -> Result<things3_cloud::commands::edits::TagsEditPlan, String> {
    build_tags_edit_plan(
        &TagsEditArgs {
            tag_id: tag_id.to_string(),
            name: name.map(str::to_string),
            move_target: move_target.map(str::to_string),
        },
        store,
        at(EDIT_NOW),
    )
}

#[test]
fn tags_edit_payloads_and_errors() {
    let store = build_store(vec![tag(TAG_UUID, "Work", None), tag(CHILD_UUID, "Meetings", Some(TAG_UUID))]);

    let rename = tags_edit(&store, TAG_UUID, Some("Work Stuff"), None).expect("rename");
    assert_eq!(rename.update.title.as_deref(), Some("Work Stuff"));
    assert_eq!(rename.update.modification_date, Some(at(EDIT_NOW)));

    let reparent = tags_edit(&store, CHILD_UUID, None, Some(TAG_UUID)).expect("reparent");
    assert_eq!(reparent.update.parent_ids, Some(vec![id(TAG_UUID)]));

    let clear = tags_edit(&store, CHILD_UUID, None, Some("clear")).expect("clear");
    assert_eq!(clear.update.parent_ids, Some(vec![]));

    let no_change = tags_edit(&store, TAG_UUID, None, None).expect_err("no changes");
    assert_eq!(no_change, "No edit changes requested.");

    let self_parent = tags_edit(&store, TAG_UUID, None, Some(TAG_UUID)).expect_err("self parent");
    assert_eq!(self_parent, "A tag cannot be its own parent.");
}
