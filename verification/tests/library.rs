use things3_cloud::auth::{load_auth, validate_auth};
use things3_cloud::commands::args::{auth_input, ProjectsArgs, ProjectsSubcommand};
use things3_cloud::commands::creates::{
    build_area_create, build_project_create, build_tag_create, build_tag_delete, AreasNewArgs,
    ProjectsNewArgs, TagsDeleteArgs, TagsNewArgs,
};
use things3_cloud::commands::delete::{build_delete_plan, DeleteArgs};
use things3_cloud::commands::find::{find_results, find_results_checked, today_fits, FindArgs};
use things3_cloud::commands::listing::{project_listing, ProjectsListArgs};
use things3_cloud::commands::tag_tree::tag_tree;
use things3_cloud::commands::views::{
    area_count_label, area_view, logbook_range, project_view, AreaArgs,
};
use things3_cloud::common::{colored, parse_day, resolve_tag_list, split_list, task6_note, DIM, GREEN, RESET};
use things3_cloud::dirs::{append_log_dir, auth_file_path};
use things3_cloud::ids::things_id::{parse_things_id, ThingsId};
use things3_cloud::sdk::{
    auth_status_of, current_day_of, delete_result, not_found, project_children, project_create_error,
    single_result, tag_delete_plan, AreaQuery, CreateTaskRequest, DeleteTagRequest, FindQuery,
    ThingsSdkError,
};
use things3_cloud::store::model::Task;
use things3_cloud::store::state::fold_items;
use things3_cloud::store::things_store::ThingsStore;
use things3_cloud::time::UtcTime;
use things3_cloud::ui::today::{group_regular_items, today_header_text};
use things3_cloud::ui::widgets::{group_height, id_col_width, tasks_height};
use things3_cloud::wire::codes::{TaskStart, TaskStatus, TaskType};
use things3_cloud::wire::entity::EntityType;
use things3_cloud::wire::notes::TaskNotes;
use things3_cloud::wire::props::{AreaProps, TagProps, TaskProps};
use things3_cloud::wire::value::{PropMap, PropValue};
use things3_cloud::wire::wire_object::{Properties, WireObject};

const A: &str = "A7h5eCi24RvAWKC3Hv3muf";
const B: &str = "KGvAPpMrzHAKMdgMiERP1V";
const C: &str = "MpkEei6ybkFS2n6SXvwfLf";
const P: &str = "JFdhhhp37fpryAKu8UXwzK";
const AR: &str = "74rgJf6Qh9wYp2TcVk8mNB";
const T1: &str = "WukwpDdL5Z88nX3okGMKTC";
const T2: &str = "JiqwiDaS3CAyjCmHihBDnB";
const DAY: i64 = 86_400;
const TODAY: i64 = 1_700_006_400;

fn at(secs: i64) -> UtcTime {
    UtcTime { secs, nanos: 0 }
}

fn id(s: &str) -> ThingsId {
    parse_things_id(s).expect("valid id")
}

fn build_store(entries: Vec<(String, WireObject)>) -> ThingsStore {
    ThingsStore::from_raw_state(&fold_items(vec![entries]))
}

fn props(title: &str) -> TaskProps {
    TaskProps {
        title: title.to_string(),
        item_type: TaskType::Todo,
        status: TaskStatus::Incomplete,
        start_location: TaskStart::Anytime,
        creation_date: Some(at(1)),
        modification_date: Some(at(1)),
        ..TaskProps::default()
    }
}

fn entry(uuid: &str, p: TaskProps) -> (String, WireObject) {
    (uuid.to_string(), WireObject::create(EntityType::Task6, Properties::TaskCreate(p)))
}

fn area(uuid: &str, title: &str, ix: i32) -> (String, WireObject) {
    (
        uuid.to_string(),
        WireObject::create(
            EntityType::Area3,
            Properties::AreaCreate(AreaProps { title: title.to_string(), tag_ids: vec![], sort_index: ix, conflict_overrides: None }),
        ),
    )
}

fn tag(uuid: &str, title: &str, parent: Option<&str>) -> (String, WireObject) {
    (
        uuid.to_string(),
        WireObject::create(
            EntityType::Tag4,
            Properties::TagCreate(TagProps {
                title: title.to_string(),
                shortcut: None,
                sort_index: 0,
                parent_ids: parent.into_iter().map(id).collect(),
                conflict_overrides: None,
            }),
        ),
    )
}

fn find_args() -> FindArgs {
    FindArgs {
        detailed: false,
        query: None,
        incomplete: false,
        notes: false,
        checklists: false,
        completed: false,
        canceled: false,
        any_status: false,
        tag_filters: vec![],
        project_filters: vec![],
        area_filters: vec![],
        inbox: false,
        today: false,
        someday: false,
        evening: false,
        has_deadline: false,
        no_deadline: false,
        recurring: false,
        deadline: vec![],
        scheduled: vec![],
        created: vec![],
        completed_on: vec![],
    }
}

fn titles(v: &[&Task]) -> Vec<String> {
    v.iter().map(|t| t.title.clone()).collect()
}

fn find_store() -> ThingsStore {
    build_store(vec![
        entry(P, TaskProps { item_type: TaskType::Project, sort_index: 5, ..props("Roadmap") }),
        entry(A, TaskProps { parent_project_ids: vec![id(P)], sort_index: 2, tag_ids: vec![id(T1)], ..props("Write plan") }),
        entry(B, TaskProps { sort_index: 1, deadline: Some(TODAY - DAY), ..props("Pay rent") }),
        entry(C, TaskProps { status: TaskStatus::Completed, ..props("Old plan") }),
        tag(T1, "Work", None),
    ])
}

#[test]
fn find_query_matches_titles_ignoring_case() {
    let store = find_store();
    let mut args = find_args();
    args.query = Some("PLAN".to_string());
    let found = find_results(&args, &store, &at(TODAY)).expect("results");
    let names: Vec<String> = found.iter().map(|(t, _)| t.title.clone()).collect();
    assert_eq!(names, vec!["Write plan"]);
}

#[test]
fn find_orders_projects_first_then_by_index() {
    let store = find_store();
    let found = find_results(&find_args(), &store, &at(TODAY)).expect("results");
    let names: Vec<String> = found.iter().map(|(t, _)| t.title.clone()).collect();
    assert_eq!(names, vec!["Roadmap", "Pay rent", "Write plan"]);
}

#[test]
fn find_status_and_tag_and_date_filters() {
    let store = find_store();
    let mut done = find_args();
    done.completed = true;
    let found = find_results(&done, &store, &at(TODAY)).expect("results");
    assert_eq!(found.len(), 1);
    assert_eq!(found[0].0.title, "Old plan");

    let mut tagged = find_args();
    tagged.tag_filters = vec!["work".to_string()];
    let found = find_results(&tagged, &store, &at(TODAY)).expect("results");
    assert_eq!(found.len(), 1);
    assert_eq!(found[0].0.title, "Write plan");

    let mut overdue = find_args();
    overdue.deadline = vec!["<today".to_string()];
    let found = find_results(&overdue, &store, &at(TODAY)).expect("results");
    assert_eq!(found.len(), 1);
    assert_eq!(found[0].0.title, "Pay rent");
}

#[test]
fn find_reports_bad_filters() {
    let store = find_store();
    let mut bad_tag = find_args();
    bad_tag.tag_filters = vec!["Nope".to_string()];
    assert_eq!(find_results(&bad_tag, &store, &at(TODAY)).unwrap_err(), "Tag not found: Nope");

    let mut bad_date = find_args();
    bad_date.deadline = vec!["soon".to_string()];
    bad_date.tag_filters = vec!["Nope".to_string()];
    let err = find_results(&bad_date, &store, &at(TODAY)).unwrap_err();
    assert!(err.contains("--deadline"), "{err}");
}

#[test]
fn find_checked_refuses_unrepresentable_days() {
    let store = find_store();
    assert!(today_fits(&at(TODAY)));
    assert!(!today_fits(&at(i64::MAX)));
    assert!(find_results_checked(&find_args(), &store, &at(i64::MAX)).is_none());
    assert!(find_results_checked(&find_args(), &store, &at(TODAY)).is_some());
}

#[test]
fn project_view_groups_tasks_under_headings() {
    let h = "WukwpDdL5Z88nX3okGMKTC";
    let store = build_store(vec![
        entry(P, TaskProps { item_type: TaskType::Project, ..props("Roadmap") }),
        entry(h, TaskProps { item_type: TaskType::Heading, parent_project_ids: vec![id(P)], ..props("Phase 1") }),
        entry(A, TaskProps { action_group_ids: vec![id(h)], sort_index: 3, ..props("Under heading") }),
        entry(B, TaskProps { parent_project_ids: vec![id(P)], sort_index: 1, ..props("Loose") }),
    ]);
    let c = project_view(&store, P).expect("project");
    assert_eq!(c.project.title, "Roadmap");
    assert_eq!(titles(&c.children), vec!["Loose", "Under heading"]);
    assert_eq!(titles(&c.ungrouped), vec!["Loose"]);
    assert_eq!(c.groups.len(), 1);
    assert_eq!(c.groups[0].0.title, "Phase 1");
    assert_eq!(titles(&c.groups[0].1), vec!["Under heading"]);

    let (err, _) = project_view(&store, B).unwrap_err();
    assert_eq!(err, "Not a project: Loose");
}

#[test]
fn area_view_lists_projects_and_loose_tasks() {
    let store = build_store(vec![
        area(AR, "Home", 0),
        entry(P, TaskProps { item_type: TaskType::Project, area_ids: vec![id(AR)], ..props("House") }),
        entry(A, TaskProps { area_ids: vec![id(AR)], ..props("Fix door") }),
        entry(B, TaskProps { area_ids: vec![id(AR)], status: TaskStatus::Completed, ..props("Done thing") }),
    ]);
    let args = AreaArgs { area_id: AR.to_string(), detailed: false, all: false };
    let c = area_view(&store, &args).expect("area");
    assert_eq!(c.area.title, "Home");
    assert_eq!(titles(&c.projects), vec!["House"]);
    assert_eq!(titles(&c.loose_tasks), vec!["Fix door"]);
    let all = area_view(&store, &AreaArgs { all: true, ..args }).expect("area");
    assert_eq!(all.loose_tasks.len(), 2);
    assert_eq!(area_count_label(1, 1), "  (1 project, 1 task)");
    assert_eq!(area_count_label(2, 0), "  (2 projects)");
    assert_eq!(area_count_label(0, 3), "  (3 tasks)");
    assert_eq!(area_count_label(0, 0), "");
}

#[test]
fn upcoming_and_today_views() {
    let store = build_store(vec![
        entry(A, TaskProps { scheduled_date: Some(TODAY + 2 * DAY), ..props("Later") }),
        entry(B, TaskProps { scheduled_date: Some(TODAY + DAY), ..props("Sooner") }),
        entry(C, TaskProps { scheduled_date: Some(TODAY - DAY), today_index_reference: Some(TODAY), ..props("Due") }),
        entry(P, TaskProps { evening_bit: 1, start_location: TaskStart::Inbox, ..props("Tonight") }),
    ]);
    assert_eq!(titles(&store.upcoming(&at(TODAY))), vec!["Sooner", "Later"]);
    let today = store.today_items(&at(TODAY));
    assert_eq!(titles(&today), vec!["Due", "Tonight"]);
    let groups = group_regular_items(&store, &today);
    assert_eq!(titles(&groups.unscoped), vec!["Due"]);
    assert!(groups.project_only.is_empty());
}

#[test]
fn logbook_bounds_must_be_ordered() {
    assert!(logbook_range(Some("2024-01-02"), Some("2024-01-01"), 0).is_err());
    assert_eq!(
        logbook_range(Some("2024-01-02"), Some("2024-01-01"), 0).unwrap_err(),
        "--from date must be before or equal to --to date"
    );
    let (f, t) = logbook_range(Some("2024-01-01"), None, 0).expect("range");
    assert_eq!(f, Some(at(1_704_067_200)));
    assert_eq!(t, None);
    assert!(logbook_range(Some("nope"), None, 0).unwrap_err().contains("--from"));
}

#[test]
fn projects_listing_groups_by_area_order() {
    let store = build_store(vec![
        area(AR, "Second", 5),
        area(C, "First", 1),
        entry(P, TaskProps { item_type: TaskType::Project, area_ids: vec![id(AR)], ..props("In second") }),
        entry(A, TaskProps { item_type: TaskType::Project, area_ids: vec![id(C)], ..props("In first") }),
        entry(B, TaskProps { item_type: TaskType::Project, ..props("Free") }),
    ]);
    let listing = project_listing(&store);
    assert_eq!(titles(&listing.no_area), vec!["Free"]);
    let keys: Vec<ThingsId> = listing.by_area.iter().map(|(k, _)| *k).collect();
    assert_eq!(keys, vec![id(C), id(AR)]);
    assert_eq!(titles(&listing.by_area[0].1), vec!["In first"]);
    let args = ProjectsArgs { detailed: true, command: Some(ProjectsSubcommand::List(ProjectsListArgs { detailed: false })) };
    assert!(!args.effective_detailed());
    assert!(ProjectsArgs { detailed: true, command: None }.effective_detailed());
}

#[test]
fn tag_tree_nests_children_under_parents() {
    let store = build_store(vec![tag(T1, "Work", None), tag(T2, "Meetings", Some(T1)), tag(A, "Home", None)]);
    let tags = store.tags();
    let rows = tag_tree(&tags);
    let shape: Vec<(String, bool, bool, usize)> =
        rows.iter().map(|r| (r.tag.title.clone(), r.top, r.last, r.branches.len())).collect();
    assert_eq!(shape.len(), 3);
    let meetings = shape.iter().position(|s| s.0 == "Meetings").unwrap();
    let work = shape.iter().position(|s| s.0 == "Work").unwrap();
    assert_eq!(meetings, work + 1);
    assert_eq!(shape[meetings], ("Meetings".to_string(), false, true, 0));
    assert!(shape[work].1);
}

#[test]
fn tag_tree_shows_the_deepest_chain() {
    let store = build_store(vec![
        tag(C, "Four", Some(B)),
        tag(B, "Three", Some(T2)),
        tag(T2, "Two", Some(T1)),
        tag(T1, "One", None),
    ]);
    let tags = store.tags();
    let rows = tag_tree(&tags);
    let shape: Vec<(String, bool, usize)> = rows.iter().map(|r| (r.tag.title.clone(), r.top, r.branches.len())).collect();
    assert_eq!(
        shape,
        vec![
            ("One".to_string(), true, 0),
            ("Two".to_string(), false, 0),
            ("Three".to_string(), false, 1),
            ("Four".to_string(), false, 2),
        ]
    );
}

#[test]
fn tag_tree_skips_tags_whose_parents_form_a_cycle() {
    let store = build_store(vec![tag(T1, "Loop one", Some(T2)), tag(T2, "Loop two", Some(T1)), tag(A, "Home", None)]);
    let tags = store.tags();
    let rows = tag_tree(&tags);
    let titles: Vec<String> = rows.iter().map(|r| r.tag.title.clone()).collect();
    assert_eq!(titles, vec!["Home".to_string()]);
}

#[test]
fn creating_projects_areas_and_tags() {
    let store = build_store(vec![area(AR, "Home", 0), tag(T1, "Work", None)]);
    let args = ProjectsNewArgs {
        title: "  Launch ".to_string(),
        area: Some(AR.to_string()),
        when: Some("Someday".to_string()),
        notes: String::new(),
        tags: Some("Work".to_string()),
        deadline_date: None,
    };
    let plan = build_project_create(&args, &store, at(5), TODAY, 0, B.to_string()).expect("plan");
    assert_eq!(plan.title, "Launch");
    assert_eq!(plan.new_uuid, B);
    let Properties::Unknown(p) = &plan.object.payload else { panic!("payload") };
    assert!(matches!(p.get("tp"), Some(PropValue::Int(1))));
    assert!(matches!(p.get("st"), Some(PropValue::Int(2))));
    assert!(matches!(p.get("nt"), Some(PropValue::Null)));
    assert!(matches!(p.get("ar"), Some(PropValue::Ids(v)) if v == &vec![id(AR)]));
    assert!(matches!(p.get("tg"), Some(PropValue::Ids(v)) if v == &vec![id(T1)]));

    let empty = ProjectsNewArgs { title: " ".to_string(), ..args };
    assert_eq!(build_project_create(&empty, &store, at(5), TODAY, 0, B.to_string()).unwrap_err(), "Project title cannot be empty.");

    let area_plan = build_area_create(&AreasNewArgs { title: "Garden".to_string(), tags: None }, &store, at(5), C.to_string()).expect("area");
    assert_eq!(area_plan.object.entity_type, Some(EntityType::Area3));
    assert!(build_area_create(&AreasNewArgs { title: "".to_string(), tags: None }, &store, at(5), C.to_string()).is_err());

    let tag_plan = build_tag_create(&TagsNewArgs { name: "Deep".to_string(), parent: Some("work".to_string()) }, &store, C.to_string()).expect("tag");
    let Properties::Unknown(tp) = &tag_plan.object.payload else { panic!("payload") };
    assert!(matches!(tp.get("pn"), Some(PropValue::Ids(v)) if v == &vec![id(T1)]));
    assert_eq!(
        build_tag_create(&TagsNewArgs { name: "X".to_string(), parent: Some("nope".to_string()) }, &store, C.to_string()).unwrap_err(),
        "Tag not found: nope"
    );

    let del = build_tag_delete(&TagsDeleteArgs { tag_id: "Work".to_string() }, &store).expect("delete");
    assert_eq!(del.tag.title, "Work");
    assert!(matches!(del.object.payload, Properties::Delete));
}

#[test]
fn project_notes_are_structured_with_checksum() {
    let store = build_store(vec![]);
    let args = ProjectsNewArgs {
        title: "Notes".to_string(),
        area: None,
        when: None,
        notes: "hello".to_string(),
        tags: None,
        deadline_date: None,
    };
    let plan = build_project_create(&args, &store, at(5), TODAY, 0, B.to_string()).expect("plan");
    let Properties::Unknown(p) = &plan.object.payload else { panic!("payload") };
    let Some(PropValue::Notes(TaskNotes::Structured(n))) = p.get("nt") else { panic!("notes") };
    assert_eq!(n.v.as_deref(), Some("hello"));
    assert_eq!(n.ch, Some(0x3610a686));
    let TaskNotes::Structured(direct) = task6_note("hello") else { panic!("structured") };
    assert_eq!(direct.format_type, 1);
    assert_eq!(direct.object_type.as_deref(), Some("tx"));
    assert_eq!(task6_note("hello").to_plain_text().as_deref(), Some("hello"));
}

#[test]
fn sdk_conversions_and_errors() {
    let store = build_store(vec![area(AR, "Home", 0), entry(A, props("Plain"))]);
    let req = CreateTaskRequest {
        title: "T".to_string(),
        in_target: None,
        when: None,
        before_id: None,
        after_id: None,
        notes: None,
        tags: None,
        deadline: None,
    };
    let args = req.into_new_args();
    assert_eq!(args.in_target, "inbox");
    assert_eq!(args.notes, "");

    let q = FindQuery {
        query: Some("x".to_string()),
        notes: true,
        checklists: false,
        incomplete: false,
        completed: true,
        canceled: false,
        any_status: false,
        tags: vec!["a".to_string()],
        projects: vec![],
        areas: vec![],
        inbox: false,
        today: true,
        someday: false,
        evening: false,
        has_deadline: false,
        no_deadline: false,
        recurring: false,
        deadline: vec![],
        scheduled: vec![],
        created: vec![],
        completed_on: vec![],
    };
    let f = q.into_find_args();
    assert!(!f.detailed && f.notes && f.completed && f.today);
    assert_eq!(f.tag_filters, vec!["a".to_string()]);

    let bad_area = ProjectsNewArgs {
        title: "P".to_string(),
        area: Some("zzz".to_string()),
        when: None,
        notes: String::new(),
        tags: None,
        deadline_date: None,
    };
    let err = build_project_create(&bad_area, &store, at(1), TODAY, 0, B.to_string()).unwrap_err();
    assert_eq!(project_create_error(&store, &bad_area, err.clone()), ThingsSdkError::NotFound(err));
    assert_eq!(
        project_create_error(&store, &bad_area, "other".to_string()),
        ThingsSdkError::Validation("other".to_string())
    );
    assert_eq!(not_found("x".to_string()).message(), "x");

    match project_children(&store, A) {
        Err(ThingsSdkError::Validation(m)) => assert_eq!(m, "Not a project: Plain"),
        other => panic!("unexpected {other:?}"),
    }
    assert!(matches!(project_children(&store, "zzzz"), Err(ThingsSdkError::NotFound(_))));
    assert!(matches!(
        things3_cloud::sdk::area_items(&store, AR, &AreaQuery { all: false }),
        Ok(v) if v.is_empty()
    ));

    let plan = build_delete_plan(&DeleteArgs { item_ids: vec!["zzzz".to_string()] }, &store);
    assert_eq!(
        delete_result(&plan, Some(3)).unwrap_err(),
        ThingsSdkError::NotFound("No matching items to delete.".to_string())
    );
    let plan = build_delete_plan(&DeleteArgs { item_ids: vec![A.to_string()] }, &store);
    let res = delete_result(&plan, Some(3)).expect("deleted");
    assert_eq!(res.ids, vec![A.to_string()]);
    assert_eq!(res.titles, vec!["Plain".to_string()]);
    assert_eq!(res.labels, vec!["deleted".to_string()]);

    assert!(matches!(
        tag_delete_plan(&store, &DeleteTagRequest { tag_id: "none".to_string() }),
        Err(ThingsSdkError::NotFound(_))
    ));
    let single = single_result(A.to_string(), "Plain".to_string(), "created", Some(1));
    assert_eq!(single.labels, vec!["created".to_string()]);
    assert_eq!(single.head_index, Some(1));

    assert_eq!(current_day_of(Some(TODAY), at(7)), at(TODAY));
    assert_eq!(current_day_of(None, UtcTime { secs: 9, nanos: 5 }), at(9));
    let ok = auth_status_of(Ok(("me@x".to_string(), "pw".to_string())));
    assert!(ok.configured && ok.email.as_deref() == Some("me@x") && ok.message.is_none());
    let bad = auth_status_of(Err("missing".to_string()));
    assert!(!bad.configured && bad.message.as_deref() == Some("missing"));
}

#[test]
fn auth_and_paths() {
    assert_eq!(validate_auth("  me@x ", "pw"), Ok(("me@x".to_string(), "pw".to_string())));
    assert_eq!(validate_auth(" ", "pw").unwrap_err(), "Missing auth email.");
    assert_eq!(validate_auth("me", "").unwrap_err(), "Missing auth password.");
    assert_eq!(
        load_auth(None, Some("pw".to_string()), "/s/auth.json").unwrap_err(),
        "Missing auth email. Set THINGS3_EMAIL or run `things3 set-auth` to create /s/auth.json."
    );
    assert_eq!(
        load_auth(Some("me".to_string()), None, "/s/auth.json").unwrap_err(),
        "Missing auth password. Set THINGS3_PASSWORD or run `things3 set-auth` to update /s/auth.json."
    );
    assert_eq!(append_log_dir("/state"), "/state/append-log");
    assert_eq!(append_log_dir("/state/"), "/state/append-log");
    assert_eq!(auth_file_path(""), "auth.json");
    for dir in ["/state/things3", "/state/things3/", "", "rel"] {
        let auth = std::path::PathBuf::from(auth_file_path(dir));
        let log = std::path::PathBuf::from(append_log_dir(dir));
        assert_eq!(auth.parent(), log.parent());
    }
    assert_eq!(auth_input(" me@x\n", "secret \n"), ("me@x".to_string(), "secret".to_string()));
}

#[test]
fn text_helpers() {
    assert_eq!(colored("hi", &[GREEN, DIM], true), "hi");
    assert_eq!(colored("hi", &[GREEN], false), format!("{GREEN}hi{RESET}"));
    assert_eq!(split_list(" a, ,b ,"), vec!["a".to_string(), "b".to_string()]);
    assert!(parse_day(Some("2024-02-30"), "--when", 0).unwrap_err().contains("2024-02-30"));
    assert_eq!(parse_day(None, "--when", 0), Ok(None));
    let store = build_store(vec![tag(T1, "Work", None), tag(T2, "work", None)]);
    assert_eq!(resolve_tag_list(&store, "work").unwrap_err(), "Ambiguous tag title: work");
}

#[test]
fn widget_heights() {
    assert_eq!(tasks_height(&vec![1, 2, 3]), 6);
    assert_eq!(tasks_height(&vec![u16::MAX, 5]), u16::MAX);
    assert_eq!(group_height(true, 4, 2), 6);
    assert_eq!(group_height(false, 4, 0), 4);
    assert_eq!(id_col_width(3), 4);
    assert_eq!(id_col_width(0), 0);
}

#[test]
fn prop_values_keep_their_kind() {
    let mut p = PropMap::new();
    p.set("cd", PropValue::Time(at(3)));
    assert!(matches!(p.get("cd"), Some(PropValue::Time(t)) if *t == at(3)));
}

#[test]
fn resolving_full_identifier_finds_the_item() {
    let store = build_store(vec![entry(A, props("First")), entry(B, props("Second")), area(AR, "Home", 0)]);
    let (found, err, amb) = store.resolve_mark_identifier(A);
    assert_eq!(found.map(|t| t.title.clone()), Some("First".to_string()));
    assert!(err.is_empty() && amb.is_empty());
    let (area, _, _) = store.resolve_area_identifier(AR);
    assert_eq!(area.map(|a| a.title.clone()), Some("Home".to_string()));
    let (none, err, _) = store.resolve_mark_identifier("   ");
    assert!(none.is_none());
    assert_eq!(err, "Missing item identifier.");
    let (none, err, _) = store.resolve_mark_identifier("zzzzz");
    assert!(none.is_none());
    assert_eq!(err, "Item not found: zzzzz");
}

#[test]
fn ambiguous_prefix_lists_candidates_in_identifier_order() {
    let store = build_store(vec![entry(T2, props("Second")), entry(P, props("First"))]);
    let (none, err, amb) = store.resolve_task_identifier("J");
    assert!(none.is_none());
    assert_eq!(err, "Ambiguous task id prefix.");
    assert_eq!(titles(&amb), vec!["First".to_string(), "Second".to_string()]);

    let stem = "A7h5eCi24RvAWKC3Hv3mu";
    let tails = "123456789ABC";
    let entries: Vec<(String, WireObject)> = tails
        .chars()
        .rev()
        .map(|c| entry(&format!("{stem}{c}"), props(&c.to_string())))
        .collect();
    let store = build_store(entries);
    let (none, err, amb) = store.resolve_task_identifier("A7h5");
    assert!(none.is_none());
    assert_eq!(err, "Ambiguous task id prefix. (12 matches, showing first 10)");
    let shown: Vec<String> = "123456789A".chars().map(|c| c.to_string()).collect();
    assert_eq!(titles(&amb), shown);
}

#[test]
fn short_ids_resolve_back_to_their_tasks() {
    let ids = [A, B, C, P, T1, T2];
    let entries: Vec<(String, WireObject)> = ids.iter().map(|u| entry(u, props(u))).collect();
    let mut entries = entries;
    entries.push(area(AR, "Home", 0));
    let store = build_store(entries);
    for u in ids {
        let short = store.short_id(u);
        assert!(short.len() < u.len());
        assert!(u.starts_with(short.as_str()));
        let (found, err, amb) = store.resolve_task_identifier(&short);
        assert_eq!(found.map(|t| t.title.clone()), Some(u.to_string()), "{short}");
        assert!(err.is_empty() && amb.is_empty());
    }
}

#[test]
fn today_groups_name_each_project_once() {
    let store = build_store(vec![
        entry(P, TaskProps { item_type: TaskType::Project, ..props("Plan") }),
        entry(A, TaskProps { parent_project_ids: vec![id(P)], scheduled_date: Some(TODAY - DAY), ..props("One") }),
        entry(B, TaskProps { parent_project_ids: vec![id(P)], scheduled_date: Some(TODAY - DAY), ..props("Two") }),
    ]);
    let items = store.today_items(&at(TODAY));
    let groups = group_regular_items(&store, &items);
    assert_eq!(groups.project_only.len(), 1);
    assert_eq!(groups.project_only[0].0, id(P));
    assert_eq!(groups.project_only[0].1.len(), 2);
    assert!(groups.unscoped.is_empty());
    assert_eq!(today_header_text(&items), "\u{2b51} Today  (2 tasks)");
}

#[test]
fn today_header_counts_projects_apart() {
    let store = build_store(vec![
        entry(P, TaskProps { item_type: TaskType::Project, scheduled_date: Some(TODAY - DAY), ..props("Plan") }),
        entry(A, TaskProps { scheduled_date: Some(TODAY - DAY), ..props("One") }),
    ]);
    let items = store.today_items(&at(TODAY));
    assert_eq!(items.len(), 2);
    assert_eq!(today_header_text(&items), "\u{2b51} Today  (1 tasks, 1 project)");
    let empty: Vec<&Task> = Vec::new();
    assert_eq!(today_header_text(&empty), "\u{2b51} Today  (0 tasks)");
}
