use things3_cloud::commands::new_task::plan_today_of;
use things3_cloud::ids::things_id::parse_things_id;
use things3_cloud::store::state::fold_items;
use things3_cloud::store::things_store::ThingsStore;
use things3_cloud::sync::{
    commit_ancestor, cursor_key_changed, full_page_step, head_after_commit, key_source, log_page_step, KeySource,
    PageInfo, PageOutcome,
};
use things3_cloud::time::UtcTime;
use things3_cloud::ui::today::{regular_grouped_height, today_height};
use things3_cloud::ui::widgets::{count_lines, project_detail_height, task_detail_height, task_mark, TaskMark};
use things3_cloud::wire::codes::{TaskStart, TaskStatus};
use things3_cloud::wire::entity::EntityType;
use things3_cloud::wire::props::TaskProps;
use things3_cloud::wire::wire_object::{Properties, WireObject};

fn page(count: usize, end: Option<i64>, latest: Option<i64>, current: Option<i64>) -> PageInfo {
    PageInfo {
        item_count: count,
        end_total_content_size: end,
        latest_total_content_size: latest,
        current_item_index: current,
    }
}

#[test]
fn log_paging_moves_past_items_and_stops_when_caught_up() {
    let step = log_page_step(10, 3, &page(5, Some(50), Some(100), Some(40)));
    assert_eq!(step, PageOutcome { next_start_index: 15, head_index: 40, done: false, write_cursor: true });
    let last = log_page_step(15, 40, &page(2, Some(100), Some(100), None));
    assert_eq!(last, PageOutcome { next_start_index: 17, head_index: 40, done: true, write_cursor: true });
    let empty = log_page_step(17, 40, &page(0, Some(1), Some(100), None));
    assert_eq!(empty, PageOutcome { next_start_index: 17, head_index: 40, done: true, write_cursor: false });
}

#[test]
fn full_paging_treats_missing_sizes_as_zero() {
    let step = full_page_step(0, 0, &page(3, None, None, Some(7)));
    assert_eq!(step, PageOutcome { next_start_index: 3, head_index: 7, done: true, write_cursor: false });
    let more = full_page_step(3, 7, &page(3, Some(1), Some(2), None));
    assert!(!more.done);
}

#[test]
fn history_key_and_commit_index_choices() {
    assert_eq!(key_source(true, "abc"), KeySource::Client);
    assert_eq!(key_source(false, "abc"), KeySource::Cursor);
    assert_eq!(key_source(false, ""), KeySource::Authenticate);
    assert!(cursor_key_changed(Some("new"), "old"));
    assert!(!cursor_key_changed(Some("same"), "same"));
    assert!(!cursor_key_changed(None, "old"));
    assert_eq!(commit_ancestor(Some(4), 9), 4);
    assert_eq!(commit_ancestor(None, 9), 9);
    assert_eq!(head_after_commit(Some(12), 9), 12);
    assert_eq!(head_after_commit(None, 9), 9);
}

#[test]
fn today_layout_heights() {
    assert_eq!(regular_grouped_height(Some(3), &vec![2], &vec![4]), 3 + 3 + 5 + 2);
    assert_eq!(regular_grouped_height(None, &vec![], &vec![]), 0);
    assert_eq!(regular_grouped_height(Some(2), &vec![], &vec![]), 2);
    assert_eq!(regular_grouped_height(Some(u16::MAX), &vec![1], &vec![]), u16::MAX);
    assert_eq!(today_height(true, Some(5), Some(5)), 1);
    assert_eq!(today_height(false, Some(5), None), 7);
    assert_eq!(today_height(false, None, Some(2)), 6);
}

#[test]
fn line_counts_follow_str_lines() {
    assert_eq!(count_lines(""), 0);
    assert_eq!(count_lines("a"), 1);
    assert_eq!(count_lines("a\n"), 1);
    assert_eq!(count_lines("a\nb"), 2);
    assert_eq!(count_lines("a\n\n"), 2);
    for s in ["x\ny\nz", "\n", "\n\n\nq"] {
        assert_eq!(count_lines(s), s.lines().count());
    }
}

#[test]
fn detail_heights_and_marks() {
    let id = "A7h5eCi24RvAWKC3Hv3muf";
    let props = TaskProps {
        title: "T".to_string(),
        notes: Some(things3_cloud::wire::notes::TaskNotes::Plain("one\ntwo".to_string())),
        status: TaskStatus::Canceled,
        start_location: TaskStart::Someday,
        ..TaskProps::default()
    };
    let store = ThingsStore::from_raw_state(&fold_items(vec![vec![(
        id.to_string(),
        WireObject::create(EntityType::Task6, Properties::TaskCreate(props)),
    )]]));
    let task = store.get_task(id).expect("task");
    assert_eq!(task_detail_height(task), 2);
    assert_eq!(project_detail_height(task), 2);
    assert_eq!(task_mark(task), TaskMark::Canceled);
    assert!(parse_things_id(id).is_ok());
}

#[test]
fn today_is_the_utc_midnight_of_the_given_second() {
    let now = UtcTime { secs: 1_700_000_123, nanos: 9 };
    assert_eq!(plan_today_of(1_700_050_000, now), UtcTime { secs: 1_700_006_400, nanos: 0 });
    assert_eq!(plan_today_of(i64::MAX, now), UtcTime { secs: 1_699_920_000, nanos: 0 });
}

#[test]
fn instants_follow_chronos_range() {
    let last = 8_210_266_876_799;
    let first = -8_334_601_228_800;
    assert!(UtcTime::from_timestamp(last, 999_999_999).is_some());
    assert!(UtcTime::from_timestamp(last + 1, 0).is_none());
    assert!(UtcTime::from_timestamp(first, 0).is_some());
    assert!(UtcTime::from_timestamp(first - 1, 999_999_999).is_none());
    assert!(UtcTime::from_timestamp(59, 1_500_000_000).is_some());
    assert!(UtcTime::from_timestamp(58, 1_500_000_000).is_none());
    assert!(UtcTime::from_timestamp(59, 2_000_000_000).is_none());
    assert_eq!(UtcTime::from_timestamp(0, 5), Some(UtcTime { secs: 0, nanos: 5 }));
}
