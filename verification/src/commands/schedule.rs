//! Planning when a task is scheduled and its deadline (`schedule`).
use vstd::prelude::*;

use crate::common::{day_reading, parse_day};
use crate::store::model::Task;
use crate::store::queries::{is_markable, resolution_of};
use crate::store::things_store::ThingsStore;
use crate::text::{concat2, spec_to_lowercase, spec_trim, str_eq, to_lowercase, trim_str};
use crate::time::UtcTime;
use crate::wire::codes::TaskStart;
use crate::wire::props::TaskPatch;

verus! {

/// Arguments of `schedule`.
#[derive(Debug)]
pub struct ScheduleArgs {
    /// Task identifier (or unique prefix).
    pub task_id: String,
    /// When: anytime, today, evening, someday, or `YYYY-MM-DD`.
    pub when: Option<String>,
    /// Deadline date (`YYYY-MM-DD`).
    pub deadline_date: Option<String>,
    /// Clear the deadline.
    pub clear_deadline: bool,
}

/// The update of a scheduled task and the labels the command reports.
#[derive(Debug)]
pub struct SchedulePlan<'a> {
    pub task: &'a Task,
    pub update: TaskPatch,
    pub labels: Vec<String>,
}

/// What a `--when` value schedules: start list, start day (also the Today
/// reference), evening bit, and the label reported.
pub open spec fn schedule_when(when: Seq<char>, today_ts: i64, offset: i32) -> Result<(TaskStart, Option<i64>, i32, Seq<char>), Seq<char>> {
    let w = spec_trim(when);
    let wl = spec_to_lowercase(w);
    if wl == "anytime"@ {
        Ok((TaskStart::Anytime, None, 0, "anytime"@))
    } else if wl == "today"@ {
        Ok((TaskStart::Anytime, Some(today_ts), 0, "today"@))
    } else if wl == "evening"@ {
        Ok((TaskStart::Anytime, Some(today_ts), 1, "evening"@))
    } else if wl == "someday"@ {
        Ok((TaskStart::Someday, None, 0, "someday"@))
    } else {
        match day_reading(w, "--when"@, offset) {
            Err(e) => Err(e),
            Ok(t) => Ok(
                (
                    if t.secs <= today_ts {
                        TaskStart::Anytime
                    } else {
                        TaskStart::Someday
                    },
                    Some(t.secs),
                    0,
                    "when="@ + w,
                ),
            ),
        }
    }
}

/// A start day decides where a scheduled task starts: a day at or before
/// today makes it available now (Anytime), and only a later day defers it
/// (Someday). A `--when` that is not a keyword is read as that day.
pub proof fn lemma_when_day_decides_start(when: Seq<char>, today_ts: i64, offset: i32)
    ensures
        match schedule_when(when, today_ts, offset) {
            Ok(x) => match x.1 {
                Some(d) => (x.0 == TaskStart::Anytime <==> d <= today_ts) && (x.0 == TaskStart::Someday
                    <==> d > today_ts),
                None => true,
            },
            Err(_) => true,
        },
        match schedule_when(when, today_ts, offset) {
            Ok(x) => (x.3 != "anytime"@ && x.3 != "today"@ && x.3 != "evening"@ && x.3
                != "someday"@) ==> (day_reading(spec_trim(when), "--when"@, offset) matches Ok(t)
                && x.1 == Some(t.secs)),
            Err(_) => true,
        },
{
    reveal_strlit("anytime");
    reveal_strlit("today");
    reveal_strlit("evening");
    reveal_strlit("someday");
    reveal_strlit("when=");
    let w = spec_trim(when);
    if let Ok(x) = schedule_when(when, today_ts, offset) {
        let wl = spec_to_lowercase(w);
        if wl != "anytime"@ && wl != "today"@ && wl != "evening"@ && wl != "someday"@ {
            assert(x.3 == "when="@ + w);
            assert(x.3.len() >= 5);
            assert(x.3[0] == 'w');
        }
    }
}

/// The keywords of `--when`, in any case and with surrounding blanks: `today`
/// and `evening` start the task today in Anytime (evening also sets the
/// evening bit), `anytime` and `someday` put it in their list with no start
/// day; none of them sets the evening bit but `evening`.
pub proof fn lemma_when_keywords(when: Seq<char>, today_ts: i64, offset: i32)
    ensures
        spec_to_lowercase(spec_trim(when)) == "today"@ ==> (schedule_when(when, today_ts, offset) matches Ok(x)
            && x.0 == TaskStart::Anytime && x.1 == Some(today_ts) && x.2 == 0),
        spec_to_lowercase(spec_trim(when)) == "evening"@ ==> (schedule_when(when, today_ts, offset) matches Ok(x)
            && x.0 == TaskStart::Anytime && x.1 == Some(today_ts) && x.2 == 1),
        spec_to_lowercase(spec_trim(when)) == "anytime"@ ==> (schedule_when(when, today_ts, offset) matches Ok(x)
            && x.0 == TaskStart::Anytime && x.1 == None::<i64> && x.2 == 0),
        spec_to_lowercase(spec_trim(when)) == "someday"@ ==> (schedule_when(when, today_ts, offset) matches Ok(x)
            && x.0 == TaskStart::Someday && x.1 == None::<i64> && x.2 == 0),
        schedule_when(when, today_ts, offset) matches Ok(x) && x.2 == 1 ==> spec_to_lowercase(spec_trim(when))
            == "evening"@,
{
    reveal_strlit("anytime");
    reveal_strlit("today");
    reveal_strlit("evening");
    reveal_strlit("someday");
    assert("today"@.len() != "anytime"@.len());
    assert("evening"@ != "anytime"@ && "evening"@ != "today"@) by {
        assert("evening"@[0] != "anytime"@[0]);
    }
}

/// The patch that sets nothing but what is given.
pub open spec fn schedule_patch(
    when: Option<(TaskStart, Option<i64>, i32, Seq<char>)>,
    deadline: Option<Option<UtcTime>>,
    md: Option<UtcTime>,
) -> TaskPatch {
    TaskPatch {
        title: None,
        notes: None,
        start_location: match when {
            Some(w) => Some(w.0),
            None => None,
        },
        scheduled_date: match when {
            Some(w) => Some(w.1),
            None => None,
        },
        today_index_reference: match when {
            Some(w) => Some(w.1),
            None => None,
        },
        parent_project_ids: None,
        area_ids: None,
        action_group_ids: None,
        tag_ids: None,
        evening_bit: match when {
            Some(w) => Some(w.2),
            None => None,
        },
        item_type: None,
        status: None,
        stop_date: None,
        deadline,
        sort_index: None,
        today_sort_index: None,
        recurrence_rule: None,
        recurrence_template_ids: None,
        instance_creation_paused: None,
        leaves_tombstone: None,
        trashed: None,
        creation_date: None,
        modification_date: md,
    }
}

/// The plan `schedule` makes: the task resolved among markable items, its
/// schedule and deadline changes stamped with `now`, and the labels; or the
/// message that stops it.
pub open spec fn schedule_spec(
    args: ScheduleArgs,
    store: ThingsStore,
    now: UtcTime,
    today_ts: i64,
    offset: i32,
) -> Result<(Task, TaskPatch, Seq<Seq<char>>), Seq<char>> {
    let res = resolution_of(store.tasks@, |t: Task| is_markable(t), |t: Task| t.uuid, args.task_id@, "Item"@);
    if res.0 is None {
        Err(res.1)
    } else {
        let w: Result<Option<(TaskStart, Option<i64>, i32, Seq<char>)>, Seq<char>> = match args.when {
            None => Ok(None),
            Some(w) => match schedule_when(w@, today_ts, offset) {
                Ok(x) => Ok(Some(x)),
                Err(e) => Err(e),
            },
        };
        match w {
            Err(e) => Err(e),
            Ok(wc) => {
                let d: Result<Option<Option<UtcTime>>, Seq<char>> = match args.deadline_date {
                    None => Ok(None),
                    Some(d) => match day_reading(d@, "--deadline"@, offset) {
                        Ok(t) => Ok(Some(Some(UtcTime { secs: t.secs, nanos: 0 }))),
                        Err(e) => Err(e),
                    },
                };
                match d {
                    Err(e) => Err(e),
                    Ok(dl) => {
                        let dl2 = if args.clear_deadline {
                            Some(None)
                        } else {
                            dl
                        };
                        if wc is None && dl2 is None {
                            Err("No schedule changes requested."@)
                        } else {
                            let when_labels = match wc {
                                Some(x) => seq![x.3],
                                None => Seq::empty(),
                            };
                            let dl_labels = match dl2 {
                                Some(None) => seq!["deadline=none"@],
                                Some(Some(_)) => seq![
                                    "deadline="@ + match args.deadline_date {
                                        Some(d) => d@,
                                        None => Seq::empty(),
                                    },
                                ],
                                None => Seq::empty(),
                            };
                            Ok((res.0->0, schedule_patch(wc, dl2, Some(now)), when_labels + dl_labels))
                        }
                    },
                }
            },
        }
    }
}

/// The texts of a list of strings.
pub open spec fn texts(v: Seq<String>) -> Seq<Seq<char>> {
    v.map_values(|s: String| s@)
}

fn read_schedule_when(when: &str, today_ts: i64, offset: i32) -> (r: Result<(TaskStart, Option<i64>, i32, String), String>)
    ensures
        match schedule_when(when@, today_ts, offset) {
            Ok(x) => r matches Ok(y) && y.0 == x.0 && y.1 == x.1 && y.2 == x.2 && y.3@ == x.3,
            Err(e) => r matches Err(m) && m@ == e,
        },
        match r {
            Ok(y) => match y.1 {
                Some(d) => (y.0 == TaskStart::Anytime <==> d <= today_ts) && (y.0 == TaskStart::Someday
                    <==> d > today_ts),
                None => true,
            },
            Err(_) => true,
        },
{
    proof {
        lemma_when_day_decides_start(when@, today_ts, offset);
    }
    let w = trim_str(when);
    let wl = to_lowercase(w.as_str());
    proof {
        reveal_strlit("when=");
    }
    if str_eq(wl.as_str(), "anytime") {
        return Ok((TaskStart::Anytime, None, 0, "anytime".to_owned()));
    }
    if str_eq(wl.as_str(), "today") {
        return Ok((TaskStart::Anytime, Some(today_ts), 0, "today".to_owned()));
    }
    if str_eq(wl.as_str(), "evening") {
        return Ok((TaskStart::Anytime, Some(today_ts), 1, "evening".to_owned()));
    }
    if str_eq(wl.as_str(), "someday") {
        return Ok((TaskStart::Someday, None, 0, "someday".to_owned()));
    }
    match parse_day(Some(w.as_str()), "--when", offset) {
        Err(e) => Err(e),
        Ok(None) => Err(String::new()),
        Ok(Some(t)) => {
            let start = if t.secs <= today_ts {
                TaskStart::Anytime
            } else {
                TaskStart::Someday
            };
            Ok((start, Some(t.secs), 0, concat2("when=", w.as_str())))
        },
    }
}

/// Plans a schedule change of a markable item.
pub fn build_schedule_plan<'a>(
    args: &ScheduleArgs,
    store: &'a ThingsStore,
    now: UtcTime,
    today_ts: i64,
    offset: i32,
) -> (r: Result<SchedulePlan<'a>, String>)
    ensures
        match schedule_spec(*args, *store, now, today_ts, offset) {
            Ok((t, p, labels)) => r matches Ok(plan) && *plan.task == t && plan.update == p && texts(
                plan.labels@,
            ) == labels,
            Err(e) => r matches Err(m) && m@ == e,
        },
{
    let (task, err, _) = store.resolve_mark_identifier(args.task_id.as_str());
    let task = match task {
        Some(t) => t,
        None => {
            return Err(err);
        },
    };
    let mut wc: Option<(TaskStart, Option<i64>, i32)> = None;
    let mut labels: Vec<String> = Vec::new();
    if let Some(w) = &args.when {
        match read_schedule_when(w.as_str(), today_ts, offset) {
            Err(e) => {
                return Err(e);
            },
            Ok((st, sr, sb, label)) => {
                wc = Some((st, sr, sb));
                labels.push(label);
            },
        }
    }
    let mut deadline: Option<Option<UtcTime>> = None;
    if let Some(d) = &args.deadline_date {
        match parse_day(Some(d.as_str()), "--deadline", offset) {
            Err(e) => {
                return Err(e);
            },
            Ok(None) => {},
            Ok(Some(t)) => {
                deadline = Some(Some(UtcTime { secs: t.secs, nanos: 0 }));
            },
        }
    }
    if args.clear_deadline {
        deadline = Some(None);
    }
    if wc.is_none() && deadline.is_none() {
        proof {
            reveal_strlit("No schedule changes requested.");
        }
        return Err("No schedule changes requested.".to_owned());
    }
    match deadline {
        Some(None) => {
            labels.push("deadline=none".to_owned());
        },
        Some(Some(_)) => {
            let d = match &args.deadline_date {
                Some(d) => d.clone(),
                None => String::new(),
            };
            labels.push(concat2("deadline=", d.as_str()));
        },
        None => {},
    }
    let mut update = TaskPatch::empty();
    match wc {
        Some((st, sr, sb)) => {
            update.start_location = Some(st);
            update.scheduled_date = Some(sr);
            update.today_index_reference = Some(sr);
            update.evening_bit = Some(sb);
        },
        None => {},
    }
    update.deadline = deadline;
    update.modification_date = Some(now);
    proof {
        reveal_strlit("deadline=none");
        reveal_strlit("deadline=");
        assert(texts(labels@) =~= schedule_spec(*args, *store, now, today_ts, offset)->Ok_0.2);
    }
    Ok(SchedulePlan { task, update, labels })
}

} // verus!
