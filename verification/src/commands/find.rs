//! Searching and filtering tasks (`find`).
use vstd::prelude::*;

use crate::common::{spec_parse_ymd, tag_resolution, resolve_single_tag, UNIX_EPOCH_DAYS_CE};
use crate::ids::matching::{id_sort_key, spec_id_key};
use crate::ids::things_id::{id_chars, ThingsId};
use crate::sorting::{sort_by, sorted_by};
use crate::store::model::{spec_is_today, Tag, Task};
use crate::store::queries::{area_by_text, spec_effective_area, spec_effective_project, task_by_text};
use crate::store::things_store::{refs, ThingsStore};
use crate::text::{
    concat3, contains_seq, lower, spec_trim, str_contains, str_eq, str_starts_with,
    to_ascii_lowercase, trim_str,
};
use crate::time::{chrono_timestamp_ok, day_floor, spec_chrono_timestamp_ok, UtcTime};
use crate::wire::codes::{TaskStart, TaskStatus, TaskType};

verus! {

broadcast use vstd::seq_lib::group_to_multiset_ensures;

/// Arguments of `find`.
#[derive(Debug)]
pub struct FindArgs {
    /// Show notes and checklists of each match.
    pub detailed: bool,
    /// Case-insensitive substring to match against task titles.
    pub query: Option<String>,
    pub incomplete: bool,
    /// Also search notes.
    pub notes: bool,
    /// Also search checklist item titles.
    pub checklists: bool,
    pub completed: bool,
    pub canceled: bool,
    pub any_status: bool,
    /// Has this tag (title or id prefix); any of them.
    pub tag_filters: Vec<String>,
    /// In this project (title substring or id prefix); any of them.
    pub project_filters: Vec<String>,
    /// In this area (title substring or id prefix); any of them.
    pub area_filters: Vec<String>,
    pub inbox: bool,
    pub today: bool,
    pub someday: bool,
    pub evening: bool,
    pub has_deadline: bool,
    pub no_deadline: bool,
    pub recurring: bool,
    /// Deadline filters such as `<today` or `>=2026-04-01`.
    pub deadline: Vec<String>,
    /// Scheduled start filters.
    pub scheduled: Vec<String>,
    /// Creation date filters.
    pub created: Vec<String>,
    /// Completion date filters (imply completed tasks).
    pub completed_on: Vec<String>,
}

/// Whether a task matched, and whether only through its checklist.
#[derive(Debug, Clone, Copy, PartialEq, Eq, Structural)]
pub struct MatchResult {
    pub matched: bool,
    pub checklist_only: bool,
}

impl MatchResult {
    /// No match.
    pub fn no() -> (r: MatchResult)
        ensures
            r == (MatchResult { matched: false, checklist_only: false }),
    {
        MatchResult { matched: false, checklist_only: false }
    }

    /// A match, through the checklist alone or not.
    pub fn yes(checklist_only: bool) -> (r: MatchResult)
        ensures
            r == (MatchResult { matched: true, checklist_only }),
    {
        MatchResult { matched: true, checklist_only }
    }
}

/// Whether a project filter matches: an id prefix, or a substring of the
/// lower-cased title (ignoring ASCII case).
pub open spec fn spec_filter_matches(filter: Seq<char>, uuid: Seq<char>, title_lower: Seq<char>) -> bool {
    filter.is_prefix_of(uuid) || contains_seq(title_lower, lower(filter))
}

/// Whether a project filter matches a project.
pub fn matches_project_filter(filter: &str, project_uuid: &str, project_title_lower: &str) -> (r: bool)
    ensures
        r == spec_filter_matches(filter@, project_uuid@, project_title_lower@),
{
    let lowered = to_ascii_lowercase(filter);
    str_starts_with(project_uuid, filter) || str_contains(project_title_lower, lowered.as_str())
}

/// Whether an area filter matches an area.
pub fn matches_area_filter(filter: &str, area_uuid: &str, area_title_lower: &str) -> (r: bool)
    ensures
        r == spec_filter_matches(filter@, area_uuid@, area_title_lower@),
{
    let lowered = to_ascii_lowercase(filter);
    str_starts_with(area_uuid, filter) || str_contains(area_title_lower, lowered.as_str())
}

/// The statuses a search admits: any with `--any-status`, the chosen ones,
/// completed when only `--completed-on` is given, open otherwise.
pub open spec fn spec_status_set(args: FindArgs) -> Option<Seq<TaskStatus>> {
    if args.any_status {
        None
    } else {
        let chosen = (if args.incomplete { seq![TaskStatus::Incomplete] } else { Seq::empty() }) + (
        if args.completed {
            seq![TaskStatus::Completed]
        } else {
            Seq::empty()
        }) + (if args.canceled {
            seq![TaskStatus::Canceled]
        } else {
            Seq::empty()
        });
        if chosen.len() == 0 && args.completed_on@.len() > 0 {
            Some(seq![TaskStatus::Completed])
        } else if chosen.len() == 0 {
            Some(seq![TaskStatus::Incomplete])
        } else {
            Some(chosen)
        }
    }
}

/// The statuses a search admits.
pub fn build_status_set(args: &FindArgs) -> (r: Option<Vec<TaskStatus>>)
    ensures
        match spec_status_set(*args) {
            Some(s) => r matches Some(v) && v@ == s,
            None => r is None,
        },
{
    if args.any_status {
        return None;
    }
    let mut chosen: Vec<TaskStatus> = Vec::new();
    if args.incomplete {
        chosen.push(TaskStatus::Incomplete);
    }
    if args.completed {
        chosen.push(TaskStatus::Completed);
    }
    if args.canceled {
        chosen.push(TaskStatus::Canceled);
    }
    proof {
        let c = (if args.incomplete { seq![TaskStatus::Incomplete] } else { Seq::empty() }) + (
        if args.completed {
            seq![TaskStatus::Completed]
        } else {
            Seq::empty()
        }) + (if args.canceled {
            seq![TaskStatus::Canceled]
        } else {
            Seq::empty()
        });
        assert(chosen@ =~= c);
    }
    if chosen.len() == 0 && args.completed_on.len() > 0 {
        let mut v: Vec<TaskStatus> = Vec::new();
        v.push(TaskStatus::Completed);
        proof {
            assert(v@ =~= seq![TaskStatus::Completed]);
        }
        return Some(v);
    }
    if chosen.len() == 0 {
        let mut v: Vec<TaskStatus> = Vec::new();
        v.push(TaskStatus::Incomplete);
        proof {
            assert(v@ =~= seq![TaskStatus::Incomplete]);
        }
        return Some(v);
    }
    Some(chosen)
}

/// A date comparison of a filter.
#[derive(Debug, Clone, Copy, PartialEq, Eq, Structural)]
pub enum DateOp {
    Gt,
    Lt,
    Ge,
    Le,
    Eq,
}

/// The named Debug rendering (`{:?}`) of a text: quoted, with escapes.
pub uninterp spec fn spec_debug_text(s: Seq<char>) -> Seq<char>;

/// `format!("{:?}", s)`: the text quoted with Rust's escapes, which the name
/// stands for.
#[verifier::external_body]
fn debug_text(s: &str) -> (r: String)
    ensures
        r@ == spec_debug_text(s@),
{
    format!("{:?}", s)
}

/// Midnight (UTC) of the date with common-era day number `days`.
pub open spec fn utc_midnight(days: i32) -> int {
    (days - 719163) * 86400
}

/// How a date value of a filter reads relative to `today`: today, tomorrow,
/// yesterday, or a `YYYY-MM-DD` date at UTC midnight.
pub open spec fn spec_date_value(value: Seq<char>, flag: Seq<char>, today: UtcTime) -> Result<UtcTime, Seq<char>> {
    let lowered = lower(spec_trim(value));
    if lowered == "today"@ {
        Ok(today)
    } else if lowered == "tomorrow"@ {
        Ok(UtcTime { secs: (today.secs + 86400) as i64, nanos: today.nanos })
    } else if lowered == "yesterday"@ {
        Ok(UtcTime { secs: (today.secs - 86400) as i64, nanos: today.nanos })
    } else {
        match spec_parse_ymd(lowered) {
            Some(days) => Ok(UtcTime { secs: utc_midnight(days) as i64, nanos: 0 }),
            None => Err(
                "Invalid date for "@ + flag + ": "@ + spec_debug_text(value)
                    + ". Expected YYYY-MM-DD, 'today', 'tomorrow', or 'yesterday'."@,
            ),
        }
    }
}

/// Whether the days around `today` are representable.
pub open spec fn today_in_range(today: UtcTime) -> bool {
    &&& i64::MIN + 86400 <= today.secs <= i64::MAX - 86400
    &&& spec_chrono_timestamp_ok((today.secs + 86400) as i64, today.nanos)
    &&& spec_chrono_timestamp_ok((today.secs - 86400) as i64, today.nanos)
}

fn ymd_days(s: &str) -> (r: Option<i32>)
    ensures
        r == spec_parse_ymd(s@),
{
    crate::common::parse_ymd(s)
}

/// Reads the date value of a filter.
pub fn parse_date_value(value: &str, flag: &str, today: &UtcTime) -> (r: Result<UtcTime, String>)
    requires
        today_in_range(*today),
    ensures
        match spec_date_value(value@, flag@, *today) {
            Ok(t) => r == Ok::<UtcTime, String>(t),
            Err(e) => r matches Err(m) && m@ == e,
        },
{
    let trimmed = trim_str(value);
    let lowered = to_ascii_lowercase(trimmed.as_str());
    if str_eq(lowered.as_str(), "today") {
        return Ok(*today);
    }
    if str_eq(lowered.as_str(), "tomorrow") {
        return Ok(UtcTime { secs: today.secs + 86400, nanos: today.nanos });
    }
    if str_eq(lowered.as_str(), "yesterday") {
        return Ok(UtcTime { secs: today.secs - 86400, nanos: today.nanos });
    }
    match ymd_days(lowered.as_str()) {
        Some(days) => {
            proof {
                assert(-2147483648 <= days <= 2147483647);
                assert(-1000000000000000 < utc_midnight(days) < 1000000000000000) by (nonlinear_arith)
                    requires
                        -2147483648 <= days <= 2147483647,
                        utc_midnight(days) == (days - 719163) * 86400,
                ;
            }
            let secs: i64 = (days as i64 - UNIX_EPOCH_DAYS_CE as i64) * 86400;
            Ok(UtcTime { secs, nanos: 0 })
        },
        None => {
            let shown = debug_text(value);
            let a = concat3("Invalid date for ", flag, ": ");
            let b = concat3(a.as_str(), shown.as_str(), ". Expected YYYY-MM-DD, 'today', 'tomorrow', or 'yesterday'.");
            proof {
                assert(b@ =~= "Invalid date for "@ + flag@ + ": "@ + spec_debug_text(value@)
                    + ". Expected YYYY-MM-DD, 'today', 'tomorrow', or 'yesterday'."@);
            }
            Err(b)
        },
    }
}

/// How a date expression reads: an operator (`>=`, `<=`, `>`, `<`, `=`,
/// tried in that order) and a date value.
pub open spec fn spec_date_expr(raw: Seq<char>, flag: Seq<char>, today: UtcTime) -> Result<(DateOp, UtcTime), Seq<char>> {
    let v = spec_trim(raw);
    let parsed: Option<(DateOp, Seq<char>)> = if ">="@.is_prefix_of(v) {
        Some((DateOp::Ge, v.skip(2)))
    } else if "<="@.is_prefix_of(v) {
        Some((DateOp::Le, v.skip(2)))
    } else if ">"@.is_prefix_of(v) {
        Some((DateOp::Gt, v.skip(1)))
    } else if "<"@.is_prefix_of(v) {
        Some((DateOp::Lt, v.skip(1)))
    } else if "="@.is_prefix_of(v) {
        Some((DateOp::Eq, v.skip(1)))
    } else {
        None
    };
    match parsed {
        None => Err(
            "Invalid date expression for "@ + flag + ": "@ + spec_debug_text(raw)
                + ". Expected an operator prefix: >, <, >=, <=, or =  (e.g. '<=2026-03-31')"@,
        ),
        Some((op, rest)) => match spec_date_value(rest, flag, today) {
            Ok(t) => Ok((op, t)),
            Err(e) => Err(e),
        },
    }
}

fn skip_chars(s: &str, n: usize) -> (r: String)
    ensures
        r@ == if n <= s@.len() { s@.skip(n as int) } else { Seq::<char>::empty() },
{
    let cs = crate::text::chars_of(s);
    let mut out: Vec<char> = Vec::new();
    let mut i: usize = n;
    while i < cs.len()
        invariant
            cs@ == s@,
            n <= i,
            i <= cs@.len() || (out@.len() == 0 && i == n),
            i <= cs@.len() ==> out@ == s@.subrange(n as int, i as int),
        decreases cs@.len() - i,
    {
        out.push(cs[i]);
        i = i + 1;
        proof {
            assert(out@ =~= s@.subrange(n as int, i as int));
        }
    }
    proof {
        if n <= s@.len() {
            assert(s@.subrange(n as int, s@.len() as int) =~= s@.skip(n as int));
        }
    }
    crate::text::string_from_chars(&out)
}

/// Reads a date expression.
pub fn parse_date_expr(raw: &str, flag: &str, today: &UtcTime) -> (r: Result<(DateOp, UtcTime), String>)
    requires
        today_in_range(*today),
    ensures
        match spec_date_expr(raw@, flag@, *today) {
            Ok(x) => r == Ok::<(DateOp, UtcTime), String>(x),
            Err(e) => r matches Err(m) && m@ == e,
        },
{
    let v = trim_str(raw);
    proof {
        reveal_strlit(">=");
        reveal_strlit("<=");
        reveal_strlit(">");
        reveal_strlit("<");
        reveal_strlit("=");
    }
    let (op, rest) = if str_starts_with(v.as_str(), ">=") {
        (DateOp::Ge, skip_chars(v.as_str(), 2))
    } else if str_starts_with(v.as_str(), "<=") {
        (DateOp::Le, skip_chars(v.as_str(), 2))
    } else if str_starts_with(v.as_str(), ">") {
        (DateOp::Gt, skip_chars(v.as_str(), 1))
    } else if str_starts_with(v.as_str(), "<") {
        (DateOp::Lt, skip_chars(v.as_str(), 1))
    } else if str_starts_with(v.as_str(), "=") {
        (DateOp::Eq, skip_chars(v.as_str(), 1))
    } else {
        let shown = debug_text(raw);
        let a = concat3("Invalid date expression for ", flag, ": ");
        let b = concat3(
            a.as_str(),
            shown.as_str(),
            ". Expected an operator prefix: >, <, >=, <=, or =  (e.g. '<=2026-03-31')",
        );
        proof {
            assert(b@ =~= "Invalid date expression for "@ + flag@ + ": "@ + spec_debug_text(raw@)
                + ". Expected an operator prefix: >, <, >=, <=, or =  (e.g. '<=2026-03-31')"@);
        }
        return Err(b);
    };
    match parse_date_value(rest.as_str(), flag, today) {
        Ok(t) => Ok((op, t)),
        Err(e) => Err(e),
    }
}

/// Whether a date field falls on a day that compares with the threshold's
/// day (both as UTC days) as `op` says; an absent field never does.
pub open spec fn spec_date_matches(field: Option<UtcTime>, op: DateOp, threshold: UtcTime) -> bool {
    match field {
        None => false,
        Some(f) => {
            let a = day_floor(f.secs as int);
            let b = day_floor(threshold.secs as int);
            match op {
                DateOp::Gt => a > b,
                DateOp::Lt => a < b,
                DateOp::Ge => a >= b,
                DateOp::Le => a <= b,
                DateOp::Eq => a == b,
            }
        },
    }
}

fn floor_day(secs: i64) -> (r: i128)
    ensures
        r == day_floor(secs as int),
{
    let s = secs as i128;
    let rem: i128 = match s.checked_rem_euclid(86400) {
        Some(v) => v,
        None => 0,
    };
    s - rem
}

/// Whether a date field matches a filter.
pub fn date_matches(field: Option<UtcTime>, op: DateOp, threshold: UtcTime) -> (r: bool)
    ensures
        r == spec_date_matches(field, op, threshold),
        field is None ==> !r,
        op == DateOp::Gt ==> (r <==> (field matches Some(f) && utc_day(f.secs) > utc_day(threshold.secs))),
        op == DateOp::Lt ==> (r <==> (field matches Some(f) && utc_day(f.secs) < utc_day(threshold.secs))),
        op == DateOp::Ge ==> (r <==> (field matches Some(f) && utc_day(f.secs) >= utc_day(threshold.secs))),
        op == DateOp::Le ==> (r <==> (field matches Some(f) && utc_day(f.secs) <= utc_day(threshold.secs))),
        op == DateOp::Eq ==> (r <==> (field matches Some(f) && utc_day(f.secs) == utc_day(threshold.secs))),
{
    proof {
        lemma_date_filter_compares_days(field, op, threshold);
    }
    match field {
        None => false,
        Some(f) => {
            let a = floor_day(f.secs);
            let b = floor_day(threshold.secs);
            match op {
                DateOp::Gt => a > b,
                DateOp::Lt => a < b,
                DateOp::Ge => a >= b,
                DateOp::Le => a <= b,
                DateOp::Eq => a == b,
            }
        },
    }
}

/// The UTC day number of an instant: whole days since the epoch.
pub open spec fn utc_day(secs: i64) -> int {
    secs as int / 86400
}

/// A date filter compares UTC day numbers: a task with no such date never
/// matches, and `>` keeps exactly the tasks whose day comes after the
/// threshold's day (`<` before, `>=` and `<=` also the same day, `=` only
/// the same day).
pub proof fn lemma_date_filter_compares_days(field: Option<UtcTime>, op: DateOp, threshold: UtcTime)
    ensures
        field is None ==> !spec_date_matches(field, op, threshold),
        field matches Some(f) ==> {
            let a = utc_day(f.secs);
            let b = utc_day(threshold.secs);
            spec_date_matches(field, op, threshold) == match op {
                DateOp::Gt => a > b,
                DateOp::Lt => a < b,
                DateOp::Ge => a >= b,
                DateOp::Le => a <= b,
                DateOp::Eq => a == b,
            }
        },
{
    if let Some(f) = field {
        let x = f.secs as int;
        let y = threshold.secs as int;
        assert(day_floor(x) == 86400 * (x / 86400));
        assert(day_floor(y) == 86400 * (y / 86400));
    }
}

/// Whether every expression of a filter reads and matches the field.
pub open spec fn exprs_match(exprs: Seq<String>, flag: Seq<char>, field: Option<UtcTime>, today: UtcTime) -> bool {
    forall|k: int|
        0 <= k < exprs.len() ==> match spec_date_expr(#[trigger] exprs[k]@, flag, today) {
            Ok((op, th)) => spec_date_matches(field, op, th),
            Err(_) => false,
        }
}

/// How a query matches a task: through its title, its notes (when asked),
/// or its checklist item titles (when asked), ignoring ASCII case; and
/// whether only through the checklist.
pub open spec fn query_match(args: FindArgs, task: Task) -> (bool, bool) {
    match args.query {
        None => (true, false),
        Some(q) => {
            let ql = lower(q@);
            let tm = contains_seq(lower(task.title@), ql);
            let nm = args.notes && (task.notes matches Some(n) && contains_seq(lower(n@), ql));
            let cm = args.checklists && exists|k: int|
                0 <= k < task.checklist_items@.len() && contains_seq(
                    lower(#[trigger] task.checklist_items@[k].title@),
                    ql,
                );
            (tm || nm || cm, cm && !tm && !nm)
        },
    }
}

/// Whether some filter matches an item with identifier text `uuid` and
/// title `title`.
pub open spec fn some_filter_matches(filters: Seq<String>, uuid: Seq<char>, title: Seq<char>) -> bool {
    exists|k: int| 0 <= k < filters.len() && spec_filter_matches(#[trigger] filters[k]@, uuid, lower(title))
}

/// Whether the project filters admit a task: its project is known and some
/// filter matches it.
pub open spec fn project_filter_ok(store: ThingsStore, filters: Seq<String>, task: Task) -> bool {
    match spec_effective_project(store.tasks@, task) {
        None => false,
        Some(p) => match task_by_text(store.tasks@, id_chars(p)) {
            None => false,
            Some(pr) => some_filter_matches(filters, id_chars(p), pr.title@),
        },
    }
}

/// Whether the area filters admit a task: its area is known and some filter
/// matches it.
pub open spec fn area_filter_ok(store: ThingsStore, filters: Seq<String>, task: Task) -> bool {
    match spec_effective_area(store.tasks@, task) {
        None => false,
        Some(a) => match area_by_text(store.areas@, id_chars(a)) {
            None => false,
            Some(ar) => some_filter_matches(filters, id_chars(a), ar.title@),
        },
    }
}

/// How a task matches a search.
pub open spec fn spec_find_match(
    task: Task,
    store: ThingsStore,
    args: FindArgs,
    tag_ids: Seq<ThingsId>,
    today: UtcTime,
) -> MatchResult {
    let no = MatchResult { matched: false, checklist_only: false };
    let q = query_match(args, task);
    if task.item_type == TaskType::Heading || task.trashed || task.entity@ != "Task6"@ {
        no
    } else if (spec_status_set(args) matches Some(s) && !s.contains(task.status)) {
        no
    } else if !q.0 {
        no
    } else if args.tag_filters@.len() > 0 && !(exists|i: int, j: int|
        0 <= i < tag_ids.len() && 0 <= j < task.tags@.len() && #[trigger] tag_ids[i]
            == #[trigger] task.tags@[j]) {
        no
    } else if args.project_filters@.len() > 0 && !project_filter_ok(store, args.project_filters@, task) {
        no
    } else if args.area_filters@.len() > 0 && !area_filter_ok(store, args.area_filters@, task) {
        no
    } else if args.inbox && task.start != TaskStart::Inbox {
        no
    } else if args.today && !spec_is_today(task, today) {
        no
    } else if args.someday && !(task.start == TaskStart::Someday && task.start_date is None) {
        no
    } else if args.evening && !task.evening {
        no
    } else if args.has_deadline && task.deadline is None {
        no
    } else if args.no_deadline && task.deadline is Some {
        no
    } else if args.recurring && task.recurrence_rule is None {
        no
    } else if !exprs_match(args.deadline@, "--deadline"@, task.deadline, today) {
        no
    } else if !exprs_match(args.scheduled@, "--scheduled"@, task.start_date, today) {
        no
    } else if !exprs_match(args.created@, "--created"@, task.creation_date, today) {
        no
    } else if !exprs_match(args.completed_on@, "--completed-on"@, task.stop_date, today) {
        no
    } else if !args.any_status && args.completed_on@.len() > 0 && task.status != TaskStatus::Completed {
        no
    } else {
        MatchResult { matched: true, checklist_only: q.1 }
    }
}

/// A find match keeps to every filter asked for: never a heading or a
/// trashed task; open tasks only unless statuses are chosen (each single
/// chosen status admits only that status); and each flag admits only the
/// tasks it names.
pub proof fn lemma_find_match_respects_filters(
    task: Task,
    store: ThingsStore,
    args: FindArgs,
    tag_ids: Seq<ThingsId>,
    today: UtcTime,
)
    requires
        spec_find_match(task, store, args, tag_ids, today).matched,
    ensures
        !task.trashed,
        task.item_type != TaskType::Heading,
        !args.any_status && !args.completed && !args.canceled && args.completed_on@.len() == 0
            ==> task.status == TaskStatus::Incomplete,
        !args.any_status && args.completed && !args.incomplete && !args.canceled ==> task.status
            == TaskStatus::Completed,
        !args.any_status && args.canceled && !args.incomplete && !args.completed ==> task.status
            == TaskStatus::Canceled,
        args.inbox ==> task.start == TaskStart::Inbox,
        args.today ==> spec_is_today(task, today),
        args.someday ==> task.start == TaskStart::Someday && task.start_date is None,
        args.evening ==> task.evening,
        args.has_deadline ==> task.deadline is Some,
        args.no_deadline ==> task.deadline is None,
        args.recurring ==> task.recurrence_rule is Some,
        args.tag_filters@.len() > 0 ==> exists|i: int, j: int|
            0 <= i < tag_ids.len() && 0 <= j < task.tags@.len() && #[trigger] tag_ids[i] == #[trigger] task.tags@[j],
        !args.notes && !args.checklists ==> match args.query {
            Some(q) => contains_seq(lower(task.title@), lower(q@)),
            None => true,
        },
{
    let st = spec_status_set(args);
    if !args.any_status {
        if !args.completed && !args.canceled && args.completed_on@.len() == 0 {
            if args.incomplete {
                assert(st == Some(seq![TaskStatus::Incomplete]));
            } else {
                assert(st == Some(seq![TaskStatus::Incomplete]));
            }
            assert(st->0.contains(task.status));
            assert(st->0[0] == task.status);
        }
        if args.completed && !args.incomplete && !args.canceled {
            assert(st == Some(seq![TaskStatus::Completed]));
            assert(st->0.contains(task.status));
            assert(st->0[0] == task.status);
        }
        if args.canceled && !args.incomplete && !args.completed {
            assert(st == Some(seq![TaskStatus::Canceled]));
            assert(st->0.contains(task.status));
            assert(st->0[0] == task.status);
        }
    }
}

fn all_exprs_match(exprs: &Vec<String>, flag: &str, field: Option<UtcTime>, today: &UtcTime) -> (r: bool)
    requires
        today_in_range(*today),
    ensures
        r == exprs_match(exprs@, flag@, field, *today),
{
    let mut k: usize = 0;
    while k < exprs.len()
        invariant
            k <= exprs@.len(),
            today_in_range(*today),
            forall|j: int|
                0 <= j < k ==> match spec_date_expr(#[trigger] exprs@[j]@, flag@, *today) {
                    Ok((op, th)) => spec_date_matches(field, op, th),
                    Err(_) => false,
                },
        decreases exprs@.len() - k,
    {
        match parse_date_expr(exprs[k].as_str(), flag, today) {
            Err(_) => {
                return false;
            },
            Ok((op, th)) => {
                if !date_matches(field, op, th) {
                    return false;
                }
            },
        }
        k = k + 1;
    }
    true
}

fn checklist_match(task: &Task, ql: &str) -> (r: bool)
    ensures
        r == exists|k: int|
            0 <= k < task.checklist_items@.len() && contains_seq(
                lower(#[trigger] task.checklist_items@[k].title@),
                ql@,
            ),
{
    let mut k: usize = 0;
    while k < task.checklist_items.len()
        invariant
            k <= task.checklist_items@.len(),
            forall|j: int| 0 <= j < k ==> !contains_seq(lower(#[trigger] task.checklist_items@[j].title@), ql@),
        decreases task.checklist_items@.len() - k,
    {
        let t = to_ascii_lowercase(task.checklist_items[k].title.as_str());
        if str_contains(t.as_str(), ql) {
            return true;
        }
        k = k + 1;
    }
    false
}

fn any_filter(filters: &Vec<String>, uuid: &str, title: &str) -> (r: bool)
    ensures
        r == some_filter_matches(filters@, uuid@, title@),
{
    let tl = to_ascii_lowercase(title);
    let mut k: usize = 0;
    while k < filters.len()
        invariant
            k <= filters@.len(),
            tl@ == lower(title@),
            forall|j: int| 0 <= j < k ==> !spec_filter_matches(#[trigger] filters@[j]@, uuid@, lower(title@)),
        decreases filters@.len() - k,
    {
        if matches_project_filter(filters[k].as_str(), uuid, tl.as_str()) {
            return true;
        }
        k = k + 1;
    }
    false
}

fn has_any_tag(tag_ids: &Vec<ThingsId>, tags: &Vec<ThingsId>) -> (r: bool)
    ensures
        r == exists|i: int, j: int|
            0 <= i < tag_ids@.len() && 0 <= j < tags@.len() && #[trigger] tag_ids@[i] == #[trigger] tags@[j],
{
    let mut i: usize = 0;
    while i < tag_ids.len()
        invariant
            i <= tag_ids@.len(),
            forall|a: int, b: int|
                0 <= a < i && 0 <= b < tags@.len() ==> #[trigger] tag_ids@[a] != #[trigger] tags@[b],
        decreases tag_ids@.len() - i,
    {
        let mut j: usize = 0;
        while j < tags.len()
            invariant
                i < tag_ids@.len(),
                j <= tags@.len(),
                forall|a: int, b: int|
                    0 <= a < i && 0 <= b < tags@.len() ==> #[trigger] tag_ids@[a] != #[trigger] tags@[b],
                forall|b: int| 0 <= b < j ==> tag_ids@[i as int] != #[trigger] tags@[b],
            decreases tags@.len() - j,
        {
            if tag_ids[i].same(&tags[j]) {
                return true;
            }
            j = j + 1;
        }
        i = i + 1;
    }
    false
}

/// How a task matches a search with resolved tag filters, as of `today`.
pub fn matches(
    task: &Task,
    store: &ThingsStore,
    args: &FindArgs,
    resolved_tag_uuids: &Vec<ThingsId>,
    today: &UtcTime,
) -> (r: MatchResult)
    requires
        today_in_range(*today),
    ensures
        r == spec_find_match(*task, *store, *args, resolved_tag_uuids@, *today),
{
    proof {
        reveal_strlit("Task6");
    }
    if task.is_heading() || task.trashed || !str_eq(task.entity.as_str(), "Task6") {
        return MatchResult::no();
    }
    if let Some(allowed) = build_status_set(args) {
        let mut found = false;
        let mut k: usize = 0;
        while k < allowed.len()
            invariant
                k <= allowed@.len(),
                found == exists|j: int| 0 <= j < k && allowed@[j] == task.status,
            decreases allowed@.len() - k,
        {
            if allowed[k] == task.status {
                found = true;
            }
            k = k + 1;
        }
        if !found {
            return MatchResult::no();
        }
    }
    let mut checklist_only = false;
    if let Some(q) = &args.query {
        let ql = to_ascii_lowercase(q.as_str());
        let title = to_ascii_lowercase(task.title.as_str());
        let title_match = str_contains(title.as_str(), ql.as_str());
        let notes_match = args.notes && match &task.notes {
            Some(n) => {
                let nl = to_ascii_lowercase(n.as_str());
                str_contains(nl.as_str(), ql.as_str())
            },
            None => false,
        };
        let cl_match = args.checklists && checklist_match(task, ql.as_str());
        if !title_match && !notes_match && !cl_match {
            return MatchResult::no();
        }
        checklist_only = cl_match && !title_match && !notes_match;
    }
    if args.tag_filters.len() > 0 && !has_any_tag(resolved_tag_uuids, &task.tags) {
        return MatchResult::no();
    }
    if args.project_filters.len() > 0 {
        let ok = match store.effective_project_uuid(task) {
            None => false,
            Some(p) => {
                let text = p.to_string();
                match store.get_task(text.as_str()) {
                    None => false,
                    Some(project) => any_filter(&args.project_filters, text.as_str(), project.title.as_str()),
                }
            },
        };
        if !ok {
            return MatchResult::no();
        }
    }
    if args.area_filters.len() > 0 {
        let ok = match store.effective_area_uuid(task) {
            None => false,
            Some(a) => {
                let text = a.to_string();
                match store.get_area(text.as_str()) {
                    None => false,
                    Some(area) => any_filter(&args.area_filters, text.as_str(), area.title.as_str()),
                }
            },
        };
        if !ok {
            return MatchResult::no();
        }
    }
    if args.inbox && task.start != TaskStart::Inbox {
        return MatchResult::no();
    }
    if args.today && !task.is_today(today) {
        return MatchResult::no();
    }
    if args.someday && !task.in_someday() {
        return MatchResult::no();
    }
    if args.evening && !task.evening {
        return MatchResult::no();
    }
    if args.has_deadline && task.deadline.is_none() {
        return MatchResult::no();
    }
    if args.no_deadline && task.deadline.is_some() {
        return MatchResult::no();
    }
    if args.recurring && task.recurrence_rule.is_none() {
        return MatchResult::no();
    }
    if !all_exprs_match(&args.deadline, "--deadline", task.deadline, today) {
        return MatchResult::no();
    }
    if !all_exprs_match(&args.scheduled, "--scheduled", task.start_date, today) {
        return MatchResult::no();
    }
    if !all_exprs_match(&args.created, "--created", task.creation_date, today) {
        return MatchResult::no();
    }
    if !all_exprs_match(&args.completed_on, "--completed-on", task.stop_date, today) {
        return MatchResult::no();
    }
    if !args.any_status && args.completed_on.len() > 0 && task.status != TaskStatus::Completed {
        return MatchResult::no();
    }
    MatchResult::yes(checklist_only)
}

/// The first error among date expressions, in order.
pub open spec fn exprs_error(exprs: Seq<String>, flag: Seq<char>, today: UtcTime) -> Option<Seq<char>>
    decreases exprs.len(),
{
    if exprs.len() == 0 {
        None
    } else {
        match spec_date_expr(exprs[0]@, flag, today) {
            Err(e) => Some(e),
            Ok(_) => exprs_error(exprs.drop_first(), flag, today),
        }
    }
}

/// The first error among a search's date filters, checked flag by flag:
/// deadline, scheduled, created, completed-on.
pub open spec fn args_expr_error(args: FindArgs, today: UtcTime) -> Option<Seq<char>> {
    match exprs_error(args.deadline@, "--deadline"@, today) {
        Some(e) => Some(e),
        None => match exprs_error(args.scheduled@, "--scheduled"@, today) {
            Some(e) => Some(e),
            None => match exprs_error(args.created@, "--created"@, today) {
                Some(e) => Some(e),
                None => exprs_error(args.completed_on@, "--completed-on"@, today),
            },
        },
    }
}

/// The tags that the tag filters name, in order, or the first filter's
/// error.
pub open spec fn find_tag_ids(tags: Seq<Tag>, filters: Seq<String>) -> Result<Seq<ThingsId>, Seq<char>>
    decreases filters.len(),
{
    if filters.len() == 0 {
        Ok(Seq::empty())
    } else {
        match find_tag_ids(tags, filters.drop_last()) {
            Err(e) => Err(e),
            Ok(ids) => match tag_resolution(tags, filters.last()@) {
                Err(e) => Err(e),
                Ok(t) => Ok(ids.push(t.uuid)),
            },
        }
    }
}

/// The tasks of a store that a search matches, each with how it matched.
pub open spec fn found<'a>(
    store: ThingsStore,
    args: FindArgs,
    tag_ids: Seq<ThingsId>,
    today: UtcTime,
) -> Seq<(&'a Task, MatchResult)> {
    store.tasks@.filter(|t: Task| spec_find_match(t, store, args, tag_ids, today).matched).map_values(
        |t: Task| (&t, spec_find_match(t, store, args, tag_ids, today)),
    )
}

/// The order of search results: projects first, then by sort index, then
/// by identifier text.
pub open spec fn find_key(p: (&Task, MatchResult)) -> (i128, i128, i128, i128) {
    (
        if p.0.item_type == TaskType::Project { 0 } else { 1 },
        p.0.index as i128,
        spec_id_key(p.0.uuid).0 as i128,
        spec_id_key(p.0.uuid).1 as i128,
    )
}

/// Find lists projects before other items, and items of the same kind with
/// lower sort indexes first.
pub proof fn lemma_find_order(v: Seq<(&Task, MatchResult)>)
    requires
        sorted_by(v, |p: (&Task, MatchResult)| find_key(p)),
    ensures
        forall|i: int, j: int|
            0 <= i < j < v.len() ==> {
                &&& ((#[trigger] v[j]).0.item_type == TaskType::Project ==> (#[trigger] v[i]).0.item_type
                    == TaskType::Project)
                &&& ((v[i].0.item_type == TaskType::Project) == (v[j].0.item_type == TaskType::Project)
                    ==> v[i].0.index <= v[j].0.index)
            },
{
    assert forall|i: int, j: int| 0 <= i < j < v.len() implies {
        &&& ((#[trigger] v[j]).0.item_type == TaskType::Project ==> (#[trigger] v[i]).0.item_type
            == TaskType::Project)
        &&& ((v[i].0.item_type == TaskType::Project) == (v[j].0.item_type == TaskType::Project)
            ==> v[i].0.index <= v[j].0.index)
    } by {
        assert(crate::sorting::key_le(find_key(v[i]), find_key(v[j])));
    }
}

fn find_key_of(p: &(&Task, MatchResult)) -> (k: (i128, i128, i128, i128))
    ensures
        k == find_key(*p),
{
    let idk = id_sort_key(&p.0.uuid);
    (if p.0.is_project() { 0i128 } else { 1i128 }, p.0.index as i128, idk.0, idk.1)
}

fn first_expr_error(exprs: &Vec<String>, flag: &str, today: &UtcTime) -> (r: Option<String>)
    requires
        today_in_range(*today),
    ensures
        match exprs_error(exprs@, flag@, *today) {
            Some(e) => r matches Some(m) && m@ == e,
            None => r is None,
        },
{
    let mut k: usize = 0;
    proof {
        assert(exprs@.skip(0) =~= exprs@);
    }
    while k < exprs.len()
        invariant
            k <= exprs@.len(),
            today_in_range(*today),
            exprs_error(exprs@, flag@, *today) == exprs_error(exprs@.skip(k as int), flag@, *today),
        decreases exprs@.len() - k,
    {
        proof {
            assert(exprs@.skip(k as int)[0] == exprs@[k as int]);
            assert(exprs@.skip(k as int).drop_first() =~= exprs@.skip(k as int + 1));
        }
        match parse_date_expr(exprs[k].as_str(), flag, today) {
            Err(e) => {
                return Some(e);
            },
            Ok(_) => {},
        }
        k = k + 1;
    }
    None
}

fn resolve_tag_filters(store: &ThingsStore, filters: &Vec<String>) -> (r: Result<Vec<ThingsId>, String>)
    ensures
        match find_tag_ids(store.tags@, filters@) {
            Ok(ids) => r matches Ok(v) && v@ == ids,
            Err(e) => r matches Err(m) && m@ == e,
        },
{
    let mut ids: Vec<ThingsId> = Vec::new();
    let mut k: usize = 0;
    proof {
        assert(filters@.take(0) =~= Seq::<String>::empty());
    }
    while k < filters.len()
        invariant
            k <= filters@.len(),
            find_tag_ids(store.tags@, filters@.take(k as int)) == Ok::<Seq<ThingsId>, Seq<char>>(ids@),
        decreases filters@.len() - k,
    {
        proof {
            assert(filters@.take(k as int + 1).drop_last() =~= filters@.take(k as int));
            assert(filters@.take(k as int + 1).last() == filters@[k as int]);
        }
        let (tag, err) = resolve_single_tag(store, filters[k].as_str());
        match tag {
            None => {
                proof {
                    assert(find_tag_ids(store.tags@, filters@) == find_tag_ids(store.tags@, filters@.take(k as int + 1))) by {
                        lemma_tag_ids_prefix_err(store.tags@, filters@, k as int + 1);
                    }
                }
                return Err(err);
            },
            Some(t) => {
                ids.push(t.uuid);
            },
        }
        k = k + 1;
    }
    proof {
        assert(filters@.take(filters@.len() as int) =~= filters@);
    }
    Ok(ids)
}

proof fn lemma_tag_ids_prefix_err(tags: Seq<Tag>, filters: Seq<String>, n: int)
    requires
        0 <= n <= filters.len(),
        find_tag_ids(tags, filters.take(n)) is Err,
    ensures
        find_tag_ids(tags, filters) == find_tag_ids(tags, filters.take(n)),
    decreases filters.len() - n,
{
    if n < filters.len() {
        assert(filters.take(n + 1).drop_last() =~= filters.take(n));
        lemma_tag_ids_prefix_err(tags, filters, n + 1);
    } else {
        assert(filters.take(n) =~= filters);
    }
}

/// The matches of a search, in result order, or the first error: an
/// unreadable date filter first, then an unknown or ambiguous tag filter.
pub fn find_results<'a>(args: &FindArgs, store: &'a ThingsStore, today: &UtcTime) -> (r: Result<
    Vec<(&'a Task, MatchResult)>,
    String,
>)
    requires
        today_in_range(*today),
    ensures
        match args_expr_error(*args, *today) {
            Some(e) => r matches Err(m) && m@ == e,
            None => match find_tag_ids(store.tags@, args.tag_filters@) {
                Err(e) => r matches Err(m) && m@ == e,
                Ok(ids) => r matches Ok(v) && v@.to_multiset() == found(
                    *store,
                    *args,
                    ids,
                    *today,
                ).to_multiset() && sorted_by(v@, |p: (&Task, MatchResult)| find_key(p)),
            },
        },
{
    if let Some(e) = first_expr_error(&args.deadline, "--deadline", today) {
        return Err(e);
    }
    if let Some(e) = first_expr_error(&args.scheduled, "--scheduled", today) {
        return Err(e);
    }
    if let Some(e) = first_expr_error(&args.created, "--created", today) {
        return Err(e);
    }
    if let Some(e) = first_expr_error(&args.completed_on, "--completed-on", today) {
        return Err(e);
    }
    let ids = match resolve_tag_filters(store, &args.tag_filters) {
        Err(e) => {
            return Err(e);
        },
        Ok(ids) => ids,
    };
    let ghost q = |t: Task| spec_find_match(t, *store, *args, ids@, *today).matched;
    let ghost g = |t: Task| (&t, spec_find_match(t, *store, *args, ids@, *today));
    let mut out: Vec<(&'a Task, MatchResult)> = Vec::new();
    let mut i: usize = 0;
    while i < store.tasks.len()
        invariant
            i <= store.tasks@.len(),
            today_in_range(*today),
            q == (|t: Task| spec_find_match(t, *store, *args, ids@, *today).matched),
            g == (|t: Task| (&t, spec_find_match(t, *store, *args, ids@, *today))),
            out@ == store.tasks@.take(i as int).filter(q).map_values(g),
        decreases store.tasks@.len() - i,
    {
        let t = &store.tasks[i];
        proof {
            assert(store.tasks@.take(i as int + 1) =~= store.tasks@.take(i as int).push(*t));
            store.tasks@.take(i as int).lemma_filter_push(*t, q);
        }
        let m = matches(t, store, args, &ids, today);
        if m.matched {
            out.push((t, m));
        }
        i = i + 1;
        proof {
            assert(out@ =~= store.tasks@.take(i as int).filter(q).map_values(g));
        }
    }
    proof {
        assert(store.tasks@.take(store.tasks@.len() as int) =~= store.tasks@);
        assert(out@ =~= found(*store, *args, ids@, *today));
    }
    Ok(sort_by(out, find_key_of, Ghost(|p: (&Task, MatchResult)| find_key(p))))
}

/// Whether the days around `today` are representable.
pub fn today_fits(today: &UtcTime) -> (r: bool)
    ensures
        r == today_in_range(*today),
{
    if today.secs < i64::MIN + 86400 || today.secs > i64::MAX - 86400 {
        return false;
    }
    chrono_timestamp_ok(today.secs + 86400, today.nanos) && chrono_timestamp_ok(today.secs - 86400, today.nanos)
}

/// The matches of a search as `find_results` gives them, or `None` when the
/// days around `today` cannot be represented.
pub fn find_results_checked<'a>(args: &FindArgs, store: &'a ThingsStore, today: &UtcTime) -> (r: Option<
    Result<Vec<(&'a Task, MatchResult)>, String>,
>)
    ensures
        r is None <==> !today_in_range(*today),
        r matches Some(x) ==> match args_expr_error(*args, *today) {
            Some(e) => x matches Err(m) && m@ == e,
            None => match find_tag_ids(store.tags@, args.tag_filters@) {
                Err(e) => x matches Err(m) && m@ == e,
                Ok(ids) => x matches Ok(v) && v@.to_multiset() == found(
                    *store,
                    *args,
                    ids,
                    *today,
                ).to_multiset() && sorted_by(v@, |p: (&Task, MatchResult)| find_key(p)),
            },
        },
{
    if today_fits(today) {
        Some(find_results(args, store, today))
    } else {
        None
    }
}

} // verus!
