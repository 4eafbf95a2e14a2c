//! The typed service surface: requests, results and errors, and how
//! requests become command arguments and plans become results.
use vstd::prelude::*;

use crate::commands::creates::{
    AreasNewArgs, ProjectsNewArgs, TagDeletePlan, TagsDeleteArgs, TagsNewArgs, build_tag_delete,
};
use crate::commands::delete::{DeleteArgs, DeletePlan};
use crate::commands::edits::{AreasEditArgs, ProjectsEditArgs, TagDeltaArgs, TagsEditArgs};
use crate::commands::find::FindArgs;
use crate::commands::new_task::NewArgs;
use crate::commands::schedule::ScheduleArgs;
use crate::commands::views::{
    area_contents, area_project_of, by_index, kept, loose_of, project_contents, project_contents_ok,
};
use crate::common::tag_resolution;
use crate::ids::matching::{id_sort_key, spec_id_key};
use crate::ids::things_id::ThingsId;
use crate::sorting::{sort_by, sorted_by};
use crate::store::model::{Area, Task};
use crate::store::queries::{is_markable, resolution_of};
use crate::store::things_store::ThingsStore;
use crate::text::{concat2, owned};
use crate::time::{spec_chrono_timestamp_ok, UtcTime};
use crate::wire::codes::{TaskStatus, TaskType};

verus! {

broadcast use vstd::seq_lib::group_to_multiset_ensures;

/// Why a service call failed, with its message.
#[derive(Debug, Clone, PartialEq, Eq)]
pub enum ThingsSdkError {
    Auth(String),
    Sync(String),
    Validation(String),
    NotFound(String),
    CloudCommit(String),
    Io(String),
}

/// The message an error carries.
pub open spec fn error_message(e: ThingsSdkError) -> Seq<char> {
    match e {
        ThingsSdkError::Auth(m) => m@,
        ThingsSdkError::Sync(m) => m@,
        ThingsSdkError::Validation(m) => m@,
        ThingsSdkError::NotFound(m) => m@,
        ThingsSdkError::CloudCommit(m) => m@,
        ThingsSdkError::Io(m) => m@,
    }
}

impl ThingsSdkError {
    /// The message the error carries (what it displays as).
    pub fn message(&self) -> (r: String)
        ensures
            r@ == error_message(*self),
    {
        match self {
            ThingsSdkError::Auth(m) => m.clone(),
            ThingsSdkError::Sync(m) => m.clone(),
            ThingsSdkError::Validation(m) => m.clone(),
            ThingsSdkError::NotFound(m) => m.clone(),
            ThingsSdkError::CloudCommit(m) => m.clone(),
            ThingsSdkError::Io(m) => m.clone(),
        }
    }
}

/// Whether credentials are configured, for whom, or why not.
#[derive(Debug, Clone)]
pub struct AuthStatus {
    pub configured: bool,
    pub email: Option<String>,
    pub message: Option<String>,
}

/// What a mutation did: the identifiers and titles it touched, its labels,
/// and the history index after the commit.
#[derive(Debug, Clone)]
pub struct MutationResult {
    pub ids: Vec<String>,
    pub titles: Vec<String>,
    pub labels: Vec<String>,
    pub head_index: Option<i64>,
}

/// Date bounds of a logbook query.
#[derive(Debug, Clone)]
pub struct LogbookQuery {
    pub from: Option<String>,
    pub to: Option<String>,
}

/// Options of an area query.
#[derive(Debug, Clone)]
pub struct AreaQuery {
    pub all: bool,
}

/// A search, field for field the options of `find`.
#[derive(Debug, Clone)]
pub struct FindQuery {
    pub query: Option<String>,
    pub notes: bool,
    pub checklists: bool,
    pub incomplete: bool,
    pub completed: bool,
    pub canceled: bool,
    pub any_status: bool,
    pub tags: Vec<String>,
    pub projects: Vec<String>,
    pub areas: Vec<String>,
    pub inbox: bool,
    pub today: bool,
    pub someday: bool,
    pub evening: bool,
    pub has_deadline: bool,
    pub no_deadline: bool,
    pub recurring: bool,
    pub deadline: Vec<String>,
    pub scheduled: Vec<String>,
    pub created: Vec<String>,
    pub completed_on: Vec<String>,
}

/// A task to create.
#[derive(Debug, Clone)]
pub struct CreateTaskRequest {
    pub title: String,
    pub in_target: Option<String>,
    pub when: Option<String>,
    pub before_id: Option<String>,
    pub after_id: Option<String>,
    pub notes: Option<String>,
    pub tags: Option<String>,
    pub deadline: Option<String>,
}

/// Edits of tasks.
#[derive(Debug, Clone)]
pub struct EditTasksRequest {
    pub task_ids: Vec<String>,
    pub title: Option<String>,
    pub notes: Option<String>,
    pub move_target: Option<String>,
    pub add_tags: Option<String>,
    pub remove_tags: Option<String>,
    pub add_checklist: Vec<String>,
    pub remove_checklist: Option<String>,
    pub rename_checklist: Vec<String>,
}

/// The status to mark tasks with.
#[derive(Debug, Clone, Copy, PartialEq, Eq, Structural)]
pub enum MarkStatus {
    Done,
    Incomplete,
    Canceled,
}

/// Tasks to mark.
#[derive(Debug, Clone)]
pub struct MarkTasksRequest {
    pub task_ids: Vec<String>,
    pub status: MarkStatus,
}

/// The status to give checklist items.
#[derive(Debug, Clone, Copy, PartialEq, Eq, Structural)]
pub enum ChecklistStatus {
    Checked,
    Unchecked,
    Canceled,
}

/// Checklist items of a task to mark.
#[derive(Debug, Clone)]
pub struct MutateChecklistRequest {
    pub task_id: String,
    pub checklist_ids: String,
    pub status: ChecklistStatus,
}

/// A schedule change of a task.
#[derive(Debug, Clone)]
pub struct ScheduleTaskRequest {
    pub task_id: String,
    pub when: Option<String>,
    pub deadline: Option<String>,
    pub clear_deadline: bool,
}

/// A move of an item before or after another.
#[derive(Debug, Clone)]
pub struct ReorderItemRequest {
    pub item_id: String,
    pub before_id: Option<String>,
    pub after_id: Option<String>,
}

/// Items to delete.
#[derive(Debug, Clone)]
pub struct DeleteItemsRequest {
    pub item_ids: Vec<String>,
}

/// A project to create.
#[derive(Debug, Clone)]
pub struct CreateProjectRequest {
    pub title: String,
    pub area: Option<String>,
    pub when: Option<String>,
    pub notes: Option<String>,
    pub tags: Option<String>,
    pub deadline: Option<String>,
}

/// Edits of a project.
#[derive(Debug, Clone)]
pub struct EditProjectRequest {
    pub project_id: String,
    pub title: Option<String>,
    pub move_target: Option<String>,
    pub notes: Option<String>,
    pub add_tags: Option<String>,
    pub remove_tags: Option<String>,
}

/// An area to create.
#[derive(Debug, Clone)]
pub struct CreateAreaRequest {
    pub title: String,
    pub tags: Option<String>,
}

/// Edits of an area.
#[derive(Debug, Clone)]
pub struct EditAreaRequest {
    pub area_id: String,
    pub title: Option<String>,
    pub add_tags: Option<String>,
    pub remove_tags: Option<String>,
}

/// A tag to create.
#[derive(Debug, Clone)]
pub struct CreateTagRequest {
    pub name: String,
    pub parent: Option<String>,
}

/// Edits of a tag.
#[derive(Debug, Clone)]
pub struct EditTagRequest {
    pub tag_id: String,
    pub name: Option<String>,
    pub move_target: Option<String>,
}

/// A tag to delete.
#[derive(Debug, Clone)]
pub struct DeleteTagRequest {
    pub tag_id: String,
}

/// A lookup that found nothing.
pub fn not_found(message: String) -> (r: ThingsSdkError)
    ensures
        r == ThingsSdkError::NotFound(message),
{
    ThingsSdkError::NotFound(message)
}

/// The status of configured credentials, from the outcome of loading them.
pub fn auth_status_of(loaded: Result<(String, String), String>) -> (r: AuthStatus)
    ensures
        match loaded {
            Ok((email, _)) => r.configured && r.email == Some(email) && r.message is None,
            Err(m) => !r.configured && r.email is None && r.message == Some(m),
        },
{
    match loaded {
        Ok((email, _)) => AuthStatus { configured: true, email: Some(email), message: None },
        Err(m) => AuthStatus { configured: false, email: None, message: Some(m) },
    }
}

/// The day a service reads as today: the configured day's second, else
/// `fallback`'s, when that instant can be represented, else `fallback`.
pub open spec fn current_day(today_ts: Option<i64>, fallback: UtcTime) -> UtcTime {
    let ts = match today_ts {
        Some(t) => t,
        None => fallback.secs,
    };
    if spec_chrono_timestamp_ok(ts, 0) {
        UtcTime { secs: ts, nanos: 0 }
    } else {
        fallback
    }
}

/// The day a service reads as today.
pub fn current_day_of(today_ts: Option<i64>, fallback: UtcTime) -> (r: UtcTime)
    ensures
        r == current_day(today_ts, fallback),
{
    let ts = match today_ts {
        Some(t) => t,
        None => fallback.secs,
    };
    match UtcTime::from_timestamp(ts, 0) {
        Some(t) => t,
        None => fallback,
    }
}

/// A result touching one item.
pub fn single_result(id: String, title: String, label: &str, head_index: Option<i64>) -> (r: MutationResult)
    ensures
        r.ids@.len() == 1 && r.ids@[0] == id,
        r.titles@.len() == 1 && r.titles@[0] == title,
        r.labels@.len() == 1 && r.labels@[0]@ == label@,
        r.head_index == head_index,
{
    let mut ids: Vec<String> = Vec::new();
    ids.push(id);
    let mut titles: Vec<String> = Vec::new();
    titles.push(title);
    let mut labels: Vec<String> = Vec::new();
    labels.push(owned(label));
    MutationResult { ids, titles, labels, head_index }
}

impl FindQuery {
    /// The `find` arguments of this search (never detailed).
    pub fn into_find_args(self) -> (r: FindArgs)
        ensures
            !r.detailed,
            r.query == self.query,
            r.incomplete == self.incomplete,
            r.notes == self.notes,
            r.checklists == self.checklists,
            r.completed == self.completed,
            r.canceled == self.canceled,
            r.any_status == self.any_status,
            r.tag_filters == self.tags,
            r.project_filters == self.projects,
            r.area_filters == self.areas,
            r.inbox == self.inbox,
            r.today == self.today,
            r.someday == self.someday,
            r.evening == self.evening,
            r.has_deadline == self.has_deadline,
            r.no_deadline == self.no_deadline,
            r.recurring == self.recurring,
            r.deadline == self.deadline,
            r.scheduled == self.scheduled,
            r.created == self.created,
            r.completed_on == self.completed_on,
    {
        FindArgs {
            detailed: false,
            query: self.query,
            incomplete: self.incomplete,
            notes: self.notes,
            checklists: self.checklists,
            completed: self.completed,
            canceled: self.canceled,
            any_status: self.any_status,
            tag_filters: self.tags,
            project_filters: self.projects,
            area_filters: self.areas,
            inbox: self.inbox,
            today: self.today,
            someday: self.someday,
            evening: self.evening,
            has_deadline: self.has_deadline,
            no_deadline: self.no_deadline,
            recurring: self.recurring,
            deadline: self.deadline,
            scheduled: self.scheduled,
            created: self.created,
            completed_on: self.completed_on,
        }
    }
}

impl CreateTaskRequest {
    /// The `new` arguments of this request: the inbox when no container is
    /// given, no notes when none are.
    pub fn into_new_args(self) -> (r: NewArgs)
        ensures
            r.title == self.title,
            match self.in_target {
                Some(t) => r.in_target == t,
                None => r.in_target@ == "inbox"@,
            },
            r.when == self.when,
            r.before_id == self.before_id,
            r.after_id == self.after_id,
            match self.notes {
                Some(n) => r.notes == n,
                None => r.notes@.len() == 0,
            },
            r.tags == self.tags,
            r.deadline_date == self.deadline,
    {
        proof {
            reveal_strlit("inbox");
        }
        NewArgs {
            title: self.title,
            in_target: match self.in_target {
                Some(t) => t,
                None => owned("inbox"),
            },
            when: self.when,
            before_id: self.before_id,
            after_id: self.after_id,
            notes: match self.notes {
                Some(n) => n,
                None => String::new(),
            },
            tags: self.tags,
            deadline_date: self.deadline,
        }
    }
}

impl CreateProjectRequest {
    /// The `projects new` arguments of this request (no notes when none
    /// are given).
    pub fn into_args(self) -> (r: ProjectsNewArgs)
        ensures
            r.title == self.title,
            r.area == self.area,
            r.when == self.when,
            match self.notes {
                Some(n) => r.notes == n,
                None => r.notes@.len() == 0,
            },
            r.tags == self.tags,
            r.deadline_date == self.deadline,
    {
        ProjectsNewArgs {
            title: self.title,
            area: self.area,
            when: self.when,
            notes: match self.notes {
                Some(n) => n,
                None => String::new(),
            },
            tags: self.tags,
            deadline_date: self.deadline,
        }
    }
}

impl EditProjectRequest {
    /// The `projects edit` arguments of this request.
    pub fn into_args(self) -> (r: ProjectsEditArgs)
        ensures
            r.project_id == self.project_id,
            r.title == self.title,
            r.move_target == self.move_target,
            r.notes == self.notes,
            r.tag_delta.add_tags == self.add_tags,
            r.tag_delta.remove_tags == self.remove_tags,
    {
        ProjectsEditArgs {
            project_id: self.project_id,
            title: self.title,
            move_target: self.move_target,
            notes: self.notes,
            tag_delta: TagDeltaArgs { add_tags: self.add_tags, remove_tags: self.remove_tags },
        }
    }
}

impl CreateAreaRequest {
    /// The `areas new` arguments of this request.
    pub fn into_args(self) -> (r: AreasNewArgs)
        ensures
            r.title == self.title,
            r.tags == self.tags,
    {
        AreasNewArgs { title: self.title, tags: self.tags }
    }
}

impl EditAreaRequest {
    /// The `areas edit` arguments of this request.
    pub fn into_args(self) -> (r: AreasEditArgs)
        ensures
            r.area_id == self.area_id,
            r.title == self.title,
            r.tag_delta.add_tags == self.add_tags,
            r.tag_delta.remove_tags == self.remove_tags,
    {
        AreasEditArgs {
            area_id: self.area_id,
            title: self.title,
            tag_delta: TagDeltaArgs { add_tags: self.add_tags, remove_tags: self.remove_tags },
        }
    }
}

impl CreateTagRequest {
    /// The `tags new` arguments of this request.
    pub fn into_args(self) -> (r: TagsNewArgs)
        ensures
            r.name == self.name,
            r.parent == self.parent,
    {
        TagsNewArgs { name: self.name, parent: self.parent }
    }
}

impl EditTagRequest {
    /// The `tags edit` arguments of this request.
    pub fn into_args(self) -> (r: TagsEditArgs)
        ensures
            r.tag_id == self.tag_id,
            r.name == self.name,
            r.move_target == self.move_target,
    {
        TagsEditArgs { tag_id: self.tag_id, name: self.name, move_target: self.move_target }
    }
}

impl DeleteTagRequest {
    /// The `tags delete` arguments of this request.
    pub fn into_args(self) -> (r: TagsDeleteArgs)
        ensures
            r.tag_id == self.tag_id,
    {
        TagsDeleteArgs { tag_id: self.tag_id }
    }
}

impl ScheduleTaskRequest {
    /// The `schedule` arguments of this request.
    pub fn into_args(self) -> (r: ScheduleArgs)
        ensures
            r.task_id == self.task_id,
            r.when == self.when,
            r.deadline_date == self.deadline,
            r.clear_deadline == self.clear_deadline,
    {
        ScheduleArgs {
            task_id: self.task_id,
            when: self.when,
            deadline_date: self.deadline,
            clear_deadline: self.clear_deadline,
        }
    }
}

impl DeleteItemsRequest {
    /// The `delete` arguments of this request.
    pub fn into_args(self) -> (r: DeleteArgs)
        ensures
            r.item_ids == self.item_ids,
    {
        DeleteArgs { item_ids: self.item_ids }
    }
}

/// How a failed project creation is reported: as not found when the
/// message is the one the area lookup gives, else as invalid.
pub open spec fn project_error(store: ThingsStore, args: ProjectsNewArgs, err: Seq<char>) -> (bool, Seq<char>) {
    match args.area {
        Some(a) => {
            let r = resolution_of(store.areas@, |x: Area| true, |x: Area| x.uuid, a@, "Area"@);
            (r.0 is None && r.1 == err, err)
        },
        None => (false, err),
    }
}

/// The error of a failed project creation with message `err`.
pub fn project_create_error(store: &ThingsStore, args: &ProjectsNewArgs, err: String) -> (r: ThingsSdkError)
    ensures
        if project_error(*store, *args, err@).0 {
            r == ThingsSdkError::NotFound(err)
        } else {
            r == ThingsSdkError::Validation(err)
        },
{
    if let Some(area_id) = &args.area {
        let (area, area_err, _) = store.resolve_area_identifier(area_id.as_str());
        if area.is_none() && crate::text::str_eq(area_err.as_str(), err.as_str()) {
            return not_found(err);
        }
    }
    ThingsSdkError::Validation(err)
}

/// The tasks of a project as the service lists them (by sort index), or
/// why not: an identifier that does not resolve, or an item that is no
/// project.
pub fn project_children<'a>(store: &'a ThingsStore, project_id: &str) -> (r: Result<Vec<&'a Task>, ThingsSdkError>)
    ensures
        ({
            let res = resolution_of(store.tasks@, |t: Task| is_markable(t), |t: Task| t.uuid, project_id@, "Item"@);
            match res.0 {
                None => r matches Err(ThingsSdkError::NotFound(m)) && m@ == res.1,
                Some(p) => if p.item_type == TaskType::Project {
                    r matches Ok(v) && v@.to_multiset() == kept(
                        *store,
                        |t: Task| crate::commands::views::child_of(*store, p.uuid, t),
                    ) && sorted_by(v@, |t: &Task| by_index(t))
                } else {
                    r matches Err(ThingsSdkError::Validation(m)) && m@ == "Not a project: "@ + p.title@
                },
            }
        }),
{
    let (found, err, _) = store.resolve_mark_identifier(project_id);
    match found {
        None => Err(not_found(err)),
        Some(p) => {
            if p.is_project() {
                let c = project_contents(store, p);
                Ok(c.children)
            } else {
                proof {
                    reveal_strlit("Not a project: ");
                }
                Err(ThingsSdkError::Validation(concat2("Not a project: ", p.title.as_str())))
            }
        },
    }
}

/// The order of an area's items in the service: projects first, then by
/// sort index, then by identifier text.
pub open spec fn area_item_order(t: &Task) -> (i128, i128, i128, i128) {
    (
        if t.item_type == TaskType::Project { 0 } else { 1 },
        t.index as i128,
        spec_id_key(t.uuid).0 as i128,
        spec_id_key(t.uuid).1 as i128,
    )
}

fn area_item_order_of(t: &&Task) -> (k: (i128, i128, i128, i128))
    ensures
        k == area_item_order(*t),
{
    let idk = id_sort_key(&t.uuid);
    (if t.is_project() { 0i128 } else { 1i128 }, t.index as i128, idk.0, idk.1)
}

/// The items of an area as the service lists them: its projects and its
/// loose tasks (every status when `all`, else open ones), in one list; or
/// the message of an identifier that does not resolve.
pub fn area_items<'a>(store: &'a ThingsStore, area_id: &str, query: &AreaQuery) -> (r: Result<Vec<&'a Task>, ThingsSdkError>)
    ensures
        ({
            let res = resolution_of(store.areas@, |a: Area| true, |a: Area| a.uuid, area_id@, "Area"@);
            let status = if query.all { None } else { Some(TaskStatus::Incomplete) };
            match res.0 {
                None => r matches Err(ThingsSdkError::NotFound(m)) && m@ == res.1,
                Some(a) => r matches Ok(v) && v@.to_multiset() == kept(*store, |t: Task| area_project_of(status, a.uuid, t)).add(
                    kept(*store, |t: Task| loose_of(*store, status, a.uuid, t)),
                ) && sorted_by(v@, |t: &Task| area_item_order(t)),
            }
        }),
{
    let (found, err, _) = store.resolve_area_identifier(area_id);
    match found {
        None => Err(not_found(err)),
        Some(a) => {
            let c = area_contents(store, a, query.all);
            let mut items = c.projects;
            let ghost ps = items@;
            let mut loose = c.loose_tasks;
            let ghost ls = loose@;
            items.append(&mut loose);
            proof {
                assert(items@ == ps + ls);
                vstd::seq_lib::lemma_multiset_commutative(ps, ls);
            }
            Ok(sort_by(items, area_item_order_of, Ghost(|t: &Task| area_item_order(t))))
        },
    }
}

/// The result of a deletion, or not found when nothing matched.
pub fn delete_result(plan: &DeletePlan, head_index: Option<i64>) -> (r: Result<MutationResult, ThingsSdkError>)
    ensures
        plan.targets@.len() == 0 ==> (r matches Err(ThingsSdkError::NotFound(m)) && m@ == "No matching items to delete."@),
        plan.targets@.len() > 0 ==> (r matches Ok(res) && {
            &&& res.ids@.len() == plan.targets@.len()
            &&& res.titles@.len() == plan.targets@.len()
            &&& forall|i: int| 0 <= i < plan.targets@.len() ==> #[trigger] res.ids@[i] == plan.targets@[i].0
                && res.titles@[i] == plan.targets@[i].2
            &&& res.labels@.len() == 1 && res.labels@[0]@ == "deleted"@
            &&& res.head_index == head_index
        }),
{
    if plan.targets.len() == 0 {
        proof {
            reveal_strlit("No matching items to delete.");
        }
        return Err(not_found(owned("No matching items to delete.")));
    }
    let mut ids: Vec<String> = Vec::new();
    let mut titles: Vec<String> = Vec::new();
    let mut k: usize = 0;
    while k < plan.targets.len()
        invariant
            k <= plan.targets@.len(),
            ids@.len() == k,
            titles@.len() == k,
            forall|i: int| 0 <= i < k ==> #[trigger] ids@[i] == plan.targets@[i].0 && titles@[i] == plan.targets@[i].2,
        decreases plan.targets@.len() - k,
    {
        let id = plan.targets[k].0.clone();
        let title = plan.targets[k].2.clone();
        ids.push(id);
        titles.push(title);
        k = k + 1;
    }
    let mut labels: Vec<String> = Vec::new();
    labels.push(owned("deleted"));
    proof {
        reveal_strlit("deleted");
    }
    Ok(MutationResult { ids, titles, labels, head_index })
}

/// The deletion of a tag, or not found when the identifier names none.
pub fn tag_delete_plan(store: &ThingsStore, request: &DeleteTagRequest) -> (r: Result<TagDeletePlan, ThingsSdkError>)
    ensures
        match tag_resolution(store.tags@, request.tag_id@) {
            Err(e) => r matches Err(ThingsSdkError::NotFound(m)) && m@ == e,
            Ok(t) => r matches Ok(plan) && plan.tag == t,
        },
{
    let args = TagsDeleteArgs { tag_id: request.tag_id.clone() };
    match build_tag_delete(&args, store) {
        Err(e) => Err(not_found(e)),
        Ok(plan) => Ok(plan),
    }
}

} // verus!
