//! Planning edits of areas, tags and projects.
use vstd::prelude::*;

use crate::common::{
    is_task6_note, list_tokens, resolve_all, resolve_single_tag, resolve_tag_list, tag_resolution,
    task6_note,
};
use crate::ids::things_id::{copy_ids, ThingsId};
use crate::store::entities::opt_text;
use crate::store::model::{Area, Tag, Task};
use crate::store::queries::{is_markable, resolution_of};
use crate::store::things_store::ThingsStore;
use crate::text::{
    concat2, concat3, eq_ignore_ascii_case, lower, spec_to_lowercase, spec_trim, str_eq,
    to_lowercase, trim_str,
};
use crate::time::UtcTime;
use crate::wire::codes::TaskType;
use crate::wire::notes::{StructuredTaskNotes, TaskNotes};
use crate::wire::props::{AreaPatch, TagPatch, TaskPatch};

verus! {

/// Tags to add and to remove (comma-separated titles or id prefixes).
#[derive(Debug)]
pub struct TagDeltaArgs {
    pub add_tags: Option<String>,
    pub remove_tags: Option<String>,
}

/// `ids` appended to `cur`, each only when not there yet.
pub open spec fn add_missing(cur: Seq<ThingsId>, ids: Seq<ThingsId>) -> Seq<ThingsId>
    decreases ids.len(),
{
    if ids.len() == 0 {
        cur
    } else {
        let c = add_missing(cur, ids.drop_last());
        if c.contains(ids.last()) {
            c
        } else {
            c.push(ids.last())
        }
    }
}

/// What a tag delta does to the current tags: the new tag list (when the
/// delta names any change) and its labels, or the first tag message.
pub open spec fn tag_delta(
    tags: Seq<Tag>,
    current: Seq<ThingsId>,
    delta: TagDeltaArgs,
) -> Result<(Option<Seq<ThingsId>>, Seq<Seq<char>>), Seq<char>> {
    let added: Result<(Seq<ThingsId>, Seq<Seq<char>>), Seq<char>> = match delta.add_tags {
        None => Ok((current, Seq::empty())),
        Some(a) => match resolve_all(tags, list_tokens(a@)) {
            Err(e) => Err(e),
            Ok(ids) => Ok((add_missing(current, ids), seq!["add-tags"@])),
        },
    };
    match added {
        Err(e) => Err(e),
        Ok((cur, labels)) => {
            let removed: Result<(Seq<ThingsId>, Seq<Seq<char>>), Seq<char>> = match delta.remove_tags {
                None => Ok((cur, labels)),
                Some(r) => match resolve_all(tags, list_tokens(r@)) {
                    Err(e) => Err(e),
                    Ok(ids) => Ok((cur.filter(|t: ThingsId| !ids.contains(t)), labels.push("remove-tags"@))),
                },
            };
            match removed {
                Err(e) => Err(e),
                Ok((cur2, labels2)) => Ok(
                    (
                        if delta.add_tags is Some || delta.remove_tags is Some {
                            Some(cur2)
                        } else {
                            None
                        },
                        labels2,
                    ),
                ),
            }
        },
    }
}

proof fn lemma_add_missing(cur: Seq<ThingsId>, ids: Seq<ThingsId>)
    ensures
        forall|x: ThingsId| add_missing(cur, ids).contains(x) <==> (cur.contains(x) || ids.contains(x)),
    decreases ids.len(),
{
    if ids.len() > 0 {
        let d = ids.drop_last();
        lemma_add_missing(cur, d);
        let c = add_missing(cur, d);
        assert forall|x: ThingsId| ids.contains(x) <==> (d.contains(x) || x == ids.last()) by {
            if ids.contains(x) {
                let k = choose|k: int| 0 <= k < ids.len() && ids[k] == x;
                if k < ids.len() - 1 {
                    assert(d[k] == x);
                }
            }
            if d.contains(x) {
                let k = choose|k: int| 0 <= k < d.len() && d[k] == x;
                assert(ids[k] == x);
            }
            if x == ids.last() {
                assert(ids[ids.len() - 1] == x);
            }
        }
        if !c.contains(ids.last()) {
            assert forall|x: ThingsId| c.push(ids.last()).contains(x) <==> (c.contains(x) || x == ids.last()) by {
                if c.push(ids.last()).contains(x) {
                    let k = choose|k: int| 0 <= k < c.push(ids.last()).len() && c.push(ids.last())[k] == x;
                    if k < c.len() {
                        assert(c[k] == x);
                    }
                }
                if c.contains(x) {
                    let k = choose|k: int| 0 <= k < c.len() && c[k] == x;
                    assert(c.push(ids.last())[k] == x);
                }
                if x == ids.last() {
                    assert(c.push(ids.last())[c.len() as int] == x);
                }
            }
        }
    }
}

/// The identifiers a tag list names, when they all resolve (none otherwise).
pub open spec fn named_tags(tags: Seq<Tag>, list: Option<String>) -> Seq<ThingsId> {
    match list {
        Some(a) => match resolve_all(tags, list_tokens(a@)) {
            Ok(ids) => ids,
            Err(_) => Seq::empty(),
        },
        None => Seq::empty(),
    }
}

/// A tag delta keeps exactly the current tags and the added ones that it
/// does not remove: no removed tag stays.
pub proof fn lemma_tag_delta(tags: Seq<Tag>, current: Seq<ThingsId>, delta: TagDeltaArgs)
    ensures
        match tag_delta(tags, current, delta) {
            Ok((Some(res), _)) => {
                forall|x: ThingsId| #[trigger] res.contains(x) <==> ((current.contains(x) || named_tags(tags, delta.add_tags).contains(x))
                    && !named_tags(tags, delta.remove_tags).contains(x))
            },
            _ => true,
        },
{
    broadcast use vstd::seq_lib::group_filter_ensures;

    let a = named_tags(tags, delta.add_tags);
    let rm = named_tags(tags, delta.remove_tags);
    lemma_add_missing(current, a);
    if let Ok((Some(res), _)) = tag_delta(tags, current, delta) {
        let cur = if delta.add_tags is Some { add_missing(current, a) } else { current };
        assert(delta.add_tags is None ==> forall|x: ThingsId| !a.contains(x));
        if delta.remove_tags is Some {
            let f = |t: ThingsId| !rm.contains(t);
            assert(res == cur.filter(f));
            assert forall|x: ThingsId| #[trigger] res.contains(x) <==> (cur.contains(x) && !rm.contains(x)) by {
                if cur.contains(x) && !rm.contains(x) {
                    let k = choose|k: int| 0 <= k < cur.len() && cur[k] == x;
                    cur.lemma_filter_contains(f, k);
                }
                if res.contains(x) {
                    cur.lemma_filter_contains_rev(f, x);
                    let k = choose|k: int| 0 <= k < res.len() && res[k] == x;
                    cur.lemma_filter_pred(f, k);
                }
            }
        } else {
            assert(res == cur);
        }
    }
}

/// The identifiers of an optional list.
pub open spec fn opt_ids(v: Option<Vec<ThingsId>>) -> Option<Seq<ThingsId>> {
    match v {
        Some(x) => Some(x@),
        None => None,
    }
}

fn contains_id(ids: &Vec<ThingsId>, id: &ThingsId) -> (r: bool)
    ensures
        r == ids@.contains(*id),
{
    let mut i: usize = 0;
    while i < ids.len()
        invariant
            i <= ids@.len(),
            forall|j: int| 0 <= j < i ==> ids@[j] != *id,
        decreases ids@.len() - i,
    {
        if ids[i].same(id) {
            return true;
        }
        i = i + 1;
    }
    false
}

/// Applies a tag delta to the current tags.
pub fn apply_tag_delta(store: &ThingsStore, current: &Vec<ThingsId>, delta: &TagDeltaArgs) -> (r: Result<(Option<Vec<ThingsId>>, Vec<String>), String>)
    ensures
        match tag_delta(store.tags@, current@, *delta) {
            Ok((ids, labels)) => r matches Ok((v, l)) && opt_ids(v) == ids && l@.map_values(
                |s: String| s@,
            ) == labels,
            Err(e) => r matches Err(m) && m@ == e,
        },
{
    let mut cur = copy_ids(current);
    let mut labels: Vec<String> = Vec::new();
    if let Some(a) = &delta.add_tags {
        let ids = match resolve_tag_list(store, a.as_str()) {
            Ok(ids) => ids,
            Err(e) => {
                return Err(e);
            },
        };
        let ghost base = cur@;
        let mut i: usize = 0;
        while i < ids.len()
            invariant
                i <= ids@.len(),
                cur@ == add_missing(base, ids@.take(i as int)),
            decreases ids@.len() - i,
        {
            proof {
                assert(ids@.take(i as int + 1).drop_last() =~= ids@.take(i as int));
            }
            if !contains_id(&cur, &ids[i]) {
                cur.push(ids[i]);
            }
            i = i + 1;
        }
        proof {
            assert(ids@.take(ids@.len() as int) =~= ids@);
        }
        labels.push("add-tags".to_owned());
    }
    if let Some(rm) = &delta.remove_tags {
        let ids = match resolve_tag_list(store, rm.as_str()) {
            Ok(ids) => ids,
            Err(e) => {
                return Err(e);
            },
        };
        let ghost f = |t: ThingsId| !ids@.contains(t);
        let mut kept: Vec<ThingsId> = Vec::new();
        let mut i: usize = 0;
        while i < cur.len()
            invariant
                i <= cur@.len(),
                f == (|t: ThingsId| !ids@.contains(t)),
                kept@ == cur@.take(i as int).filter(f),
            decreases cur@.len() - i,
        {
            proof {
                assert(cur@.take(i as int + 1) =~= cur@.take(i as int).push(cur@[i as int]));
                cur@.take(i as int).lemma_filter_push(cur@[i as int], f);
            }
            if !contains_id(&ids, &cur[i]) {
                kept.push(cur[i]);
            }
            i = i + 1;
        }
        proof {
            assert(cur@.take(cur@.len() as int) =~= cur@);
        }
        cur = kept;
        labels.push("remove-tags".to_owned());
    }
    proof {
        reveal_strlit("add-tags");
        reveal_strlit("remove-tags");
        assert(labels@.map_values(|s: String| s@) =~= tag_delta(store.tags@, current@, *delta)->Ok_0.1);
    }
    if delta.add_tags.is_some() || delta.remove_tags.is_some() {
        Ok((Some(cur), labels))
    } else {
        Ok((None, labels))
    }
}

/// Labels of a list of strings.
pub open spec fn label_texts(v: Seq<String>) -> Seq<Seq<char>> {
    v.map_values(|s: String| s@)
}

/// Arguments of `areas edit`.
#[derive(Debug)]
pub struct AreasEditArgs {
    /// Area identifier (or unique prefix).
    pub area_id: String,
    /// Replacement title.
    pub title: Option<String>,
    /// Tags to add and remove.
    pub tag_delta: TagDeltaArgs,
}

/// The update of an edited area and the labels the command reports.
#[derive(Debug)]
pub struct AreasEditPlan<'a> {
    pub area: &'a Area,
    pub update: AreaPatch,
    pub labels: Vec<String>,
}

/// The plan `areas edit` makes: the area, its new title and tags, and the
/// labels; or the message that stops it.
pub open spec fn areas_edit_spec(args: AreasEditArgs, store: ThingsStore) -> Result<(Area, Option<Seq<char>>, Option<Seq<ThingsId>>, Seq<Seq<char>>), Seq<char>> {
    let res = resolution_of(store.areas@, |a: Area| true, |a: Area| a.uuid, args.area_id@, "Area"@);
    if res.0 is None {
        Err(res.1)
    } else if args.title matches Some(t) && spec_trim(t@).len() == 0 {
        Err("Area title cannot be empty."@)
    } else {
        let area = res.0->0;
        let title = match args.title {
            Some(t) => Some(spec_trim(t@)),
            None => None,
        };
        let tl = match args.title {
            Some(_) => seq!["title"@],
            None => Seq::empty(),
        };
        match tag_delta(store.tags@, area.tags@, args.tag_delta) {
            Err(e) => Err(e),
            Ok((ids, dl)) => if title is None && ids is None {
                Err("No edit changes requested."@)
            } else {
                Ok((area, title, ids, tl + dl))
            },
        }
    }
}

/// Plans an edit of an area's title and tags.
pub fn build_areas_edit_plan<'a>(args: &AreasEditArgs, store: &'a ThingsStore, now: UtcTime) -> (r: Result<AreasEditPlan<'a>, String>)
    ensures
        match areas_edit_spec(*args, *store) {
            Ok((a, title, ids, labels)) => r matches Ok(plan) && {
                &&& *plan.area == a
                &&& opt_text(plan.update.title) == title
                &&& opt_ids(plan.update.tag_ids) == ids
                &&& plan.update.sort_index is None
                &&& plan.update.modification_date == Some(now)
                &&& label_texts(plan.labels@) == labels
            },
            Err(e) => r matches Err(m) && m@ == e,
        },
{
    let (area, err, _) = store.resolve_area_identifier(args.area_id.as_str());
    let area = match area {
        Some(a) => a,
        None => {
            return Err(err);
        },
    };
    let mut update = AreaPatch::empty();
    let mut labels: Vec<String> = Vec::new();
    if let Some(t) = &args.title {
        let t = trim_str(t.as_str());
        if t.as_str().is_empty() {
            proof {
                reveal_strlit("Area title cannot be empty.");
            }
            return Err("Area title cannot be empty.".to_owned());
        }
        update.title = Some(t);
        labels.push("title".to_owned());
    }
    let (ids, dl) = match apply_tag_delta(store, &area.tags, &args.tag_delta) {
        Ok(x) => x,
        Err(e) => {
            return Err(e);
        },
    };
    update.tag_ids = ids;
    if update.title.is_none() && update.tag_ids.is_none() {
        proof {
            reveal_strlit("No edit changes requested.");
        }
        return Err("No edit changes requested.".to_owned());
    }
    let ghost l0 = labels@;
    let mut dl = dl;
    labels.append(&mut dl);
    update.modification_date = Some(now);
    proof {
        reveal_strlit("title");
        assert(label_texts(labels@) =~= areas_edit_spec(*args, *store)->Ok_0.3);
    }
    Ok(AreasEditPlan { area, update, labels })
}

/// Arguments of `tags edit`.
#[derive(Debug)]
pub struct TagsEditArgs {
    /// Tag title or identifier prefix.
    pub tag_id: String,
    /// Replacement name.
    pub name: Option<String>,
    /// Parent tag (title or prefix), or `clear`.
    pub move_target: Option<String>,
}

/// The update of an edited tag and the labels the command reports.
#[derive(Debug)]
pub struct TagsEditPlan {
    pub tag: Tag,
    pub update: TagPatch,
    pub labels: Vec<String>,
}

/// The plan `tags edit` makes: the tag, its new name and parents, and the
/// labels; or the message that stops it.
pub open spec fn tags_edit_spec(args: TagsEditArgs, store: ThingsStore) -> Result<(Tag, Option<Seq<char>>, Option<Seq<ThingsId>>, Seq<Seq<char>>), Seq<char>> {
    match tag_resolution(store.tags@, args.tag_id@) {
        Err(e) => Err(e),
        Ok(tag) => if args.name matches Some(n) && spec_trim(n@).len() == 0 {
            Err("Tag name cannot be empty."@)
        } else {
            let name = match args.name {
                Some(n) => Some(spec_trim(n@)),
                None => None,
            };
            let nl = match args.name {
                Some(_) => seq!["name"@],
                None => Seq::empty(),
            };
            let mv: Result<Option<(Seq<ThingsId>, Seq<char>)>, Seq<char>> = match args.move_target {
                None => Ok(None),
                Some(m) => {
                    let raw = spec_trim(m@);
                    if lower(raw) == lower("clear"@) {
                        Ok(Some((Seq::empty(), "move=clear"@)))
                    } else {
                        match tag_resolution(store.tags@, raw) {
                            Err(e) => Err(e),
                            Ok(p) => if p.uuid == tag.uuid {
                                Err("A tag cannot be its own parent."@)
                            } else {
                                Ok(Some((seq![p.uuid], "move="@ + raw)))
                            },
                        }
                    }
                },
            };
            match mv {
                Err(e) => Err(e),
                Ok(None) => if name is None {
                    Err("No edit changes requested."@)
                } else {
                    Ok((tag, name, None, nl))
                },
                Ok(Some((parents, label))) => Ok((tag, name, Some(parents), nl.push(label))),
            }
        },
    }
}

/// Plans a rename or reparenting of a tag.
pub fn build_tags_edit_plan(args: &TagsEditArgs, store: &ThingsStore, now: UtcTime) -> (r: Result<TagsEditPlan, String>)
    ensures
        match tags_edit_spec(*args, *store) {
            Ok((t, name, parents, labels)) => r matches Ok(plan) && {
                &&& plan.tag == t
                &&& opt_text(plan.update.title) == name
                &&& opt_ids(plan.update.parent_ids) == parents
                &&& plan.update.shortcut is None
                &&& plan.update.sort_index is None
                &&& plan.update.modification_date == Some(now)
                &&& label_texts(plan.labels@) == labels
            },
            Err(e) => r matches Err(m) && m@ == e,
        },
{
    let (tag, err) = resolve_single_tag(store, args.tag_id.as_str());
    let tag = match tag {
        Some(t) => t,
        None => {
            return Err(err);
        },
    };
    let mut update = TagPatch::empty();
    let mut labels: Vec<String> = Vec::new();
    if let Some(n) = &args.name {
        let n = trim_str(n.as_str());
        if n.as_str().is_empty() {
            proof {
                reveal_strlit("Tag name cannot be empty.");
            }
            return Err("Tag name cannot be empty.".to_owned());
        }
        update.title = Some(n);
        labels.push("name".to_owned());
    }
    if let Some(m) = &args.move_target {
        let raw = trim_str(m.as_str());
        if eq_ignore_ascii_case(raw.as_str(), "clear") {
            let none: Vec<ThingsId> = Vec::new();
            proof {
                assert(none@ =~= Seq::<ThingsId>::empty());
            }
            update.parent_ids = Some(none);
            labels.push("move=clear".to_owned());
        } else {
            let (parent, err) = resolve_single_tag(store, raw.as_str());
            let parent = match parent {
                Some(p) => p,
                None => {
                    return Err(err);
                },
            };
            if parent.uuid.same(&tag.uuid) {
                proof {
                    reveal_strlit("A tag cannot be its own parent.");
                }
                return Err("A tag cannot be its own parent.".to_owned());
            }
            let mut ps: Vec<ThingsId> = Vec::new();
            ps.push(parent.uuid);
            proof {
                assert(ps@ =~= seq![parent.uuid]);
            }
            update.parent_ids = Some(ps);
            labels.push(concat2("move=", raw.as_str()));
        }
    }
    if update.title.is_none() && update.parent_ids.is_none() {
        proof {
            reveal_strlit("No edit changes requested.");
        }
        return Err("No edit changes requested.".to_owned());
    }
    update.modification_date = Some(now);
    proof {
        reveal_strlit("name");
        reveal_strlit("move=clear");
        reveal_strlit("move=");
        assert(label_texts(labels@) =~= tags_edit_spec(*args, *store)->Ok_0.3);
    }
    Ok(TagsEditPlan { tag, update, labels })
}

/// Arguments of `projects edit`.
#[derive(Debug)]
pub struct ProjectsEditArgs {
    /// Project identifier (or unique prefix).
    pub project_id: String,
    /// Replacement title.
    pub title: Option<String>,
    /// Area (identifier or prefix) to move to, or `clear`.
    pub move_target: Option<String>,
    /// Replacement notes (empty clears them).
    pub notes: Option<String>,
    /// Tags to add and remove.
    pub tag_delta: TagDeltaArgs,
}

/// The update of an edited project and the labels the command reports.
#[derive(Debug)]
pub struct ProjectsEditPlan<'a> {
    pub project: &'a Task,
    pub update: TaskPatch,
    pub labels: Vec<String>,
}

/// Whether notes are the cleared structured notes: empty text, checksum 0.
pub open spec fn is_cleared_note(n: TaskNotes) -> bool {
    n matches TaskNotes::Structured(s) && {
        &&& s.object_type matches Some(t) && t@ == "tx"@
        &&& s.format_type == 1
        &&& s.ch == Some(0u32)
        &&& s.v matches Some(v) && v@.len() == 0
        &&& s.ps@.len() == 0
        &&& s.unknown_fields@.len() == 0
    }
}

/// Where `projects edit --move` sends a project: no area (clear) or an area.
pub open spec fn project_move(store: ThingsStore, target: Seq<char>) -> Result<(Seq<ThingsId>, Seq<char>), Seq<char>> {
    let raw = spec_trim(target);
    let ml = spec_to_lowercase(raw);
    if ml == "inbox"@ {
        Err("Projects cannot be moved to Inbox."@)
    } else if ml == "clear"@ {
        Ok((Seq::empty(), "move=clear"@))
    } else {
        let proj = resolution_of(store.tasks@, |x: Task| is_markable(x), |x: Task| x.uuid, raw, "Item"@).0;
        let area = resolution_of(store.areas@, |a: Area| true, |a: Area| a.uuid, raw, "Area"@).0;
        let is_proj = proj is Some && proj->0.item_type == TaskType::Project;
        if is_proj && area is Some {
            Err("Ambiguous --move target '"@ + raw + "' (matches project and area)."@)
        } else if is_proj {
            Err("Projects can only be moved to an area or clear."@)
        } else if area is Some {
            Ok((seq![area->0.uuid], "move="@ + raw))
        } else {
            Err("Container not found: "@ + raw)
        }
    }
}

/// The plan `projects edit` makes: the project, its new title, whether and
/// how its notes change, its new area list and tags, and the labels; or the
/// message that stops it.
pub open spec fn projects_edit_spec(args: ProjectsEditArgs, store: ThingsStore) -> Result<(Task, Option<Seq<char>>, Option<Seq<ThingsId>>, Option<Seq<ThingsId>>, Seq<Seq<char>>), Seq<char>> {
    let res = resolution_of(store.tasks@, |t: Task| is_markable(t), |t: Task| t.uuid, args.project_id@, "Item"@);
    if res.0 is None {
        Err(res.1)
    } else if res.0->0.item_type != TaskType::Project {
        Err("The specified ID is not a project."@)
    } else if args.title matches Some(t) && spec_trim(t@).len() == 0 {
        Err("Project title cannot be empty."@)
    } else {
        let project = res.0->0;
        let title = match args.title {
            Some(t) => Some(spec_trim(t@)),
            None => None,
        };
        let l1 = match args.title {
            Some(_) => seq!["title"@],
            None => Seq::empty(),
        };
        let l2 = match args.notes {
            Some(_) => l1.push("notes"@),
            None => l1,
        };
        let mv: Result<Option<(Seq<ThingsId>, Seq<char>)>, Seq<char>> = match args.move_target {
            None => Ok(None),
            Some(m) => match project_move(store, m@) {
                Ok(x) => Ok(Some(x)),
                Err(e) => Err(e),
            },
        };
        match mv {
            Err(e) => Err(e),
            Ok(mv) => {
                let l3 = match mv {
                    Some((_, label)) => l2.push(label),
                    None => l2,
                };
                let areas = match mv {
                    Some((ids, _)) => Some(ids),
                    None => None,
                };
                match tag_delta(store.tags@, project.tags@, args.tag_delta) {
                    Err(e) => Err(e),
                    Ok((tags, dl)) => if title is None && args.notes is None && areas is None
                        && tags is None {
                        Err("No edit changes requested."@)
                    } else {
                        Ok((project, title, areas, tags, l3 + dl))
                    },
                }
            },
        }
    }
}

/// Plans an edit of a project's title, notes, area and tags.
#[verifier::rlimit(30)]
pub fn build_projects_edit_plan<'a>(args: &ProjectsEditArgs, store: &'a ThingsStore, now: UtcTime) -> (r: Result<ProjectsEditPlan<'a>, String>)
    ensures
        match projects_edit_spec(*args, *store) {
            Ok((p, title, areas, tags, labels)) => r matches Ok(plan) && {
                &&& *plan.project == p
                &&& opt_text(plan.update.title) == title
                &&& match args.notes {
                    None => plan.update.notes is None,
                    Some(n) => plan.update.notes matches Some(x) && if n@.len() == 0 {
                        is_cleared_note(x)
                    } else {
                        is_task6_note(x, n@)
                    },
                }
                &&& opt_ids(plan.update.area_ids) == areas
                &&& opt_ids(plan.update.tag_ids) == tags
                &&& plan.update.modification_date == Some(now)
                &&& label_texts(plan.labels@) == labels
            },
            Err(e) => r matches Err(m) && m@ == e,
        },
{
    let (project, err, _) = store.resolve_mark_identifier(args.project_id.as_str());
    let project = match project {
        Some(p) => p,
        None => {
            return Err(err);
        },
    };
    if !project.is_project() {
        proof {
            reveal_strlit("The specified ID is not a project.");
        }
        return Err("The specified ID is not a project.".to_owned());
    }
    let mut update = TaskPatch::empty();
    let mut labels: Vec<String> = Vec::new();
    if let Some(t) = &args.title {
        let t = trim_str(t.as_str());
        if t.as_str().is_empty() {
            proof {
                reveal_strlit("Project title cannot be empty.");
            }
            return Err("Project title cannot be empty.".to_owned());
        }
        update.title = Some(t);
        labels.push("title".to_owned());
    }
    if let Some(n) = &args.notes {
        if n.as_str().is_empty() {
            update.notes = Some(
                TaskNotes::Structured(
                    StructuredTaskNotes {
                        object_type: Some("tx".to_owned()),
                        format_type: 1,
                        ch: Some(0),
                        v: Some(String::new()),
                        ps: Vec::new(),
                        unknown_fields: Vec::new(),
                    },
                ),
            );
            proof {
                reveal_strlit("tx");
            }
        } else {
            update.notes = Some(task6_note(n.as_str()));
        }
        labels.push("notes".to_owned());
    }
    if let Some(m) = &args.move_target {
        let (ids, label) = match move_project(store, m.as_str()) {
            Ok(x) => x,
            Err(e) => {
                return Err(e);
            },
        };
        update.area_ids = Some(ids);
        labels.push(label);
    }
    let (tags, dl) = match apply_tag_delta(store, &project.tags, &args.tag_delta) {
        Ok(x) => x,
        Err(e) => {
            return Err(e);
        },
    };
    update.tag_ids = tags;
    if update.title.is_none() && update.notes.is_none() && update.area_ids.is_none()
        && update.tag_ids.is_none() {
        proof {
            reveal_strlit("No edit changes requested.");
        }
        return Err("No edit changes requested.".to_owned());
    }
    let mut dl = dl;
    labels.append(&mut dl);
    update.modification_date = Some(now);
    proof {
        reveal_strlit("title");
        reveal_strlit("notes");
        assert(label_texts(labels@) =~= projects_edit_spec(*args, *store)->Ok_0.4);
    }
    Ok(ProjectsEditPlan { project, update, labels })
}

fn move_project(store: &ThingsStore, target: &str) -> (r: Result<(Vec<ThingsId>, String), String>)
    ensures
        match project_move(*store, target@) {
            Ok((ids, label)) => r matches Ok((v, l)) && v@ == ids && l@ == label,
            Err(e) => r matches Err(m) && m@ == e,
        },
{
    let raw = trim_str(target);
    let ml = to_lowercase(raw.as_str());
    proof {
        reveal_strlit("Projects cannot be moved to Inbox.");
        reveal_strlit("move=clear");
        reveal_strlit("move=");
        reveal_strlit("Ambiguous --move target '");
        reveal_strlit("' (matches project and area).");
        reveal_strlit("Projects can only be moved to an area or clear.");
        reveal_strlit("Container not found: ");
    }
    if str_eq(ml.as_str(), "inbox") {
        return Err("Projects cannot be moved to Inbox.".to_owned());
    }
    if str_eq(ml.as_str(), "clear") {
        let none: Vec<ThingsId> = Vec::new();
        proof {
            assert(none@ =~= Seq::<ThingsId>::empty());
        }
        return Ok((none, "move=clear".to_owned()));
    }
    let (proj, _, _) = store.resolve_mark_identifier(raw.as_str());
    let (area, _, _) = store.resolve_area_identifier(raw.as_str());
    let is_proj = match proj {
        Some(p) => p.is_project(),
        None => false,
    };
    if is_proj && area.is_some() {
        return Err(concat3("Ambiguous --move target '", raw.as_str(), "' (matches project and area)."));
    }
    if is_proj {
        return Err("Projects can only be moved to an area or clear.".to_owned());
    }
    match area {
        Some(a) => {
            let mut ids: Vec<ThingsId> = Vec::new();
            ids.push(a.uuid);
            proof {
                assert(ids@ =~= seq![a.uuid]);
            }
            Ok((ids, concat2("move=", raw.as_str())))
        },
        None => Err(concat2("Container not found: ", raw.as_str())),
    }
}

} // verus!
