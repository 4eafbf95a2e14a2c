//! Planning the creation of projects, areas and tags, and tag deletion.
use vstd::prelude::*;

use crate::commands::lists::set_prop;
use crate::commands::new_task::{notes_prop_ok, EMPTY_CONFLICTS};
use crate::common::{day_reading, list_tokens, parse_day, resolve_all, resolve_single_tag, resolve_tag_list, tag_resolution, task6_note};
use crate::ids::things_id::ThingsId;
use crate::store::model::{Area, Tag};
use crate::store::queries::resolution_of;
use crate::store::things_store::ThingsStore;
use crate::text::{spec_to_lowercase, spec_trim, str_eq, to_lowercase, trim_str};
use crate::time::UtcTime;
use crate::wire::codes::OperationType;
use crate::wire::entity::EntityType;
use crate::wire::value::{PropMap, PropValue, PropView};
use crate::wire::wire_object::{Properties, WireObject};

verus! {

/// Arguments of `projects new`.
#[derive(Debug)]
pub struct ProjectsNewArgs {
    /// Project title.
    pub title: String,
    /// Area identifier (or prefix) to place the project in.
    pub area: Option<String>,
    /// Schedule: anytime (default), someday, today, or `YYYY-MM-DD`.
    pub when: Option<String>,
    /// Project notes.
    pub notes: String,
    /// Comma-separated tags (titles or id prefixes).
    pub tags: Option<String>,
    /// Deadline date (`YYYY-MM-DD`).
    pub deadline_date: Option<String>,
}

/// Arguments of `areas new`.
#[derive(Debug)]
pub struct AreasNewArgs {
    /// Area title.
    pub title: String,
    /// Comma-separated tags (titles or id prefixes).
    pub tags: Option<String>,
}

/// Arguments of `tags new`.
#[derive(Debug)]
pub struct TagsNewArgs {
    /// Tag title.
    pub name: String,
    /// Parent tag title or id prefix.
    pub parent: Option<String>,
}

/// Arguments of `tags delete`.
#[derive(Debug)]
pub struct TagsDeleteArgs {
    /// Tag title or id prefix.
    pub tag_id: String,
}

/// The creation of one entity: its new identifier, the create operation,
/// and the title the command reports.
#[derive(Debug)]
pub struct CreatePlan {
    pub new_uuid: String,
    pub object: WireObject,
    pub title: String,
}

/// The properties of a fresh project (notes aside).
pub open spec fn project_base(title: Seq<char>, now: UtcTime) -> Map<Seq<char>, PropView> {
    Map::empty().insert("tt"@, PropView::Text(title)).insert("tp"@, PropView::Int(1)).insert(
        "ss"@,
        PropView::Int(0),
    ).insert("st"@, PropView::Int(1)).insert("tr"@, PropView::Bool(false)).insert(
        "cd"@,
        PropView::Time(now),
    ).insert("md"@, PropView::Time(now)).insert("nt"@, PropView::Null).insert(
        "xx"@,
        PropView::Json(EMPTY_CONFLICTS@),
    ).insert("icp"@, PropView::Bool(true)).insert("rmd"@, PropView::Null).insert("rp"@, PropView::Null)
}

/// The properties a project's `--when` sets: anytime and someday clear the
/// start day, today and a date set it (and the Today reference); a date
/// goes to Someday.
pub open spec fn project_when(m: Map<Seq<char>, PropView>, when: Seq<char>, today_ts: i64, offset: i32) -> Result<
    Map<Seq<char>, PropView>,
    Seq<char>,
> {
    let wl = spec_to_lowercase(spec_trim(when));
    if wl == "anytime"@ {
        Ok(m.insert("st"@, PropView::Int(1)).insert("sr"@, PropView::Null))
    } else if wl == "someday"@ {
        Ok(m.insert("st"@, PropView::Int(2)).insert("sr"@, PropView::Null))
    } else if wl == "today"@ {
        Ok(m.insert("st"@, PropView::Int(1)).insert("sr"@, PropView::Int(today_ts)).insert("tir"@, PropView::Int(today_ts)))
    } else {
        match day_reading(when, "--when"@, offset) {
            Err(e) => Err(e),
            Ok(t) => Ok(m.insert("st"@, PropView::Int(2)).insert("sr"@, PropView::Int(t.secs)).insert("tir"@, PropView::Int(t.secs))),
        }
    }
}

/// The properties of a new project (notes aside), or the first message
/// that stops it: an empty title, an unresolved area, an unreadable
/// `--when`, an unknown tag, an unreadable deadline.
pub open spec fn project_settled(
    args: ProjectsNewArgs,
    store: ThingsStore,
    now: UtcTime,
    today_ts: i64,
    offset: i32,
) -> Result<Map<Seq<char>, PropView>, Seq<char>> {
    let title = spec_trim(args.title@);
    let ar: Result<Option<Area>, Seq<char>> = match args.area {
        None => Ok(None),
        Some(a) => {
            let r = resolution_of(store.areas@, |x: Area| true, |x: Area| x.uuid, a@, "Area"@);
            match r.0 {
                None => Err(r.1),
                Some(area) => Ok(Some(area)),
            }
        },
    };
    if title.len() == 0 {
        Err("Project title cannot be empty."@)
    } else {
        match ar {
            Err(e) => Err(e),
            Ok(ar) => {
                let m1 = match ar {
                    None => project_base(title, now),
                    Some(area) => project_base(title, now).insert("ar"@, PropView::Ids(seq![area.uuid])),
                };
                let m2 = match args.when {
                    None => Ok(m1),
                    Some(w) => project_when(m1, w@, today_ts, offset),
                };
                match m2 {
                    Err(e) => Err(e),
                    Ok(m2) => {
                        let m3 = match args.tags {
                            None => Ok(m2),
                            Some(t) => match resolve_all(store.tags@, list_tokens(t@)) {
                                Err(e) => Err(e),
                                Ok(ids) => Ok(m2.insert("tg"@, PropView::Ids(ids))),
                            },
                        };
                        match m3 {
                            Err(e) => Err(e),
                            Ok(m3) => match args.deadline_date {
                                None => Ok(m3),
                                Some(d) => match day_reading(d@, "--deadline"@, offset) {
                                    Err(e) => Err(e),
                                    Ok(t) => Ok(m3.insert("dd"@, PropView::Int(t.secs))),
                                },
                            },
                        }
                    },
                }
            },
        }
    }
}

/// Whether a plan creates a `kind` entity under `new_id`, reporting
/// `title`, with properties `props` once its notes are set aside.
pub open spec fn creates(plan: CreatePlan, kind: EntityType, new_id: Seq<char>, title: Seq<char>, props: Map<Seq<char>, PropView>) -> bool {
    &&& plan.new_uuid@ == new_id
    &&& plan.title@ == title
    &&& plan.object.operation_type == OperationType::Create
    &&& plan.object.entity_type == Some(kind)
    &&& plan.object.payload matches Properties::Unknown(p) && p.wf() && p.values().remove("nt"@) == props.remove("nt"@)
}

/// Whether a plan's notes property holds the structured notes of `notes`
/// (or nothing when `notes` is empty).
pub open spec fn plan_notes_ok(plan: CreatePlan, notes: Seq<char>) -> bool {
    plan.object.payload matches Properties::Unknown(p) && notes_prop_ok(p.values(), notes)
}

fn ids_prop(id: ThingsId) -> (r: PropValue)
    ensures
        r@ == PropView::Ids(seq![id]),
{
    let mut ids: Vec<ThingsId> = Vec::new();
    ids.push(id);
    proof {
        assert(ids@ =~= seq![id]);
    }
    PropValue::Ids(ids)
}

fn project_when_props(props: &mut PropMap, when: &str, today_ts: i64, offset: i32) -> (r: Result<(), String>)
    requires
        old(props).wf(),
    ensures
        final(props).wf(),
        match project_when(old(props).values(), when@, today_ts, offset) {
            Ok(m) => r is Ok && final(props).values() == m,
            Err(e) => r matches Err(x) && x@ == e,
        },
{
    let wl = to_lowercase(trim_str(when).as_str());
    if str_eq(wl.as_str(), "anytime") {
        set_prop(props, "st", PropValue::Int(1));
        set_prop(props, "sr", PropValue::Null);
        return Ok(());
    }
    if str_eq(wl.as_str(), "someday") {
        set_prop(props, "st", PropValue::Int(2));
        set_prop(props, "sr", PropValue::Null);
        return Ok(());
    }
    if str_eq(wl.as_str(), "today") {
        set_prop(props, "st", PropValue::Int(1));
        set_prop(props, "sr", PropValue::Int(today_ts));
        set_prop(props, "tir", PropValue::Int(today_ts));
        return Ok(());
    }
    match parse_day(Some(when), "--when", offset) {
        Err(e) => Err(e),
        Ok(None) => Err(String::new()),
        Ok(Some(t)) => {
            set_prop(props, "st", PropValue::Int(2));
            set_prop(props, "sr", PropValue::Int(t.secs));
            set_prop(props, "tir", PropValue::Int(t.secs));
            Ok(())
        },
    }
}

/// Plans the creation of a project under the identifier `new_id`, created
/// at `now`; `today_ts` is the start of today and `offset` the local zone's
/// offset in seconds east of UTC.
pub fn build_project_create(
    args: &ProjectsNewArgs,
    store: &ThingsStore,
    now: UtcTime,
    today_ts: i64,
    offset: i32,
    new_id: String,
) -> (r: Result<CreatePlan, String>)
    ensures
        match project_settled(*args, *store, now, today_ts, offset) {
            Err(e) => r matches Err(m) && m@ == e,
            Ok(m) => r matches Ok(plan) && (creates(plan, EntityType::Task6, new_id@, spec_trim(args.title@), m)
                && plan_notes_ok(plan, args.notes@)),
        },
{
    proof {
        reveal_strlit("nt");
        reveal_strlit("ar");
        reveal_strlit("st");
        reveal_strlit("sr");
        reveal_strlit("tir");
        reveal_strlit("tg");
        reveal_strlit("dd");
        assert("ar"@[0] != "nt"@[0]);
        assert("st"@[0] != "nt"@[0]);
        assert("sr"@[0] != "nt"@[0]);
        assert("tir"@[0] != "nt"@[0]);
        assert("tg"@[0] != "nt"@[0]);
        assert("dd"@[0] != "nt"@[0]);
    }
    let title = trim_str(args.title.as_str());
    if title.as_str().is_empty() {
        proof {
            reveal_strlit("Project title cannot be empty.");
        }
        return Err("Project title cannot be empty.".to_owned());
    }
    let mut props = PropMap::new();
    set_prop(&mut props, "tt", PropValue::Text(title.clone()));
    set_prop(&mut props, "tp", PropValue::Int(1));
    set_prop(&mut props, "ss", PropValue::Int(0));
    set_prop(&mut props, "st", PropValue::Int(1));
    set_prop(&mut props, "tr", PropValue::Bool(false));
    set_prop(&mut props, "cd", PropValue::Time(now));
    set_prop(&mut props, "md", PropValue::Time(now));
    if args.notes.as_str().is_empty() {
        set_prop(&mut props, "nt", PropValue::Null);
    } else {
        set_prop(&mut props, "nt", PropValue::Notes(task6_note(args.notes.as_str())));
    }
    set_prop(&mut props, "xx", PropValue::Json(EMPTY_CONFLICTS.to_owned()));
    set_prop(&mut props, "icp", PropValue::Bool(true));
    set_prop(&mut props, "rmd", PropValue::Null);
    set_prop(&mut props, "rp", PropValue::Null);
    let ghost mut exp = project_base(title@, now);
    proof {
        reveal_strlit("xx");
        reveal_strlit("icp");
        reveal_strlit("rmd");
        reveal_strlit("rp");
        assert("xx"@[0] != "nt"@[0]);
        assert("icp"@[0] != "nt"@[0]);
        assert("rmd"@[0] != "nt"@[0]);
        assert("rp"@[0] != "nt"@[0]);
        assert(props.values().remove("nt"@) =~= exp.remove("nt"@));
        assert(notes_prop_ok(props.values(), args.notes@));
    }
    let ghost ntv = props.values()["nt"@];
    if let Some(a) = &args.area {
        let (area, err, _) = store.resolve_area_identifier(a.as_str());
        match area {
            None => {
                return Err(err);
            },
            Some(area) => {
                set_prop(&mut props, "ar", ids_prop(area.uuid));
                proof {
                    exp = exp.insert("ar"@, PropView::Ids(seq![area.uuid]));
                }
            },
        }
    }
    proof {
        assert(props.values().remove("nt"@) =~= exp.remove("nt"@));
        assert(props.values()["nt"@] == ntv);
    }
    if let Some(w) = &args.when {
        let ghost before = props.values();
        match project_when_props(&mut props, w.as_str(), today_ts, offset) {
            Err(e) => {
                return Err(e);
            },
            Ok(()) => {},
        }
        proof {
            exp = project_when(exp, w@, today_ts, offset)->Ok_0;
            assert(props.values().remove("nt"@) =~= exp.remove("nt"@));
            assert(props.values()["nt"@] == ntv);
        }
    }
    if let Some(tags) = &args.tags {
        match resolve_tag_list(store, tags.as_str()) {
            Err(e) => {
                return Err(e);
            },
            Ok(ids) => {
                let ghost iv = ids@;
                set_prop(&mut props, "tg", PropValue::Ids(ids));
                proof {
                    exp = exp.insert("tg"@, PropView::Ids(iv));
                    assert(props.values().remove("nt"@) =~= exp.remove("nt"@));
                }
            },
        }
    }
    if let Some(d) = &args.deadline_date {
        match parse_day(Some(d.as_str()), "--deadline", offset) {
            Err(e) => {
                return Err(e);
            },
            Ok(None) => {
                return Err(String::new());
            },
            Ok(Some(t)) => {
                set_prop(&mut props, "dd", PropValue::Int(t.secs));
                proof {
                    exp = exp.insert("dd"@, PropView::Int(t.secs));
                    assert(props.values().remove("nt"@) =~= exp.remove("nt"@));
                }
            },
        }
    }
    proof {
        assert(props.values()["nt"@] == ntv);
    }
    Ok(CreatePlan { new_uuid: new_id, object: WireObject::create(EntityType::Task6, Properties::Unknown(props)), title })
}

/// The properties of a new area, or the message that stops it: an empty
/// title or an unknown tag.
pub open spec fn area_settled(args: AreasNewArgs, store: ThingsStore, now: UtcTime) -> Result<Map<Seq<char>, PropView>, Seq<char>> {
    let title = spec_trim(args.title@);
    let m = Map::empty().insert("tt"@, PropView::Text(title)).insert("ix"@, PropView::Int(0)).insert(
        "xx"@,
        PropView::Json(EMPTY_CONFLICTS@),
    ).insert("cd"@, PropView::Time(now)).insert("md"@, PropView::Time(now));
    if title.len() == 0 {
        Err("Area title cannot be empty."@)
    } else {
        match args.tags {
            None => Ok(m),
            Some(t) => match resolve_all(store.tags@, list_tokens(t@)) {
                Err(e) => Err(e),
                Ok(ids) => Ok(m.insert("tg"@, PropView::Ids(ids))),
            },
        }
    }
}

/// Whether a plan's properties are exactly `props`.
pub open spec fn plan_props(plan: CreatePlan, props: Map<Seq<char>, PropView>) -> bool {
    plan.object.payload matches Properties::Unknown(p) && p.wf() && p.values() == props
}

/// Plans the creation of an area under the identifier `new_id`, created at
/// `now`.
pub fn build_area_create(args: &AreasNewArgs, store: &ThingsStore, now: UtcTime, new_id: String) -> (r: Result<
    CreatePlan,
    String,
>)
    ensures
        match area_settled(*args, *store, now) {
            Err(e) => r matches Err(m) && m@ == e,
            Ok(m) => r matches Ok(plan) && (creates(plan, EntityType::Area3, new_id@, spec_trim(args.title@), m)
                && plan_props(plan, m)),
        },
{
    let title = trim_str(args.title.as_str());
    if title.as_str().is_empty() {
        proof {
            reveal_strlit("Area title cannot be empty.");
        }
        return Err("Area title cannot be empty.".to_owned());
    }
    let mut props = PropMap::new();
    set_prop(&mut props, "tt", PropValue::Text(title.clone()));
    set_prop(&mut props, "ix", PropValue::Int(0));
    set_prop(&mut props, "xx", PropValue::Json(EMPTY_CONFLICTS.to_owned()));
    set_prop(&mut props, "cd", PropValue::Time(now));
    set_prop(&mut props, "md", PropValue::Time(now));
    proof {
        assert(props.values() =~= Map::empty().insert("tt"@, PropView::Text(title@)).insert("ix"@, PropView::Int(0)).insert(
            "xx"@,
            PropView::Json(EMPTY_CONFLICTS@),
        ).insert("cd"@, PropView::Time(now)).insert("md"@, PropView::Time(now)));
    }
    if let Some(tags) = &args.tags {
        match resolve_tag_list(store, tags.as_str()) {
            Err(e) => {
                return Err(e);
            },
            Ok(ids) => {
                set_prop(&mut props, "tg", PropValue::Ids(ids));
            },
        }
    }
    Ok(CreatePlan { new_uuid: new_id, object: WireObject::create(EntityType::Area3, Properties::Unknown(props)), title })
}

/// The properties of a new tag, or the message that stops it: an empty
/// name or a parent that does not resolve.
pub open spec fn tag_settled(args: TagsNewArgs, store: ThingsStore) -> Result<Map<Seq<char>, PropView>, Seq<char>> {
    let name = spec_trim(args.name@);
    let m = Map::empty().insert("tt"@, PropView::Text(name)).insert("ix"@, PropView::Int(0)).insert(
        "xx"@,
        PropView::Json(EMPTY_CONFLICTS@),
    );
    if name.len() == 0 {
        Err("Tag name cannot be empty."@)
    } else {
        match args.parent {
            None => Ok(m),
            Some(p) => match tag_resolution(store.tags@, p@) {
                Err(e) => Err(e),
                Ok(t) => Ok(m.insert("pn"@, PropView::Ids(seq![t.uuid]))),
            },
        }
    }
}

/// Plans the creation of a tag under the identifier `new_id`.
pub fn build_tag_create(args: &TagsNewArgs, store: &ThingsStore, new_id: String) -> (r: Result<CreatePlan, String>)
    ensures
        match tag_settled(*args, *store) {
            Err(e) => r matches Err(m) && m@ == e,
            Ok(m) => r matches Ok(plan) && (creates(plan, EntityType::Tag4, new_id@, spec_trim(args.name@), m)
                && plan_props(plan, m)),
        },
{
    let name = trim_str(args.name.as_str());
    if name.as_str().is_empty() {
        proof {
            reveal_strlit("Tag name cannot be empty.");
        }
        return Err("Tag name cannot be empty.".to_owned());
    }
    let mut props = PropMap::new();
    set_prop(&mut props, "tt", PropValue::Text(name.clone()));
    set_prop(&mut props, "ix", PropValue::Int(0));
    set_prop(&mut props, "xx", PropValue::Json(EMPTY_CONFLICTS.to_owned()));
    proof {
        assert(props.values() =~= Map::empty().insert("tt"@, PropView::Text(name@)).insert("ix"@, PropView::Int(0)).insert(
            "xx"@,
            PropView::Json(EMPTY_CONFLICTS@),
        ));
    }
    if let Some(p) = &args.parent {
        let (parent, err) = resolve_single_tag(store, p.as_str());
        match parent {
            None => {
                return Err(err);
            },
            Some(t) => {
                set_prop(&mut props, "pn", ids_prop(t.uuid));
            },
        }
    }
    Ok(CreatePlan { new_uuid: new_id, object: WireObject::create(EntityType::Tag4, Properties::Unknown(props)), title: name })
}

/// The deletion of a tag: the tag and the delete operation keyed by its
/// identifier.
#[derive(Debug)]
pub struct TagDeletePlan {
    pub tag: Tag,
    pub object: WireObject,
}

/// Plans the deletion of the tag that a title or id prefix names.
pub fn build_tag_delete(args: &TagsDeleteArgs, store: &ThingsStore) -> (r: Result<TagDeletePlan, String>)
    ensures
        match tag_resolution(store.tags@, args.tag_id@) {
            Err(e) => r matches Err(m) && m@ == e,
            Ok(t) => r matches Ok(plan) && plan.tag == t && plan.object.operation_type
                == OperationType::Delete && plan.object.entity_type == Some(EntityType::Tag4)
                && plan.object.payload is Delete,
        },
{
    let (tag, err) = resolve_single_tag(store, args.tag_id.as_str());
    match tag {
        None => Err(err),
        Some(t) => Ok(TagDeletePlan { tag: t, object: WireObject::delete(EntityType::Tag4) }),
    }
}

} // verus!
