//! Shared helpers of the commands: colors, tag resolution, notes, days.
use vstd::prelude::*;
use vstd::string::StringSliceAdditionalSpecFns;

use crate::ids::things_id::{id_chars, ThingsId};
use crate::store::model::Tag;
use crate::store::queries::{blank, is_blank};
use crate::store::things_store::ThingsStore;
use crate::text::{
    chars_of, concat2, concat3, concat_all, eq_ignore_ascii_case, lower, push_chars, spec_trim,
    str_starts_with, string_from_chars, trim_str,
};
use crate::time::{spec_chrono_timestamp_ok, UtcTime};
use crate::wire::notes::{StructuredTaskNotes, TaskNotes};

verus! {

pub const RESET: &'static str = "\x1b[0m";

pub const BOLD: &'static str = "\x1b[1m";

pub const DIM: &'static str = "\x1b[2m";

pub const CYAN: &'static str = "\x1b[36m";

pub const YELLOW: &'static str = "\x1b[33m";

pub const GREEN: &'static str = "\x1b[32m";

pub const BLUE: &'static str = "\x1b[34m";

pub const MAGENTA: &'static str = "\x1b[35m";

pub const RED: &'static str = "\x1b[31m";

/// The glyphs the views draw with.
#[derive(Debug, Clone, Copy)]
pub struct Icons {
    pub task_open: &'static str,
    pub task_done: &'static str,
    pub task_someday: &'static str,
    pub task_canceled: &'static str,
    pub evening: &'static str,
    pub today: &'static str,
    pub today_staged: &'static str,
    pub project: &'static str,
    pub area: &'static str,
    pub tag: &'static str,
    pub inbox: &'static str,
    pub anytime: &'static str,
    pub upcoming: &'static str,
    pub progress_empty: &'static str,
    pub progress_quarter: &'static str,
    pub progress_half: &'static str,
    pub progress_three_quarter: &'static str,
    pub progress_full: &'static str,
    pub deadline: &'static str,
    pub done: &'static str,
    pub incomplete: &'static str,
    pub canceled: &'static str,
    pub deleted: &'static str,
    pub checklist_open: &'static str,
    pub checklist_done: &'static str,
    pub checklist_canceled: &'static str,
    pub separator: &'static str,
    pub divider: &'static str,
}

/// `text` wrapped in the given terminal codes and a reset, or bare when
/// colors are off.
pub fn colored(text: &str, codes: &[&str], no_color: bool) -> (r: String)
    ensures
        r@ == if no_color {
            text@
        } else {
            concat_all(codes@.map_values(|c: &str| c@)) + text@ + RESET@
        },
{
    if no_color {
        return text.to_owned();
    }
    let ghost cs = codes@.map_values(|c: &str| c@);
    let mut out: Vec<char> = Vec::new();
    let mut i: usize = 0;
    while i < codes.len()
        invariant
            i <= codes@.len(),
            cs == codes@.map_values(|c: &str| c@),
            out@ == concat_all(cs.take(i as int)),
        decreases codes@.len() - i,
    {
        push_chars(&mut out, codes[i]);
        proof {
            assert(cs.take(i as int + 1).drop_last() =~= cs.take(i as int));
        }
        i = i + 1;
    }
    proof {
        assert(cs.take(codes@.len() as int) =~= cs);
    }
    push_chars(&mut out, text);
    push_chars(&mut out, RESET);
    string_from_chars(&out)
}

/// The named CRC-32 (IEEE) checksum of a text's UTF-8 bytes.
pub uninterp spec fn spec_crc32(text: Seq<char>) -> u32;

/// `crc32fast::hash` over the UTF-8 bytes of a text: its CRC-32 checksum,
/// which the name stands for.
#[verifier::external_body]
fn crc32(text: &str) -> (r: u32)
    ensures
        r == spec_crc32(text@),
{
    crc32fast::hash(text.as_bytes())
}

/// Whether notes are the structured single text `value` with its checksum.
pub open spec fn is_task6_note(n: TaskNotes, value: Seq<char>) -> bool {
    n matches TaskNotes::Structured(s) && {
        &&& s.object_type matches Some(t) && t@ == "tx"@
        &&& s.format_type == 1
        &&& s.ch == Some(spec_crc32(value))
        &&& s.v matches Some(v) && v@ == value
        &&& s.ps@.len() == 0
        &&& s.unknown_fields@.len() == 0
    }
}

/// Structured single-text notes (`_t: "tx"`, format 1) holding `value`,
/// with its CRC-32 checksum.
pub fn task6_note(value: &str) -> (r: TaskNotes)
    ensures
        r matches TaskNotes::Structured(n) && {
            &&& n.object_type matches Some(t) && t@ == "tx"@
            &&& n.format_type == 1
            &&& n.ch == Some(spec_crc32(value@))
            &&& n.v matches Some(v) && v@ == value@
            &&& n.ps@.len() == 0
            &&& n.unknown_fields@.len() == 0
        },
{
    let checksum = crc32(value);
    TaskNotes::Structured(
        StructuredTaskNotes {
            object_type: Some("tx".to_owned()),
            format_type: 1,
            ch: Some(checksum),
            v: Some(value.to_owned()),
            ps: Vec::new(),
            unknown_fields: Vec::new(),
        },
    )
}

/// How a tag identifier resolves among the titled tags: a unique title
/// (ignoring ASCII case) first, then a unique id prefix.
pub open spec fn tag_resolution(tags: Seq<Tag>, identifier: Seq<char>) -> Result<Tag, Seq<char>> {
    let id = spec_trim(identifier);
    let titled = tags.filter(|t: Tag| !is_blank(t.title@));
    let exact = titled.filter(|t: Tag| lower(t.title@) == lower(id));
    let prefix = titled.filter(|t: Tag| id.is_prefix_of(id_chars(t.uuid)));
    if exact.len() == 1 {
        Ok(exact[0])
    } else if exact.len() > 1 {
        Err("Ambiguous tag title: "@ + id)
    } else if prefix.len() == 1 {
        Ok(prefix[0])
    } else if prefix.len() > 1 {
        Err("Ambiguous tag UUID prefix: "@ + id)
    } else {
        Err("Tag not found: "@ + id)
    }
}

fn copy_tag(t: &Tag) -> (r: Tag)
    ensures
        r == *t,
{
    Tag {
        uuid: t.uuid,
        title: t.title.clone(),
        shortcut: match &t.shortcut {
            Some(s) => Some(s.clone()),
            None => None,
        },
        index: t.index,
        parent_uuid: t.parent_uuid,
    }
}

/// Resolves one tag by title (ignoring ASCII case) or id prefix; the
/// message says why none was found.
pub fn resolve_single_tag(store: &ThingsStore, identifier: &str) -> (r: (Option<Tag>, String))
    ensures
        match tag_resolution(store.tags@, identifier@) {
            Ok(t) => r.0 == Some(t) && r.1@.len() == 0,
            Err(e) => r.0 is None && r.1@ == e,
        },
{
    let id = trim_str(identifier);
    let ghost ids = id@;
    let ghost titled_f = |t: Tag| !is_blank(t.title@);
    let ghost exact_f = |t: Tag| lower(t.title@) == lower(ids);
    let ghost prefix_f = |t: Tag| ids.is_prefix_of(id_chars(t.uuid));
    let ghost tags = store.tags@;
    let mut exact: Vec<&Tag> = Vec::new();
    let mut prefix: Vec<&Tag> = Vec::new();
    let mut i: usize = 0;
    while i < store.tags.len()
        invariant
            tags == store.tags@,
            i <= tags.len(),
            ids == id@,
            titled_f == (|t: Tag| !is_blank(t.title@)),
            exact_f == (|t: Tag| lower(t.title@) == lower(ids)),
            prefix_f == (|t: Tag| ids.is_prefix_of(id_chars(t.uuid))),
            exact@.map_values(|t: &Tag| *t) == tags.take(i as int).filter(titled_f).filter(exact_f),
            prefix@.map_values(|t: &Tag| *t) == tags.take(i as int).filter(titled_f).filter(prefix_f),
        decreases tags.len() - i,
    {
        let t = &store.tags[i];
        proof {
            assert(tags.take(i as int + 1) =~= tags.take(i as int).push(*t));
            tags.take(i as int).lemma_filter_push(*t, titled_f);
            tags.take(i as int).filter(titled_f).lemma_filter_push(*t, exact_f);
            tags.take(i as int).filter(titled_f).lemma_filter_push(*t, prefix_f);
        }
        if !blank(&t.title) {
            if eq_ignore_ascii_case(t.title.as_str(), id.as_str()) {
                exact.push(t);
            }
            let text = t.uuid.to_string();
            if str_starts_with(text.as_str(), id.as_str()) {
                prefix.push(t);
            }
        }
        i = i + 1;
        proof {
            assert(exact@.map_values(|t: &Tag| *t) =~= tags.take(i as int).filter(titled_f).filter(exact_f));
            assert(prefix@.map_values(|t: &Tag| *t) =~= tags.take(i as int).filter(titled_f).filter(prefix_f));
        }
    }
    proof {
        assert(tags.take(tags.len() as int) =~= tags);
        reveal_strlit("Ambiguous tag title: ");
        reveal_strlit("Ambiguous tag UUID prefix: ");
        reveal_strlit("Tag not found: ");
        assert(exact@.len() == exact@.map_values(|t: &Tag| *t).len());
        assert(prefix@.len() == prefix@.map_values(|t: &Tag| *t).len());
    }
    if exact.len() == 1 {
        proof {
            assert(exact@.map_values(|t: &Tag| *t)[0] == *exact@[0]);
        }
        return (Some(copy_tag(exact[0])), String::new());
    }
    if exact.len() > 1 {
        return (None, concat2("Ambiguous tag title: ", id.as_str()));
    }
    if prefix.len() == 1 {
        proof {
            assert(prefix@.map_values(|t: &Tag| *t)[0] == *prefix@[0]);
        }
        return (Some(copy_tag(prefix[0])), String::new());
    }
    if prefix.len() > 1 {
        return (None, concat2("Ambiguous tag UUID prefix: ", id.as_str()));
    }
    (None, concat2("Tag not found: ", id.as_str()))
}

/// The pieces of a text between separators (one piece when there is none).
pub open spec fn split_on(s: Seq<char>, sep: char) -> Seq<Seq<char>>
    decreases s.len(),
{
    if s.len() == 0 {
        seq![Seq::<char>::empty()]
    } else {
        let rest = split_on(s.drop_last(), sep);
        if s.last() == sep {
            rest.push(Seq::<char>::empty())
        } else {
            rest.update(rest.len() - 1, rest.last().push(s.last()))
        }
    }
}

proof fn lemma_split_nonempty(s: Seq<char>, sep: char)
    ensures
        split_on(s, sep).len() >= 1,
    decreases s.len(),
{
    if s.len() > 0 {
        lemma_split_nonempty(s.drop_last(), sep);
    }
}

/// The texts of a list of strings.
pub open spec fn str_views(v: Seq<String>) -> Seq<Seq<char>> {
    v.map_values(|t: String| t@)
}

/// The trimmed, non-empty pieces of a comma-separated list.
pub open spec fn list_tokens(s: Seq<char>) -> Seq<Seq<char>> {
    split_on(s, ',').map_values(|p: Seq<char>| spec_trim(p)).filter(|p: Seq<char>| p.len() > 0)
}

/// The trimmed, non-empty pieces of a comma-separated list.
pub fn split_list(raw: &str) -> (r: Vec<String>)
    ensures
        str_views(r@) == list_tokens(raw@),
{
    let cs = chars_of(raw);
    let ghost tr = |p: Seq<char>| spec_trim(p);
    let ghost ne = |p: Seq<char>| p.len() > 0;
    let ghost mut pieces: Seq<Seq<char>> = Seq::empty();
    let mut out: Vec<String> = Vec::new();
    let mut cur: Vec<char> = Vec::new();
    let mut i: usize = 0;
    while i < cs.len()
        invariant
            cs@ == raw@,
            i <= cs@.len(),
            tr == (|p: Seq<char>| spec_trim(p)),
            ne == (|p: Seq<char>| p.len() > 0),
            split_on(raw@.take(i as int), ',') == pieces.push(cur@),
            str_views(out@) == pieces.map_values(tr).filter(ne),
        decreases cs@.len() - i,
    {
        let c = cs[i];
        proof {
            assert(raw@.take(i as int + 1).drop_last() =~= raw@.take(i as int));
            assert(raw@.take(i as int + 1).last() == c);
        }
        if c == ',' {
            let piece = string_from_chars(&cur);
            let t = trim_str(piece.as_str());
            proof {
                assert(pieces.push(cur@).map_values(tr) =~= pieces.map_values(tr).push(spec_trim(cur@)));
                pieces.map_values(tr).lemma_filter_push(spec_trim(cur@), ne);
                pieces = pieces.push(cur@);
            }
            if t.as_str().is_empty() {
            } else {
                out.push(t);
            }
            cur = Vec::new();
            proof {
                assert(str_views(out@) =~= pieces.map_values(tr).filter(ne));
                assert(split_on(raw@.take(i as int + 1), ',') =~= pieces.push(cur@));
            }
        } else {
            let ghost old_cur = cur@;
            cur.push(c);
            proof {
                let prev = pieces.push(old_cur);
                assert(split_on(raw@.take(i as int + 1), ',') =~= prev.update(prev.len() - 1, prev.last().push(c)));
                assert(prev.update(prev.len() - 1, prev.last().push(c)) =~= pieces.push(cur@));
            }
        }
        i = i + 1;
    }
    let piece = string_from_chars(&cur);
    let t = trim_str(piece.as_str());
    proof {
        assert(raw@.take(raw@.len() as int) =~= raw@);
        assert(pieces.push(cur@).map_values(tr) =~= pieces.map_values(tr).push(spec_trim(cur@)));
        pieces.map_values(tr).lemma_filter_push(spec_trim(cur@), ne);
        assert((|p: Seq<char>| spec_trim(p)) == tr);
    }
    if !t.as_str().is_empty() {
        out.push(t);
    }
    proof {
        assert(str_views(out@) =~= pieces.push(cur@).map_values(tr).filter(ne));
    }
    out
}

/// How a list of tag tokens resolves: the tags' identifiers in first-seen
/// order without repeats, or the message of the first token that fails.
pub open spec fn resolve_all(tags: Seq<Tag>, toks: Seq<Seq<char>>) -> Result<Seq<ThingsId>, Seq<char>>
    decreases toks.len(),
{
    if toks.len() == 0 {
        Ok(Seq::empty())
    } else {
        match resolve_all(tags, toks.drop_last()) {
            Err(e) => Err(e),
            Ok(ids) => match tag_resolution(tags, toks.last()) {
                Err(e) => Err(e),
                Ok(t) => Ok(
                    if ids.contains(t.uuid) {
                        ids
                    } else {
                        ids.push(t.uuid)
                    },
                ),
            },
        }
    }
}

fn contains_id(ids: &Vec<ThingsId>, id: &ThingsId) -> (r: bool)
    ensures
        r == ids@.contains(*id),
{
    let mut i: usize = 0;
    while i < ids.len()
        invariant
            i <= ids@.len(),
            forall|j: int| 0 <= j < i ==> ids@[j] != *id,
        decreases ids@.len() - i,
    {
        if ids[i].same(id) {
            return true;
        }
        i = i + 1;
    }
    false
}

/// Resolves a comma-separated list of tag titles or id prefixes to tag
/// identifiers, without repeats, or the message of the first token that
/// fails.
pub fn resolve_tag_list(store: &ThingsStore, raw_tags: &str) -> (r: Result<Vec<ThingsId>, String>)
    ensures
        match resolve_all(store.tags@, list_tokens(raw_tags@)) {
            Ok(ids) => r matches Ok(v) && v@ == ids,
            Err(e) => r matches Err(m) && m@ == e,
        },
{
    let tokens = split_list(raw_tags);
    let ghost toks = str_views(tokens@);
    let mut resolved: Vec<ThingsId> = Vec::new();
    let mut i: usize = 0;
    while i < tokens.len()
        invariant
            i <= tokens@.len(),
            toks == str_views(tokens@),
            toks == list_tokens(raw_tags@),
            resolve_all(store.tags@, toks.take(i as int)) == Ok::<Seq<ThingsId>, Seq<char>>(resolved@),
        decreases tokens@.len() - i,
    {
        proof {
            assert(toks.take(i as int + 1).drop_last() =~= toks.take(i as int));
            assert(toks.take(i as int + 1).last() == tokens@[i as int]@);
        }
        let (tag, err) = resolve_single_tag(store, tokens[i].as_str());
        match tag {
            Some(t) => {
                if !contains_id(&resolved, &t.uuid) {
                    resolved.push(t.uuid);
                }
            },
            None => {
                proof {
                    assert(resolve_all(store.tags@, toks.take(i as int + 1)) == Err::<Seq<ThingsId>, Seq<char>>(err@));
                    lemma_resolve_all_err_sticks(store.tags@, toks, i as int + 1);
                }
                return Err(err);
            },
        }
        i = i + 1;
    }
    proof {
        assert(toks.take(tokens@.len() as int) =~= toks);
    }
    Ok(resolved)
}

/// Resolves a comma-separated list of tag titles or id prefixes to tag
/// identifiers, without repeats; on the first token that fails, nothing
/// and its message.
pub fn resolve_tag_ids(store: &ThingsStore, raw_tags: &str) -> (r: (Vec<ThingsId>, String))
    ensures
        match resolve_all(store.tags@, list_tokens(raw_tags@)) {
            Ok(ids) => r.0@ == ids && r.1@.len() == 0,
            Err(e) => r.0@.len() == 0 && r.1@ == e,
        },
{
    match resolve_tag_list(store, raw_tags) {
        Ok(ids) => (ids, String::new()),
        Err(e) => (Vec::new(), e),
    }
}

/// Once a token fails, the whole list fails with its message.
proof fn lemma_resolve_all_err_sticks(tags: Seq<Tag>, toks: Seq<Seq<char>>, n: int)
    requires
        0 <= n <= toks.len(),
        resolve_all(tags, toks.take(n)) is Err,
    ensures
        resolve_all(tags, toks) == resolve_all(tags, toks.take(n)),
    decreases toks.len() - n,
{
    if n < toks.len() {
        assert(toks.take(n + 1).drop_last() =~= toks.take(n));
        lemma_resolve_all_err_sticks(tags, toks, n + 1);
    } else {
        assert(toks.take(n) =~= toks);
    }
}

/// The named reading of a text as a `%Y-%m-%d` date: its day number
/// counted from January 1 of year 1 as day 1, when chrono accepts it.
pub uninterp spec fn spec_parse_ymd(s: Seq<char>) -> Option<i32>;

/// `chrono::NaiveDate::parse_from_str(s, "%Y-%m-%d")`, the date given by its
/// day number from the common era (`Datelike::num_days_from_ce`, where
/// 1970-01-01 is day 719163); which texts it accepts is left to the name.
#[verifier::external_body]
pub(crate) fn parse_ymd(s: &str) -> (r: Option<i32>)
    ensures
        r == spec_parse_ymd(s@),
{
    match chrono::NaiveDate::parse_from_str(s, "%Y-%m-%d") {
        Ok(d) => Some(chrono::Datelike::num_days_from_ce(&d)),
        Err(_) => None,
    }
}

/// The day number (from the common era) of 1970-01-01.
pub const UNIX_EPOCH_DAYS_CE: i32 = 719163;

/// The instant of local midnight starting the day with common-era number
/// `days`, in the zone `offset` seconds east of UTC, when chrono can
/// represent it.
pub open spec fn local_midnight(days: i32, offset: i32) -> Option<UtcTime> {
    let secs = (days - 719163) * 86400 - offset;
    if i64::MIN <= secs <= i64::MAX && spec_chrono_timestamp_ok(secs as i64, 0) {
        Some(UtcTime { secs: secs as i64, nanos: 0 })
    } else {
        None
    }
}

/// The instant of local midnight starting a day.
pub fn local_midnight_of(days: i32, offset: i32) -> (r: Option<UtcTime>)
    ensures
        r == local_midnight(days, offset),
{
    let secs: i128 = (days as i128 - 719163) * 86400 - offset as i128;
    if secs < i64::MIN as i128 || secs > i64::MAX as i128 {
        return None;
    }
    UtcTime::from_timestamp(secs as i64, 0)
}

/// How `day` reads as a local day (zone `offset` seconds east of UTC): its
/// midnight, or the message for a text that is no `YYYY-MM-DD` date.
pub open spec fn day_reading(day: Seq<char>, label: Seq<char>, offset: i32) -> Result<UtcTime, Seq<char>> {
    match spec_parse_ymd(day) {
        Some(days) => match local_midnight(days, offset) {
            Some(t) => Ok(t),
            None => Err("Invalid "@ + label + " date: "@ + day + " (expected YYYY-MM-DD)"@),
        },
        None => Err("Invalid "@ + label + " date: "@ + day + " (expected YYYY-MM-DD)"@),
    }
}

fn invalid_day(label: &str, day: &str) -> (r: String)
    ensures
        r@ == "Invalid "@ + label@ + " date: "@ + day@ + " (expected YYYY-MM-DD)"@,
{
    let a = concat3("Invalid ", label, " date: ");
    let r = concat3(a.as_str(), day, " (expected YYYY-MM-DD)");
    proof {
        assert(r@ =~= "Invalid "@ + label@ + " date: "@ + day@ + " (expected YYYY-MM-DD)"@);
    }
    r
}

/// Reads an optional `YYYY-MM-DD` day as local midnight in the zone
/// `offset` seconds east of UTC.
pub fn parse_day(day: Option<&str>, label: &str, offset: i32) -> (r: Result<Option<UtcTime>, String>)
    ensures
        match day {
            None => r == Ok::<Option<UtcTime>, String>(None),
            Some(d) => match day_reading(d@, label@, offset) {
                Ok(t) => r == Ok::<Option<UtcTime>, String>(Some(t)),
                Err(e) => r matches Err(m) && m@ == e,
            },
        },
{
    match day {
        None => Ok(None),
        Some(d) => match parse_ymd(d) {
            Some(days) => match local_midnight_of(days, offset) {
                Some(t) => Ok(Some(t)),
                None => Err(invalid_day(label, d)),
            },
            None => Err(invalid_day(label, d)),
        },
    }
}

/// The Unix timestamp (whole seconds) of a day's start.
pub fn day_to_timestamp(day: UtcTime) -> (r: i64)
    ensures
        r == day.secs,
{
    day.secs
}

} // verus!
