//! Task notes as they travel on the wire.
use vstd::prelude::*;

use crate::text::{chars_of, spec_trim, string_from_chars, trim_chars};

verus! {

/// Notes payload (`nt`): legacy plain text, a structured text object, or a
/// shape this library does not read (kept as its JSON text).
#[derive(Debug)]
pub enum TaskNotes {
    Plain(String),
    Structured(StructuredTaskNotes),
    Unknown(String),
}

/// Structured notes object.
#[derive(Debug)]
pub struct StructuredTaskNotes {
    /// `_t`: object type tag.
    pub object_type: Option<String>,
    /// `t`: format (`1` single text value, `2` paragraphs).
    pub format_type: i32,
    /// `ch`: checksum of the text.
    pub ch: Option<u32>,
    /// `v`: text value (format `1`).
    pub v: Option<String>,
    /// `ps`: paragraphs (format `2`).
    pub ps: Vec<StructuredTaskNoteParagraph>,
    /// Other fields, as key and JSON text, kept for round trips.
    pub unknown_fields: Vec<(String, String)>,
}

/// One paragraph of structured notes.
#[derive(Debug)]
pub struct StructuredTaskNoteParagraph {
    /// `r`: paragraph text.
    pub r: Option<String>,
    /// Other fields, as key and JSON text, kept for round trips.
    pub unknown_fields: Vec<(String, String)>,
}

/// Line and paragraph separators become newlines.
pub open spec fn unify_breaks(s: Seq<char>) -> Seq<char> {
    s.map_values(|c: char| if c == '\u{2028}' || c == '\u{2029}' { '\n' } else { c })
}

/// A single text value as notes: separators become newlines, surrounding
/// whitespace goes, and nothing is left of blank text.
pub open spec fn spec_text_note(s: Seq<char>) -> Option<Seq<char>> {
    let t = spec_trim(unify_breaks(s));
    if t.len() == 0 {
        None
    } else {
        Some(t)
    }
}

/// The texts of the paragraphs that have one, in order.
pub open spec fn paragraph_texts(ps: Seq<StructuredTaskNoteParagraph>) -> Seq<Seq<char>>
    decreases ps.len(),
{
    if ps.len() == 0 {
        Seq::empty()
    } else {
        let rest = paragraph_texts(ps.drop_last());
        match ps.last().r {
            Some(t) => rest.push(t@),
            None => rest,
        }
    }
}

/// Lines joined by newlines.
pub open spec fn join_lines(lines: Seq<Seq<char>>) -> Seq<char>
    decreases lines.len(),
{
    if lines.len() == 0 {
        Seq::empty()
    } else if lines.len() == 1 {
        lines[0]
    } else {
        join_lines(lines.drop_last()) + seq!['\n'] + lines.last()
    }
}

/// Plain text of notes, `None` when there is none.
pub open spec fn spec_plain_text(n: TaskNotes) -> Option<Seq<char>> {
    match n {
        TaskNotes::Plain(s) => spec_text_note(s@),
        TaskNotes::Structured(st) => {
            if st.format_type == 1 {
                match st.v {
                    Some(s) => spec_text_note(s@),
                    None => None,
                }
            } else if st.format_type == 2 {
                let joined = join_lines(paragraph_texts(st.ps@));
                if spec_trim(joined).len() == 0 {
                    None
                } else {
                    Some(joined)
                }
            } else {
                None
            }
        },
        TaskNotes::Unknown(_) => None,
    }
}

/// A single text value as notes.
fn text_note(s: &String) -> (r: Option<String>)
    ensures
        match r {
            Some(t) => spec_text_note(s@) == Some(t@),
            None => spec_text_note(s@) is None,
        },
{
    let cs = chars_of(s.as_str());
    let mut unified: Vec<char> = Vec::new();
    let mut i: usize = 0;
    while i < cs.len()
        invariant
            i <= cs@.len(),
            unified@ =~= unify_breaks(cs@.take(i as int)),
        decreases cs@.len() - i,
    {
        let c = cs[i];
        let d = if c == '\u{2028}' || c == '\u{2029}' {
            '\n'
        } else {
            c
        };
        unified.push(d);
        i = i + 1;
    }
    proof {
        assert(cs@.take(cs@.len() as int) =~= cs@);
    }
    let t = trim_chars(&unified);
    if t.len() == 0 {
        None
    } else {
        Some(string_from_chars(&t))
    }
}

impl TaskNotes {
    /// Plain text of the notes, `None` when there is none.
    pub fn to_plain_text(&self) -> (r: Option<String>)
        ensures
            match r {
                Some(t) => spec_plain_text(*self) == Some(t@),
                None => spec_plain_text(*self) is None,
            },
    {
        match self {
            TaskNotes::Plain(s) => text_note(s),
            TaskNotes::Structured(st) => {
                if st.format_type == 1 {
                    match &st.v {
                        Some(s) => text_note(s),
                        None => None,
                    }
                } else if st.format_type == 2 {
                    let mut joined: Vec<char> = Vec::new();
                    let mut count: usize = 0;
                    let n = st.ps.len();
                    let mut i: usize = 0;
                    while i < n
                        invariant
                            i <= n,
                            n == st.ps@.len(),
                            count == paragraph_texts(st.ps@.take(i as int)).len(),
                            count <= i,
                            joined@ == join_lines(paragraph_texts(st.ps@.take(i as int))),
                        decreases n - i,
                    {
                        proof {
                            assert(st.ps@.take(i + 1).drop_last() =~= st.ps@.take(i as int));
                        }
                        match &st.ps[i].r {
                            Some(t) => {
                                let tc = chars_of(t.as_str());
                                let ghost before = joined@;
                                if count > 0 {
                                    joined.push('\n');
                                }
                                let mut k: usize = 0;
                                let ghost base = joined@;
                                while k < tc.len()
                                    invariant
                                        k <= tc@.len(),
                                        joined@ =~= base + tc@.take(k as int),
                                    decreases tc@.len() - k,
                                {
                                    joined.push(tc[k]);
                                    k = k + 1;
                                }
                                proof {
                                    assert(tc@.take(tc@.len() as int) =~= tc@);
                                    let lines = paragraph_texts(st.ps@.take(i + 1));
                                    assert(lines =~= paragraph_texts(st.ps@.take(i as int)).push(
                                        t@,
                                    ));
                                    if count > 0 {
                                        assert(lines.drop_last() =~= paragraph_texts(
                                            st.ps@.take(i as int),
                                        ));
                                    } else {
                                        assert(before =~= Seq::<char>::empty());
                                    }
                                }
                                count = count + 1;
                            },
                            None => {},
                        }
                        i = i + 1;
                    }
                    proof {
                        assert(st.ps@.take(n as int) =~= st.ps@);
                    }
                    let t = trim_chars(&joined);
                    if t.len() == 0 {
                        None
                    } else {
                        Some(string_from_chars(&joined))
                    }
                } else {
                    None
                }
            },
            TaskNotes::Unknown(_) => None,
        }
    }
}

} // verus!
