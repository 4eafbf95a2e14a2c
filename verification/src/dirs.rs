//! Where the application keeps its state.
use vstd::prelude::*;

use crate::text::{concat2, concat3};

verus! {

/// A path with one relative component appended, as Unix paths join: the
/// component alone after an empty path, directly after a trailing `/`, and
/// after a `/` otherwise.
pub open spec fn path_join(base: Seq<char>, name: Seq<char>) -> Seq<char> {
    if base.len() == 0 {
        name
    } else if base.last() == '/' {
        base + name
    } else {
        base + "/"@ + name
    }
}

fn join(base: &str, name: &str) -> (r: String)
    ensures
        r@ == path_join(base@, name@),
{
    let cs = crate::text::chars_of(base);
    proof {
        reveal_strlit("/");
    }
    if cs.len() == 0 {
        name.to_owned()
    } else if cs[cs.len() - 1] == '/' {
        concat2(base, name)
    } else {
        concat3(base, "/", name)
    }
}

/// The append-log directory inside the state directory.
pub fn append_log_dir(state_dir: &str) -> (r: String)
    ensures
        r@ == path_join(state_dir@, "append-log"@),
{
    join(state_dir, "append-log")
}

/// The auth file inside the state directory.
pub fn auth_file_path(state_dir: &str) -> (r: String)
    ensures
        r@ == path_join(state_dir@, "auth.json"@),
{
    join(state_dir, "auth.json")
}

/// The directory part that joining onto `base` puts before a name.
pub open spec fn join_prefix(base: Seq<char>) -> Seq<char> {
    if base.len() == 0 {
        Seq::empty()
    } else if base.last() == '/' {
        base
    } else {
        base + "/"@
    }
}

/// The auth file and the append-log directory lie side by side in the state
/// directory: for any state directory, both are one directory prefix followed
/// by their own name, so they share a parent.
pub proof fn lemma_state_files_side_by_side(state_dir: Seq<char>)
    ensures
        path_join(state_dir, "auth.json"@) == join_prefix(state_dir) + "auth.json"@,
        path_join(state_dir, "append-log"@) == join_prefix(state_dir) + "append-log"@,
{
    if state_dir.len() == 0 {
        assert(Seq::<char>::empty() + "auth.json"@ =~= "auth.json"@);
        assert(Seq::<char>::empty() + "append-log"@ =~= "append-log"@);
    } else if state_dir.last() != '/' {
        assert(state_dir + "/"@ + "auth.json"@ =~= (state_dir + "/"@) + "auth.json"@);
    }
}

} // verus!
