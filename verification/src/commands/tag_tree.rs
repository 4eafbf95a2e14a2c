//! How the tags list nests tags under their parents.
use vstd::prelude::*;

use crate::ids::things_id::ThingsId;
use crate::store::model::Tag;

verus! {

/// Arguments of `tags list`.
#[derive(Debug)]
pub struct TagsListArgs {}

/// One line of the tag tree: the tag, for each enclosing subtag level
/// whether that level's tag was the last of its siblings, whether this tag
/// is the last of its siblings, and whether it is a top-level tag.
#[derive(Debug)]
pub struct TagRow<'a> {
    pub tag: &'a Tag,
    pub branches: Vec<bool>,
    pub last: bool,
    pub top: bool,
}

/// The plain values of a tag row.
pub open spec fn row_view(r: TagRow) -> (Tag, Seq<bool>, bool, bool) {
    (*r.tag, r.branches@, r.last, r.top)
}

/// Whether some listed tag has identifier `id`.
pub open spec fn listed_id(tags: Seq<&Tag>, id: ThingsId) -> bool {
    exists|k: int| 0 <= k < tags.len() && (#[trigger] tags[k]).uuid == id
}

/// Whether a tag shows at the top level: it has no parent among the listed
/// tags.
pub open spec fn is_top(tags: Seq<&Tag>, t: Tag) -> bool {
    match t.parent_uuid {
        None => true,
        Some(p) => !listed_id(tags, p),
    }
}

/// The listed tags whose parent is `id`, in list order.
pub open spec fn kids(tags: Seq<&Tag>, id: ThingsId) -> Seq<&Tag> {
    tags.filter(|t: &Tag| t.parent_uuid == Some(id))
}

/// The rows of the subtags `ks[i..]` and their descendants, each level
/// spending one unit of `fuel`.
pub open spec fn sub_rows(tags: Seq<&Tag>, ks: Seq<&Tag>, i: int, anc: Seq<bool>, fuel: nat) -> Seq<(Tag, Seq<bool>, bool, bool)>
    decreases fuel, ks.len() - i,
{
    if fuel == 0 || i < 0 || i >= ks.len() {
        Seq::empty()
    } else {
        let last = i == ks.len() - 1;
        seq![(*ks[i], anc, last, false)] + sub_rows(tags, kids(tags, ks[i].uuid), 0, anc.push(last), (fuel - 1) as nat)
            + sub_rows(tags, ks, i + 1, anc, fuel)
    }
}

/// The rows of the top-level tags among `tags[i..]` and their subtags.
pub open spec fn tree_rows(tags: Seq<&Tag>, i: int) -> Seq<(Tag, Seq<bool>, bool, bool)>
    decreases tags.len() - i,
{
    if i < 0 || i >= tags.len() {
        Seq::empty()
    } else if is_top(tags, *tags[i]) {
        seq![(*tags[i], Seq::empty(), false, true)] + sub_rows(tags, kids(tags, tags[i].uuid), 0, Seq::empty(), tags.len())
            + tree_rows(tags, i + 1)
    } else {
        tree_rows(tags, i + 1)
    }
}

fn kids_of<'a>(tags: &Vec<&'a Tag>, id: &ThingsId) -> (r: Vec<&'a Tag>)
    ensures
        r@ == kids(tags@, *id),
{
    let ghost f = |t: &Tag| t.parent_uuid == Some(*id);
    let mut r: Vec<&'a Tag> = Vec::new();
    let mut k: usize = 0;
    while k < tags.len()
        invariant
            k <= tags@.len(),
            f == (|t: &Tag| t.parent_uuid == Some(*id)),
            r@ == tags@.take(k as int).filter(f),
        decreases tags@.len() - k,
    {
        let t = tags[k];
        proof {
            assert(tags@.take(k as int + 1) =~= tags@.take(k as int).push(t));
            tags@.take(k as int).lemma_filter_push(t, f);
        }
        let is_kid = match t.parent_uuid {
            Some(p) => p.same(id),
            None => false,
        };
        if is_kid {
            r.push(t);
        }
        k = k + 1;
    }
    proof {
        assert(tags@.take(tags@.len() as int) =~= tags@);
    }
    r
}

fn listed_id_of(tags: &Vec<&Tag>, id: &ThingsId) -> (b: bool)
    ensures
        b == listed_id(tags@, *id),
{
    let mut k: usize = 0;
    while k < tags.len()
        invariant
            k <= tags@.len(),
            forall|j: int| 0 <= j < k ==> (#[trigger] tags@[j]).uuid != *id,
        decreases tags@.len() - k,
    {
        if tags[k].uuid.same(id) {
            return true;
        }
        k = k + 1;
    }
    false
}

fn push_sub_rows<'a>(
    tags: &Vec<&'a Tag>,
    ks: &Vec<&'a Tag>,
    i: usize,
    anc: &Vec<bool>,
    fuel: usize,
    out: &mut Vec<TagRow<'a>>,
)
    requires
        i <= ks@.len(),
    ensures
        final(out)@.map_values(|r: TagRow| row_view(r)) == old(out)@.map_values(|r: TagRow| row_view(r)) + sub_rows(
            tags@,
            ks@,
            i as int,
            anc@,
            fuel as nat,
        ),
    decreases fuel, ks@.len() - i,
{
    let ghost f = |r: TagRow| row_view(r);
    if fuel == 0 || i >= ks.len() {
        proof {
            assert(final(out)@.map_values(f) =~= old(out)@.map_values(f) + Seq::empty());
        }
        return;
    }
    let t = ks[i];
    let last = i == ks.len() - 1;
    let ghost before = out@;
    out.push(TagRow { tag: t, branches: anc.clone(), last, top: false });
    proof {
        assert(out@.map_values(f) =~= before.map_values(f) + seq![(*t, anc@, last, false)]);
    }
    let sub = kids_of(tags, &t.uuid);
    let mut deeper = anc.clone();
    deeper.push(last);
    proof {
        assert(deeper@ =~= anc@.push(last));
    }
    push_sub_rows(tags, &sub, 0, &deeper, fuel - 1, out);
    push_sub_rows(tags, ks, i + 1, anc, fuel, out);
    proof {
        assert(out@.map_values(f) =~= before.map_values(f) + sub_rows(tags@, ks@, i as int, anc@, fuel as nat));
    }
}

/// The lines of the tag tree: each top-level tag (in list order), then its
/// subtags depth first, each with the connector shape that leads to it.
pub fn tag_tree<'a>(tags: &Vec<&'a Tag>) -> (r: Vec<TagRow<'a>>)
    ensures
        r@.map_values(|r: TagRow| row_view(r)) == tree_rows(tags@, 0),
{
    let ghost f = |r: TagRow| row_view(r);
    let mut out: Vec<TagRow<'a>> = Vec::new();
    proof {
        assert(out@.map_values(f) =~= Seq::<(Tag, Seq<bool>, bool, bool)>::empty());
    }
    let mut i: usize = 0;
    while i < tags.len()
        invariant
            i <= tags@.len(),
            f == (|r: TagRow| row_view(r)),
            out@.map_values(f) + tree_rows(tags@, i as int) == tree_rows(tags@, 0),
        decreases tags@.len() - i,
    {
        let t = tags[i];
        let top = match t.parent_uuid {
            None => true,
            Some(p) => !listed_id_of(tags, &p),
        };
        if top {
            let ghost before = out@.map_values(f);
            out.push(TagRow { tag: t, branches: Vec::new(), last: false, top: true });
            let sub = kids_of(tags, &t.uuid);
            let none: Vec<bool> = Vec::new();
            proof {
                assert(none@ =~= Seq::<bool>::empty());
                assert(out@.map_values(f) =~= before + seq![(*t, Seq::<bool>::empty(), false, true)]);
            }
            push_sub_rows(tags, &sub, 0, &none, tags.len(), &mut out);
            proof {
                assert(before + tree_rows(tags@, i as int) =~= out@.map_values(f) + tree_rows(tags@, i as int + 1));
            }
        }
        i = i + 1;
    }
    proof {
        assert(out@.map_values(f) =~= tree_rows(tags@, 0));
    }
    out
}

/// Whether no two listed tags share an identifier.
pub open spec fn distinct_ids(tags: Seq<&Tag>) -> bool {
    forall|a: int, b: int| 0 <= a < b < tags.len() ==> (#[trigger] tags[a]).uuid != (#[trigger] tags[b]).uuid
}

/// Whether `c` is a path down the tree: a top-level tag, then each tag a
/// listed subtag of the one before.
pub open spec fn tag_chain(tags: Seq<&Tag>, c: Seq<&Tag>) -> bool {
    &&& c.len() > 0
    &&& is_top(tags, *c[0])
    &&& forall|j: int| 0 <= j < c.len() ==> tags.contains(#[trigger] c[j])
    &&& forall|j: int| 0 < j < c.len() ==> (#[trigger] c[j]).parent_uuid == Some(c[j - 1].uuid)
}

proof fn lemma_same_id_same_tag(tags: Seq<&Tag>, x: &Tag, y: &Tag)
    requires
        distinct_ids(tags),
        tags.contains(x),
        tags.contains(y),
        x.uuid == y.uuid,
    ensures
        x == y,
{
    let a = choose|a: int| 0 <= a < tags.len() && tags[a] == x;
    let b = choose|b: int| 0 <= b < tags.len() && tags[b] == y;
    if a < b {
        assert(tags[a].uuid != tags[b].uuid);
    } else if b < a {
        assert(tags[b].uuid != tags[a].uuid);
    }
}

proof fn lemma_chain_distinct(tags: Seq<&Tag>, c: Seq<&Tag>, a: int, b: int)
    requires
        distinct_ids(tags),
        tag_chain(tags, c),
        0 <= a < b < c.len(),
    ensures
        c[a].uuid != c[b].uuid,
    decreases a,
{
    if c[a].uuid == c[b].uuid {
        lemma_same_id_same_tag(tags, c[a], c[b]);
        assert(c[b].parent_uuid == Some(c[b - 1].uuid));
        if a == 0 {
            assert(tags.contains(c[b - 1]));
            let k = choose|k: int| 0 <= k < tags.len() && tags[k] == c[b - 1];
            assert(tags[k].uuid == c[b - 1].uuid);
            assert(listed_id(tags, c[b - 1].uuid));
        } else {
            assert(c[a].parent_uuid == Some(c[a - 1].uuid));
            lemma_chain_distinct(tags, c, a - 1, b - 1);
        }
    }
}

proof fn lemma_chain_len(tags: Seq<&Tag>, c: Seq<&Tag>)
    requires
        distinct_ids(tags),
        tag_chain(tags, c),
    ensures
        c.len() <= tags.len(),
{
    let id = |t: &Tag| t.uuid;
    let cu = c.map_values(id);
    let tu = tags.map_values(id);
    assert forall|a: int, b: int| 0 <= a < cu.len() && 0 <= b < cu.len() && a != b implies cu[a] != cu[b] by {
        if a < b {
            lemma_chain_distinct(tags, c, a, b);
        } else {
            lemma_chain_distinct(tags, c, b, a);
        }
    }
    assert(cu.no_duplicates());
    cu.unique_seq_to_set();
    assert forall|u: ThingsId| cu.to_set().contains(u) implies tu.to_set().contains(u) by {
        let j = choose|j: int| 0 <= j < cu.len() && cu[j] == u;
        assert(tags.contains(c[j]));
        let k = choose|k: int| 0 <= k < tags.len() && tags[k] == c[j];
        assert(tu[k] == u);
    }
    vstd::set_lib::lemma_len_subset(cu.to_set(), tu.to_set());
    tu.lemma_cardinality_of_set();
}

proof fn lemma_sub_rows_fuel(
    tags: Seq<&Tag>,
    c: Seq<&Tag>,
    ks: Seq<&Tag>,
    i: int,
    anc: Seq<bool>,
    fuel: nat,
    extra: nat,
)
    requires
        distinct_ids(tags),
        tag_chain(tags, c),
        ks == kids(tags, c.last().uuid),
        fuel + c.len() == tags.len() + 1,
    ensures
        sub_rows(tags, ks, i, anc, fuel) == sub_rows(tags, ks, i, anc, fuel + extra),
    decreases fuel, ks.len() - i,
{
    if 0 <= i < ks.len() {
        let y = ks[i];
        assert(ks.contains(y));
        lemma_kid_of(tags, c.last(), y);
        lemma_chain_extend(tags, c, y);
        let c2 = c.push(y);
        lemma_chain_len(tags, c2);
        let last = i == ks.len() - 1;
        lemma_sub_rows_fuel(tags, c2, kids(tags, y.uuid), 0, anc.push(last), (fuel - 1) as nat, extra);
        lemma_sub_rows_fuel(tags, c, ks, i + 1, anc, fuel, extra);
        assert(((fuel + extra) - 1) as nat == ((fuel - 1) as nat + extra) as nat);
    }
}

/// With distinct tag identifiers, the depth limit never cuts a branch: the
/// subtags listed under a top-level tag are the same for any limit of at
/// least the number of tags.
pub proof fn lemma_tree_depth_limit_never_binds(tags: Seq<&Tag>, k: int, extra: nat)
    requires
        distinct_ids(tags),
        0 <= k < tags.len(),
        is_top(tags, *tags[k]),
    ensures
        sub_rows(tags, kids(tags, tags[k].uuid), 0, Seq::empty(), tags.len()) == sub_rows(
            tags,
            kids(tags, tags[k].uuid),
            0,
            Seq::empty(),
            tags.len() + extra,
        ),
{
    let c = seq![tags[k]];
    assert(tags.contains(tags[k]));
    assert(tag_chain(tags, c));
    lemma_sub_rows_fuel(tags, c, kids(tags, tags[k].uuid), 0, Seq::empty(), tags.len(), extra);
}

/// Whether some row shows tag `t`.
pub open spec fn shows(rows: Seq<(Tag, Seq<bool>, bool, bool)>, t: Tag) -> bool {
    exists|j: int| 0 <= j < rows.len() && (#[trigger] rows[j]).0 == t
}

proof fn lemma_shows_concat(a: Seq<(Tag, Seq<bool>, bool, bool)>, b: Seq<(Tag, Seq<bool>, bool, bool)>, t: Tag)
    requires
        shows(a, t) || shows(b, t),
    ensures
        shows(a + b, t),
{
    if shows(a, t) {
        let j = choose|j: int| 0 <= j < a.len() && (#[trigger] a[j]).0 == t;
        assert((a + b)[j] == a[j]);
    } else {
        let j = choose|j: int| 0 <= j < b.len() && (#[trigger] b[j]).0 == t;
        assert((a + b)[a.len() + j] == b[j]);
    }
}

proof fn lemma_kid_of(tags: Seq<&Tag>, x: &Tag, y: &Tag)
    requires
        kids(tags, x.uuid).contains(y),
    ensures
        tags.contains(y),
        y.parent_uuid == Some(x.uuid),
{
    let pred = |t: &Tag| t.parent_uuid == Some(x.uuid);
    tags.lemma_filter_contains_rev(pred, y);
    let ks = kids(tags, x.uuid);
    let j = choose|j: int| 0 <= j < ks.len() && ks[j] == y;
    tags.lemma_filter_pred(pred, j);
}

proof fn lemma_kid_index(tags: Seq<&Tag>, x: &Tag, e: &Tag) -> (jj: int)
    requires
        tags.contains(e),
        e.parent_uuid == Some(x.uuid),
    ensures
        0 <= jj < kids(tags, x.uuid).len(),
        kids(tags, x.uuid)[jj] == e,
{
    let k = choose|k: int| 0 <= k < tags.len() && tags[k] == e;
    let q = |t: &Tag| t.parent_uuid == Some(x.uuid);
    tags.lemma_filter_contains(q, k);
    let ky = kids(tags, x.uuid);
    assert(ky.contains(e));
    choose|jj: int| 0 <= jj < ky.len() && ky[jj] == e
}

proof fn lemma_chain_extend(tags: Seq<&Tag>, c: Seq<&Tag>, y: &Tag)
    requires
        tag_chain(tags, c),
        tags.contains(y),
        y.parent_uuid == Some(c.last().uuid),
    ensures
        tag_chain(tags, c.push(y)),
{
    let c2 = c.push(y);
    assert forall|k: int| 0 <= k < c2.len() implies tags.contains(#[trigger] c2[k]) by {
        if k < c.len() {
            assert(c2[k] == c[k]);
        }
    }
    assert forall|k: int| 0 < k < c2.len() implies (#[trigger] c2[k]).parent_uuid == Some(c2[k - 1].uuid) by {
        if k < c.len() {
            assert(c2[k] == c[k]);
        }
    }
}

proof fn lemma_path_split(c: Seq<&Tag>, d: Seq<&Tag>)
    requires
        d.len() > 0,
    ensures
        c.push(d[0]) + d.drop_first() == c + d,
{
    assert(c.push(d[0]) + d.drop_first() =~= c + d);
}

proof fn lemma_next_on_path(tags: Seq<&Tag>, c: Seq<&Tag>, d: Seq<&Tag>) -> (jj: int)
    requires
        tag_chain(tags, c + d),
        c.len() > 0,
        d.len() > 1,
    ensures
        c.push(d[0]) + d.drop_first() == c + d,
        0 <= jj < kids(tags, d[0].uuid).len(),
        kids(tags, d[0].uuid)[jj] == d.drop_first()[0],
{
    lemma_path_split(c, d);
    let cd = c + d;
    let n = c.len() as int;
    assert(cd[n] == d[0]);
    assert(cd[n + 1] == d[1]);
    assert(tags.contains(cd[n + 1]));
    assert(cd[n + 1].parent_uuid == Some(cd[n].uuid));
    lemma_kid_index(tags, d[0], d[1])
}

proof fn lemma_sub_rows_show(
    tags: Seq<&Tag>,
    c: Seq<&Tag>,
    d: Seq<&Tag>,
    i: int,
    j: int,
    anc: Seq<bool>,
    fuel: nat,
)
    requires
        distinct_ids(tags),
        tag_chain(tags, c),
        tag_chain(tags, c + d),
        d.len() > 0,
        fuel + c.len() == tags.len() + 1,
        0 <= i <= j < kids(tags, c.last().uuid).len(),
        kids(tags, c.last().uuid)[j] == d[0],
    ensures
        shows(sub_rows(tags, kids(tags, c.last().uuid), i, anc, fuel), *d.last()),
    decreases d.len(), j - i,
{
    let ks = kids(tags, c.last().uuid);
    let y = ks[i];
    assert(ks.contains(y));
    lemma_kid_of(tags, c.last(), y);
    lemma_chain_extend(tags, c, y);
    let c2 = c.push(y);
    lemma_chain_len(tags, c2);
    let last = i == ks.len() - 1;
    let here = seq![(*ks[i], anc, last, false)];
    let deep = sub_rows(tags, kids(tags, y.uuid), 0, anc.push(last), (fuel - 1) as nat);
    let rest = sub_rows(tags, ks, i + 1, anc, fuel);
    assert(sub_rows(tags, ks, i, anc, fuel) == here + deep + rest);
    if j == i {
        if d.len() == 1 {
            assert(here[0].0 == *d.last());
            lemma_shows_concat(here, deep, *d.last());
        } else {
            let d2 = d.drop_first();
            let jj = lemma_next_on_path(tags, c, d);
            lemma_sub_rows_show(tags, c2, d2, 0, jj, anc.push(last), (fuel - 1) as nat);
            assert(d2.last() == d.last());
            lemma_shows_concat(here, deep, *d.last());
        }
        lemma_shows_concat(here + deep, rest, *d.last());
    } else {
        lemma_sub_rows_show(tags, c, d, i + 1, j, anc, fuel);
        lemma_shows_concat(here + deep, rest, *d.last());
    }
}

proof fn lemma_tree_rows_show(tags: Seq<&Tag>, i: int, c: Seq<&Tag>, k: int)
    requires
        distinct_ids(tags),
        tag_chain(tags, c),
        0 <= i <= k < tags.len(),
        tags[k] == c[0],
    ensures
        shows(tree_rows(tags, i), *c.last()),
    decreases k - i,
{
    let top = is_top(tags, *tags[i]);
    if i == k {
        let head = seq![(*tags[i], Seq::<bool>::empty(), false, true)];
        let sub = sub_rows(tags, kids(tags, tags[i].uuid), 0, Seq::empty(), tags.len());
        let rest = tree_rows(tags, i + 1);
        assert(tree_rows(tags, i) == head + sub + rest);
        if c.len() == 1 {
            assert(head[0].0 == *c.last());
            lemma_shows_concat(head, sub, *c.last());
        } else {
            let c1 = c.take(1);
            let d = c.skip(1);
            assert(c1 + d =~= c);
            assert(tag_chain(tags, c1)) by {
                assert(c1[0] == c[0]);
            }
            let e = c[1];
            assert(e.parent_uuid == Some(tags[k].uuid));
            assert(tags.contains(e));
            let jj = lemma_kid_index(tags, tags[k], e);
            assert(d[0] == e);
            assert(c1.last() == tags[k]);
            lemma_sub_rows_show(tags, c1, d, 0, jj, Seq::empty(), (tags.len() - 1) as nat + 1);
            assert(d.last() == c.last());
            lemma_shows_concat(head, sub, *c.last());
        }
        lemma_shows_concat(head + sub, rest, *c.last());
    } else {
        lemma_tree_rows_show(tags, i + 1, c, k);
        if top {
            let head = seq![(*tags[i], Seq::<bool>::empty(), false, true)];
            let sub = sub_rows(tags, kids(tags, tags[i].uuid), 0, Seq::empty(), tags.len());
            assert(tree_rows(tags, i) == head + sub + tree_rows(tags, i + 1));
            lemma_shows_concat(head + sub, tree_rows(tags, i + 1), *c.last());
        }
    }
}

/// With distinct tag identifiers, the tag tree shows every tag that hangs
/// under a top-level tag: the last tag of any path down from a top-level tag
/// has a row.
pub proof fn lemma_tree_shows_every_reachable_tag(tags: Seq<&Tag>, c: Seq<&Tag>)
    requires
        distinct_ids(tags),
        tag_chain(tags, c),
    ensures
        shows(tree_rows(tags, 0), *c.last()),
{
    assert(tags.contains(c[0]));
    let k = choose|k: int| 0 <= k < tags.len() && tags[k] == c[0];
    lemma_tree_rows_show(tags, 0, c, k);
}

} // verus!
