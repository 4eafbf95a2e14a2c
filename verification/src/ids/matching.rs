use vstd::prelude::*;
use vstd::string::StringSliceAdditionalSpecFns;

use crate::ids::base58::{ascii_chars, spec_base58_encode};
use crate::ids::things_id::ThingsId;

verus! {

/// Length of the longest common prefix of two sequences.
pub open spec fn spec_lcp<T>(a: Seq<T>, b: Seq<T>) -> nat
    decreases a.len(),
{
    if a.len() == 0 || b.len() == 0 || a[0] != b[0] {
        0
    } else {
        1 + spec_lcp(a.drop_first(), b.drop_first())
    }
}

/// The compact text of an identifier, as ASCII bytes.
pub open spec fn id_text(id: ThingsId) -> Seq<u8> {
    spec_base58_encode(id.spec_bytes())
}

/// The longest common prefix of `text` with the text of any entry of `ids`
/// other than the one at position `skip` (zero when there is none).
pub open spec fn max_lcp_with_others(text: Seq<u8>, ids: Seq<ThingsId>, skip: int) -> nat
    decreases ids.len(),
{
    if ids.len() == 0 {
        0
    } else {
        let last = ids.len() - 1;
        let rest = max_lcp_with_others(text, ids.drop_last(), skip);
        if last == skip {
            rest
        } else {
            let here = spec_lcp(text, id_text(ids[last]));
            if here > rest {
                here
            } else {
                rest
            }
        }
    }
}

/// The shortest prefix of `ids[i]`'s text that no other entry's text shares,
/// cut at the full text when the text itself is shared.
pub open spec fn spec_unique_prefix(ids: Seq<ThingsId>, i: int) -> Seq<u8> {
    let text = id_text(ids[i]);
    let need = max_lcp_with_others(text, ids, i) + 1;
    if need < text.len() {
        text.take(need as int)
    } else {
        text
    }
}

/// The entries of `ids` whose compact text starts with `prefix`, in order.
pub open spec fn ids_with_prefix(ids: Seq<ThingsId>, prefix: Seq<char>) -> Seq<ThingsId>
    decreases ids.len(),
{
    if ids.len() == 0 {
        Seq::empty()
    } else {
        let rest = ids_with_prefix(ids.drop_last(), prefix);
        if prefix.is_prefix_of(ascii_chars(id_text(ids.last()))) {
            rest.push(ids.last())
        } else {
            rest
        }
    }
}

proof fn lemma_lcp_at(a: Seq<u8>, b: Seq<u8>, i: int)
    requires
        0 <= i <= a.len(),
        i <= b.len(),
        forall|k: int| 0 <= k < i ==> a[k] == b[k],
        i == a.len() || i == b.len() || a[i] != b[i],
    ensures
        spec_lcp(a, b) == i,
    decreases i,
{
    if i > 0 {
        lemma_lcp_at(a.drop_first(), b.drop_first(), i - 1);
    }
}

/// The common prefix length never exceeds either length, and both
/// sequences agree up to it.
pub proof fn lemma_lcp_props<T>(a: Seq<T>, b: Seq<T>)
    ensures
        spec_lcp(a, b) <= a.len(),
        spec_lcp(a, b) <= b.len(),
        a.take(spec_lcp(a, b) as int) == b.take(spec_lcp(a, b) as int),
        spec_lcp(a, b) < a.len() && spec_lcp(a, b) < b.len() ==> a[spec_lcp(a, b) as int]
            != b[spec_lcp(a, b) as int],
    decreases a.len(),
{
    if a.len() > 0 && b.len() > 0 && a[0] == b[0] {
        lemma_lcp_props(a.drop_first(), b.drop_first());
        let k = spec_lcp(a, b) as int;
        assert(a.take(k) =~= b.take(k)) by {
            assert forall|j: int| 0 <= j < k implies a.take(k)[j] == b.take(k)[j] by {
                if j > 0 {
                    assert(a[j] == a.drop_first().take(k - 1)[j - 1]);
                    assert(b[j] == b.drop_first().take(k - 1)[j - 1]);
                }
            }
        }
    } else {
        assert(a.take(0) =~= b.take(0));
    }
}

/// Length of the longest common byte prefix of two byte strings.
pub fn lcp_len_bytes(a: &[u8], b: &[u8]) -> (r: usize)
    ensures
        r == spec_lcp(a@, b@),
{
    let max = if a.len() < b.len() {
        a.len()
    } else {
        b.len()
    };
    let mut i: usize = 0;
    while i < max
        invariant
            i <= max,
            max <= a@.len(),
            max <= b@.len(),
            max == a@.len() || max == b@.len(),
            forall|k: int| 0 <= k < i ==> a@[k] == b@[k],
        decreases max - i,
    {
        if a[i] != b[i] {
            proof {
                lemma_lcp_at(a@, b@, i as int);
            }
            return i;
        }
        i = i + 1;
    }
    proof {
        lemma_lcp_at(a@, b@, i as int);
    }
    max
}

/// Length of the longest common prefix of two strings, in bytes.
pub fn lcp_len(a: &str, b: &str) -> (r: usize)
    ensures
        r == spec_lcp(a.spec_bytes(), b.spec_bytes()),
{
    lcp_len_bytes(a.as_bytes(), b.as_bytes())
}

/// For every identifier, the shortest prefix of its compact text that no
/// other identifier's text shares; the result lists each identifier with
/// its prefix, in input order.
pub fn shortest_unique_prefixes(ids: &[ThingsId]) -> (r: Vec<(ThingsId, String)>)
    ensures
        r@.len() == ids@.len(),
        forall|i: int|
            0 <= i < ids@.len() ==> {
                &&& (#[trigger] r@[i]).0 == ids@[i]
                &&& r@[i].1@ == ascii_chars(spec_unique_prefix(ids@, i))
            },
{
    let n = ids.len();
    let mut texts: Vec<Vec<u8>> = Vec::new();
    let mut t: usize = 0;
    while t < n
        invariant
            t <= n,
            n == ids@.len(),
            texts@.len() == t,
            forall|k: int| 0 <= k < t ==> (#[trigger] texts@[k])@ == id_text(ids@[k]),
        decreases n - t,
    {
        texts.push(encode_id_bytes(&ids[t]));
        t = t + 1;
    }
    let mut result: Vec<(ThingsId, String)> = Vec::new();
    let mut i: usize = 0;
    while i < n
        invariant
            i <= n,
            n == ids@.len(),
            texts@.len() == n,
            forall|k: int| 0 <= k < n ==> (#[trigger] texts@[k])@ == id_text(ids@[k]),
            result@.len() == i,
            forall|k: int|
                0 <= k < i ==> {
                    &&& (#[trigger] result@[k]).0 == ids@[k]
                    &&& result@[k].1@ == ascii_chars(spec_unique_prefix(ids@, k))
                },
        decreases n - i,
    {
        let mine = &texts[i];
        let mut best: usize = 0;
        let mut j: usize = 0;
        while j < n
            invariant
                i < n,
                j <= n,
                n == ids@.len(),
                texts@.len() == n,
                mine@ == id_text(ids@[i as int]),
                forall|k: int| 0 <= k < n ==> (#[trigger] texts@[k])@ == id_text(ids@[k]),
                best == max_lcp_with_others(mine@, ids@.take(j as int), i as int),
                best <= mine@.len(),
            decreases n - j,
        {
            proof {
                assert(ids@.take(j + 1).drop_last() =~= ids@.take(j as int));
            }
            if j != i {
                let here = lcp_len_bytes(mine.as_slice(), texts[j].as_slice());
                proof {
                    lemma_lcp_props(mine@, texts@[j as int]@);
                }
                if here > best {
                    best = here;
                }
            }
            j = j + 1;
        }
        proof {
            assert(ids@.take(n as int) =~= ids@);
            lemma_encode_is_ascii_text(ids@[i as int]);
        }
        let need = if best < mine.len() {
            best + 1
        } else {
            mine.len()
        };
        let prefix = ascii_prefix(mine, need);
        result.push((ids[i], prefix));
        i = i + 1;
    }
    result
}

/// The identifiers of `sorted_ids` whose compact text starts with `prefix`,
/// in order.
pub fn prefix_matches(sorted_ids: &[ThingsId], prefix: &str) -> (r: Vec<ThingsId>)
    ensures
        r@ == ids_with_prefix(sorted_ids@, prefix@),
{
    let mut out: Vec<ThingsId> = Vec::new();
    let n = sorted_ids.len();
    let mut i: usize = 0;
    while i < n
        invariant
            i <= n,
            n == sorted_ids@.len(),
            out@ == ids_with_prefix(sorted_ids@.take(i as int), prefix@),
        decreases n - i,
    {
        proof {
            assert(sorted_ids@.take(i + 1).drop_last() =~= sorted_ids@.take(i as int));
        }
        if sorted_ids[i].starts_with(prefix) {
            out.push(sorted_ids[i]);
        }
        i = i + 1;
    }
    proof {
        assert(sorted_ids@.take(n as int) =~= sorted_ids@);
    }
    out
}

fn encode_id_bytes(id: &ThingsId) -> (r: Vec<u8>)
    ensures
        r@ == id_text(*id),
{
    crate::ids::base58::base58_encode_bytes(id.as_bytes().as_slice())
}

/// The compact text of an identifier is ASCII.
pub proof fn lemma_encode_is_ascii_text(id: ThingsId)
    ensures
        forall|k: int| 0 <= k < id_text(id).len() ==> #[trigger] id_text(id)[k] < 128,
{
    crate::ids::base58::lemma_encode_is_ascii(id.spec_bytes());
}

/// The first `need` bytes of an ASCII byte string, as a string.
fn ascii_prefix(bytes: &Vec<u8>, need: usize) -> (r: String)
    requires
        need <= bytes@.len(),
        forall|k: int| 0 <= k < bytes@.len() ==> #[trigger] bytes@[k] < 128,
    ensures
        r@ == ascii_chars(bytes@.take(need as int)),
{
    let mut v: Vec<u8> = Vec::new();
    let mut k: usize = 0;
    while k < need
        invariant
            k <= need <= bytes@.len(),
            v@ =~= bytes@.take(k as int),
        decreases need - k,
    {
        v.push(bytes[k]);
        k = k + 1;
    }
    crate::ids::base58::ascii_string(&v)
}

/// Two sequences that agree on their first `k` elements share a common
/// prefix of at least `k`.
pub proof fn lemma_lcp_at_least<T>(a: Seq<T>, b: Seq<T>, k: int)
    requires
        0 <= k <= a.len(),
        k <= b.len(),
        a.take(k) == b.take(k),
    ensures
        spec_lcp(a, b) >= k,
    decreases k,
{
    if k > 0 {
        assert(a[0] == a.take(k)[0]);
        assert(b[0] == b.take(k)[0]);
        assert(a.drop_first().take(k - 1) =~= b.drop_first().take(k - 1)) by {
            assert forall|j: int| 0 <= j < k - 1 implies #[trigger] a.drop_first().take(k - 1)[j]
                == b.drop_first().take(k - 1)[j] by {
                assert(a.take(k)[j + 1] == b.take(k)[j + 1]);
                assert(a.take(k)[j + 1] == a[j + 1]);
                assert(b.take(k)[j + 1] == b[j + 1]);
                assert(a.drop_first().take(k - 1)[j] == a[j + 1]);
                assert(b.drop_first().take(k - 1)[j] == b[j + 1]);
            }
        }
        lemma_lcp_at_least(a.drop_first(), b.drop_first(), k - 1);
    }
}

/// The largest common prefix with the other entries bounds every one of
/// them and, when positive, is reached by one of them.
pub proof fn lemma_max_lcp_bounds(text: Seq<u8>, ids: Seq<ThingsId>, skip: int)
    ensures
        forall|j: int|
            0 <= j < ids.len() && j != skip ==> spec_lcp(text, id_text(#[trigger] ids[j]))
                <= max_lcp_with_others(text, ids, skip),
        max_lcp_with_others(text, ids, skip) == 0 || exists|j: int|
            0 <= j < ids.len() && j != skip && spec_lcp(text, id_text(#[trigger] ids[j]))
                == max_lcp_with_others(text, ids, skip),
    decreases ids.len(),
{
    if ids.len() > 0 {
        let dl = ids.drop_last();
        lemma_max_lcp_bounds(text, dl, skip);
        assert forall|j: int|
            0 <= j < ids.len() && j != skip implies spec_lcp(text, id_text(#[trigger] ids[j]))
            <= max_lcp_with_others(text, ids, skip) by {
            if j < ids.len() - 1 {
                assert(ids[j] == dl[j]);
            }
        }
        let m = max_lcp_with_others(text, ids, skip);
        let r = max_lcp_with_others(text, dl, skip);
        if m != 0 {
            if m == r {
                let j = choose|j: int|
                    0 <= j < dl.len() && j != skip && spec_lcp(text, id_text(#[trigger] dl[j]))
                        == r;
                assert(ids[j] == dl[j]);
            } else {
                assert(spec_lcp(text, id_text(ids[ids.len() - 1])) == m);
            }
        }
    }
}

/// A unique prefix only ever opens another entry's text when the whole text
/// of its own entry does: among identifiers none of whose texts begins
/// another's, each prefix belongs to exactly one of them.
pub proof fn lemma_unique_prefix_is_unique(ids: Seq<ThingsId>, i: int, j: int)
    requires
        0 <= i < ids.len(),
        0 <= j < ids.len(),
        i != j,
        spec_unique_prefix(ids, i).is_prefix_of(id_text(ids[j])),
    ensures
        id_text(ids[i]).is_prefix_of(id_text(ids[j])),
{
    let t = id_text(ids[i]);
    let u = id_text(ids[j]);
    let m = max_lcp_with_others(t, ids, i);
    lemma_max_lcp_bounds(t, ids, i);
    if m + 1 < t.len() {
        let k = (m + 1) as int;
        assert(t.take(k) =~= u.take(k));
        lemma_lcp_at_least(t, u, k);
        assert(spec_lcp(t, id_text(ids[j])) <= m);
    }
}

/// Each unique prefix is as short as it can be: dropping its last character
/// leaves a prefix that another entry's text also begins with.
pub proof fn lemma_unique_prefix_is_minimal(ids: Seq<ThingsId>, i: int)
    requires
        0 <= i < ids.len(),
        spec_unique_prefix(ids, i).len() > 1,
    ensures
        exists|j: int|
            0 <= j < ids.len() && j != i && spec_unique_prefix(ids, i).take(
                spec_unique_prefix(ids, i).len() - 1,
            ).is_prefix_of(id_text(#[trigger] ids[j])),
{
    let t = id_text(ids[i]);
    let m = max_lcp_with_others(t, ids, i);
    lemma_max_lcp_bounds(t, ids, i);
    let p = spec_unique_prefix(ids, i);
    assert(m > 0);
    let j = choose|j: int|
        0 <= j < ids.len() && j != i && spec_lcp(t, id_text(#[trigger] ids[j])) == m;
    let u = id_text(ids[j]);
    lemma_lcp_props(t, u);
    let short = p.take(p.len() - 1);
    assert(short.len() <= m);
    assert(short =~= u.take(short.len() as int)) by {
        assert forall|k: int| 0 <= k < short.len() implies short[k] == u[k] by {
            assert(t.take(m as int)[k] == u.take(m as int)[k]);
        }
    }
    assert(short.is_prefix_of(u));
}

/// The code of the byte at `k`, and 0 past the end.
pub open spec fn byte_code(t: Seq<u8>, k: int) -> int {
    if 0 <= k < t.len() {
        t[k] as int
    } else {
        0
    }
}

/// Bytes `from..from+n` (zero past the end) read as one base-128 number.
pub open spec fn text_part(t: Seq<u8>, from: int, n: nat) -> int
    decreases n,
{
    if n == 0 {
        0
    } else {
        text_part(t, from, (n - 1) as nat) * 128 + byte_code(t, from + n - 1)
    }
}

/// The ordering key of an identifier's compact text: its first and second
/// sixteen characters as base-128 numbers, shorter texts padded with zero,
/// so that keys compare as the texts do.
pub open spec fn spec_id_key(id: ThingsId) -> (int, int) {
    (text_part(id_text(id), 0, 16), text_part(id_text(id), 16, 16))
}

proof fn lemma_text_part_bound(t: Seq<u8>, from: int, n: nat)
    requires
        forall|k: int| 0 <= k < t.len() ==> #[trigger] t[k] < 128,
    ensures
        0 <= text_part(t, from, n) < crate::ids::digits::pow(128, n),
    decreases n,
{
    crate::ids::digits::lemma_pow_positive(128, n);
    if n > 0 {
        lemma_text_part_bound(t, from, (n - 1) as nat);
        let a = text_part(t, from, (n - 1) as nat);
        let p = crate::ids::digits::pow(128, (n - 1) as nat);
        assert(crate::ids::digits::pow(128, n) == 128 * p);
        assert(0 <= byte_code(t, from + n - 1) < 128);
        assert(a * 128 + byte_code(t, from + n - 1) < p * 128) by (nonlinear_arith)
            requires
                0 <= a < p,
                0 <= byte_code(t, from + n - 1) < 128,
        ;
        assert(a * 128 + byte_code(t, from + n - 1) >= 0) by (nonlinear_arith)
            requires
                0 <= a,
                0 <= byte_code(t, from + n - 1),
        ;
    }
}

proof fn lemma_pow128_16()
    ensures
        crate::ids::digits::pow(128, 16) == 0x10000000000000000000000000000,
{
    reveal_with_fuel(crate::ids::digits::pow, 17);
}

fn part_of(t: &Vec<u8>, from: usize) -> (r: i128)
    requires
        from <= 16,
        forall|k: int| 0 <= k < t@.len() ==> #[trigger] t@[k] < 128,
    ensures
        r == text_part(t@, from as int, 16),
{
    let mut acc: i128 = 0;
    let mut n: usize = 0;
    while n < 16
        invariant
            from <= 16,
            n <= 16,
            forall|k: int| 0 <= k < t@.len() ==> #[trigger] t@[k] < 128,
            acc == text_part(t@, from as int, n as nat),
        decreases 16 - n,
    {
        let k = from + n;
        let code: i128 = if k < t.len() { t[k] as i128 } else { 0 };
        proof {
            lemma_text_part_bound(t@, from as int, (n + 1) as nat);
            crate::ids::digits::lemma_pow_monotone(128, (n + 1) as nat, 16);
            lemma_pow128_16();
        }
        acc = acc * 128 + code;
        n = n + 1;
    }
    acc
}

/// The ordering key of an identifier's compact text.
pub fn id_sort_key(id: &ThingsId) -> (r: (i128, i128))
    ensures
        r.0 == spec_id_key(*id).0,
        r.1 == spec_id_key(*id).1,
{
    let t = encode_id_bytes(id);
    proof {
        lemma_encode_is_ascii_text(*id);
    }
    (part_of(&t, 0), part_of(&t, 16))
}

} // verus!
