//! Ordering lists by integer keys.
use vstd::prelude::*;

verus! {

broadcast use vstd::seq_lib::group_to_multiset_ensures;

/// Lists with the same items still have the same items after each item is
/// mapped by `f`.
pub proof fn lemma_map_values_to_multiset<A, B>(s1: Seq<A>, s2: Seq<A>, f: spec_fn(A) -> B)
    requires
        s1.to_multiset() == s2.to_multiset(),
    ensures
        s1.map_values(f).to_multiset() == s2.map_values(f).to_multiset(),
    decreases s1.len(),
{
    broadcast use vstd::multiset::group_multiset_axioms;

    if s1.len() == 0 {
        assert(s2.len() == s2.to_multiset().len());
        assert(s1.map_values(f) =~= Seq::<B>::empty());
        assert(s2.map_values(f) =~= Seq::<B>::empty());
    } else {
        let n = s1.len() - 1;
        let a = s1[n];
        assert(s1.contains(a));
        assert(s1.to_multiset().count(a) > 0);
        assert(s2.to_multiset().count(a) > 0);
        assert(s2.contains(a));
        let i = choose|i: int| 0 <= i < s2.len() && s2[i] == a;
        assert(s1.remove(n) =~= s1.drop_last());
        assert(s1.remove(n).to_multiset() == s1.to_multiset().remove(a));
        assert(s2.remove(i).to_multiset() == s2.to_multiset().remove(a));
        lemma_map_values_to_multiset(s1.drop_last(), s2.remove(i), f);
        let m1 = s1.map_values(f);
        let m2 = s2.map_values(f);
        assert(m1 =~= s1.drop_last().map_values(f).push(f(a)));
        assert(m2.remove(i) =~= s2.remove(i).map_values(f));
        assert(m2.remove(i).to_multiset() == m2.to_multiset().remove(f(a)));
        assert(m2.contains(f(a))) by {
            assert(m2[i] == f(a));
        }
        assert(m2.to_multiset().count(f(a)) > 0);
        assert(m1.to_multiset() =~= m2.to_multiset());
    }
}

/// Lexicographic order of integer quadruples.
pub open spec fn key_le(a: (i128, i128, i128, i128), b: (i128, i128, i128, i128)) -> bool {
    a.0 < b.0 || (a.0 == b.0 && (a.1 < b.1 || (a.1 == b.1 && (a.2 < b.2 || (a.2 == b.2 && a.3
        <= b.3)))))
}

/// Whether the items are in ascending order of `key`.
pub open spec fn sorted_by<T>(s: Seq<T>, key: spec_fn(T) -> (i128, i128, i128, i128)) -> bool {
    forall|i: int, j: int| 0 <= i < j < s.len() ==> key_le(key(#[trigger] s[i]), key(#[trigger] s[j]))
}

fn key_leq(a: (i128, i128, i128, i128), b: (i128, i128, i128, i128)) -> (r: bool)
    ensures
        r == key_le(a, b),
{
    a.0 < b.0 || (a.0 == b.0 && (a.1 < b.1 || (a.1 == b.1 && (a.2 < b.2 || (a.2 == b.2 && a.3
        <= b.3)))))
}

/// The items in ascending order of their keys (a permutation of the input);
/// `key` computes the key that `spec_key` names.
pub fn sort_by<T, F: Fn(&T) -> (i128, i128, i128, i128)>(
    v: Vec<T>,
    key: F,
    Ghost(spec_key): Ghost<spec_fn(T) -> (i128, i128, i128, i128)>,
) -> (r: Vec<T>)
    requires
        forall|x: &T| #[trigger] key.requires((x,)),
        forall|x: &T, k: (i128, i128, i128, i128)| key.ensures((x,), k) ==> k == spec_key(*x),
    ensures
        r@.to_multiset() == v@.to_multiset(),
        sorted_by(r@, spec_key),
{
    let ghost orig = v@;
    let mut rest = v;
    let mut out: Vec<T> = Vec::new();
    while rest.len() > 0
        invariant
            forall|x: &T| #[trigger] key.requires((x,)),
            forall|x: &T, k: (i128, i128, i128, i128)| key.ensures((x,), k) ==> k == spec_key(*x),
            rest@.len() <= orig.len(),
            rest@ == orig.take(rest@.len() as int),
            out@.to_multiset() == orig.subrange(rest@.len() as int, orig.len() as int).to_multiset(),
            sorted_by(out@, spec_key),
        decreases rest@.len(),
    {
        let x = rest.pop().unwrap();
        let kx = key(&x);
        let ghost n = rest@.len();
        let mut p: usize = 0;
        while p < out.len() && key_leq(key(&out[p]), kx)
            invariant
                forall|x: &T| #[trigger] key.requires((x,)),
                forall|x: &T, k: (i128, i128, i128, i128)| key.ensures((x,), k) ==> k == spec_key(*x),
                kx == spec_key(x),
                p <= out@.len(),
                forall|j: int| 0 <= j < p ==> key_le(spec_key(#[trigger] out@[j]), kx),
            decreases out@.len() - p,
        {
            p = p + 1;
        }
        let ghost before = out@;
        proof {
            assert forall|j: int| p <= j < before.len() implies !key_le(spec_key(#[trigger] before[j]), kx) by {
                if p < before.len() {
                    assert(!key_le(spec_key(before[p as int]), kx));
                    if j > p {
                        assert(key_le(spec_key(before[p as int]), spec_key(before[j])));
                    }
                }
            }
        }
        out.insert(p, x);
        proof {
            assert(orig.subrange(n as int, orig.len() as int) =~= orig.subrange(
                n as int + 1,
                orig.len() as int,
            ).insert(0, x));
            assert(orig[n as int] == x);
            assert(rest@ =~= orig.take(n as int));
            assert forall|i: int, j: int| 0 <= i < j < out@.len() implies key_le(
                spec_key(#[trigger] out@[i]),
                spec_key(#[trigger] out@[j]),
            ) by {
                if j < p {
                } else if j == p {
                } else if i < p {
                    assert(key_le(spec_key(before[i]), kx));
                    assert(!key_le(spec_key(before[j - 1]), kx));
                } else if i == p {
                    assert(!key_le(spec_key(before[j - 1]), kx));
                } else {
                    assert(key_le(spec_key(before[i - 1]), spec_key(before[j - 1])));
                }
            }
        }
    }
    proof {
        assert(orig.subrange(0, orig.len() as int) =~= orig);
    }
    out
}

} // verus!
