use vstd::prelude::*;

verus! {

/// `b` raised to the power `e`.
pub open spec fn pow(b: nat, e: nat) -> nat
    decreases e,
{
    if e == 0 {
        1
    } else {
        b * pow(b, (e - 1) as nat)
    }
}

/// Value of a digit sequence read most-significant digit first in base `b`.
pub open spec fn be_value(s: Seq<u8>, b: nat) -> nat
    decreases s.len(),
{
    if s.len() == 0 {
        0
    } else {
        be_value(s.drop_last(), b) * b + s.last() as nat
    }
}

/// Value of a digit sequence read least-significant digit first in base `b`.
pub open spec fn le_value(s: Seq<u8>, b: nat) -> nat
    decreases s.len(),
{
    if s.len() == 0 {
        0
    } else {
        s[0] as nat + b * le_value(s.drop_first(), b)
    }
}

/// The minimal most-significant-first digits of `n` in base `b` (empty for zero).
pub open spec fn be_digits(n: nat, b: nat) -> Seq<u8>
    decreases n,
{
    if n == 0 || b < 2 {
        Seq::empty()
    } else {
        proof {
            assert(n / b < n) by (nonlinear_arith)
                requires
                    b >= 2,
                    n > 0,
            ;
        }
        be_digits(n / b, b).push((n % b) as u8)
    }
}

/// Number of leading elements of `s` equal to `x`.
pub open spec fn leading_count<T>(s: Seq<T>, x: T) -> nat
    decreases s.len(),
{
    if s.len() == 0 || s[0] != x {
        0
    } else {
        1 + leading_count(s.drop_first(), x)
    }
}

/// Every element of `s` is below `b`.
pub open spec fn all_below(s: Seq<u8>, b: nat) -> bool {
    forall|i: int| 0 <= i < s.len() ==> (#[trigger] s[i]) < b
}

pub proof fn lemma_pow_positive(b: nat, e: nat)
    requires
        b >= 1,
    ensures
        pow(b, e) >= 1,
    decreases e,
{
    if e > 0 {
        lemma_pow_positive(b, (e - 1) as nat);
        assert(b * pow(b, (e - 1) as nat) >= 1) by (nonlinear_arith)
            requires
                b >= 1,
                pow(b, (e - 1) as nat) >= 1,
        ;
    }
}

pub proof fn lemma_leading_count(s: Seq<u8>, x: u8, i: int)
    requires
        0 <= i <= s.len(),
        forall|k: int| 0 <= k < i ==> s[k] == x,
        i == s.len() || s[i] != x,
    ensures
        leading_count(s, x) == i,
    decreases i,
{
    if i > 0 {
        lemma_leading_count(s.drop_first(), x, i - 1);
    }
}

pub proof fn lemma_leading_count_char(s: Seq<char>, x: char, i: int)
    requires
        0 <= i <= s.len(),
        forall|k: int| 0 <= k < i ==> s[k] == x,
        i == s.len() || s[i] != x,
    ensures
        leading_count(s, x) == i,
    decreases i,
{
    if i > 0 {
        lemma_leading_count_char(s.drop_first(), x, i - 1);
    }
}

/// Extending a least-significant-first prefix by one digit adds that digit
/// at its place value.
pub proof fn lemma_le_take_step(s: Seq<u8>, b: nat, j: int)
    requires
        0 <= j < s.len(),
    ensures
        le_value(s.take(j + 1), b) == le_value(s.take(j), b) + s[j] as nat * pow(b, j as nat),
    decreases j,
{
    if j == 0 {
        assert(s.take(1).drop_first() =~= Seq::<u8>::empty());
        assert(s.take(0) =~= Seq::<u8>::empty());
        assert(s.take(1)[0] == s[0]);
        assert(pow(b, 0) == 1);
        assert(le_value(s.take(1).drop_first(), b) == 0);
        assert(b * le_value(s.take(1).drop_first(), b) == 0) by (nonlinear_arith)
            requires
                le_value(s.take(1).drop_first(), b) == 0,
        ;
        assert(s[0] as nat * pow(b, 0) == s[0] as nat) by (nonlinear_arith)
            requires
                pow(b, 0) == 1,
        ;
        assert(le_value(s.take(1), b) == s[0] as nat);
        assert(le_value(s.take(0), b) == 0);
    } else {
        let t = s.drop_first();
        lemma_le_take_step(t, b, j - 1);
        assert(s.take(j + 1).drop_first() =~= t.take(j));
        assert(s.take(j).drop_first() =~= t.take(j - 1));
        assert(t[j - 1] == s[j]);
        let a = le_value(t.take(j - 1), b);
        let d = s[j] as nat;
        let p = pow(b, (j - 1) as nat);
        assert(b * (a + d * p) == b * a + d * (b * p)) by (nonlinear_arith);
        assert(pow(b, j as nat) == b * p);
        assert(s.take(j + 1)[0] == s[0]);
        assert(s.take(j)[0] == s[0]);
        assert(le_value(s.take(j + 1), b) == s[0] as nat + b * le_value(t.take(j), b));
        assert(le_value(s.take(j), b) == s[0] as nat + b * a);
    }
}

/// A least-significant-first sequence whose top digit is nonzero has a
/// positive value.
pub proof fn lemma_le_positive(s: Seq<u8>, b: nat)
    requires
        s.len() > 0,
        s.last() != 0,
        b >= 1,
    ensures
        le_value(s, b) > 0,
    decreases s.len(),
{
    if s.len() > 1 {
        lemma_le_positive(s.drop_first(), b);
        assert(b * le_value(s.drop_first(), b) > 0) by (nonlinear_arith)
            requires
                b >= 1,
                le_value(s.drop_first(), b) > 0,
        ;
    }
}

/// Reversing a normalized least-significant-first sequence gives the minimal
/// most-significant-first digits of its value.
pub proof fn lemma_le_reverse_is_digits(s: Seq<u8>, b: nat)
    requires
        b >= 2,
        b <= 256,
        all_below(s, b),
        s.len() == 0 || s.last() != 0,
    ensures
        s.reverse() == be_digits(le_value(s, b), b),
    decreases s.len(),
{
    if s.len() == 0 {
        assert(s.reverse() =~= Seq::<u8>::empty());
    } else {
        let t = s.drop_first();
        lemma_le_reverse_is_digits(t, b);
        lemma_le_positive(s, b);
        let n = le_value(s, b);
        let m = le_value(t, b);
        let d = s[0] as nat;
        assert(n == d + b * m);
        assert(d < b);
        assert(n / b == m && n % b == d) by (nonlinear_arith)
            requires
                n == d + b * m,
                d < b,
                b >= 2,
        ;
        assert(s.reverse() =~= t.reverse().push(s[0]));
    }
}

/// Digits of a number are all below the base.
pub proof fn lemma_be_digits_below(n: nat, b: nat)
    requires
        b >= 2,
    ensures
        all_below(be_digits(n, b), b),
    decreases n,
{
    if n != 0 {
        assert(n / b < n) by (nonlinear_arith)
            requires
                b >= 2,
                n > 0,
        ;
        lemma_be_digits_below(n / b, b);
        assert(n % b < b) by (nonlinear_arith)
            requires
                b >= 2,
        ;
    }
}

/// The leading digit of a positive number is nonzero.
pub proof fn lemma_be_digits_first_nonzero(n: nat, b: nat)
    requires
        b >= 2,
        b <= 256,
        n > 0,
    ensures
        be_digits(n, b).len() > 0,
        be_digits(n, b)[0] != 0,
    decreases n,
{
    assert(n / b < n) by (nonlinear_arith)
        requires
            b >= 2,
            n > 0,
    ;
    if n / b == 0 {
        assert(n % b == n) by (nonlinear_arith)
            requires
                b >= 2,
                n / b == 0,
                n > 0,
        ;
        assert(n < b) by (nonlinear_arith)
            requires
                b >= 2,
                n / b == 0,
                n > 0,
        ;
        assert(be_digits(n / b, b) =~= Seq::<u8>::empty());
    } else {
        lemma_be_digits_first_nonzero(n / b, b);
    }
}

/// Reading the minimal digits of `n` gives back `n`.
pub proof fn lemma_be_value_of_digits(n: nat, b: nat)
    requires
        b >= 2,
        b <= 256,
    ensures
        be_value(be_digits(n, b), b) == n,
    decreases n,
{
    if n != 0 {
        assert(n / b < n) by (nonlinear_arith)
            requires
                b >= 2,
                n > 0,
        ;
        lemma_be_value_of_digits(n / b, b);
        let ds = be_digits(n, b);
        assert(ds.drop_last() =~= be_digits(n / b, b));
        assert(n % b < b) by (nonlinear_arith)
            requires
                b >= 2,
        ;
        assert((n / b) * b + n % b == n) by (nonlinear_arith)
            requires
                b >= 2,
        ;
    }
}

/// A most-significant-first digit sequence without a leading zero is the
/// minimal digit sequence of its value.
pub proof fn lemma_digits_of_be_value(t: Seq<u8>, b: nat)
    requires
        b >= 2,
        b <= 256,
        all_below(t, b),
        t.len() == 0 || t[0] != 0,
    ensures
        be_digits(be_value(t, b), b) == t,
    decreases t.len(),
{
    if t.len() == 0 {
        assert(be_digits(0, b) =~= t);
    } else {
        let dl = t.drop_last();
        let n = be_value(t, b);
        let m = be_value(dl, b);
        let d = t.last() as nat;
        if dl.len() > 0 {
            assert(dl[0] == t[0]);
        }
        lemma_digits_of_be_value(dl, b);
        lemma_be_value_positive(t, b);
        assert(d < b);
        assert(n / b == m && n % b == d) by (nonlinear_arith)
            requires
                n == m * b + d,
                d < b,
                b >= 2,
        ;
        assert(t =~= dl.push(t.last()));
    }
}

/// A most-significant-first sequence with a nonzero leading digit has a
/// positive value.
pub proof fn lemma_be_value_positive(t: Seq<u8>, b: nat)
    requires
        t.len() > 0,
        t[0] != 0,
        b >= 1,
    ensures
        be_value(t, b) > 0,
    decreases t.len(),
{
    if t.len() > 1 {
        let dl = t.drop_last();
        assert(dl[0] == t[0]);
        lemma_be_value_positive(dl, b);
        assert(be_value(dl, b) * b > 0) by (nonlinear_arith)
            requires
                b >= 1,
                be_value(dl, b) > 0,
        ;
    }
}

/// A most-significant-first sequence of digits below `b` is below `b` to the
/// power of its length.
pub proof fn lemma_be_value_bound(t: Seq<u8>, b: nat)
    requires
        b >= 1,
        all_below(t, b),
    ensures
        be_value(t, b) < pow(b, t.len()),
    decreases t.len(),
{
    if t.len() > 0 {
        let dl = t.drop_last();
        lemma_be_value_bound(dl, b);
        let m = be_value(dl, b);
        let p = pow(b, dl.len());
        assert(m * b + (t.last() as nat) < p * b) by (nonlinear_arith)
            requires
                m < p,
                (t.last() as nat) < b,
        ;
        assert(pow(b, t.len()) == b * p);
    }
}

/// A number below `b` to the `k` has at most `k` minimal digits.
pub proof fn lemma_digits_len_bound(n: nat, b: nat, k: nat)
    requires
        b >= 2,
        n < pow(b, k),
    ensures
        be_digits(n, b).len() <= k,
    decreases n,
{
    if n > 0 {
        assert(k > 0) by {
            if k == 0 {
                assert(pow(b, 0) == 1);
            }
        }
        let p = pow(b, (k - 1) as nat);
        assert(pow(b, k) == b * p);
        assert(n / b < p) by (nonlinear_arith)
            requires
                n < b * p,
                b >= 2,
        ;
        assert(n / b < n) by (nonlinear_arith)
            requires
                b >= 2,
                n > 0,
        ;
        lemma_digits_len_bound(n / b, b, (k - 1) as nat);
    }
}

/// Powers grow with the exponent.
pub proof fn lemma_pow_monotone(b: nat, e1: nat, e2: nat)
    requires
        b >= 1,
        e1 <= e2,
    ensures
        pow(b, e1) <= pow(b, e2),
    decreases e2,
{
    if e1 < e2 {
        lemma_pow_monotone(b, e1, (e2 - 1) as nat);
        lemma_pow_positive(b, (e2 - 1) as nat);
        assert(pow(b, (e2 - 1) as nat) <= b * pow(b, (e2 - 1) as nat)) by (nonlinear_arith)
            requires
                b >= 1,
        ;
    }
}

} // verus!
