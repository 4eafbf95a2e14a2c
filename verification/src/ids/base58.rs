use vstd::prelude::*;
use vstd::string::StringSliceAdditionalSpecFns;

use crate::ids::digits::{
    all_below, be_digits, be_value, le_value, leading_count, lemma_be_digits_below,
    lemma_be_digits_first_nonzero, lemma_be_value_of_digits, lemma_digits_of_be_value,
    lemma_le_reverse_is_digits, lemma_le_take_step, lemma_leading_count, lemma_leading_count_char,
    pow,
};

verus! {

/// ASCII code of base58 digit `d` in the alphabet
/// `123456789ABCDEFGHJKLMNPQRSTUVWXYZabcdefghijkmnopqrstuvwxyz`.
pub open spec fn alphabet_byte(d: nat) -> u8 {
    if d < 9 {
        (49 + d) as u8
    } else if d < 17 {
        (65 + (d - 9)) as u8
    } else if d < 22 {
        (74 + (d - 17)) as u8
    } else if d < 33 {
        (80 + (d - 22)) as u8
    } else if d < 44 {
        (97 + (d - 33)) as u8
    } else {
        (109 + (d - 44)) as u8
    }
}

/// Whether byte `c` is one of the 58 alphabet characters.
pub open spec fn is_alphabet_byte(c: u8) -> bool {
    exists|d: nat| d < 58 && alphabet_byte(d) == c
}

/// The digit value of an alphabet byte.
pub open spec fn byte_digit(c: u8) -> nat {
    choose|d: nat| d < 58 && alphabet_byte(d) == c
}

/// A sequence of `n` copies of `x`.
pub open spec fn repeat<T>(x: T, n: nat) -> Seq<T> {
    Seq::new(n, |_i: int| x)
}

/// Base58 text (as ASCII bytes) of a byte string: one `1` per leading zero
/// byte, then the minimal base58 digits of the remaining bytes read as a
/// big-endian number.
pub open spec fn spec_base58_encode(raw: Seq<u8>) -> Seq<u8> {
    let z = leading_count(raw, 0u8);
    repeat(49u8, z) + be_digits(be_value(raw.skip(z as int), 256), 58).map_values(
        |d: u8| alphabet_byte(d as nat),
    )
}

/// Bytes denoted by a base58 text (given as bytes), or `None` when a byte lies
/// outside the alphabet: one zero byte per leading `1`, then the minimal
/// big-endian bytes of the remaining digits' value.
pub open spec fn spec_base58_decode(input: Seq<u8>) -> Option<Seq<u8>> {
    if forall|i: int| 0 <= i < input.len() ==> is_alphabet_byte(#[trigger] input[i]) {
        let k = leading_count(input, 49u8);
        let ds = input.skip(k as int).map_values(|c: u8| byte_digit(c) as u8);
        Some(repeat(0u8, k) + be_digits(be_value(ds, 58), 256))
    } else {
        None
    }
}

/// The characters of an ASCII byte sequence.
pub open spec fn ascii_chars(bytes: Seq<u8>) -> Seq<char> {
    bytes.map_values(|b: u8| b as char)
}

proof fn lemma_alphabet_injective(a: nat, b: nat)
    requires
        a < 58,
        b < 58,
        alphabet_byte(a) == alphabet_byte(b),
    ensures
        a == b,
{
}

proof fn lemma_byte_digit(d: nat)
    requires
        d < 58,
    ensures
        is_alphabet_byte(alphabet_byte(d)),
        byte_digit(alphabet_byte(d)) == d,
        alphabet_byte(d) < 128,
{
    let c = alphabet_byte(d);
    assert(d < 58 && alphabet_byte(d) == c);
    let e = byte_digit(c);
    lemma_alphabet_injective(d, e);
}

/// The digit value of an ASCII byte in the base58 alphabet.
pub fn base58_digit(byte: u8) -> (r: Option<u8>)
    ensures
        match r {
            Some(d) => d < 58 && alphabet_byte(d as nat) == byte,
            None => forall|d: nat| d < 58 ==> alphabet_byte(d) != byte,
        },
{
    if 49 <= byte && byte <= 57 {
        Some(byte - 49)
    } else if 65 <= byte && byte <= 72 {
        Some(byte - 65 + 9)
    } else if 74 <= byte && byte <= 78 {
        Some(byte - 74 + 17)
    } else if 80 <= byte && byte <= 90 {
        Some(byte - 80 + 22)
    } else if 97 <= byte && byte <= 107 {
        Some(byte - 97 + 33)
    } else if 109 <= byte && byte <= 122 {
        Some(byte - 109 + 44)
    } else {
        None
    }
}

fn alphabet_at(d: u8) -> (c: u8)
    requires
        d < 58,
    ensures
        c == alphabet_byte(d as nat),
{
    let b: u8 = if d < 9 {
        49 + d
    } else if d < 17 {
        65 + (d - 9)
    } else if d < 22 {
        74 + (d - 17)
    } else if d < 33 {
        80 + (d - 22)
    } else if d < 44 {
        97 + (d - 33)
    } else {
        109 + (d - 44)
    };
    b
}

proof fn lemma_encode_step(
    l_j: nat,
    l_j1: nat,
    o_j: nat,
    o_j1: nat,
    c: nat,
    c1: nat,
    nd: nat,
    od: nat,
    p: nat,
    p1: nat,
    byte: nat,
    base_in: nat,
    base_out: nat,
)
    requires
        l_j + c * p == o_j * base_in + byte,
        l_j1 == l_j + nd * p,
        o_j1 == o_j + od * p,
        od * base_in + c == nd + base_out * c1,
        p1 == base_out * p,
    ensures
        l_j1 + c1 * p1 == o_j1 * base_in + byte,
{
    assert(l_j1 + c1 * p1 == l_j + p * (nd + base_out * c1)) by (nonlinear_arith)
        requires
            l_j1 == l_j + nd * p,
            p1 == base_out * p,
    ;
    assert(p * (od * base_in + c) == od * p * base_in + c * p) by (nonlinear_arith);
    assert(o_j1 * base_in == o_j * base_in + od * p * base_in) by (nonlinear_arith)
        requires
            o_j1 == o_j + od * p,
    ;
}

/// Multiplies the least-significant-first number `digits` (base `base_out`)
/// by `base_in` and adds `incoming`, in place.
fn mul_add_in_place(digits: &mut Vec<u8>, base_in: u32, base_out: u32, incoming: u32)
    requires
        (base_in == 256 && base_out == 58) || (base_in == 58 && base_out == 256),
        incoming < base_in,
        all_below(old(digits)@, base_out as nat),
        old(digits)@.len() == 0 || old(digits)@.last() != 0,
    ensures
        le_value(final(digits)@, base_out as nat) == le_value(old(digits)@, base_out as nat)
            * base_in as nat + incoming as nat,
        all_below(final(digits)@, base_out as nat),
        final(digits)@.len() == 0 || final(digits)@.last() != 0,
{
    let ghost old_d = digits@;
    let ghost bo = base_out as nat;
    let len = digits.len();
    let mut carry: u32 = incoming;
    let mut j: usize = 0;
    proof {
        assert(digits@.take(0) =~= Seq::<u8>::empty());
        assert(old_d.take(0) =~= Seq::<u8>::empty());
        assert(pow(bo, 0) == 1);
        assert(carry as nat * pow(bo, 0) == carry as nat) by (nonlinear_arith)
            requires
                pow(bo, 0) == 1,
        ;
        assert(le_value(old_d.take(0), bo) * base_in as nat == 0) by (nonlinear_arith)
            requires
                le_value(old_d.take(0), bo) == 0,
        ;
    }
    while j < len
        invariant
            (base_in == 256 && base_out == 58) || (base_in == 58 && base_out == 256),
            bo == base_out as nat,
            len == old_d.len(),
            digits@.len() == len,
            j <= len,
            carry < base_in,
            all_below(digits@, bo),
            all_below(old_d, bo),
            old_d.len() == 0 || old_d.last() != 0,
            forall|k: int| j <= k < len ==> digits@[k] == old_d[k],
            le_value(digits@.take(j as int), bo) + carry as nat * pow(bo, j as nat)
                == le_value(old_d.take(j as int), bo) * base_in as nat + incoming as nat,
            (j == len && len > 0) ==> (carry > 0 || digits@[len - 1] != 0),
        decreases len - j,
    {
        let od = digits[j];
        let value: u32 = od as u32 * base_in + carry;
        let nd: u8 = (value % base_out) as u8;
        let c1: u32 = value / base_out;
        proof {
            assert(value == nd as u32 + base_out * c1) by (nonlinear_arith)
                requires
                    nd == value % base_out,
                    c1 == value / base_out,
                    base_out > 0,
            ;
            if base_in == 256 {
                assert(c1 < 256) by (nonlinear_arith)
                    requires
                        value == od as u32 * 256 + carry,
                        od < 58,
                        carry < 256,
                        c1 == value / 58,
                ;
            } else {
                assert(c1 < 58) by (nonlinear_arith)
                    requires
                        value == od as u32 * 58 + carry,
                        od < 256,
                        carry < 58,
                        c1 == value / 256,
                ;
            }
            if j + 1 == len {
                assert(od == old_d.last());
                if c1 == 0 {
                    assert(nd > 0) by (nonlinear_arith)
                        requires
                            value == nd as u32 + base_out * c1,
                            c1 == 0,
                            value == od as u32 * base_in + carry,
                            od >= 1,
                            base_in >= 58,
                    ;
                }
            }
        }
        let ghost before = digits@;
        digits.set(j, nd);
        proof {
            assert(digits@.take(j as int) =~= before.take(j as int));
            lemma_le_take_step(digits@, bo, j as int);
            lemma_le_take_step(old_d, bo, j as int);
            assert(pow(bo, (j + 1) as nat) == bo * pow(bo, j as nat));
            lemma_encode_step(
                le_value(before.take(j as int), bo),
                le_value(digits@.take(j + 1), bo),
                le_value(old_d.take(j as int), bo),
                le_value(old_d.take(j + 1), bo),
                carry as nat,
                c1 as nat,
                nd as nat,
                od as nat,
                pow(bo, j as nat),
                pow(bo, (j + 1) as nat),
                incoming as nat,
                base_in as nat,
                bo,
            );
        }
        carry = c1;
        j = j + 1;
    }
    proof {
        assert(digits@.take(len as int) =~= digits@);
        assert(old_d.take(len as int) =~= old_d);
    }
    let ghost target = le_value(old_d, bo) * base_in as nat + incoming as nat;
    let ghost pushed_from = digits@.len();
    while carry > 0
        invariant
            (base_in == 256 && base_out == 58) || (base_in == 58 && base_out == 256),
            bo == base_out as nat,
            all_below(digits@, bo),
            digits@.len() >= pushed_from,
            le_value(digits@, bo) + carry as nat * pow(bo, digits@.len() as nat) == target,
            digits@.len() > pushed_from ==> digits@.last() != 0 || carry > 0,
            digits@.len() == pushed_from ==> (carry > 0 || old_d.len() == 0 || digits@.last()
                != 0),
            pushed_from == old_d.len(),
        decreases carry,
    {
        let d: u8 = (carry % base_out) as u8;
        let c1: u32 = carry / base_out;
        let ghost before = digits@;
        proof {
            assert(carry == d as u32 + base_out * c1) by (nonlinear_arith)
                requires
                    d == carry % base_out,
                    c1 == carry / base_out,
                    base_out > 0,
            ;
            assert(c1 < carry) by (nonlinear_arith)
                requires
                    c1 == carry / base_out,
                    base_out >= 2,
                    carry > 0,
            ;
            if c1 == 0 {
                assert(d as u32 == carry);
            }
        }
        digits.push(d);
        proof {
            let n = before.len();
            assert(digits@.take(n as int) =~= before);
            assert(digits@.take(n + 1 as int) =~= digits@);
            lemma_le_take_step(digits@, bo, n as int);
            assert(pow(bo, (n + 1) as nat) == bo * pow(bo, n as nat));
            let p = pow(bo, n as nat);
            assert(le_value(digits@, bo) + c1 as nat * (bo * p) == le_value(before, bo) + p * (
            d as nat + bo * c1 as nat)) by (nonlinear_arith)
                requires
                    le_value(digits@, bo) == le_value(before, bo) + d as nat * p,
            ;
            assert(p * (d as nat + bo * c1 as nat) == carry as nat * p) by (nonlinear_arith)
                requires
                    carry as nat == d as nat + bo * c1 as nat,
            ;
        }
        carry = c1;
    }
}

/// Encodes bytes as base58 text.
pub fn base58_encode(raw: &[u8]) -> (out: String)
    ensures
        out@ == ascii_chars(spec_base58_encode(raw@)),
{
    let text = base58_encode_bytes(raw);
    proof {
        lemma_encode_is_ascii(raw@);
    }
    ascii_string(&text)
}

/// Encodes bytes as base58 text, given as its ASCII bytes.
pub fn base58_encode_bytes(raw: &[u8]) -> (out: Vec<u8>)
    ensures
        out@ == spec_base58_encode(raw@),
{
    let n = raw.len();
    if n == 0 {
        proof {
            assert(raw@.skip(0) =~= Seq::<u8>::empty());
            assert(spec_base58_encode(raw@) =~= Seq::<u8>::empty());
        }
        return Vec::new();
    }
    let mut z: usize = 0;
    while z < n && raw[z] == 0
        invariant
            z <= n,
            n == raw@.len(),
            forall|k: int| 0 <= k < z ==> raw@[k] == 0,
        decreases n - z,
    {
        z = z + 1;
    }
    proof {
        lemma_leading_count(raw@, 0u8, z as int);
    }
    let mut digits: Vec<u8> = Vec::new();
    let mut i: usize = z;
    proof {
        assert(raw@.subrange(z as int, z as int) =~= Seq::<u8>::empty());
    }
    while i < n
        invariant
            z <= i <= n,
            n == raw@.len(),
            all_below(digits@, 58),
            digits@.len() == 0 || digits@.last() != 0,
            le_value(digits@, 58) == be_value(raw@.subrange(z as int, i as int), 256),
        decreases n - i,
    {
        let byte = raw[i];
        mul_add_in_place(&mut digits, 256, 58, byte as u32);
        proof {
            assert(raw@.subrange(z as int, i + 1).drop_last() =~= raw@.subrange(
                z as int,
                i as int,
            ));
        }
        i = i + 1;
    }
    proof {
        assert(raw@.subrange(z as int, n as int) =~= raw@.skip(z as int));
        lemma_le_reverse_is_digits(digits@, 58);
    }
    let ghost ds = be_digits(be_value(raw@.skip(z as int), 256), 58);
    let mut out: Vec<u8> = Vec::new();
    let mut k: usize = 0;
    while k < z
        invariant
            k <= z,
            out@ =~= repeat(49u8, k as nat),
        decreases z - k,
    {
        out.push(49u8);
        k = k + 1;
    }
    let dl = digits.len();
    let mut m: usize = 0;
    while m < dl
        invariant
            m <= dl,
            dl == digits@.len(),
            ds == digits@.reverse(),
            all_below(digits@, 58),
            out@ =~= repeat(49u8, z as nat) + ds.take(m as int).map_values(
                |d: u8| alphabet_byte(d as nat),
            ),
        decreases dl - m,
    {
        let d = digits[dl - 1 - m];
        let c = alphabet_at(d);
        out.push(c);
        proof {
            assert(ds[m as int] == d);
            assert(ds.take(m + 1).map_values(|d: u8| alphabet_byte(d as nat)) =~= ds.take(
                m as int,
            ).map_values(|d: u8| alphabet_byte(d as nat)).push(c));
        }
        m = m + 1;
    }
    proof {
        assert(ds.take(dl as int) =~= ds);
    }
    out
}

/// The base58 text of any byte string is ASCII.
pub proof fn lemma_encode_is_ascii(raw: Seq<u8>)
    ensures
        forall|i: int|
            0 <= i < spec_base58_encode(raw).len() ==> #[trigger] spec_base58_encode(raw)[i] < 128,
{
    let z = leading_count(raw, 0u8);
    let n = be_value(raw.skip(z as int), 256);
    let ds = be_digits(n, 58);
    lemma_be_digits_below(n, 58);
    let text = spec_base58_encode(raw);
    assert forall|i: int| 0 <= i < text.len() implies #[trigger] text[i] < 128 by {
        if i >= z {
            lemma_byte_digit(ds[i - z] as nat);
        }
    }
}

/// The string whose characters are the given bytes, each read as a
/// character (as ASCII bytes are).
pub(crate) fn ascii_string(bytes: &Vec<u8>) -> (res: String)
    ensures
        res@ == ascii_chars(bytes@),
{
    let mut cs: Vec<char> = Vec::new();
    let mut i: usize = 0;
    while i < bytes.len()
        invariant
            i <= bytes@.len(),
            cs@ == ascii_chars(bytes@.take(i as int)),
        decreases bytes@.len() - i,
    {
        let b = bytes[i];
        cs.push(b as char);
        i = i + 1;
        proof {
            assert(cs@ =~= ascii_chars(bytes@.take(i as int)));
        }
    }
    proof {
        assert(bytes@.take(bytes@.len() as int) =~= bytes@);
    }
    crate::text::string_from_chars(&cs)
}

/// Decodes base58 text into bytes, or `None` when it holds a character
/// outside the alphabet.
pub fn base58_decode(input: &str) -> (r: Option<Vec<u8>>)
    ensures
        match r {
            Some(v) => spec_base58_decode(input.spec_bytes()) == Some(v@),
            None => spec_base58_decode(input.spec_bytes()) is None,
        },
{
    if input.is_empty() {
        proof {
            assert(input.spec_bytes() =~= Seq::<u8>::empty());
            assert(input.spec_bytes().skip(0) =~= Seq::<u8>::empty());
            assert(spec_base58_decode(input.spec_bytes()) == Some(Seq::<u8>::empty()));
        }
        return Some(Vec::new());
    }
    let bytes = input.as_bytes();
    let n = bytes.len();
    let mut k: usize = 0;
    while k < n && bytes[k] == 49
        invariant
            k <= n,
            n == bytes@.len(),
            forall|j: int| 0 <= j < k ==> bytes@[j] == 49,
        decreases n - k,
    {
        k = k + 1;
    }
    proof {
        lemma_leading_count(bytes@, 49u8, k as int);
    }
    let ghost rest = bytes@.skip(k as int);
    let ghost ds = rest.map_values(|c: u8| byte_digit(c) as u8);
    let mut decoded: Vec<u8> = Vec::new();
    let mut i: usize = k;
    proof {
        assert(ds.take(0) =~= Seq::<u8>::empty());
        assert forall|j: int| 0 <= j < k implies is_alphabet_byte(#[trigger] bytes@[j]) by {
            lemma_byte_digit(0);
        }
    }
    while i < n
        invariant
            k <= i <= n,
            n == bytes@.len(),
            bytes@ == input.spec_bytes(),
            rest == bytes@.skip(k as int),
            ds == rest.map_values(|c: u8| byte_digit(c) as u8),
            forall|j: int| 0 <= j < i ==> is_alphabet_byte(#[trigger] bytes@[j]),
            decoded@.len() == 0 || decoded@.last() != 0,
            all_below(decoded@, 256),
            le_value(decoded@, 256) == be_value(ds.take(i - k), 58),
        decreases n - i,
    {
        let c = bytes[i];
        match base58_digit(c) {
            None => {
                proof {
                    assert(!(exists|d: nat| d < 58 && alphabet_byte(d) == c));
                    assert(!is_alphabet_byte(bytes@[i as int]));
                    assert(bytes@ == input.spec_bytes());
                    assert(!is_alphabet_byte(input.spec_bytes()[i as int]));
                }
                return None;
            },
            Some(dv) => {
                proof {
                    lemma_byte_digit(dv as nat);
                    assert(ds[i - k] == dv);
                    assert(ds.take(i + 1 - k).drop_last() =~= ds.take(i - k));
                }
                mul_add_in_place(&mut decoded, 58, 256, dv as u32);
            },
        }
        i = i + 1;
    }
    proof {
        assert(ds.take(n - k) =~= ds);
        lemma_le_reverse_is_digits(decoded@, 256);
    }
    let mut out: Vec<u8> = Vec::new();
    let mut z: usize = 0;
    while z < k
        invariant
            z <= k,
            out@ =~= repeat(0u8, z as nat),
        decreases k - z,
    {
        out.push(0u8);
        z = z + 1;
    }
    let dl = decoded.len();
    let mut m: usize = 0;
    while m < dl
        invariant
            m <= dl,
            dl == decoded@.len(),
            out@ =~= repeat(0u8, k as nat) + decoded@.reverse().take(m as int),
        decreases dl - m,
    {
        out.push(decoded[dl - 1 - m]);
        proof {
            assert(decoded@.reverse().take(m + 1) =~= decoded@.reverse().take(m as int).push(
                decoded@[dl - 1 - m],
            ));
        }
        m = m + 1;
    }
    proof {
        assert(decoded@.reverse().take(dl as int) =~= decoded@.reverse());
    }
    Some(out)
}

/// Decoding the base58 text of any byte string gives that byte string back.
pub proof fn lemma_base58_roundtrip(raw: Seq<u8>)
    ensures
        spec_base58_decode(spec_base58_encode(raw)) == Some(raw),
{
    let z = leading_count(raw, 0u8);
    lemma_leading_count_props(raw, 0u8);
    let tail = raw.skip(z as int);
    let n = be_value(tail, 256);
    let ds = be_digits(n, 58);
    let text = spec_base58_encode(raw);
    lemma_be_digits_below(n, 58);
    assert forall|i: int| 0 <= i < text.len() implies is_alphabet_byte(#[trigger] text[i]) by {
        if i < z {
            lemma_byte_digit(0);
        } else {
            lemma_byte_digit(ds[i - z] as nat);
        }
    }
    lemma_leading_text(raw);
    let k = leading_count(text, 49u8);
    assert(k == z);
    let rest = text.skip(k as int);
    assert(rest =~= ds.map_values(|d: u8| alphabet_byte(d as nat)));
    let back = rest.map_values(|c: u8| byte_digit(c) as u8);
    assert forall|i: int| 0 <= i < back.len() implies back[i] == ds[i] by {
        lemma_byte_digit(ds[i] as nat);
    }
    assert(back =~= ds);
    lemma_be_value_of_digits(n, 58);
    lemma_tail_no_leading_zero(raw);
    lemma_digits_of_be_value(tail, 256);
    assert(repeat(0u8, z) + tail =~= raw);
}

proof fn lemma_be_digits_first_nonzero_of(n: nat)
    requires
        be_digits(n, 58).len() > 0,
    ensures
        be_digits(n, 58)[0] != 0,
{
    if n > 0 {
        lemma_be_digits_first_nonzero(n, 58);
    }
}

proof fn lemma_leading_count_props<T>(s: Seq<T>, x: T)
    ensures
        leading_count(s, x) <= s.len(),
        forall|i: int| 0 <= i < leading_count(s, x) ==> s[i] == x,
        leading_count(s, x) < s.len() ==> s[leading_count(s, x) as int] != x,
    decreases s.len(),
{
    if s.len() > 0 && s[0] == x {
        lemma_leading_count_props(s.drop_first(), x);
        assert forall|i: int| 0 <= i < leading_count(s, x) implies s[i] == x by {
            if i > 0 {
                assert(s[i] == s.drop_first()[i - 1]);
            }
        }
    }
}

proof fn lemma_tail_no_leading_zero(raw: Seq<u8>)
    ensures
        all_below(raw.skip(leading_count(raw, 0u8) as int), 256),
        raw.skip(leading_count(raw, 0u8) as int).len() == 0 || raw.skip(
            leading_count(raw, 0u8) as int,
        )[0] != 0,
{
    lemma_leading_count_props(raw, 0u8);
}

proof fn lemma_leading_text(raw: Seq<u8>)
    ensures
        leading_count(spec_base58_encode(raw), 49u8) == leading_count(raw, 0u8),
{
    let z = leading_count(raw, 0u8);
    lemma_leading_count_props(raw, 0u8);
    let text = spec_base58_encode(raw);
    let n = be_value(raw.skip(z as int), 256);
    let ds = be_digits(n, 58);
    lemma_be_digits_below(n, 58);
    if ds.len() > 0 {
        lemma_be_digits_first_nonzero_of(n);
        lemma_byte_digit(ds[0] as nat);
        lemma_byte_digit(0);
        if alphabet_byte(ds[0] as nat) == 49 {
            lemma_alphabet_injective(0, ds[0] as nat);
        }
        assert(text[z as int] == alphabet_byte(ds[0] as nat));
    }
    lemma_leading_count(text, 49u8, z as int);
}

} // verus!
