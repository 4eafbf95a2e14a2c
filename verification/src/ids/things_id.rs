use vstd::prelude::*;
use vstd::string::StringSliceAdditionalSpecFns;

use crate::ids::base58::{
    ascii_chars, base58_decode, base58_encode, lemma_base58_roundtrip, lemma_encode_is_ascii, repeat,
    spec_base58_decode, spec_base58_encode,
};
use crate::ids::digits::{
    all_below, be_digits, be_value, leading_count, lemma_be_value_bound, lemma_digits_len_bound,
    lemma_pow_monotone, pow,
};

verus! {

/// A Things 3 entity identifier, held as its canonical 16 bytes
/// (a SHA-1-derived digest of a UUID).
#[derive(Clone, Copy, Debug, Hash, PartialOrd, Ord)]
pub struct ThingsId {
    bytes: [u8; 16],
}

/// Error returned when a string cannot be parsed as a [`ThingsId`]; it holds
/// the rejected input.
#[derive(Debug)]
pub struct ParseThingsIdError {
    pub input: String,
}

/// What the `uuid` crate's parser yields for input bytes of an accepted
/// shape (simple, hyphenated, braced or URN).
pub uninterp spec fn spec_uuid_parse_shaped(input: Seq<u8>) -> Option<Seq<u8>>;

/// The `uuid` crate's parser: it only ever accepts inputs of 32, 36, 38 or 45
/// bytes, and then yields [`spec_uuid_parse_shaped`].
pub open spec fn spec_uuid_parse(input: Seq<u8>) -> Option<Seq<u8>> {
    let n = input.len();
    if n == 32 || n == 36 || n == 38 || n == 45 {
        spec_uuid_parse_shaped(input)
    } else {
        None
    }
}

/// What SHA-1 yields for the given bytes.
pub uninterp spec fn spec_sha1(data: Seq<u8>) -> Seq<u8>;

/// Lower-case hexadecimal digit of a value below 16, as an ASCII byte.
pub open spec fn hex_lower_byte(n: nat) -> u8 {
    if n < 10 {
        (48 + n) as u8
    } else {
        (87 + n) as u8
    }
}

/// Simple (unhyphenated) lower-case hex text of 16 bytes, as ASCII bytes.
pub open spec fn spec_uuid_simple_lower(b: Seq<u8>) -> Seq<u8> {
    Seq::new(
        32,
        |i: int|
            if i % 2 == 0 {
                hex_lower_byte((b[i / 2] / 16) as nat)
            } else {
                hex_lower_byte((b[i / 2] % 16) as nat)
            },
    )
}

/// Hyphenated lower-case UUID text `xxxxxxxx-xxxx-xxxx-xxxx-xxxxxxxxxxxx`
/// of 16 bytes, as ASCII bytes.
pub open spec fn spec_uuid_hyphenated_lower(b: Seq<u8>) -> Seq<u8> {
    let s = spec_uuid_simple_lower(b);
    s.subrange(0, 8) + seq![45u8] + s.subrange(8, 12) + seq![45u8] + s.subrange(12, 16) + seq![
        45u8,
    ] + s.subrange(16, 20) + seq![45u8] + s.subrange(20, 32)
}

/// ASCII upper-casing of one byte.
pub open spec fn ascii_upper_byte(c: u8) -> u8 {
    if 97 <= c <= 122 {
        (c - 32) as u8
    } else {
        c
    }
}

/// The identifier bytes derived from a UUID's 16 bytes: the first 16 bytes
/// of the SHA-1 digest of its upper-case hyphenated text.
pub open spec fn spec_id_from_uuid(uuid: Seq<u8>) -> Seq<u8> {
    spec_sha1(spec_uuid_hyphenated_lower(uuid).map_values(|c: u8| ascii_upper_byte(c))).take(16)
}

/// What parsing text gives: an error for empty text; the UUID-derived
/// identifier when the `uuid` crate accepts the text; otherwise the base58
/// decoding when it is exactly 16 bytes long; otherwise an error.
pub open spec fn spec_parse_things_id(s: Seq<char>) -> Option<Seq<u8>> {
    let bytes = vstd::utf8::encode_utf8(s);
    if s.len() == 0 {
        None
    } else if let Some(u) = spec_uuid_parse(bytes) {
        Some(spec_id_from_uuid(u))
    } else if let Some(d) = spec_base58_decode(bytes) {
        if d.len() == 16 {
            Some(d)
        } else {
            None
        }
    } else {
        None
    }
}

/// Parses text with `uuid::Uuid::parse_str`; on success returns the UUID's
/// 16 bytes. The contract claims that the result is
/// [`spec_uuid_parse`] of the text's bytes: success needs one of the four
/// accepted lengths (as the crate's `try_parse` matches on the length first),
/// and what an accepted input yields is left to the name.
#[verifier::external_body]
fn uuid_parse(s: &str) -> (r: Option<[u8; 16]>)
    ensures
        match r {
            Some(b) => spec_uuid_parse(s.spec_bytes()) == Some(b@),
            None => spec_uuid_parse(s.spec_bytes()) is None,
        },
        r is Some ==> spec_uuid_parse_shaped(s.spec_bytes()) == Some(r->0@),
{
    uuid::Uuid::parse_str(s).ok().map(|u| *u.as_bytes())
}

/// Formats 16 bytes with `uuid::Uuid`'s `Display` (lower-case hyphenated
/// hex, as the crate's `format_hyphenated` writes it) and returns the text's
/// bytes.
#[verifier::external_body]
fn uuid_hyphenated_bytes(bytes: &[u8; 16]) -> (r: Vec<u8>)
    ensures
        r@ == spec_uuid_hyphenated_lower(bytes@),
{
    uuid::Uuid::from_bytes(*bytes).to_string().into_bytes()
}

/// SHA-1 digest of the data through `sha1::Sha1::digest`; the digest has 20
/// bytes (the output type's length) and is otherwise named by [`spec_sha1`].
#[verifier::external_body]
fn sha1_digest(data: &[u8]) -> (r: Vec<u8>)
    ensures
        r@ == spec_sha1(data@),
        r@.len() == 20,
{
    <sha1::Sha1 as sha1::Digest>::digest(data).to_vec()
}

/// 16 random bytes from `rand::random`; nothing is claimed of them.
#[verifier::external_body]
fn random_uuid_bytes() -> (r: [u8; 16]) {
    rand::random()
}

/// The identifier bytes of a UUID given by its 16 bytes.
pub fn uuid_to_bytes(uuid: &[u8; 16]) -> (r: [u8; 16])
    ensures
        r@ == spec_id_from_uuid(uuid@),
{
    let lower = uuid_hyphenated_bytes(uuid);
    let mut upper: Vec<u8> = Vec::new();
    let n = lower.len();
    let mut i: usize = 0;
    while i < n
        invariant
            i <= n,
            n == lower@.len(),
            upper@ =~= lower@.take(i as int).map_values(|c: u8| ascii_upper_byte(c)),
        decreases n - i,
    {
        let c = lower[i];
        let u = if 97 <= c && c <= 122 {
            c - 32
        } else {
            c
        };
        upper.push(u);
        proof {
            assert(lower@.take(i + 1).map_values(|c: u8| ascii_upper_byte(c)) =~= lower@.take(
                i as int,
            ).map_values(|c: u8| ascii_upper_byte(c)).push(u));
        }
        i = i + 1;
    }
    proof {
        assert(lower@.take(n as int) =~= lower@);
    }
    let digest = sha1_digest(upper.as_slice());
    let mut out: [u8; 16] = [0u8; 16];
    let mut j: usize = 0;
    while j < 16
        invariant
            j <= 16,
            digest@.len() == 20,
            forall|k: int| 0 <= k < j ==> out@[k] == digest@[k],
        decreases 16 - j,
    {
        out[j] = digest[j];
        j = j + 1;
    }
    proof {
        assert(out@ =~= digest@.take(16));
    }
    out
}

/// The compact text of an identifier.
pub open spec fn id_chars(id: ThingsId) -> Seq<char> {
    ascii_chars(spec_base58_encode(id.spec_bytes()))
}

impl ThingsId {
    /// The identifier's 16 bytes.
    pub closed spec fn spec_bytes(self) -> Seq<u8> {
        self.bytes@
    }

    /// Builds an identifier from its 16 bytes.
    pub fn from_bytes(bytes: [u8; 16]) -> (id: ThingsId)
        ensures
            id.spec_bytes() == bytes@,
    {
        ThingsId { bytes }
    }

    /// A fresh identifier with a 22-character compact text: derived from a
    /// random UUID, drawing again while the text would come out shorter; the
    /// first byte's high bit is set on the last draw if every earlier one
    /// came out short.
    pub fn random() -> (id: ThingsId)
        ensures
            id_chars(id).len() == 22,
            exists|u: Seq<u8>|
                #![trigger spec_id_from_uuid(u)]
                u.len() == 16 && (id.spec_bytes() == spec_id_from_uuid(u) || id.spec_bytes()
                    == spec_id_from_uuid(u).update(0, spec_id_from_uuid(u)[0] | 0x80u8)),
    {
        let mut draws: u32 = 0;
        while draws < 32
            decreases 32 - draws,
        {
            let u = random_uuid_bytes();
            let bytes = uuid_to_bytes(&u);
            let text = crate::ids::base58::base58_encode_bytes(bytes.as_slice());
            if text.len() == 22 {
                proof {
                    assert(u@.len() == 16);
                }
                return ThingsId { bytes };
            }
            draws = draws + 1;
        }
        let u = random_uuid_bytes();
        let mut bytes = uuid_to_bytes(&u);
        let ghost first = bytes@;
        let b0 = bytes[0];
        bytes[0] = b0 | 0x80u8;
        proof {
            assert(u@.len() == 16);
            assert(b0 | 0x80u8 >= 128u8) by (bit_vector);
            assert(bytes@ == first.update(0, first[0] | 0x80u8));
            lemma_high_bit_text_len(bytes@);
        }
        ThingsId { bytes }
    }

    /// The identifier's 16 bytes.
    pub fn as_bytes(&self) -> (r: &[u8; 16])
        ensures
            r@ == self.spec_bytes(),
    {
        &self.bytes
    }

    /// The compact (base58) text of the identifier.
    pub fn to_string(&self) -> (s: String)
        ensures
            s@ == ascii_chars(spec_base58_encode(self.spec_bytes())),
    {
        base58_encode(self.bytes.as_slice())
    }

    /// Whether the compact text of the identifier starts with `prefix`.
    pub fn starts_with(&self, prefix: &str) -> (r: bool)
        ensures
            r == prefix@.is_prefix_of(ascii_chars(spec_base58_encode(self.spec_bytes()))),
    {
        let text = self.to_string();
        crate::text::str_starts_with(text.as_str(), prefix)
    }

    /// Byte-wise equality of two identifiers.
    pub fn eq_id(&self, other: &ThingsId) -> (r: bool)
        ensures
            r == (self.spec_bytes() == other.spec_bytes()),
    {
        let mut i: usize = 0;
        while i < 16
            invariant
                i <= 16,
                forall|j: int| 0 <= j < i ==> self.bytes@[j] == other.bytes@[j],
            decreases 16 - i,
        {
            if self.bytes[i] != other.bytes[i] {
                return false;
            }
            i = i + 1;
        }
        proof {
            assert(self.bytes@ =~= other.bytes@);
        }
        true
    }

    /// Whether two identifiers are the same identifier.
    pub fn same(&self, other: &ThingsId) -> (r: bool)
        ensures
            r == (*self == *other),
    {
        let r = self.eq_id(other);
        proof {
            if r {
                lemma_id_ext(*self, *other);
            }
        }
        r
    }

    /// The all-zero identifier.
    pub open spec fn spec_zero() -> ThingsId {
        choose|id: ThingsId| id.spec_bytes() == Seq::new(16, |_i: int| 0u8)
    }

    /// The all-zero identifier.
    pub fn zero() -> (id: ThingsId)
        ensures
            id.spec_bytes() == Seq::new(16, |_i: int| 0u8),
            id == ThingsId::spec_zero(),
    {
        let id = ThingsId { bytes: [0u8; 16] };
        proof {
            assert(id.bytes@ =~= Seq::new(16, |_i: int| 0u8));
            assert(id.spec_bytes() == Seq::new(16, |_i: int| 0u8));
            let z = ThingsId::spec_zero();
            assert(z.spec_bytes() == Seq::new(16, |_i: int| 0u8));
            lemma_id_ext(id, z);
        }
        id
    }
}

/// A copy of a list of identifiers.
pub fn copy_ids(ids: &Vec<ThingsId>) -> (r: Vec<ThingsId>)
    ensures
        r@ == ids@,
{
    let mut r: Vec<ThingsId> = Vec::new();
    let mut i: usize = 0;
    while i < ids.len()
        invariant
            i <= ids@.len(),
            r@ == ids@.take(i as int),
        decreases ids@.len() - i,
    {
        r.push(ids[i]);
        i = i + 1;
        proof {
            assert(r@ =~= ids@.take(i as int));
        }
    }
    proof {
        assert(ids@.take(ids@.len() as int) =~= ids@);
    }
    r
}

/// Two identifiers are the same exactly when their bytes are.
pub proof fn lemma_id_ext(a: ThingsId, b: ThingsId)
    requires
        a.spec_bytes() == b.spec_bytes(),
    ensures
        a == b,
{
    assert(a.bytes@ =~= b.bytes@);
    vstd::array::axiom_array_ext_equal(a.bytes, b.bytes);
    assert(a.bytes =~= b.bytes);
}

impl PartialEq for ThingsId {
    fn eq(&self, other: &ThingsId) -> (r: bool) {
        self.eq_id(other)
    }
}

impl vstd::std_specs::cmp::PartialEqSpecImpl for ThingsId {
    open spec fn obeys_eq_spec() -> bool {
        true
    }

    open spec fn eq_spec(&self, other: &ThingsId) -> bool {
        self.spec_bytes() == other.spec_bytes()
    }
}

impl Eq for ThingsId {
}

impl Default for ThingsId {
    fn default() -> (r: ThingsId)
        ensures
            r == ThingsId::spec_zero(),
    {
        ThingsId::zero()
    }
}

/// An identifier converts into its compact text.
impl From<ThingsId> for String {
    fn from(id: ThingsId) -> (r: String)
        ensures
            r@ == id_chars(id),
    {
        id.to_string()
    }
}

/// Verus cannot equate two `String`s by their text, so the conversion's
/// result is stated by the `ensures` of `from` above (its text is the
/// identifier's compact text) rather than through `from_spec`.
impl vstd::std_specs::convert::FromSpecImpl<ThingsId> for String {
    open spec fn obeys_from_spec() -> bool {
        false
    }

    open spec fn from_spec(id: ThingsId) -> String {
        choose|s: String| s@ == id_chars(id)
    }
}

impl AsRef<[u8; 16]> for ThingsId {
    fn as_ref(&self) -> (r: &[u8; 16])
        ensures
            r@ == self.spec_bytes(),
    {
        &self.bytes
    }
}

impl core::str::FromStr for ThingsId {
    type Err = ParseThingsIdError;

    fn from_str(s: &str) -> (r: Result<ThingsId, ParseThingsIdError>)
        ensures
            match r {
                Ok(id) => spec_parse_things_id(s@) == Some(id.spec_bytes()),
                Err(e) => spec_parse_things_id(s@) is None && e.input@ == s@,
            },
    {
        parse_things_id(s)
    }
}

impl ParseThingsIdError {
    /// The rejected input.
    pub fn input(&self) -> (r: String)
        ensures
            r@ == self.input@,
    {
        self.input.clone()
    }
}

/// Parses an identifier from compact base58 text or from a UUID in any form
/// the `uuid` crate accepts.
pub fn parse_things_id(s: &str) -> (r: Result<ThingsId, ParseThingsIdError>)
    ensures
        match r {
            Ok(id) => spec_parse_things_id(s@) == Some(id.spec_bytes()),
            Err(e) => spec_parse_things_id(s@) is None && e.input@ == s@,
        },
{
    if s.is_empty() {
        return Err(ParseThingsIdError { input: s.to_owned() });
    }
    if let Some(u) = uuid_parse(s) {
        return Ok(ThingsId { bytes: uuid_to_bytes(&u) });
    }
    match base58_decode(s) {
        Some(decoded) => {
            if decoded.len() != 16 {
                return Err(ParseThingsIdError { input: s.to_owned() });
            }
            let mut bytes: [u8; 16] = [0u8; 16];
            let mut i: usize = 0;
            while i < 16
                invariant
                    i <= 16,
                    decoded@.len() == 16,
                    forall|k: int| 0 <= k < i ==> bytes@[k] == decoded@[k],
                decreases 16 - i,
            {
                bytes[i] = decoded[i];
                i = i + 1;
            }
            proof {
                assert(bytes@ =~= decoded@);
            }
            Ok(ThingsId { bytes })
        },
        None => Err(ParseThingsIdError { input: s.to_owned() }),
    }
}

proof fn lemma_digits_len_lower(n: nat, b: nat, k: nat)
    requires
        b >= 2,
        n >= pow(b, k),
    ensures
        be_digits(n, b).len() >= k + 1,
    decreases k,
{
    crate::ids::digits::lemma_pow_positive(b, k);
    if k > 0 {
        let p = pow(b, (k - 1) as nat);
        assert(pow(b, k) == b * p);
        assert(n / b >= p) by (nonlinear_arith)
            requires
                n >= b * p,
                b >= 2,
        ;
        lemma_digits_len_lower(n / b, b, (k - 1) as nat);
    }
}

proof fn lemma_be_value_lower(s: Seq<u8>)
    requires
        s.len() > 0,
    ensures
        be_value(s, 256) >= s[0] as nat * pow(256, (s.len() - 1) as nat),
    decreases s.len(),
{
    let d = s.drop_last();
    if s.len() > 1 {
        lemma_be_value_lower(d);
        assert(d[0] == s[0]);
        let q = pow(256, (s.len() - 2) as nat);
        assert(pow(256, (s.len() - 1) as nat) == 256 * q);
        let v = be_value(d, 256);
        assert(be_value(s, 256) == v * 256 + s.last() as nat);
        assert(v * 256 >= s[0] as nat * (256 * q)) by (nonlinear_arith)
            requires
                v >= s[0] as nat * q,
        ;
        assert(s[0] as nat * pow(256, (s.len() - 1) as nat) == s[0] as nat * (256 * q));
    } else {
        assert(d.len() == 0);
        assert(be_value(s, 256) == be_value(d, 256) * 256 + s[0] as nat);
        assert((s.len() - 1) as nat == 0nat);
        assert(pow(256, 0) == 1);
        assert(pow(256, (s.len() - 1) as nat) == 1);
        assert(s[0] as nat * 1 == s[0] as nat);
    }
}

/// Sixteen bytes whose first byte has its high bit set have a compact text
/// of exactly 22 characters.
proof fn lemma_high_bit_text_len(b: Seq<u8>)
    requires
        b.len() == 16,
        b[0] >= 128,
    ensures
        spec_base58_encode(b).len() == 22,
{
    assert(leading_count(b, 0u8) == 0);
    assert(b.skip(0) =~= b);
    let n = be_value(b, 256);
    lemma_be_value_lower(b);
    assert(pow(58, 21) <= 128 * pow(256, 15)) by {
        reveal_with_fuel(pow, 22);
    }
    assert(n >= 128 * pow(256, 15)) by (nonlinear_arith)
        requires
            n >= b[0] as nat * pow(256, 15),
            b[0] >= 128,
    ;
    lemma_digits_len_lower(n, 58, 21);
    assert(all_below(b, 256));
    lemma_be_value_bound(b, 256);
    assert(pow(256, 16) < pow(58, 22)) by {
        reveal_with_fuel(pow, 23);
    }
    lemma_digits_len_bound(n, 58, 22);
    assert(repeat(49u8, 0) =~= Seq::<u8>::empty());
}

/// The compact text of 16 bytes is between 16 and 31 characters long.
proof fn lemma_encode_len(b: Seq<u8>)
    requires
        b.len() == 16,
    ensures
        spec_base58_encode(b).len() < 32,
{
    let z = leading_count(b, 0u8);
    lemma_leading_le(b, 0u8);
    let tail = b.skip(z as int);
    assert(all_below(tail, 256));
    lemma_be_value_bound(tail, 256);
    let n = be_value(tail, 256);
    let m = tail.len();
    assert(m == 16 - z);
    let ds = be_digits(n, 58);
    assert(spec_base58_encode(b).len() == z + ds.len());
    if z >= 5 {
        lemma_pow_monotone(256, m, 11);
        assert(pow(256, 11) < pow(58, 16)) by {
            reveal_with_fuel(pow, 17);
        }
        lemma_digits_len_bound(n, 58, 16);
        if z == 16 {
            assert(n == 0) by {
                assert(tail.len() == 0);
            }
        }
    } else {
        lemma_pow_monotone(256, m, 16);
        assert(pow(256, 16) < pow(58, 22)) by {
            reveal_with_fuel(pow, 23);
        }
        lemma_digits_len_bound(n, 58, 22);
    }
}

proof fn lemma_leading_le(s: Seq<u8>, x: u8)
    ensures
        leading_count(s, x) <= s.len(),
    decreases s.len(),
{
    if s.len() > 0 && s[0] == x {
        lemma_leading_le(s.drop_first(), x);
    }
}

/// Parsing the compact text of an identifier gives the identifier back.
pub proof fn lemma_parse_display_roundtrip(id: ThingsId)
    ensures
        spec_parse_things_id(ascii_chars(spec_base58_encode(id.spec_bytes()))) == Some(
            id.spec_bytes(),
        ),
{
    let b = id.spec_bytes();
    let text = spec_base58_encode(b);
    let chars = ascii_chars(text);
    lemma_encode_is_ascii(b);
    lemma_encode_len(b);
    assert(vstd::utf8::is_ascii_chars(chars));
    vstd::utf8::is_ascii_chars_encode_utf8(chars);
    assert(vstd::utf8::encode_utf8(chars) =~= text);
    lemma_base58_roundtrip(b);
}

/// Two identifiers with the same compact text are the same identifier.
pub proof fn lemma_id_chars_injective(a: ThingsId, b: ThingsId)
    requires
        id_chars(a) == id_chars(b),
    ensures
        a == b,
{
    lemma_parse_display_roundtrip(a);
    lemma_parse_display_roundtrip(b);
    lemma_id_ext(a, b);
}

/// The compact text of an identifier is not empty and holds only base58
/// alphabet characters, so neither end is whitespace.
pub proof fn lemma_id_chars_shape(id: ThingsId)
    ensures
        id_chars(id).len() > 0,
        forall|i: int| 0 <= i < id_chars(id).len() ==> !crate::text::is_ws(#[trigger] id_chars(id)[i]),
{
    let b = id.spec_bytes();
    let text = spec_base58_encode(b);
    lemma_parse_display_roundtrip(id);
    lemma_base58_roundtrip(b);
    assert(forall|i: int| 0 <= i < text.len() ==> crate::ids::base58::is_alphabet_byte(#[trigger] text[i]));
    assert forall|i: int| 0 <= i < id_chars(id).len() implies !crate::text::is_ws(#[trigger] id_chars(id)[i]) by {
        assert(crate::ids::base58::is_alphabet_byte(text[i]));
        let d = choose|d: nat| d < 58 && crate::ids::base58::alphabet_byte(d) == text[i];
        assert(49 <= text[i] <= 122);
        assert(id_chars(id)[i] == text[i] as char);
    }
}

} // verus!
