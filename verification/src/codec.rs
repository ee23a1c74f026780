//! Encodings the session tokens use: Base64 (through the `base64` crate),
//! JSON documents (through `serde_json`), UUID texts (through `uuid`), and
//! splitting a text at a separator.
use crate::text::{hex_char, signed_decimal};
use vstd::prelude::*;
use vstd::string::*;
use vstd::utf8::encode_utf8;

verus! {

#[verifier::external_type_specification]
#[verifier::external_body]
pub struct ExJsonValue(serde_json::Value);

/// The character of the standard Base64 alphabet (`A`-`Z`, `a`-`z`,
/// `0`-`9`, `+`, `/`) for a six-bit value.
pub open spec fn base64_digit(d: int) -> char {
    if d < 26 {
        (65 + d) as char
    } else if d < 52 {
        (71 + d) as char
    } else if d < 62 {
        (d - 4) as char
    } else if d == 62 {
        '+'
    } else {
        '/'
    }
}

/// Standard Base64 with padding (RFC 4648, section 4): each group of three
/// bytes becomes four characters of six bits each; a last group of one or
/// two bytes is padded with `=` to four characters.
pub open spec fn base64_text(b: Seq<u8>) -> Seq<char>
    decreases b.len(),
{
    if b.len() == 0 {
        Seq::empty()
    } else if b.len() == 1 {
        seq![
            base64_digit((b[0] / 4) as int),
            base64_digit((b[0] % 4) * 16),
            '=',
            '=',
        ]
    } else if b.len() == 2 {
        seq![
            base64_digit((b[0] / 4) as int),
            base64_digit((b[0] % 4) * 16 + b[1] / 16),
            base64_digit((b[1] % 16) * 4),
            '=',
        ]
    } else {
        seq![
            base64_digit((b[0] / 4) as int),
            base64_digit((b[0] % 4) * 16 + b[1] / 16),
            base64_digit((b[1] % 16) * 4 + b[2] / 64),
            base64_digit((b[2] % 64) as int),
        ] + base64_text(b.skip(3))
    }
}

/// The bytes a standard Base64 text stands for: those whose encoding it is
/// (there is at most one such sequence), or `None`.
pub open spec fn base64_bytes(text: Seq<char>) -> Option<Seq<u8>> {
    if exists|b: Seq<u8>| #[trigger] base64_text(b) == text {
        Some(choose|b: Seq<u8>| #[trigger] base64_text(b) == text)
    } else {
        None
    }
}

/// Whether `serde_json::from_slice::<serde_json::Value>` accepts the bytes.
pub uninterp spec fn json_parses(doc: Seq<u8>) -> bool;

/// For a JSON document: `doc[key].as_i64()` of its value.
pub uninterp spec fn json_int_field(doc: Seq<u8>, key: Seq<char>) -> Option<i64>;

/// For a JSON document: `doc[key].as_str()` of its value.
pub uninterp spec fn json_text_field(doc: Seq<u8>, key: Seq<char>) -> Option<Seq<char>>;

/// What `uuid::Uuid::parse_str` reads from a text, as a 128-bit number.
pub uninterp spec fn uuid_value(text: Seq<char>) -> Option<u128>;

/// `base64::encode`: the standard, padded Base64 text of the bytes.
#[verifier::external_body]
pub(crate) fn base64_encode(bytes: &[u8]) -> (res: String)
    ensures
        res@ == base64_text(bytes@),
{
    #[allow(deprecated)]
    base64::encode(bytes)
}

/// `base64::decode` (the standard engine: canonical padding required, no
/// stray bits allowed in the last character): succeeds exactly on the texts
/// that are the standard encoding of some bytes, and gives those bytes.
#[verifier::external_body]
fn base64_decode_raw(text: &str) -> (res: Option<Vec<u8>>)
    ensures
        res matches Some(v) ==> base64_text(v@) == text@,
        res is Some || !(exists|b: Seq<u8>| #[trigger] base64_text(b) == text@),
{
    #[allow(deprecated)]
    base64::decode(text).ok()
}

/// Decodes standard Base64 (see `base64_bytes`).
pub fn base64_decode(text: &str) -> (res: Option<Vec<u8>>)
    ensures
        match base64_bytes(text@) {
            Some(b) => res matches Some(v) && v@ == b,
            None => res is None,
        },
{
    let res = base64_decode_raw(text);
    proof {
        if res is Some {
            let v = res->0@;
            let b = choose|b: Seq<u8>| #[trigger] base64_text(b) == text@;
            assert(base64_text(v) == text@);
            lemma_base64_injective(b, v);
        }
    }
    res
}

proof fn lemma_base64_digit(x: int, y: int)
    requires
        0 <= x < 64,
        0 <= y < 64,
    ensures
        base64_digit(x) != '=',
        base64_digit(x) == base64_digit(y) ==> x == y,
{
}

proof fn lemma_base64_len(b: Seq<u8>)
    ensures
        base64_text(b).len() == 4 * ((b.len() + 2) / 3),
    decreases b.len(),
{
    if b.len() >= 3 {
        lemma_base64_len(b.skip(3));
    }
}

proof fn lemma_base64_head(b: Seq<u8>)
    requires
        b.len() >= 1,
    ensures
        base64_text(b).len() >= 4,
        base64_text(b)[0] == base64_digit((b[0] / 4) as int),
        b.len() == 1 ==> base64_text(b)[1] == base64_digit((b[0] % 4) * 16),
        b.len() >= 2 ==> base64_text(b)[1] == base64_digit((b[0] % 4) * 16 + b[1] / 16),
        b.len() == 1 ==> base64_text(b)[2] == '=',
        b.len() == 2 ==> base64_text(b)[2] == base64_digit((b[1] % 16) * 4),
        b.len() >= 3 ==> base64_text(b)[2] == base64_digit((b[1] % 16) * 4 + b[2] / 64),
        b.len() <= 2 ==> base64_text(b)[3] == '=',
        b.len() >= 3 ==> base64_text(b)[3] == base64_digit((b[2] % 64) as int),
        b.len() >= 3 ==> base64_text(b).skip(4) == base64_text(b.skip(3)),
{
    lemma_base64_len(b);
    if b.len() >= 3 {
        let head = seq![
            base64_digit((b[0] / 4) as int),
            base64_digit((b[0] % 4) * 16 + b[1] / 16),
            base64_digit((b[1] % 16) * 4 + b[2] / 64),
            base64_digit((b[2] % 64) as int),
        ];
        assert(base64_text(b) == head + base64_text(b.skip(3)));
        assert((head + base64_text(b.skip(3))).skip(4) =~= base64_text(b.skip(3)));
    }
}

/// Base64 encoding is one to one: two byte sequences with the same
/// encoding are equal.
pub proof fn lemma_base64_injective(a: Seq<u8>, b: Seq<u8>)
    requires
        base64_text(a) == base64_text(b),
    ensures
        a == b,
    decreases a.len(),
{
    lemma_base64_len(a);
    lemma_base64_len(b);
    if a.len() == 0 {
        assert(b.len() == 0);
        assert(a =~= b);
    } else {
        assert(b.len() > 0);
        lemma_base64_head(a);
        lemma_base64_head(b);
        let a0 = a[0] as int;
        let b0 = b[0] as int;
        lemma_base64_digit(a0 / 4, b0 / 4);
        if a.len() == 1 || b.len() == 1 {
            if a.len() >= 2 {
                lemma_base64_digit(((a[1] % 16) * 4 + (if a.len() >= 3 { a[2] / 64 } else { 0 })) as int, 0);
                assert(false);
            }
            if b.len() >= 2 {
                lemma_base64_digit(((b[1] % 16) * 4 + (if b.len() >= 3 { b[2] / 64 } else { 0 })) as int, 0);
                assert(false);
            }
            lemma_base64_digit((a0 % 4) * 16, (b0 % 4) * 16);
            assert(a0 == b0);
            assert(a =~= b);
        } else {
            let a1 = a[1] as int;
            let b1 = b[1] as int;
            lemma_base64_digit((a0 % 4) * 16 + a1 / 16, (b0 % 4) * 16 + b1 / 16);
            assert(a0 == b0);
            if a.len() == 2 || b.len() == 2 {
                if a.len() >= 3 {
                    lemma_base64_digit((a[2] % 64) as int, 0);
                    assert(false);
                }
                if b.len() >= 3 {
                    lemma_base64_digit((b[2] % 64) as int, 0);
                    assert(false);
                }
                lemma_base64_digit((a1 % 16) * 4, (b1 % 16) * 4);
                assert(a1 == b1);
                assert(a =~= b);
            } else {
                let a2 = a[2] as int;
                let b2 = b[2] as int;
                lemma_base64_digit((a1 % 16) * 4 + a2 / 64, (b1 % 16) * 4 + b2 / 64);
                lemma_base64_digit(a2 % 64, b2 % 64);
                assert(a1 == b1);
                assert(a2 == b2);
                lemma_base64_injective(a.skip(3), b.skip(3));
                assert(a =~= a.take(3) + a.skip(3));
                assert(b =~= b.take(3) + b.skip(3));
                assert(a.take(3) =~= b.take(3));
            }
        }
    }
}

/// A parsed JSON document together with the bytes it was read from.
pub struct JsonDoc<'a> {
    source: &'a [u8],
    value: serde_json::Value,
}

impl<'a> JsonDoc<'a> {
    /// The bytes the document was read from.
    pub closed spec fn source(&self) -> Seq<u8> {
        self.source@
    }
}

/// `serde_json::from_slice` into a `serde_json::Value`; fails exactly when
/// the bytes are not a JSON document.
#[verifier::external_body]
pub(crate) fn json_parse<'a>(bytes: &'a [u8]) -> (res: Option<JsonDoc<'a>>)
    ensures
        res is Some <==> json_parses(bytes@),
        res matches Some(d) ==> d.source() == bytes@,
{
    match serde_json::from_slice::<serde_json::Value>(bytes) {
        Ok(value) => Some(JsonDoc { source: bytes, value }),
        Err(_) => None,
    }
}

/// `value[key].as_i64()`: the field as a 64-bit integer, if it is one.
#[verifier::external_body]
pub(crate) fn json_int(doc: &JsonDoc, key: &str) -> (res: Option<i64>)
    ensures
        res == json_int_field(doc.source(), key@),
{
    doc.value[key].as_i64()
}

/// `value[key].as_str()`: the field as text, if it is a string.
#[verifier::external_body]
pub(crate) fn json_text(doc: &JsonDoc, key: &str) -> (res: Option<String>)
    ensures
        match json_text_field(doc.source(), key@) {
            Some(t) => res matches Some(s) && s@ == t,
            None => res is None,
        },
{
    doc.value[key].as_str().map(|s| s.to_string())
}

/// What `serde_json` renders (`Value::Object(map).to_string()`) for a map
/// of two integer fields and one string field, inserted in that order.
pub uninterp spec fn json_object_text(
    k1: Seq<char>,
    v1: i64,
    k2: Seq<char>,
    v2: i64,
    k3: Seq<char>,
    v3: Seq<char>,
) -> Seq<char>;

/// A text JSON writes as it is, without escapes: no `"`, no `\` and no
/// control character.
pub open spec fn json_plain(s: Seq<char>) -> bool {
    forall|i: int| 0 <= i < s.len() ==> #[trigger] s[i] != '"' && s[i] != '\\' && s[i] >= ' '
}

/// Whether text `a` sorts before text `b` (character by character, which is
/// also the order of their UTF-8 bytes).
pub open spec fn text_before(a: Seq<char>, b: Seq<char>) -> bool
    decreases a.len(),
{
    if a.len() == 0 {
        b.len() > 0
    } else if b.len() == 0 {
        false
    } else if a[0] != b[0] {
        a[0] < b[0]
    } else {
        text_before(a.skip(1), b.skip(1))
    }
}

/// The compact JSON text of an object with the integer fields `k1`, `k2`
/// and the string field `k3`, in that order, where nothing needs escaping.
pub open spec fn plain_json_object(
    k1: Seq<char>,
    v1: int,
    k2: Seq<char>,
    v2: int,
    k3: Seq<char>,
    v3: Seq<char>,
) -> Seq<char> {
    "{\""@ + k1 + "\":"@ + signed_decimal(v1) + ",\""@ + k2 + "\":"@ + signed_decimal(v2) + ",\""@
        + k3 + "\":\""@ + v3 + "\"}"@
}

/// Renders with `serde_json` the object holding `k1: v1` and `k2: v2` (JSON
/// integers) and `k3: v3` (a JSON string), inserted into a
/// `serde_json::Map` in that order, as the compact text of `Value::Object`.
/// The map keeps its keys sorted (it is a `BTreeMap`: nothing here enables
/// `preserve_order`) and a later insert of a key replaces the earlier one;
/// so with sorted keys and nothing to escape the text is
/// `plain_json_object`, and reading the text back as JSON gives each field
/// that was not replaced.
#[verifier::external_body]
pub(crate) fn json_object(k1: &str, v1: i64, k2: &str, v2: i64, k3: &str, v3: &str) -> (res: String)
    ensures
        res@ == json_object_text(k1@, v1, k2@, v2, k3@, v3@),
        json_plain(k1@) && json_plain(k2@) && json_plain(k3@) && json_plain(v3@) && text_before(
            k1@,
            k2@,
        ) && text_before(k2@, k3@) ==> res@ == plain_json_object(
            k1@,
            v1 as int,
            k2@,
            v2 as int,
            k3@,
            v3@,
        ),
        json_parses(encode_utf8(res@)),
        k1@ != k2@ && k1@ != k3@ ==> json_int_field(encode_utf8(res@), k1@) == Some(v1),
        k2@ != k3@ ==> json_int_field(encode_utf8(res@), k2@) == Some(v2),
        json_text_field(encode_utf8(res@), k3@) == Some(v3@),
{
    let mut map = serde_json::Map::new();
    map.insert(k1.to_string(), serde_json::Value::from(v1));
    map.insert(k2.to_string(), serde_json::Value::from(v2));
    map.insert(k3.to_string(), serde_json::Value::from(v3));
    serde_json::Value::Object(map).to_string()
}

/// The last `k` hexadecimal digits of `n`, zero padded.
pub open spec fn fixed_hex(n: nat, k: nat) -> Seq<char>
    decreases k,
{
    if k == 0 {
        Seq::empty()
    } else {
        fixed_hex(n / 16, (k - 1) as nat).push(hex_char((n % 16) as int))
    }
}

/// The hyphenated lowercase text of a UUID: its 32 hexadecimal digits in
/// groups of 8, 4, 4, 4 and 12.
pub open spec fn hyphenated(u: u128) -> Seq<char> {
    let n = u as nat;
    fixed_hex(n / 0x1_0000_0000_0000_0000_0000_0000, 8) + "-"@ + fixed_hex(
        (n / 0x1_0000_0000_0000_0000_0000) % 0x1_0000,
        4,
    ) + "-"@ + fixed_hex((n / 0x1_0000_0000_0000_0000) % 0x1_0000, 4) + "-"@ + fixed_hex(
        (n / 0x1_0000_0000_0000) % 0x1_0000,
        4,
    ) + "-"@ + fixed_hex(n % 0x1_0000_0000_0000, 12)
}

/// A lowercase hexadecimal digit or `-`: what UUID texts are made of.
pub open spec fn uuid_char(c: char) -> bool {
    ('0' <= c <= '9') || ('a' <= c <= 'f') || c == '-'
}

proof fn lemma_fixed_hex_chars(n: nat, k: nat)
    ensures
        fixed_hex(n, k).len() == k,
        forall|i: int| 0 <= i < k ==> #[trigger] uuid_char(fixed_hex(n, k)[i]),
    decreases k,
{
    if k > 0 {
        lemma_fixed_hex_chars(n / 16, (k - 1) as nat);
        let prev = fixed_hex(n / 16, (k - 1) as nat);
        assert forall|i: int| 0 <= i < k implies #[trigger] uuid_char(fixed_hex(n, k)[i]) by {
            if i < k - 1 {
                assert(fixed_hex(n, k)[i] == prev[i]);
            }
        }
    }
}

/// The hyphenated text of a UUID is 36 characters long and holds only
/// hexadecimal digits and `-`; in particular JSON writes it as it is.
pub proof fn lemma_hyphenated_chars(u: u128)
    ensures
        hyphenated(u).len() == 36,
        forall|i: int| 0 <= i < hyphenated(u).len() ==> #[trigger] uuid_char(hyphenated(u)[i]),
        json_plain(hyphenated(u)),
{
    reveal_strlit("-");
    let n = u as nat;
    let a = fixed_hex(n / 0x1_0000_0000_0000_0000_0000_0000, 8);
    let b = fixed_hex((n / 0x1_0000_0000_0000_0000_0000) % 0x1_0000, 4);
    let c = fixed_hex((n / 0x1_0000_0000_0000_0000) % 0x1_0000, 4);
    let d = fixed_hex((n / 0x1_0000_0000_0000) % 0x1_0000, 4);
    let e = fixed_hex(n % 0x1_0000_0000_0000, 12);
    lemma_fixed_hex_chars(n / 0x1_0000_0000_0000_0000_0000_0000, 8);
    lemma_fixed_hex_chars((n / 0x1_0000_0000_0000_0000_0000) % 0x1_0000, 4);
    lemma_fixed_hex_chars((n / 0x1_0000_0000_0000_0000) % 0x1_0000, 4);
    lemma_fixed_hex_chars((n / 0x1_0000_0000_0000) % 0x1_0000, 4);
    lemma_fixed_hex_chars(n % 0x1_0000_0000_0000, 12);
    let h = hyphenated(u);
    assert(h == a + "-"@ + b + "-"@ + c + "-"@ + d + "-"@ + e);
    assert forall|i: int| 0 <= i < h.len() implies #[trigger] uuid_char(h[i]) by {
        if i < 8 {
            assert(h[i] == a[i]);
        } else if i == 8 {
        } else if i < 13 {
            assert(h[i] == b[i - 9]);
        } else if i == 13 {
        } else if i < 18 {
            assert(h[i] == c[i - 14]);
        } else if i == 18 {
        } else if i < 23 {
            assert(h[i] == d[i - 19]);
        } else if i == 23 {
        } else {
            assert(h[i] == e[i - 24]);
        }
    }
    assert forall|i: int| 0 <= i < h.len() implies #[trigger] h[i] != '"' && h[i] != '\\' && h[i]
        >= ' ' by {
        assert(uuid_char(h[i]));
    }
}

/// `uuid::Uuid::parse_str` followed by `as_u128`; the hyphenated text of a
/// UUID reads back as that UUID.
#[verifier::external_body]
pub(crate) fn parse_uuid(text: &str) -> (res: Option<u128>)
    ensures
        res == uuid_value(text@),
        res is Some || !(exists|u: u128| #[trigger] hyphenated(u) == text@),
        res matches Some(v) ==> (exists|u: u128| #[trigger] hyphenated(u) == text@) ==> hyphenated(v)
            == text@,
{
    uuid::Uuid::parse_str(text).ok().map(|u| u.as_u128())
}

/// `uuid::Uuid::from_u128(u).to_string()`: the hyphenated lowercase text of
/// the UUID (see `hyphenated`), which `Uuid::parse_str` reads back as the
/// same UUID.
#[verifier::external_body]
pub(crate) fn uuid_text(u: u128) -> (res: String)
    ensures
        res@ == hyphenated(u),
        uuid_value(res@) == Some(u),
{
    uuid::Uuid::from_u128(u).to_string()
}

/// The pieces of `s` between occurrences of `sep`, as `str::split` yields
/// them (an empty text gives one empty piece).
pub open spec fn split_text(s: Seq<char>, sep: char) -> Seq<Seq<char>>
    decreases s.len(),
{
    if s.len() == 0 {
        seq![Seq::empty()]
    } else {
        let prev = split_text(s.drop_last(), sep);
        if s.last() == sep {
            prev.push(Seq::empty())
        } else {
            prev.update(prev.len() - 1, prev.last().push(s.last()))
        }
    }
}

pub proof fn lemma_split_text_nonempty(s: Seq<char>, sep: char)
    ensures
        split_text(s, sep).len() >= 1,
    decreases s.len(),
{
    if s.len() > 0 {
        lemma_split_text_nonempty(s.drop_last(), sep);
    }
}

/// Appending text without the separator extends the last piece.
pub proof fn lemma_split_text_extend(s: Seq<char>, x: Seq<char>, sep: char)
    requires
        !x.contains(sep),
    ensures
        split_text(s + x, sep) == split_text(s, sep).update(
            split_text(s, sep).len() - 1,
            split_text(s, sep).last() + x,
        ),
    decreases x.len(),
{
    lemma_split_text_nonempty(s, sep);
    if x.len() == 0 {
        assert(s + x =~= s);
        assert(split_text(s, sep).last() + x =~= split_text(s, sep).last());
        assert(split_text(s, sep).update(split_text(s, sep).len() - 1, split_text(s, sep).last())
            =~= split_text(s, sep));
    } else {
        let y = x.drop_last();
        assert(!y.contains(sep)) by {
            if y.contains(sep) {
                let k = choose|k: int| 0 <= k < y.len() && y[k] == sep;
                assert(x[k] == sep);
            }
        }
        assert(x.last() != sep) by {
            assert(x[x.len() - 1] == x.last());
        }
        lemma_split_text_extend(s, y, sep);
        assert((s + x).drop_last() =~= s + y);
        assert((s + x).last() == x.last());
        lemma_split_text_nonempty(s + y, sep);
        assert((split_text(s, sep).last() + y).push(x.last()) =~= split_text(s, sep).last() + x);
        assert(split_text(s + x, sep) =~= split_text(s, sep).update(
            split_text(s, sep).len() - 1,
            split_text(s, sep).last() + x,
        ));
    }
}

/// Splitting three texts without the separator, joined by it, gives the
/// three texts back.
pub proof fn lemma_split_text_three(a: Seq<char>, b: Seq<char>, c: Seq<char>, sep: char)
    requires
        !a.contains(sep),
        !b.contains(sep),
        !c.contains(sep),
    ensures
        split_text(a + seq![sep] + b + seq![sep] + c, sep) == seq![a, b, c],
{
    let e = Seq::<char>::empty();
    lemma_split_text_extend(e, a, sep);
    assert(e + a =~= a);
    assert(split_text(a, sep) =~= seq![a]);
    let s1 = a + seq![sep];
    assert(s1.drop_last() =~= a);
    assert(split_text(s1, sep) =~= seq![a, e]);
    lemma_split_text_extend(s1, b, sep);
    assert(split_text(s1 + b, sep) =~= seq![a, b]);
    let s2 = s1 + b + seq![sep];
    assert(s2.drop_last() =~= s1 + b);
    assert(split_text(s2, sep) =~= seq![a, b, e]);
    lemma_split_text_extend(s2, c, sep);
    assert(split_text(s2 + c, sep) =~= seq![a, b, c]);
}

/// Base64 text holds no `.`.
pub proof fn lemma_base64_no_dot(b: Seq<u8>)
    ensures
        !base64_text(b).contains('.'),
    decreases b.len(),
{
    if b.len() > 0 {
        lemma_base64_head(b);
        let t = base64_text(b);
        if b.len() >= 3 {
            lemma_base64_no_dot(b.skip(3));
        }
        assert forall|i: int| 0 <= i < t.len() implies t[i] != '.' by {
            if i >= 4 {
                assert(t[i] == t.skip(4)[i - 4]);
            }
        }
    }
}

/// The views of a sequence of strings.
pub open spec fn string_views(v: Seq<String>) -> Seq<Seq<char>> {
    v.map_values(|s: String| s@)
}

/// Splits `s` at every `sep`.
pub fn split_at_char(s: &str, sep: char) -> (res: Vec<String>)
    ensures
        string_views(res@) == split_text(s@, sep),
{
    let n = s.unicode_len();
    let mut parts: Vec<String> = Vec::new();
    let mut cur = String::new();
    let mut i: usize = 0;
    assert(s@.take(0) =~= Seq::<char>::empty());
    assert(string_views(parts@).push(cur@) =~= split_text(s@.take(0), sep));
    while i < n
        invariant
            n == s@.len(),
            i <= n,
            string_views(parts@).push(cur@) == split_text(s@.take(i as int), sep),
        decreases n - i,
    {
        let c = s.get_char(i);
        let ghost prefix = s@.take(i + 1);
        assert(prefix.drop_last() =~= s@.take(i as int));
        assert(prefix.last() == c);
        proof {
            lemma_split_text_nonempty(s@.take(i as int), sep);
        }
        if c == sep {
            let done = cur;
            parts.push(done);
            cur = String::new();
            assert(string_views(parts@).push(cur@) =~= split_text(prefix, sep));
        } else {
            let ghost before = string_views(parts@);
            cur.push(c);
            assert(string_views(parts@).push(cur@) =~= split_text(prefix, sep));
        }
        i = i + 1;
    }
    assert(s@.take(n as int) =~= s@);
    parts.push(cur);
    assert(string_views(parts@) =~= split_text(s@, sep));
    parts
}

} // verus!
