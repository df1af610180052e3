//! JSON values as plain data.

use vstd::prelude::*;
use crate::text::{chars_of, decimal_chars, decimal_spec, nat_decimal, string_of, u64_decimal_chars};

verus! {

/// A JSON number: its value as a 64-bit signed integer when it is one, as an
/// unsigned one when it is one, its floating-point value truncated toward
/// zero and saturated to an `i64` where that is known, and its decimal text.
#[derive(Clone, Debug)]
pub struct JsonNumber {
    pub as_i64: Option<i64>,
    pub as_u64: Option<u64>,
    /// `serde_json`'s `as_f64`, truncated toward zero and saturated (`f as
    /// i64`), for a parsed number; for a number built here from an integer,
    /// only where the integer does not fit an `i64`.
    pub as_f64_truncated: Option<i64>,
    pub text: String,
}

/// The number as an `i64`: its integer value when it is one, else its
/// floating-point value truncated, else 0.
pub open spec fn lossy_spec(n: JsonNumber) -> i64 {
    match n.as_i64 {
        Some(i) => i,
        None => match n.as_f64_truncated {
            Some(t) => t,
            None => 0,
        },
    }
}

impl JsonNumber {
    /// The number as an `i64` (see [`lossy_spec`]).
    pub fn lossy_i64(&self) -> (r: i64)
        ensures
            r == lossy_spec(*self),
    {
        match self.as_i64 {
            Some(i) => i,
            None => match self.as_f64_truncated {
                Some(t) => t,
                None => 0,
            },
        }
    }
}

/// A JSON document. Object members keep the order they were read in and
/// carry distinct keys.
#[derive(Debug)]
pub enum JsonValue {
    Null,
    Bool(bool),
    Number(JsonNumber),
    Str(String),
    Array(Vec<JsonValue>),
    Object(Vec<(String, JsonValue)>),
}

pub open spec fn is_str(v: JsonValue) -> bool {
    v is Str
}

/// The text of a string value.
pub open spec fn str_text(v: JsonValue) -> Seq<char> {
    match v {
        JsonValue::Str(s) => s@,
        _ => Seq::empty(),
    }
}

/// A string as a one-element list, an array of strings as the list of them;
/// anything else is no list.
pub open spec fn string_list(v: JsonValue) -> Option<Seq<Seq<char>>> {
    match v {
        JsonValue::Str(s) => Some(seq![s@]),
        JsonValue::Array(a) => if forall|i: int| 0 <= i < a@.len() ==> is_str(#[trigger] a@[i]) {
            Some(Seq::new(a@.len(), |i: int| str_text(a@[i])))
        } else {
            None
        },
        _ => None,
    }
}

/// `string_list`, each string as its chars.
pub fn as_string_list(value: &JsonValue) -> (r: Option<Vec<Vec<char>>>)
    ensures
        match r {
            Some(v) => string_list(*value) is Some && v@.len() == string_list(*value)->0.len()
                && forall|i: int| 0 <= i < v@.len() ==> (#[trigger] v@[i])@ == string_list(
                *value,
            )->0[i],
            None => string_list(*value) is None,
        },
{
    match value {
        JsonValue::Str(s) => {
            let mut out: Vec<Vec<char>> = Vec::new();
            out.push(chars_of(s.as_str()));
            Some(out)
        },
        JsonValue::Array(a) => {
            let mut out: Vec<Vec<char>> = Vec::new();
            let mut i: usize = 0;
            while i < a.len()
                invariant
                    *value == JsonValue::Array(*a),
                    i <= a.len(),
                    out@.len() == i,
                    forall|j: int| 0 <= j < i ==> is_str(#[trigger] a@[j]),
                    forall|j: int| 0 <= j < i ==> (#[trigger] out@[j])@ == str_text(a@[j]),
                decreases a.len() - i,
            {
                match &a[i] {
                    JsonValue::Str(s) => {
                        out.push(chars_of(s.as_str()));
                    },
                    _ => {
                        assert(!is_str(a@[i as int]));
                        return None;
                    },
                }
                i += 1;
            }
            Some(out)
        },
        _ => None,
    }
}


#[verifier::external_type_specification]
#[verifier::external_body]
pub struct ExSerdeValue(serde_json::Value);

#[verifier::external_type_specification]
#[verifier::external_body]
pub struct ExSerdeNumber(serde_json::Number);

/// The document that `serde_json` reads from `bytes`, if they are JSON.
pub uninterp spec fn json_parse(bytes: Seq<u8>) -> Option<JsonValue>;

/// The compact text that `serde_json` writes for `v` (object members in order).
pub uninterp spec fn json_render(v: JsonValue) -> Seq<char>;

/// Converts a `serde_json` number, variant by variant.
#[verifier::external_body]
fn number_from_serde(n: &serde_json::Number) -> JsonNumber {
    JsonNumber {
        as_i64: n.as_i64(),
        as_u64: n.as_u64(),
        as_f64_truncated: n.as_f64().map(|f| f as i64),
        text: n.to_string(),
    }
}

/// Converts a `serde_json` value, variant by variant.
#[verifier::external_body]
fn json_from_serde(v: &serde_json::Value) -> JsonValue {
    match v {
        serde_json::Value::Null => JsonValue::Null,
        serde_json::Value::Bool(b) => JsonValue::Bool(*b),
        serde_json::Value::Number(n) => JsonValue::Number(number_from_serde(n)),
        serde_json::Value::String(s) => JsonValue::Str(s.clone()),
        serde_json::Value::Array(a) => JsonValue::Array(a.iter().map(json_from_serde).collect()),
        serde_json::Value::Object(m) => JsonValue::Object(
            m.iter().map(|(k, x)| (k.clone(), json_from_serde(x))).collect(),
        ),
    }
}

/// Converts to a `serde_json` value, variant by variant.
#[verifier::external_body]
fn json_to_serde(v: &JsonValue) -> serde_json::Value {
    match v {
        JsonValue::Null => serde_json::Value::Null,
        JsonValue::Bool(b) => serde_json::Value::Bool(*b),
        JsonValue::Number(n) => serde_json::from_str(&n.text).unwrap_or(serde_json::Value::Null),
        JsonValue::Str(s) => serde_json::Value::String(s.clone()),
        JsonValue::Array(a) => serde_json::Value::Array(a.iter().map(json_to_serde).collect()),
        JsonValue::Object(m) => serde_json::Value::Object(
            m.iter().map(|(k, x)| (k.clone(), json_to_serde(x))).collect(),
        ),
    }
}

/// Reads `bytes` as JSON with `serde_json::from_slice`, keeping the parser's
/// error message.
#[verifier::external_body]
pub fn parse_json_detailed(bytes: &[u8]) -> (r: Result<JsonValue, String>)
    ensures
        match r {
            Ok(v) => json_parse(bytes@) == Some(v),
            Err(_) => json_parse(bytes@) is None,
        },
{
    match serde_json::from_slice::<serde_json::Value>(bytes) {
        Ok(v) => Ok(json_from_serde(&v)),
        Err(e) => Err(e.to_string()),
    }
}

/// Reads `bytes` as JSON; `None` when they are not JSON.
pub fn parse_json(bytes: &[u8]) -> (r: Option<JsonValue>)
    ensures
        r == json_parse(bytes@),
{
    match parse_json_detailed(bytes) {
        Ok(v) => Some(v),
        Err(_) => None,
    }
}

/// Writes `v` as compact JSON with `serde_json`'s `Display`.
#[verifier::external_body]
pub fn render_json(v: &JsonValue) -> (r: String)
    ensures
        r@ == json_render(*v),
{
    json_to_serde(v).to_string()
}

/// `a` and `b` are the same document (texts compared by their characters).
pub open spec fn json_same(a: JsonValue, b: JsonValue) -> bool
    decreases a,
{
    match (a, b) {
        (JsonValue::Null, JsonValue::Null) => true,
        (JsonValue::Bool(x), JsonValue::Bool(y)) => x == y,
        (JsonValue::Number(x), JsonValue::Number(y)) => x.as_i64 == y.as_i64 && x.as_u64 == y.as_u64
            && x.as_f64_truncated == y.as_f64_truncated && x.text@ == y.text@,
        (JsonValue::Str(x), JsonValue::Str(y)) => x@ == y@,
        (JsonValue::Array(x), JsonValue::Array(y)) => x@.len() == y@.len() && forall|i: int|
            0 <= i < x@.len() ==> json_same(#[trigger] x@[i], y@[i]),
        (JsonValue::Object(x), JsonValue::Object(y)) => x@.len() == y@.len() && forall|i: int|
            0 <= i < x@.len() ==> (#[trigger] x@[i]).0@ == y@[i].0@ && json_same(x@[i].1, y@[i].1),
        _ => false,
    }
}

/// A deep copy of a document.
pub fn copy_json(v: &JsonValue) -> (r: JsonValue)
    ensures
        json_same(r, *v),
    decreases v,
{
    match v {
        JsonValue::Null => JsonValue::Null,
        JsonValue::Bool(b) => JsonValue::Bool(*b),
        JsonValue::Number(n) => JsonValue::Number(
            JsonNumber {
                as_i64: n.as_i64,
                as_u64: n.as_u64,
                as_f64_truncated: n.as_f64_truncated,
                text: string_of(&chars_of(n.text.as_str())),
            },
        ),
        JsonValue::Str(s) => JsonValue::Str(string_of(&chars_of(s.as_str()))),
        JsonValue::Array(a) => {
            let mut out: Vec<JsonValue> = Vec::new();
            let mut i: usize = 0;
            while i < a.len()
                invariant
                    *v == JsonValue::Array(*a),
                    i <= a@.len(),
                    out@.len() == i,
                    forall|j: int| 0 <= j < i ==> json_same(#[trigger] out@[j], a@[j]),
                decreases a.len() - i,
            {
                proof {
                    let vv = *v;
                    assert(decreases_to!(vv => vv->Array_0));
                    assert(decreases_to!(vv->Array_0 => vv->Array_0@));
                    assert(decreases_to!(vv->Array_0@ => vv->Array_0@[i as int]));
                }
                out.push(copy_json(&a[i]));
                i += 1;
            }
            JsonValue::Array(out)
        },
        JsonValue::Object(m) => {
            let mut out: Vec<(String, JsonValue)> = Vec::new();
            let mut i: usize = 0;
            while i < m.len()
                invariant
                    *v == JsonValue::Object(*m),
                    i <= m@.len(),
                    out@.len() == i,
                    forall|j: int| 0 <= j < i ==> (#[trigger] out@[j]).0@ == m@[j].0@ && json_same(out@[j].1, m@[j].1),
                decreases m.len() - i,
            {
                proof {
                    let vv = *v;
                    assert(decreases_to!(vv => vv->Object_0));
                    assert(decreases_to!(vv->Object_0 => vv->Object_0@));
                    assert(decreases_to!(vv->Object_0@ => vv->Object_0@[i as int]));
                    assert(decreases_to!(vv->Object_0@[i as int] => vv->Object_0@[i as int].1));
                }
                let k = string_of(&chars_of(m[i].0.as_str()));
                let x = copy_json(&m[i].1);
                out.push((k, x));
                i += 1;
            }
            JsonValue::Object(out)
        },
    }
}

/// `serde_json::to_string` of a string: the JSON string literal.
pub uninterp spec fn json_quote(s: Seq<char>) -> Seq<char>;

/// `serde_json::to_string` of a string (it cannot fail for `str`).
#[verifier::external_body]
pub fn json_string(s: &str) -> (r: String)
    ensures
        r@ == json_quote(s@),
{
    serde_json::to_string(s).unwrap_or_default()
}

/// `serde_json::to_string_pretty` of a document.
pub uninterp spec fn json_render_pretty(v: JsonValue) -> Seq<char>;

/// The document as indented JSON text.
#[verifier::external_body]
pub fn render_json_pretty(v: &JsonValue) -> (r: String)
    ensures
        r@ == json_render_pretty(*v),
{
    serde_json::to_string_pretty(&json_to_serde(v)).unwrap_or_default()
}

/// The number `n`.
pub fn number_of_i64(n: i64) -> (r: JsonNumber)
    ensures
        r.as_i64 == Some(n),
        lossy_spec(r) == n,
        r.text@ == decimal_spec(n as int),
{
    let as_u64: Option<u64> = if n >= 0 {
        Some(n as u64)
    } else {
        None
    };
    JsonNumber { as_i64: Some(n), as_u64, as_f64_truncated: None, text: string_of(&decimal_chars(n)) }
}

/// The number `n`.
pub fn number_of_u64(n: u64) -> (r: JsonNumber)
    ensures
        r.as_u64 == Some(n),
        r.as_i64 == (if n <= i64::MAX { Some(n as i64) } else { None::<i64> }),
        r.text@ == nat_decimal(n as nat),
{
    let as_i64: Option<i64> = if n <= 9223372036854775807u64 {
        Some(n as i64)
    } else {
        None
    };
    let as_f64_truncated: Option<i64> = if n <= 9223372036854775807u64 {
        None
    } else {
        Some(9223372036854775807i64)
    };
    JsonNumber { as_i64, as_u64: Some(n), as_f64_truncated, text: string_of(&u64_decimal_chars(n)) }
}

/// Member `key` of an object: the first member with that key.
pub open spec fn member_of(members: Seq<(String, JsonValue)>, key: Seq<char>) -> Option<JsonValue>
    decreases members.len(),
{
    if members.len() == 0 {
        None
    } else if members[0].0@ == key {
        Some(members[0].1)
    } else {
        member_of(members.drop_first(), key)
    }
}

/// `value.get(key)`: the member of an object, nothing for other values.
pub open spec fn get_spec(value: JsonValue, key: Seq<char>) -> Option<JsonValue> {
    match value {
        JsonValue::Object(m) => member_of(m@, key),
        _ => None,
    }
}

/// Member `key` of `members`.
pub fn member<'a>(members: &'a Vec<(String, JsonValue)>, key: &str) -> (r: Option<&'a JsonValue>)
    ensures
        match r {
            Some(v) => member_of(members@, key@) == Some(*v),
            None => member_of(members@, key@) is None,
        },
{
    let k = chars_of(key);
    let mut i: usize = 0;
    assert(members@.skip(0) =~= members@);
    while i < members.len()
        invariant
            i <= members@.len(),
            k@ == key@,
            member_of(members@, key@) == member_of(members@.skip(i as int), key@),
        decreases members.len() - i,
    {
        proof {
            assert(members@.skip(i as int)[0] == members@[i as int]);
            assert(members@.skip(i as int).drop_first() =~= members@.skip(i + 1));
        }
        if crate::text::chars_eq(&chars_of(members[i].0.as_str()), &k) {
            return Some(&members[i].1);
        }
        i += 1;
    }
    None
}

/// `value.get(key)`.
pub fn get<'a>(value: &'a JsonValue, key: &str) -> (r: Option<&'a JsonValue>)
    ensures
        match r {
            Some(v) => get_spec(*value, key@) == Some(*v),
            None => get_spec(*value, key@) is None,
        },
{
    match value {
        JsonValue::Object(m) => member(m, key),
        _ => None,
    }
}


/// `member_of` is the value of the first member with the key.
pub proof fn lemma_member_of(members: Seq<(String, JsonValue)>, key: Seq<char>)
    ensures
        match member_of(members, key) {
            Some(v) => exists|i: int|
                0 <= i < members.len() && (#[trigger] members[i]).0@ == key && members[i].1 == v
                    && forall|j: int| 0 <= j < i ==> (#[trigger] members[j]).0@ != key,
            None => forall|i: int| 0 <= i < members.len() ==> (#[trigger] members[i]).0@ != key,
        },
    decreases members.len(),
{
    if members.len() > 0 {
        lemma_member_of(members.drop_first(), key);
        if members[0].0@ != key {
            match member_of(members.drop_first(), key) {
                Some(v) => {
                    let i = choose|i: int|
                        0 <= i < members.drop_first().len() && (
                        #[trigger] members.drop_first()[i]).0@ == key && members.drop_first()[i].1
                            == v && forall|j: int|
                            0 <= j < i ==> (#[trigger] members.drop_first()[j]).0@ != key;
                    assert(members[i + 1] == members.drop_first()[i]);
                    assert forall|j: int| 0 <= j < i + 1 implies (#[trigger] members[j]).0@ != key by {
                        if j > 0 {
                            assert(members[j] == members.drop_first()[j - 1]);
                        }
                    }
                },
                None => {
                    assert forall|i: int| 0 <= i < members.len() implies (
                    #[trigger] members[i]).0@ != key by {
                        if i > 0 {
                            assert(members[i] == members.drop_first()[i - 1]);
                        }
                    }
                },
            }
        } else {
            assert(members[0] == members[0]);
        }
    }
}

/// The first member with `key` is at `i`.
pub proof fn lemma_member_at(members: Seq<(String, JsonValue)>, key: Seq<char>, i: int)
    requires
        0 <= i < members.len(),
        members[i].0@ == key,
        forall|j: int| 0 <= j < i ==> (#[trigger] members[j]).0@ != key,
    ensures
        member_of(members, key) == Some(members[i].1),
    decreases i,
{
    if i > 0 {
        assert forall|j: int| 0 <= j < i - 1 implies (#[trigger] members.drop_first()[j]).0@ != key by {
            assert(members.drop_first()[j] == members[j + 1]);
        }
        assert(members.drop_first()[i - 1] == members[i]);
        lemma_member_at(members.drop_first(), key, i - 1);
    }
}

/// Removing a member leaves the lookup of other keys unchanged.
pub proof fn lemma_member_remove(members: Seq<(String, JsonValue)>, i: int, key: Seq<char>)
    requires
        0 <= i < members.len(),
        members[i].0@ != key,
    ensures
        member_of(members.remove(i), key) == member_of(members, key),
    decreases members.len(),
{
    let r = members.remove(i);
    if i == 0 {
        assert(r =~= members.drop_first());
    } else {
        assert(r[0] == members[0]);
        assert(r.drop_first() =~= members.drop_first().remove(i - 1));
        lemma_member_remove(members.drop_first(), i - 1, key);
    }
}

/// Replacing a member whose key is not `key` by another such member leaves
/// member `key` as it was.
pub proof fn lemma_member_update_other(
    members: Seq<(String, JsonValue)>,
    i: int,
    p: (String, JsonValue),
    key: Seq<char>,
)
    requires
        0 <= i < members.len(),
        members[i].0@ != key,
        p.0@ != key,
    ensures
        member_of(members.update(i, p), key) == member_of(members, key),
    decreases members.len(),
{
    let r = members.update(i, p);
    if i > 0 {
        assert(r[0] == members[0]);
        assert(r.drop_first() =~= members.drop_first().update(i - 1, p));
        lemma_member_update_other(members.drop_first(), i - 1, p, key);
    } else {
        assert(r.drop_first() =~= members.drop_first());
    }
}

/// Appending a member only matters for a key not yet present.
pub proof fn lemma_member_of_push(members: Seq<(String, JsonValue)>, p: (String, JsonValue), key: Seq<char>)
    ensures
        member_of(members.push(p), key) == match member_of(members, key) {
            Some(v) => Some(v),
            None => if p.0@ == key {
                Some(p.1)
            } else {
                None
            },
        },
    decreases members.len(),
{
    let q = members.push(p);
    if members.len() > 0 {
        assert(q[0] == members[0]);
        assert(q.drop_first() =~= members.drop_first().push(p));
        lemma_member_of_push(members.drop_first(), p, key);
    } else {
        assert(q[0] == p);
        assert(q.drop_first() =~= Seq::<(String, JsonValue)>::empty());
        assert(member_of(q.drop_first(), key) is None);
    }
}

/// Index of the first member with `key`.
pub fn member_index(members: &Vec<(String, JsonValue)>, key: &str) -> (r: Option<usize>)
    ensures
        match r {
            Some(i) => i < members@.len() && members@[i as int].0@ == key@ && member_of(
                members@,
                key@,
            ) == Some(members@[i as int].1) && forall|j: int|
                0 <= j < i ==> (#[trigger] members@[j]).0@ != key@,
            None => member_of(members@, key@) is None,
        },
{
    let k = chars_of(key);
    let mut i: usize = 0;
    while i < members.len()
        invariant
            i <= members@.len(),
            k@ == key@,
            forall|j: int| 0 <= j < i ==> (#[trigger] members@[j]).0@ != key@,
        decreases members.len() - i,
    {
        if crate::text::chars_eq(&chars_of(members[i].0.as_str()), &k) {
            proof {
                lemma_member_at(members@, key@, i as int);
            }
            return Some(i);
        }
        i += 1;
    }
    proof {
        lemma_member_of(members@, key@);
    }
    None
}

/// Appends member `key` holding `value` to an object's members that do not
/// have the key yet.
pub fn push_member(m: &mut Vec<(String, JsonValue)>, key: &str, value: JsonValue)
    requires
        member_of(old(m)@, key@) is None,
    ensures
        final(m)@.map_values(|p: (String, JsonValue)| p.0@) == old(m)@.map_values(
            |p: (String, JsonValue)| p.0@,
        ).push(key@),
        member_of(final(m)@, key@) == Some(value),
        forall|k: Seq<char>| k != key@ ==> #[trigger] member_of(final(m)@, k) == member_of(old(m)@, k),
{
    let ghost before = m@;
    m.push((string_of(&chars_of(key)), value));
    proof {
        let p = m@.last();
        assert(m@ == before.push(p));
        assert(m@.map_values(|p: (String, JsonValue)| p.0@) =~= before.map_values(
            |p: (String, JsonValue)| p.0@,
        ).push(key@));
        lemma_member_of_push(before, p, key@);
        assert forall|k: Seq<char>| k != key@ implies #[trigger] member_of(m@, k) == member_of(before, k) by {
            lemma_member_of_push(before, p, k);
        }
    }
}

/// Being the same document is transitive.
pub proof fn lemma_json_same_trans(a: JsonValue, b: JsonValue, c: JsonValue)
    requires
        json_same(a, b),
        json_same(b, c),
    ensures
        json_same(a, c),
    decreases a,
{
    match a {
        JsonValue::Array(x) => {
            let y = b->Array_0;
            let z = c->Array_0;
            assert forall|i: int| 0 <= i < x@.len() implies json_same(#[trigger] x@[i], z@[i]) by {
                lemma_json_same_trans(x@[i], y@[i], z@[i]);
            }
        },
        JsonValue::Object(x) => {
            let y = b->Object_0;
            let z = c->Object_0;
            assert forall|i: int| 0 <= i < x@.len() implies (#[trigger] x@[i]).0@ == z@[i].0@ && json_same(
                x@[i].1,
                z@[i].1,
            ) by {
                assert(x@[i].0@ == y@[i].0@ && json_same(x@[i].1, y@[i].1));
                assert(y@[i].0@ == z@[i].0@ && json_same(y@[i].1, z@[i].1));
                lemma_json_same_trans(x@[i].1, y@[i].1, z@[i].1);
            }
        },
        _ => {},
    }
}

} // verus!
