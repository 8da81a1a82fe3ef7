//! JSON documents as the library reads them: the values of a parsed
//! document, and the lookups the scanners make in them.
use vstd::prelude::*;

use crate::text::{chars_eq, chars_of};

verus! {

/// A JSON number, by the kind of integer it holds. A number with a
/// fraction or an exponent is only marked as such: nothing here reads its
/// value.
#[derive(Debug, Clone, Copy, PartialEq, Eq, Structural)]
pub enum JsonNumber {
    /// A non-negative integer.
    PosInt(u64),
    /// A negative integer.
    NegInt(i64),
    /// A number that is not an integer.
    Float,
}

/// A parsed JSON value. An object keeps its members in the order the
/// parser gives them, each key once.
#[derive(Debug)]
pub enum JsonValue {
    Null,
    Bool(bool),
    Number(JsonNumber),
    String(String),
    Array(Vec<JsonValue>),
    Object(Vec<JsonMember>),
}

/// A member of a JSON object.
#[derive(Debug)]
pub struct JsonMember {
    pub key: String,
    pub value: JsonValue,
}

#[verifier::external_type_specification]
#[verifier::external_body]
pub struct ExSerdeJsonValue(serde_json::Value);

/// The value `serde_json::from_str::<serde_json::Value>` parses from a
/// text, as the library holds it; none where the text is not JSON.
pub uninterp spec fn json_text_value(text: Seq<char>) -> Option<JsonValue>;

/// Parses a JSON text (`serde_json::from_str::<serde_json::Value>`) and
/// gives the parsed value as the library holds it, or nothing where the
/// text is not JSON. The contract only names the result: it depends on the
/// text alone.
#[verifier::external_body]
pub(crate) fn parse_json_text(text: &str) -> (r: Option<JsonValue>)
    ensures
        r == json_text_value(text@),
{
    serde_json::from_str::<serde_json::Value>(text).ok().map(json_from_serde)
}

/// A `serde_json::Value` as the library holds it, one for one: numbers by
/// their integer kind, objects with their members in the parser's order.
#[verifier::external_body]
fn json_from_serde(value: serde_json::Value) -> JsonValue {
    match value {
        serde_json::Value::Null => JsonValue::Null,
        serde_json::Value::Bool(b) => JsonValue::Bool(b),
        serde_json::Value::Number(n) => JsonValue::Number(match (n.as_u64(), n.as_i64()) {
            (Some(u), _) => JsonNumber::PosInt(u),
            (None, Some(i)) => JsonNumber::NegInt(i),
            (None, None) => JsonNumber::Float,
        }),
        serde_json::Value::String(s) => JsonValue::String(s),
        serde_json::Value::Array(items) => JsonValue::Array(items.into_iter().map(json_from_serde).collect()),
        serde_json::Value::Object(map) => JsonValue::Object(
            map.into_iter().map(|(key, value)| JsonMember { key, value: json_from_serde(value) }).collect(),
        ),
    }
}

/// `i` is the first member of the object named `key`.
pub open spec fn first_member(m: Seq<JsonMember>, key: Seq<char>, i: int) -> bool {
    &&& 0 <= i < m.len()
    &&& m[i].key@ == key
    &&& forall|j: int| 0 <= j < i ==> (#[trigger] m[j]).key@ != key
}

/// The member of an object named `key` (`Value::get`); nothing for a value
/// that is not an object.
pub open spec fn json_get(v: JsonValue, key: Seq<char>) -> Option<JsonValue> {
    match v {
        JsonValue::Object(m) => if exists|i: int| first_member(m@, key, i) {
            Some(m@[choose|i: int| first_member(m@, key, i)].value)
        } else {
            None
        },
        _ => None,
    }
}

/// The text of a string value (`Value::as_str`).
pub open spec fn json_str(v: JsonValue) -> Option<Seq<char>> {
    match v {
        JsonValue::String(s) => Some(s@),
        _ => None,
    }
}

/// A value read as an unsigned integer: a non-negative integer number
/// (`Value::as_u64`, or `as_i64` when it fits `u64`).
pub open spec fn json_u64(v: JsonValue) -> Option<u64> {
    match v {
        JsonValue::Number(JsonNumber::PosInt(n)) => Some(n),
        _ => None,
    }
}

/// The text of the member `key`, if it is a string.
pub open spec fn json_field_str(v: JsonValue, key: Seq<char>) -> Option<Seq<char>> {
    match json_get(v, key) {
        Some(x) => json_str(x),
        None => None,
    }
}

/// The member `key` read as an unsigned integer.
pub open spec fn json_field_u64(v: JsonValue, key: Seq<char>) -> Option<u64> {
    match json_get(v, key) {
        Some(x) => json_u64(x),
        None => None,
    }
}

/// The strings among the elements of an array value, in order; none for a
/// value that is not an array.
pub open spec fn json_strings(v: JsonValue) -> Seq<Seq<char>> {
    match v {
        JsonValue::Array(a) => strings_of(a@),
        _ => Seq::empty(),
    }
}

/// The strings among a sequence of values, in order.
pub open spec fn strings_of(a: Seq<JsonValue>) -> Seq<Seq<char>>
    decreases a.len(),
{
    if a.len() == 0 {
        Seq::empty()
    } else {
        strings_of(a.drop_last()) + match a.last() {
            JsonValue::String(s) => seq![s@],
            _ => Seq::empty(),
        }
    }
}

/// The member of an object named `key`.
pub fn get<'a>(v: &'a JsonValue, key: &str) -> (r: Option<&'a JsonValue>)
    ensures
        match r {
            Some(x) => json_get(*v, key@) == Some(*x),
            None => json_get(*v, key@) is None,
        },
{
    match v {
        JsonValue::Object(m) => {
            let k = chars_of(key);
            let mut i: usize = 0;
            while i < m.len()
                invariant
                    0 <= i <= m@.len(),
                    k@ == key@,
                    *v == JsonValue::Object(*m),
                    forall|j: int| 0 <= j < i ==> (#[trigger] m@[j]).key@ != key@,
                decreases m.len() - i,
            {
                let name = chars_of(m[i].key.as_str());
                if chars_eq(name.as_slice(), k.as_slice()) {
                    proof {
                        assert(first_member(m@, key@, i as int));
                        let c = choose|c: int| first_member(m@, key@, c);
                        if c < i {
                            assert(m@[c].key@ != key@);
                        } else if i < c {
                            assert(m@[i as int].key@ != key@);
                        }
                    }
                    return Some(&m[i].value);
                }
                i += 1;
            }
            assert(!exists|c: int| first_member(m@, key@, c)) by {
                if exists|c: int| first_member(m@, key@, c) {
                    let c = choose|c: int| first_member(m@, key@, c);
                    assert(m@[c].key@ != key@);
                }
            }
            None
        },
        _ => None,
    }
}

/// The text of a string value.
pub fn as_str(v: &JsonValue) -> (r: Option<&str>)
    ensures
        match r {
            Some(s) => json_str(*v) == Some(s@),
            None => json_str(*v) is None,
        },
{
    match v {
        JsonValue::String(s) => Some(s.as_str()),
        _ => None,
    }
}

/// A value read as an unsigned integer.
pub fn as_u64(v: &JsonValue) -> (r: Option<u64>)
    ensures
        r == json_u64(*v),
{
    match v {
        JsonValue::Number(JsonNumber::PosInt(n)) => Some(*n),
        _ => None,
    }
}

/// The text of the member `key`, if it is a string.
pub fn field_str(v: &JsonValue, key: &str) -> (r: Option<String>)
    ensures
        crate::models::opt_str(r) == json_field_str(*v, key@),
{
    match get(v, key) {
        Some(x) => match as_str(x) {
            Some(s) => Some(s.to_owned()),
            None => None,
        },
        None => None,
    }
}

/// The member `key` read as an unsigned integer.
pub fn field_u64(v: &JsonValue, key: &str) -> (r: Option<u64>)
    ensures
        r == json_field_u64(*v, key@),
{
    match get(v, key) {
        Some(x) => as_u64(x),
        None => None,
    }
}

/// The strings among the elements of an array value.
pub fn strings(v: &JsonValue) -> (r: Vec<String>)
    ensures
        crate::models::strs(r@) == json_strings(*v),
{
    let mut out: Vec<String> = Vec::new();
    match v {
        JsonValue::Array(a) => {
            let mut i: usize = 0;
            while i < a.len()
                invariant
                    0 <= i <= a@.len(),
                    crate::models::strs(out@) == strings_of(a@.take(i as int)),
                decreases a.len() - i,
            {
                assert(a@.take(i + 1).drop_last() =~= a@.take(i as int));
                let ghost before = crate::models::strs(out@);
                match &a[i] {
                    JsonValue::String(s) => {
                        out.push(s.clone());
                        assert(crate::models::strs(out@) =~= before + seq![s@]);
                    },
                    _ => {
                        assert(crate::models::strs(out@) =~= before + Seq::<Seq<char>>::empty());
                    },
                }
                i += 1;
            }
            assert(a@.take(a@.len() as int) =~= a@);
        },
        _ => {},
    }
    out
}

/// The value of the first member named `key` in a list of members.
pub open spec fn members_get(m: Seq<JsonMember>, key: Seq<char>) -> Option<JsonValue> {
    if exists|i: int| first_member(m, key, i) {
        Some(m[choose|i: int| first_member(m, key, i)].value)
    } else {
        None
    }
}

/// The value of the first member named `key`.
pub fn get_member<'a>(m: &'a Vec<JsonMember>, key: &str) -> (r: Option<&'a JsonValue>)
    ensures
        match r {
            Some(x) => members_get(m@, key@) == Some(*x),
            None => members_get(m@, key@) is None,
        },
{
    let k = chars_of(key);
    let mut i: usize = 0;
    while i < m.len()
        invariant
            0 <= i <= m@.len(),
            k@ == key@,
            forall|j: int| 0 <= j < i ==> (#[trigger] m@[j]).key@ != key@,
        decreases m.len() - i,
    {
        let name = chars_of(m[i].key.as_str());
        if chars_eq(name.as_slice(), k.as_slice()) {
            proof {
                assert(first_member(m@, key@, i as int));
                let c = choose|c: int| first_member(m@, key@, c);
                if c < i {
                    assert(m@[c].key@ != key@);
                } else if i < c {
                    assert(m@[i as int].key@ != key@);
                }
            }
            return Some(&m[i].value);
        }
        i += 1;
    }
    assert(!exists|c: int| first_member(m@, key@, c)) by {
        if exists|c: int| first_member(m@, key@, c) {
            let c = choose|c: int| first_member(m@, key@, c);
            assert(m@[c].key@ != key@);
        }
    }
    None
}

} // verus!
