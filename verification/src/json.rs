//! A JSON document as plain values: what the RPC protocol reads and builds,
//! and its text form (read and written by `serde_json`).

use serde_json::Value;
use vstd::prelude::*;

verus! {

/// A JSON number as the protocol distinguishes it: a non-negative integer, a
/// negative integer, or anything else (kept as its text).
#[derive(Clone, Debug, PartialEq, Eq)]
pub enum JsonNumber {
    PosInt(u64),
    NegInt(i64),
    Other(String),
}

/// A JSON value. Object members keep their order; a lookup finds the first
/// member with the key.
#[derive(Debug, PartialEq, Eq)]
pub enum JsonValue {
    Null,
    Bool(bool),
    Number(JsonNumber),
    String(String),
    Array(Vec<JsonValue>),
    Object(Vec<(String, JsonValue)>),
}

/// Index of the first member named `key`, if any.
pub open spec fn member_index(es: Seq<(String, JsonValue)>, key: Seq<char>) -> Option<int> {
    if exists|i: int| 0 <= i < es.len() && (#[trigger] es[i]).0@ == key {
        Some(
            choose|i: int|
                0 <= i < es.len() && (#[trigger] es[i]).0@ == key && forall|j: int|
                    0 <= j < i ==> (#[trigger] es[j]).0@ != key,
        )
    } else {
        None
    }
}

/// The member `key` of an object (`Value::get` with a string key); `None` for
/// a missing key or a non-object.
pub open spec fn spec_get(v: JsonValue, key: Seq<char>) -> Option<JsonValue> {
    match v {
        JsonValue::Object(es) => match member_index(es@, key) {
            Some(i) => Some(es@[i].1),
            None => None,
        },
        _ => None,
    }
}

/// The text of a string value (`Value::as_str`).
pub open spec fn spec_as_str(v: Option<JsonValue>) -> Option<Seq<char>> {
    match v {
        Some(JsonValue::String(s)) => Some(s@),
        _ => None,
    }
}

/// The value of a non-negative integer (`Value::as_u64`).
pub open spec fn spec_as_u64(v: Option<JsonValue>) -> Option<u64> {
    match v {
        Some(JsonValue::Number(JsonNumber::PosInt(n))) => Some(n),
        _ => None,
    }
}

/// The value of a boolean (`Value::as_bool`).
pub open spec fn spec_as_bool(v: Option<JsonValue>) -> Option<bool> {
    match v {
        Some(JsonValue::Bool(b)) => Some(b),
        _ => None,
    }
}

/// The items of an array (`Value::as_array`).
pub open spec fn spec_as_array(v: Option<JsonValue>) -> Option<Seq<JsonValue>> {
    match v {
        Some(JsonValue::Array(a)) => Some(a@),
        _ => None,
    }
}

/// The member `key` of an object, by reference.
pub fn get<'a>(v: &'a JsonValue, key: &str) -> (r: Option<&'a JsonValue>)
    ensures
        match r {
            Some(x) => spec_get(*v, key@) == Some(*x),
            None => spec_get(*v, key@) is None,
        },
{
    match v {
        JsonValue::Object(es) => {
            let k = key.to_owned();
            let mut i: usize = 0;
            while i < es.len()
                invariant
                    k@ == key@,
                    *v == JsonValue::Object(*es),
                    i <= es@.len(),
                    forall|j: int| 0 <= j < i ==> (#[trigger] es@[j]).0@ != key@,
                decreases es.len() - i,
            {
                if es[i].0 == k {
                    proof {
                        let ii = i as int;
                        let w = choose|w: int|
                            0 <= w < es@.len() && (#[trigger] es@[w]).0@ == key@ && forall|j: int|
                                0 <= j < w ==> (#[trigger] es@[j]).0@ != key@;
                        assert(0 <= ii < es@.len() && es@[ii].0@ == key@ && forall|j: int|
                            0 <= j < ii ==> (#[trigger] es@[j]).0@ != key@);
                        if w < ii {
                            assert(es@[w].0@ != key@);
                        } else if w > ii {
                            assert(es@[ii].0@ != key@);
                        }
                        assert(member_index(es@, key@) == Some(ii));
                    }
                    return Some(&es[i].1);
                }
                i = i + 1;
            }
            None
        },
        _ => None,
    }
}

/// The text of a string value.
pub fn as_str(v: Option<&JsonValue>) -> (r: Option<&str>)
    ensures
        match r {
            Some(s) => spec_as_str(match v { Some(x) => Some(*x), None => None }) == Some(s@),
            None => spec_as_str(match v { Some(x) => Some(*x), None => None }) is None,
        },
{
    match v {
        Some(JsonValue::String(s)) => Some(s.as_str()),
        _ => None,
    }
}

/// The value of a non-negative integer.
pub fn as_u64(v: Option<&JsonValue>) -> (r: Option<u64>)
    ensures
        r == spec_as_u64(match v { Some(x) => Some(*x), None => None }),
{
    match v {
        Some(JsonValue::Number(JsonNumber::PosInt(n))) => Some(*n),
        _ => None,
    }
}

/// The value of a boolean.
pub fn as_bool(v: Option<&JsonValue>) -> (r: Option<bool>)
    ensures
        r == spec_as_bool(match v { Some(x) => Some(*x), None => None }),
{
    match v {
        Some(JsonValue::Bool(b)) => Some(*b),
        _ => None,
    }
}

/// A string value holding `s`.
pub fn string(s: &str) -> (v: JsonValue)
    ensures
        v matches JsonValue::String(t) && t@ == s@,
{
    JsonValue::String(s.to_owned())
}

// ---------------------------------------------------------------------------
// Text form (`serde_json`)
// ---------------------------------------------------------------------------

#[verifier::external_type_specification]
#[verifier::external_body]
pub struct ExValue(serde_json::Value);

/// What `serde_json::from_slice::<Value>` gives for some bytes, as a
/// `JsonValue`: the document, or the text of the parse error.
pub uninterp spec fn spec_json_decode(bytes: Seq<u8>) -> Result<JsonValue, Seq<char>>;

/// What `serde_json::to_vec` writes for a `JsonValue` (as a `Value`).
pub uninterp spec fn spec_json_encode(v: JsonValue) -> Seq<u8>;

/// Turns a `serde_json::Value` into a `JsonValue`, variant by variant (a
/// number becomes `PosInt` when `as_u64` reads it, else `NegInt` when
/// `as_i64` does, else `Other` with its text).
#[verifier::external_body]
fn json_of(v: &Value) -> JsonValue {
    match v {
        Value::Null => JsonValue::Null,
        Value::Bool(b) => JsonValue::Bool(*b),
        Value::Number(n) => JsonValue::Number(match (n.as_u64(), n.as_i64()) {
            (Some(u), _) => JsonNumber::PosInt(u),
            (_, Some(i)) => JsonNumber::NegInt(i),
            _ => JsonNumber::Other(n.to_string()),
        }),
        Value::String(t) => JsonValue::String(t.clone()),
        Value::Array(a) => JsonValue::Array(a.iter().map(json_of).collect()),
        Value::Object(o) => JsonValue::Object(o.iter().map(|(k, x)| (k.clone(), json_of(x))).collect()),
    }
}

/// Turns a `JsonValue` into a `serde_json::Value`, variant by variant (an
/// `Other` number is read back from its text, `null` if it is none).
#[verifier::external_body]
fn value_of(v: &JsonValue) -> Value {
    match v {
        JsonValue::Null => Value::Null,
        JsonValue::Bool(b) => Value::Bool(*b),
        JsonValue::Number(JsonNumber::PosInt(u)) => Value::from(*u),
        JsonValue::Number(JsonNumber::NegInt(i)) => Value::from(*i),
        JsonValue::Number(JsonNumber::Other(t)) => t.parse().map(Value::Number).unwrap_or(Value::Null),
        JsonValue::String(t) => Value::String(t.clone()),
        JsonValue::Array(a) => Value::Array(a.iter().map(value_of).collect()),
        JsonValue::Object(o) => Value::Object(o.iter().map(|(k, x)| (k.clone(), value_of(x))).collect()),
    }
}

/// Calls `serde_json::from_slice::<Value>` and turns the document into a
/// `JsonValue`, or the error into its text. Claims: the outcome is a
/// function of the bytes alone.
#[verifier::external_body]
pub fn json_decode(bytes: &[u8]) -> (r: Result<JsonValue, String>)
    ensures
        match (r, spec_json_decode(bytes@)) {
            (Ok(v), Ok(w)) => v == w,
            (Err(e), Err(m)) => e@ == m,
            _ => false,
        },
{
    match serde_json::from_slice::<Value>(bytes) {
        Ok(v) => Ok(json_of(&v)),
        Err(e) => Err(e.to_string()),
    }
}

/// Calls `serde_json::to_vec` on the `Value` a `JsonValue` stands for.
/// Claims: the bytes are a function of the value alone. (Writing a `Value`
/// cannot fail: its map keys are strings.)
#[verifier::external_body]
pub fn json_encode(v: &JsonValue) -> (r: Vec<u8>)
    ensures
        r@ == spec_json_encode(*v),
{
    serde_json::to_vec(&value_of(v)).unwrap_or_default()
}

} // verus!
