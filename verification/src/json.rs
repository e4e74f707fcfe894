//! The JSON documents the hooks and installers read and write, modelled as
//! a plain tree, with key lookup, structural comparison and object updates.

use vstd::prelude::*;
use crate::members::{find_key, lemma_find_key_bounds, position_of};
use serde_json::Value;

verus! {

/// A JSON value. Object members keep the order in which they were
/// inserted; `serde_json` hands parsed objects out with their keys in
/// sorted order, and renders objects with their keys sorted.
#[derive(Debug, PartialEq)]
pub enum JsonValue {
    Null,
    Bool(bool),
    /// A non-negative integer.
    UInt(u64),
    /// A negative integer.
    NegInt(i64),
    /// Any other number, as its canonical text.
    Float(String),
    Str(String),
    Array(Vec<JsonValue>),
    Object(Vec<(String, JsonValue)>),
}

#[verifier::external_type_specification]
#[verifier::external_body]
pub struct ExSerdeJsonValue(serde_json::Value);

/// What `serde_json` parses `text` into, as a [`JsonValue`]; `None` when the
/// text is not one well-formed JSON document.
pub uninterp spec fn json_parse(text: Seq<char>) -> Option<JsonValue>;

/// One-for-one structural conversion of a `serde_json::Value` tree.
#[verifier::external_body]
fn from_serde(v: &Value) -> JsonValue {
    match v {
        Value::Null => JsonValue::Null,
        Value::Bool(b) => JsonValue::Bool(*b),
        Value::Number(n) => match (n.as_u64(), n.as_i64()) {
            (Some(u), _) => JsonValue::UInt(u),
            (None, Some(i)) => JsonValue::NegInt(i),
            (None, None) => JsonValue::Float(n.to_string()),
        },
        Value::String(s) => JsonValue::Str(s.clone()),
        Value::Array(a) => JsonValue::Array(a.iter().map(from_serde).collect()),
        Value::Object(m) => JsonValue::Object(m.iter().map(|(k, x)| (k.clone(), from_serde(x))).collect()),
    }
}

/// Parses `text` with `serde_json::from_str::<Value>`; the
/// result is named [`json_parse`] and is a function of the text alone.
#[verifier::external_body]
pub fn parse_json(text: &str) -> (r: Option<JsonValue>)
    ensures
        r == json_parse(text@),
{
    match serde_json::from_str::<Value>(text) {
        Ok(v) => Some(from_serde(&v)),
        Err(_) => None,
    }
}

/// The member named `key` of an object (the first one), if any.
pub open spec fn member(v: JsonValue, key: Seq<char>) -> Option<JsonValue> {
    match v {
        JsonValue::Object(m) => match find_key(m@, key) {
            Some(i) => Some(m@[i].1),
            None => None,
        },
        _ => None,
    }
}

/// The string of a `Str` value.
pub open spec fn str_of(v: Option<JsonValue>) -> Option<Seq<char>> {
    match v {
        Some(JsonValue::Str(s)) => Some(s@),
        _ => None,
    }
}

/// `Value::as_i64`.
pub open spec fn i64_of(v: Option<JsonValue>) -> Option<int> {
    match v {
        Some(JsonValue::UInt(u)) => if u <= i64::MAX { Some(u as int) } else { None },
        Some(JsonValue::NegInt(i)) => Some(i as int),
        _ => None,
    }
}

/// The elements of an `Array` value.
pub open spec fn array_of(v: Option<JsonValue>) -> Option<Seq<JsonValue>> {
    match v {
        Some(JsonValue::Array(a)) => Some(a@),
        _ => None,
    }
}

impl JsonValue {
    /// `value.get(key)` for an object member.
    pub fn get(&self, key: &str) -> (r: Option<&JsonValue>)
        ensures
            r matches Some(x) ==> member(*self, key@) == Some(*x),
            r is None ==> member(*self, key@) is None,
    {
        match self {
            JsonValue::Object(m) => match position_of(m, key) {
                Some(i) => {
                    proof {
                        lemma_find_key_bounds(m@, key@);
                    }
                    Some(&m[i].1)
                },
                None => None,
            },
            _ => None,
        }
    }

    /// `value.as_str()`.
    pub fn as_str(&self) -> (r: Option<&String>)
        ensures
            r matches Some(s) ==> str_of(Some(*self)) == Some(s@),
            r is None ==> str_of(Some(*self)) is None,
    {
        match self {
            JsonValue::Str(s) => Some(s),
            _ => None,
        }
    }

    /// `value.as_array()`.
    pub fn as_array(&self) -> (r: Option<&Vec<JsonValue>>)
        ensures
            r matches Some(a) ==> array_of(Some(*self)) == Some(a@),
            r is None ==> array_of(Some(*self)) is None,
    {
        match self {
            JsonValue::Array(a) => Some(a),
            _ => None,
        }
    }

    /// `value.as_i64()`.
    pub fn as_i64(&self) -> (r: Option<i64>)
        ensures
            r matches Some(n) ==> i64_of(Some(*self)) == Some(n as int),
            r is None ==> i64_of(Some(*self)) is None,
    {
        match self {
            JsonValue::UInt(u) => if *u <= i64::MAX as u64 { Some(*u as i64) } else { None },
            JsonValue::NegInt(i) => Some(*i),
            _ => None,
        }
    }

    /// `value.is_object()`.
    pub fn is_object(&self) -> (r: bool)
        ensures
            r == (*self is Object),
    {
        match self {
            JsonValue::Object(_) => true,
            _ => false,
        }
    }

    /// `value == JSON true`.
    pub fn is_true(&self) -> (r: bool)
        ensures
            r == (*self == JsonValue::Bool(true)),
    {
        match self {
            JsonValue::Bool(b) => *b,
            _ => false,
        }
    }
}

/// Structural equality of JSON documents: strings and numbers by value,
/// arrays element by element, objects member by member in order.
pub open spec fn json_eqv(a: JsonValue, b: JsonValue) -> bool
    decreases a,
{
    match a {
        JsonValue::Null => b matches JsonValue::Null,
        JsonValue::Bool(x) => b matches JsonValue::Bool(y) && x == y,
        JsonValue::UInt(x) => b matches JsonValue::UInt(y) && x == y,
        JsonValue::NegInt(x) => b matches JsonValue::NegInt(y) && x == y,
        JsonValue::Float(x) => b matches JsonValue::Float(y) && x@ == y@,
        JsonValue::Str(x) => b matches JsonValue::Str(y) && x@ == y@,
        JsonValue::Array(xs) => b matches JsonValue::Array(ys) && xs@.len() == ys@.len()
            && forall|i: int| #![trigger xs@[i]] 0 <= i < xs@.len() ==> json_eqv(xs@[i], ys@[i]),
        JsonValue::Object(xs) => b matches JsonValue::Object(ys) && xs@.len() == ys@.len()
            && forall|i: int| #![trigger xs@[i]] 0 <= i < xs@.len() ==> (xs@[i].0@ == ys@[i].0@ && json_eqv(xs@[i].1, ys@[i].1)),
    }
}

/// Every document is structurally the same as itself.
pub proof fn lemma_json_eqv_refl(v: JsonValue)
    ensures
        json_eqv(v, v),
    decreases v,
{
    match v {
        JsonValue::Array(xs) => {
            assert forall|i: int| #![trigger xs@[i]] 0 <= i < xs@.len() implies json_eqv(xs@[i], xs@[i]) by {
                lemma_json_eqv_refl(xs@[i]);
            }
        },
        JsonValue::Object(xs) => {
            assert forall|i: int| #![trigger xs@[i]] 0 <= i < xs@.len() implies json_eqv(xs@[i].1, xs@[i].1) by {
                lemma_json_eqv_refl(xs@[i].1);
            }
        },
        _ => {},
    }
}

/// Decides [`json_eqv`].
#[verifier::loop_isolation(false)]
pub fn json_same(a: &JsonValue, b: &JsonValue) -> (r: bool)
    ensures
        r == json_eqv(*a, *b),
    decreases a,
{
    match a {
        JsonValue::Null => match b { JsonValue::Null => true, _ => false },
        JsonValue::Bool(x) => match b { JsonValue::Bool(y) => *x == *y, _ => false },
        JsonValue::UInt(x) => match b { JsonValue::UInt(y) => *x == *y, _ => false },
        JsonValue::NegInt(x) => match b { JsonValue::NegInt(y) => *x == *y, _ => false },
        JsonValue::Float(x) => match b { JsonValue::Float(y) => *x == *y, _ => false },
        JsonValue::Str(x) => match b { JsonValue::Str(y) => *x == *y, _ => false },
        JsonValue::Array(xs) => match b {
            JsonValue::Array(ys) => {
                if xs.len() != ys.len() {
                    return false;
                }
                let mut i: usize = 0;
                while i < xs.len()
                    invariant
                        i <= xs@.len(),
                        xs@.len() == ys@.len(),
                        forall|k: int| 0 <= k < i ==> json_eqv(xs@[k], ys@[k]),
                    decreases xs@.len() - i,
                {
                    if !json_same(&xs[i], &ys[i]) {
                        assert(!json_eqv(xs@[i as int], ys@[i as int]));
                        return false;
                    }
                    i += 1;
                }
                true
            },
            _ => false,
        },
        JsonValue::Object(xs) => match b {
            JsonValue::Object(ys) => {
                if xs.len() != ys.len() {
                    return false;
                }
                let mut i: usize = 0;
                while i < xs.len()
                    invariant
                        i <= xs@.len(),
                        xs@.len() == ys@.len(),
                        forall|k: int| 0 <= k < i ==> xs@[k].0@ == ys@[k].0@ && json_eqv(xs@[k].1, ys@[k].1),
                    decreases xs@.len() - i,
                {
                    if !(xs[i].0 == ys[i].0) {
                        assert(xs@[i as int].0@ != ys@[i as int].0@);
                        return false;
                    }
                    if !json_same(&xs[i].1, &ys[i].1) {
                        assert(!json_eqv(xs@[i as int].1, ys@[i as int].1));
                        return false;
                    }
                    i += 1;
                }
                true
            },
            _ => false,
        },
    }
}

/// A copy of `v` that is structurally the same document.
#[verifier::loop_isolation(false)]
pub fn json_copy(v: &JsonValue) -> (r: JsonValue)
    ensures
        json_eqv(*v, r),
    decreases v,
{
    match v {
        JsonValue::Null => JsonValue::Null,
        JsonValue::Bool(b) => JsonValue::Bool(*b),
        JsonValue::UInt(u) => JsonValue::UInt(*u),
        JsonValue::NegInt(i) => JsonValue::NegInt(*i),
        JsonValue::Float(s) => JsonValue::Float(s.clone()),
        JsonValue::Str(s) => JsonValue::Str(s.clone()),
        JsonValue::Array(xs) => {
            let mut out: Vec<JsonValue> = Vec::new();
            let mut i: usize = 0;
            while i < xs.len()
                invariant
                    i <= xs@.len(),
                    out@.len() == i,
                    forall|k: int| 0 <= k < i ==> json_eqv(xs@[k], out@[k]),
                decreases xs@.len() - i,
            {
                let c = json_copy(&xs[i]);
                out.push(c);
                i += 1;
            }
            JsonValue::Array(out)
        },
        JsonValue::Object(xs) => {
            let mut out: Vec<(String, JsonValue)> = Vec::new();
            let mut i: usize = 0;
            while i < xs.len()
                invariant
                    i <= xs@.len(),
                    out@.len() == i,
                    forall|k: int| 0 <= k < i ==> xs@[k].0@ == out@[k].0@ && json_eqv(xs@[k].1, out@[k].1),
                decreases xs@.len() - i,
            {
                let c = json_copy(&xs[i].1);
                out.push((xs[i].0.clone(), c));
                i += 1;
            }
            JsonValue::Object(out)
        },
    }
}

/// The text that `serde_json::to_string_pretty` renders `v` into (a float
/// text that is not a JSON number rendered as `null`).
pub uninterp spec fn json_pretty(v: JsonValue) -> Seq<char>;

/// The compact text that `serde_json::to_string` renders `v` into (a float
/// text that is not a JSON number rendered as `null`).
pub uninterp spec fn json_compact(v: JsonValue) -> Seq<char>;

/// One-for-one structural conversion into a `serde_json::Value` tree. A
/// float text that is not a JSON number (parsed documents never hold one)
/// becomes `null`.
#[verifier::external_body]
fn to_serde(v: &JsonValue) -> Value {
    match v {
        JsonValue::Null => Value::Null,
        JsonValue::Bool(b) => Value::Bool(*b),
        JsonValue::UInt(u) => Value::from(*u),
        JsonValue::NegInt(i) => Value::from(*i),
        JsonValue::Float(s) => s.parse::<serde_json::Number>().map_or(Value::Null, Value::Number),
        JsonValue::Str(s) => Value::String(s.clone()),
        JsonValue::Array(a) => Value::Array(a.iter().map(to_serde).collect()),
        JsonValue::Object(m) => Value::Object(m.iter().map(|(k, x)| (k.clone(), to_serde(x))).collect()),
    }
}

/// Renders `v` with `serde_json::to_string_pretty` (a `Value` tree always
/// serializes); the text is named [`json_pretty`].
#[verifier::external_body]
pub fn render_json_pretty(v: &JsonValue) -> (r: String)
    ensures
        r@ == json_pretty(*v),
{
    serde_json::to_string_pretty(&to_serde(v)).unwrap_or_default()
}

/// Renders `v` with `serde_json::to_string` (a `Value` tree, whose keys are
/// strings, always serializes); the text is named [`json_compact`].
#[verifier::external_body]
pub fn render_json_compact(v: &JsonValue) -> (r: String)
    ensures
        r@ == json_compact(*v),
{
    serde_json::to_string(&to_serde(v)).unwrap_or_default()
}

} // verus!
