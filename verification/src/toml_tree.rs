//! The TOML documents the Codex installer reads and writes, modelled as a
//! plain tree, with table lookup and structural comparison.

use vstd::prelude::*;
use crate::members::{find_key, lemma_find_key_bounds, position_of};
use toml::Value;

verus! {

/// A TOML value. Table entries keep the order in which they were inserted;
/// `toml` hands parsed tables out with their keys in sorted order.
#[derive(Debug, PartialEq)]
pub enum TomlValue {
    Str(String),
    Int(i64),
    /// A float, as its text.
    Float(String),
    Bool(bool),
    /// A date-time, as its text.
    Datetime(String),
    Array(Vec<TomlValue>),
    Table(Vec<(String, TomlValue)>),
}

#[verifier::external_type_specification]
#[verifier::external_body]
pub struct ExTomlValue(toml::Value);

/// What `toml::from_str::<toml::Table>` parses `text` into, as a table;
/// `None` when the text is not a well-formed TOML document.
pub uninterp spec fn toml_parse(text: Seq<char>) -> Option<TomlValue>;

/// What `toml::to_string` renders `v` into; `None` when it refuses, or when
/// a float or date-time text of `v` does not parse as one.
pub uninterp spec fn toml_render(v: TomlValue) -> Option<Seq<char>>;

/// One-for-one structural conversion of a `toml::Value` tree.
#[verifier::external_body]
fn from_toml(v: &Value) -> TomlValue {
    match v {
        Value::String(s) => TomlValue::Str(s.clone()),
        Value::Integer(i) => TomlValue::Int(*i),
        Value::Float(f) => TomlValue::Float(f.to_string()),
        Value::Boolean(b) => TomlValue::Bool(*b),
        Value::Datetime(d) => TomlValue::Datetime(d.to_string()),
        Value::Array(a) => TomlValue::Array(a.iter().map(from_toml).collect()),
        Value::Table(t) => TomlValue::Table(t.iter().map(|(k, x)| (k.clone(), from_toml(x))).collect()),
    }
}

/// One-for-one structural conversion into a `toml::Value` tree; `None`
/// when a float or date-time text does not parse as one.
#[verifier::external_body]
fn to_toml(v: &TomlValue) -> Option<Value> {
    match v {
        TomlValue::Str(s) => Some(s.clone().into()),
        TomlValue::Int(i) => Some((*i).into()),
        TomlValue::Float(s) => s.parse().ok().map(Value::Float),
        TomlValue::Bool(b) => Some((*b).into()),
        TomlValue::Datetime(s) => s.parse().ok().map(Value::Datetime),
        TomlValue::Array(a) => a.iter().map(to_toml).collect::<Option<_>>().map(Value::Array),
        TomlValue::Table(t) => to_toml_table(t),
    }
}

/// One-for-one conversion of a table's entries into a `toml::Value` table;
/// `None` when an entry does not convert.
#[verifier::external_body]
fn to_toml_table(t: &Vec<(String, TomlValue)>) -> Option<Value> {
    t.iter().map(|(k, x)| to_toml(x).map(|y| (k.clone(), y))).collect::<Option<_>>().map(Value::Table)
}

/// Parses `text` with `toml::from_str::<toml::Table>`; the result is named
/// [`toml_parse`] and is a function of the text alone.
#[verifier::external_body]
pub fn parse_toml(text: &str) -> (r: Option<TomlValue>)
    ensures
        r == toml_parse(text@),
        r matches Some(t) ==> t is Table,
{
    toml::from_str::<toml::Table>(text).ok().map(|t| from_toml(&Value::Table(t)))
}

/// Renders `v` with `toml::to_string`; the text is named [`toml_render`].
/// `None` when `toml` refuses the document, or when a float or date-time
/// text of `v` does not parse as one (parsed documents never hold such
/// text).
#[verifier::external_body]
pub fn render_toml(v: &TomlValue) -> (r: Option<String>)
    ensures
        match r {
            Some(s) => toml_render(*v) == Some(s@),
            None => toml_render(*v) is None,
        },
{
    to_toml(v).and_then(|t| toml::to_string(&t).ok())
}

/// The entry named `key` of a table (the first one), if any.
pub open spec fn entry(v: TomlValue, key: Seq<char>) -> Option<TomlValue> {
    match v {
        TomlValue::Table(m) => match find_key(m@, key) {
            Some(i) => Some(m@[i].1),
            None => None,
        },
        _ => None,
    }
}

impl TomlValue {
    /// `value.get(key)` for a table entry.
    pub fn get(&self, key: &str) -> (r: Option<&TomlValue>)
        ensures
            r matches Some(x) ==> entry(*self, key@) == Some(*x),
            r is None ==> entry(*self, key@) is None,
    {
        match self {
            TomlValue::Table(m) => match position_of(m, key) {
                Some(i) => {
                    proof {
                        lemma_find_key_bounds(m@, key@);
                    }
                    Some(&m[i].1)
                },
                None => None,
            },
            _ => None,
        }
    }

    /// `value.is_table()`.
    pub fn is_table(&self) -> (r: bool)
        ensures
            r == (*self is Table),
    {
        match self {
            TomlValue::Table(_) => true,
            _ => false,
        }
    }
}

/// Structural equality of TOML values: arrays element by element, tables
/// entry by entry in order.
pub open spec fn toml_eqv(a: TomlValue, b: TomlValue) -> bool
    decreases a,
{
    match a {
        TomlValue::Str(x) => b matches TomlValue::Str(y) && x@ == y@,
        TomlValue::Int(x) => b matches TomlValue::Int(y) && x == y,
        TomlValue::Float(x) => b matches TomlValue::Float(y) && x@ == y@,
        TomlValue::Bool(x) => b matches TomlValue::Bool(y) && x == y,
        TomlValue::Datetime(x) => b matches TomlValue::Datetime(y) && x@ == y@,
        TomlValue::Array(xs) => b matches TomlValue::Array(ys) && xs@.len() == ys@.len()
            && forall|i: int| #![trigger xs@[i]] 0 <= i < xs@.len() ==> toml_eqv(xs@[i], ys@[i]),
        TomlValue::Table(xs) => b matches TomlValue::Table(ys) && xs@.len() == ys@.len()
            && forall|i: int| #![trigger xs@[i]] 0 <= i < xs@.len() ==> (xs@[i].0@ == ys@[i].0@ && toml_eqv(xs@[i].1, ys@[i].1)),
    }
}

/// Every value is structurally the same as itself.
pub proof fn lemma_toml_eqv_refl(v: TomlValue)
    ensures
        toml_eqv(v, v),
    decreases v,
{
    match v {
        TomlValue::Array(xs) => {
            assert forall|i: int| #![trigger xs@[i]] 0 <= i < xs@.len() implies toml_eqv(xs@[i], xs@[i]) by {
                lemma_toml_eqv_refl(xs@[i]);
            }
        },
        TomlValue::Table(xs) => {
            assert forall|i: int| #![trigger xs@[i]] 0 <= i < xs@.len() implies toml_eqv(xs@[i].1, xs@[i].1) by {
                lemma_toml_eqv_refl(xs@[i].1);
            }
        },
        _ => {},
    }
}

/// Decides [`toml_eqv`].
#[verifier::loop_isolation(false)]
pub fn toml_same(a: &TomlValue, b: &TomlValue) -> (r: bool)
    ensures
        r == toml_eqv(*a, *b),
    decreases a,
{
    match a {
        TomlValue::Str(x) => match b { TomlValue::Str(y) => *x == *y, _ => false },
        TomlValue::Int(x) => match b { TomlValue::Int(y) => *x == *y, _ => false },
        TomlValue::Float(x) => match b { TomlValue::Float(y) => *x == *y, _ => false },
        TomlValue::Bool(x) => match b { TomlValue::Bool(y) => *x == *y, _ => false },
        TomlValue::Datetime(x) => match b { TomlValue::Datetime(y) => *x == *y, _ => false },
        TomlValue::Array(xs) => match b {
            TomlValue::Array(ys) => {
                if xs.len() != ys.len() {
                    return false;
                }
                let mut i: usize = 0;
                while i < xs.len()
                    invariant
                        i <= xs@.len(),
                        xs@.len() == ys@.len(),
                        forall|k: int| 0 <= k < i ==> toml_eqv(xs@[k], ys@[k]),
                    decreases xs@.len() - i,
                {
                    if !toml_same(&xs[i], &ys[i]) {
                        assert(!toml_eqv(xs@[i as int], ys@[i as int]));
                        return false;
                    }
                    i += 1;
                }
                true
            },
            _ => false,
        },
        TomlValue::Table(xs) => match b {
            TomlValue::Table(ys) => {
                if xs.len() != ys.len() {
                    return false;
                }
                let mut i: usize = 0;
                while i < xs.len()
                    invariant
                        i <= xs@.len(),
                        xs@.len() == ys@.len(),
                        forall|k: int| 0 <= k < i ==> xs@[k].0@ == ys@[k].0@ && toml_eqv(xs@[k].1, ys@[k].1),
                    decreases xs@.len() - i,
                {
                    if !(xs[i].0 == ys[i].0) {
                        assert(xs@[i as int].0@ != ys@[i as int].0@);
                        return false;
                    }
                    if !toml_same(&xs[i].1, &ys[i].1) {
                        assert(!toml_eqv(xs@[i as int].1, ys@[i as int].1));
                        return false;
                    }
                    i += 1;
                }
                true
            },
            _ => false,
        },
    }
}

} // verus!
