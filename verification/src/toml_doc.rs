//! The parts of a TOML document that the library reads.
use vstd::prelude::*;
use crate::text::{chars_eq_str, to_chars};

verus! {

/// A TOML value: strings, integers and booleans as they are; a float by its
/// decimal text; a table by its entries in the document model's order;
/// arrays and datetimes are not read.
pub enum TomlValue {
    Str(String),
    Int(i64),
    Float(String),
    Bool(bool),
    Table(Vec<(String, TomlValue)>),
    Other,
}

#[verifier::external_type_specification]
#[verifier::external_body]
pub struct ExTomlValue(toml::Value);

/// The document that the TOML parser reads from `text`, as a table, or
/// `None` where it rejects the text.
pub uninterp spec fn toml_document(text: Seq<char>) -> Option<TomlValue>;

/// Parses a TOML document with `toml::from_str::<toml::Value>` (which is
/// also what `str::parse::<toml::Value>` calls). The result is named by
/// `toml_document`; nothing more is claimed about it.
#[verifier::external_body]
pub(crate) fn parse_toml(text: &str) -> (r: Option<TomlValue>)
    ensures
        r == toml_document(text@),
{
    toml::from_str::<toml::Value>(text).ok().map(|v| model_of(&v))
}

/// Carries a parsed `toml::Value` over into `TomlValue`, variant by variant.
#[verifier::external_body]
fn model_of(v: &toml::Value) -> TomlValue {
    match v {
        toml::Value::String(s) => TomlValue::Str(s.clone()),
        toml::Value::Integer(i) => TomlValue::Int(*i),
        toml::Value::Float(f) => TomlValue::Float(f.to_string()),
        toml::Value::Boolean(b) => TomlValue::Bool(*b),
        toml::Value::Table(t) => TomlValue::Table(
            t.iter().map(|(k, v)| (k.clone(), model_of(v))).collect(),
        ),
        _ => TomlValue::Other,
    }
}

/// The value stored under `key` in a table's entries (the first one).
pub open spec fn table_lookup(es: Seq<(String, TomlValue)>, key: Seq<char>) -> Option<TomlValue>
    decreases es.len(),
{
    if es.len() == 0 {
        None
    } else if es[0].0@ == key {
        Some(es[0].1)
    } else {
        table_lookup(es.drop_first(), key)
    }
}

/// `value.get(key)`: the entry of a table, nothing for other values.
pub open spec fn toml_get(v: TomlValue, key: Seq<char>) -> Option<TomlValue> {
    match v {
        TomlValue::Table(es) => table_lookup(es@, key),
        _ => None,
    }
}

/// `value.as_str()`.
pub open spec fn toml_as_str(v: TomlValue) -> Option<Seq<char>> {
    match v {
        TomlValue::Str(s) => Some(s@),
        _ => None,
    }
}

impl TomlValue {
    /// The entry `key` of a table.
    pub fn get(&self, key: &str) -> (r: Option<&TomlValue>)
        ensures
            r matches Some(x) ==> toml_get(*self, key@) == Some(*x),
            r is None ==> toml_get(*self, key@) is None,
    {
        match self {
            TomlValue::Table(es) => {
                let mut i: usize = 0;
                assert(es@.skip(0) =~= es@);
                while i < es.len()
                    invariant
                        i <= es@.len(),
                        toml_get(*self, key@) == table_lookup(es@, key@),
                        table_lookup(es@, key@) == table_lookup(es@.skip(i as int), key@),
                    decreases es.len() - i,
                {
                    assert(es@.skip(i as int).drop_first() =~= es@.skip(i + 1));
                    let k = to_chars(es[i].0.as_str());
                    if chars_eq_str(k.as_slice(), key) {
                        assert(es@.skip(i as int)[0] == es@[i as int]);
                        return Some(&es[i].1);
                    }
                    i += 1;
                }
                None
            },
            _ => None,
        }
    }

    /// The text of a string value.
    pub fn as_str(&self) -> (r: Option<&str>)
        ensures
            r matches Some(s) ==> toml_as_str(*self) == Some(s@),
            r is None ==> toml_as_str(*self) is None,
    {
        match self {
            TomlValue::Str(s) => Some(s.as_str()),
            _ => None,
        }
    }
}

} // verus!
