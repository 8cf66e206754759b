//! The parser of the document format: an outside parser, reached through the two
//! functions below. What it makes of a text is known here only by name.

use vstd::prelude::*;
use crate::value::{keys_distinct_throughout, ConfigValue, ConfigValueView, TableEntry};

verus! {

/// `toml::Value`, the parser's own tree of values.
#[verifier::external_type_specification]
#[verifier::external_body]
pub struct ExTomlValue(toml::Value);

/// What the parser makes of a whole document: its tree, or the message of the
/// failure.
pub uninterp spec fn toml_document(text: Seq<char>) -> Result<ConfigValueView, Seq<char>>;

/// The tree that a parsed value holds: a float by the decimal text of its number, a
/// date-time by its text, the entries of a table in the order in which the table is
/// walked.
pub uninterp spec fn toml_contents(v: toml::Value) -> ConfigValueView;

/// `toml::from_str`, for a value: parses `content` as a whole document. On failure
/// the error is handed out as its message.
#[verifier::external_body]
pub(crate) fn parse_toml(content: &str) -> (r: Result<toml::Value, String>)
    ensures
        match r {
            Ok(v) => toml_document(content@) == Ok::<ConfigValueView, Seq<char>>(toml_contents(v)),
            Err(message) => toml_document(content@) == Err::<ConfigValueView, Seq<char>>(
                message@,
            ),
        },
{
    toml::from_str::<toml::Value>(content).map_err(|e| e.to_string())
}

/// Copies a `toml::Value`, variant by variant, into a tree of the library's own. A
/// float and a date-time are copied as the text that their `Display` gives, the entries
/// of a table in the order of `toml::map::Map::iter`. A table of the parser is a map,
/// `toml::map::Map`, so no table of the result has two entries of the same key.
#[verifier::external_body]
pub(crate) fn tree_of(v: &toml::Value) -> (r: ConfigValue)
    ensures
        r@ == toml_contents(*v),
        keys_distinct_throughout(r@),
{
    match v {
        toml::Value::String(s) => ConfigValue::String(s.clone()),
        toml::Value::Integer(i) => ConfigValue::Integer(*i),
        toml::Value::Float(x) => ConfigValue::Float(x.to_string()),
        toml::Value::Boolean(b) => ConfigValue::Boolean(*b),
        toml::Value::Datetime(d) => ConfigValue::Datetime(d.to_string()),
        toml::Value::Array(a) => ConfigValue::Array(a.iter().map(tree_of).collect()),
        toml::Value::Table(t) => ConfigValue::Table(
            t.iter().map(|(k, x)| TableEntry { key: k.clone(), value: tree_of(x) }).collect(),
        ),
    }
}

} // verus!
