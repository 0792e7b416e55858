//! TOML documents, as the `toml` crate reads them.
//!
//! The parser is `toml`'s. What it makes of a text is not spelled out
//! here: it has a name, and the values it hands out are looked into with
//! the crate's own accessors.

use toml::de::{DeTable, DeValue};
use vstd::prelude::*;

verus! {

/// A TOML value as read by `toml`'s parser.
#[verifier::external_type_specification]
#[verifier::external_body]
pub struct ExDeValue<'i>(DeValue<'i>);

/// The error of `toml`'s parser.
#[verifier::external_type_specification]
#[verifier::external_body]
pub struct ExTomlError(toml::de::Error);

/// What a TOML value holds, as far as front matter is concerned.
pub enum TomlItem {
    /// A string.
    Text(Seq<char>),
    /// An array, with its elements in order.
    List(Seq<TomlItem>),
    /// A table, by key.
    Table(Map<Seq<char>, TomlItem>),
    /// An integer, a float, a boolean or a date-time.
    Scalar,
}

/// What a parsed value holds.
pub uninterp spec fn value_item(value: &DeValue) -> TomlItem;

/// The table that `toml` reads from a document, where it accepts the text.
pub uninterp spec fn toml_document(text: Seq<char>) -> Option<TomlItem>;

/// Calls `DeTable::parse`, which reads a whole TOML document, and hands
/// the root table on as a value. The outcome is named by `toml_document`.
#[verifier::external_body]
pub(crate) fn parse_toml<'i>(input: &'i str) -> (r: Result<DeValue<'i>, toml::de::Error>)
    ensures
        match r {
            Ok(doc) => toml_document(input@) == Some(value_item(&doc)),
            Err(_) => toml_document(input@) is None,
        },
{
    match DeTable::parse(input) {
        Ok(table) => Ok(DeValue::Table(table.into_inner())),
        Err(e) => Err(e),
    }
}

/// Calls `DeValue::get` with a key: the entry of a table under that key.
/// There is none where the value is no table or the table lacks the key.
#[verifier::external_body]
pub(crate) fn value_field<'a, 'i>(value: &'a DeValue<'i>, key: &str) -> (r: Option<
    &'a DeValue<'i>,
>)
    ensures
        match r {
            Some(field) => value_item(value) matches TomlItem::Table(entries)
                && entries.contains_key(key@) && entries[key@] == value_item(field),
            None => !(value_item(value) matches TomlItem::Table(entries) && entries.contains_key(
                key@,
            )),
        },
{
    match value.get(key) {
        Some(field) => Some(field.get_ref()),
        None => None,
    }
}

/// Calls `DeValue::as_array` and hands out the elements, in order. There
/// are none where the value is no array.
#[verifier::external_body]
pub(crate) fn value_elements<'a, 'i>(value: &'a DeValue<'i>) -> (r: Option<Vec<&'a DeValue<'i>>>)
    ensures
        match r {
            Some(elements) => value_item(value) matches TomlItem::List(items) && items.len()
                == elements@.len() && forall|k: int|
                0 <= k < elements@.len() ==> value_item(#[trigger] elements@[k]) == items[k],
            None => !(value_item(value) is List),
        },
{
    match value.as_array() {
        Some(items) => Some(items.iter().map(|item| item.get_ref()).collect()),
        None => None,
    }
}

/// Calls `DeValue::as_str`: the text of a string. There is none where the
/// value is no string.
#[verifier::external_body]
pub(crate) fn value_text<'a>(value: &'a DeValue) -> (r: Option<&'a str>)
    ensures
        match r {
            Some(text) => value_item(value) == TomlItem::Text(text@),
            None => !(value_item(value) is Text),
        },
{
    value.as_str()
}

} // verus!
