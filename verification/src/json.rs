//! JSON values of `serde_json`, as far as the library reads and builds them.
//!
//! Nothing in this file is proved. Each function makes one call into
//! `serde_json` and states, over the mathematical model [`Json`], what that
//! call does; the rest of the library is proved from these statements.

use vstd::prelude::*;

verus! {

/// The mathematical model of a JSON value.
pub enum Json {
    /// `null`.
    Null,
    /// `true` or `false`.
    Bool(bool),
    /// A number that is held as an integer.
    Integer(int),
    /// Any other number, by its JSON text.
    Fraction(Seq<char>),
    /// A string, by its characters.
    Text(Seq<char>),
    /// A list, by its items in their order.
    List(Seq<Json>),
    /// An object, by its members under their keys.
    Object(Map<Seq<char>, Json>),
}

impl Json {
    /// The member under `key`, where this is an object that has one.
    pub open spec fn member(self, key: Seq<char>) -> Option<Json> {
        match self {
            Json::Object(fields) => if fields.contains_key(key) {
                Some(fields[key])
            } else {
                None
            },
            _ => None,
        }
    }

    /// The items, where this is a list.
    pub open spec fn items(self) -> Option<Seq<Json>> {
        match self {
            Json::List(items) => Some(items),
            _ => None,
        }
    }

    /// The characters, where this is a string.
    pub open spec fn text(self) -> Option<Seq<char>> {
        match self {
            Json::Text(chars) => Some(chars),
            _ => None,
        }
    }
}

/// `serde_json::Value`, a JSON value in memory. What it holds is seen only
/// through [`json_of`].
#[verifier::external_type_specification]
#[verifier::external_body]
pub struct ExValue(serde_json::Value);

/// `serde_json::Error`, the error of a parse or a print. Nothing is read
/// from it.
#[verifier::external_type_specification]
#[verifier::external_body]
pub struct ExJsonError(serde_json::Error);

/// What a `serde_json::Value` holds.
pub uninterp spec fn json_of(value: serde_json::Value) -> Json;

/// What `serde_json::from_str` makes of a text: the value that the text
/// denotes, or `None` where it reports an error.
pub uninterp spec fn json_parse(text: Seq<char>) -> Option<Json>;

/// The text that `Value::to_string` prints for a value: on one line, the
/// members of an object in the order of their keys.
pub uninterp spec fn json_compact(json: Json) -> Seq<char>;

/// The text that `serde_json::to_string_pretty` prints for a value: indented,
/// the members of an object in the order of their keys.
pub uninterp spec fn json_pretty(json: Json) -> Seq<char>;

/// The models of a sequence of values, item by item.
pub open spec fn jsons_of(values: Seq<serde_json::Value>) -> Seq<Json> {
    Seq::new(values.len(), |i: int| json_of(values[i]))
}

/// The object that a sequence of fields stands for, where no key occurs twice.
pub open spec fn fields_of(fields: Seq<(String, serde_json::Value)>) -> Map<Seq<char>, Json> {
    Map::new(
        |key: Seq<char>| exists|i: int| 0 <= i < fields.len() && (#[trigger] fields[i]).0@ == key,
        |key: Seq<char>|
            json_of(
                fields[choose|i: int| 0 <= i < fields.len() && (#[trigger] fields[i]).0@ == key].1,
            ),
    )
}

/// That no two fields share a key.
pub open spec fn distinct_keys(fields: Seq<(String, serde_json::Value)>) -> bool {
    forall|i: int, j: int|
        0 <= i < j < fields.len() ==> (#[trigger] fields[i]).0@ != (#[trigger] fields[j]).0@
}

/// `serde_json::from_str` at type `Value`: parses a JSON text. The value that
/// comes back is the one that the text denotes; an error comes back exactly
/// where the text denotes none.
#[verifier::external_body]
pub(crate) fn parse_value(text: &str) -> (result: Result<serde_json::Value, serde_json::Error>)
    ensures
        match result {
            Ok(value) => json_parse(text@) == Some(json_of(value)),
            Err(_) => json_parse(text@) is None,
        },
{
    serde_json::from_str::<serde_json::Value>(text)
}

/// `Value::get` with a string key: the member of an object under that key;
/// `None` where the value is no object or has no such member.
#[verifier::external_body]
pub(crate) fn value_member<'a>(value: &'a serde_json::Value, key: &str) -> (result: Option<
    &'a serde_json::Value,
>)
    ensures
        match result {
            Some(member) => json_of(*value).member(key@) == Some(json_of(*member)),
            None => json_of(*value).member(key@) is None,
        },
{
    value.get(key)
}

/// `Value::as_array`: the items of a list; `None` where the value is no list.
#[verifier::external_body]
pub(crate) fn value_items(value: &serde_json::Value) -> (result: Option<&Vec<serde_json::Value>>)
    ensures
        match result {
            Some(items) => json_of(*value).items() == Some(jsons_of(items@)),
            None => json_of(*value).items() is None,
        },
{
    value.as_array()
}

/// `Value::as_str`: the characters of a string; `None` where the value is no
/// string.
#[verifier::external_body]
pub(crate) fn value_text(value: &serde_json::Value) -> (result: Option<&str>)
    ensures
        match result {
            Some(chars) => json_of(*value).text() == Some(chars@),
            None => json_of(*value).text() is None,
        },
{
    value.as_str()
}

/// `Value::to_string`: the compact text of a value.
#[verifier::external_body]
pub(crate) fn compact_text(value: &serde_json::Value) -> (result: String)
    ensures
        result@ == json_compact(json_of(*value)),
{
    value.to_string()
}

/// `serde_json::to_string_pretty`: the indented text of a value. For a
/// `Value` it reports no error: it prints into memory, where no write fails,
/// and the keys of every object are strings.
#[verifier::external_body]
pub(crate) fn pretty_text(value: &serde_json::Value) -> (result: Result<String, serde_json::Error>)
    ensures
        result is Ok,
        result matches Ok(text) ==> text@ == json_pretty(json_of(*value)),
{
    serde_json::to_string_pretty(value)
}

/// `Value::String`: the JSON string with the given characters.
#[verifier::external_body]
pub(crate) fn text_value(chars: String) -> (result: serde_json::Value)
    ensures
        json_of(result) == Json::Text(chars@),
{
    serde_json::Value::String(chars)
}

/// `Value::from` at `usize`: the JSON number that is this integer.
#[verifier::external_body]
pub(crate) fn count_value(count: usize) -> (result: serde_json::Value)
    ensures
        json_of(result) == Json::Integer(count as int),
{
    serde_json::Value::from(count)
}

/// `Value::Array`: the JSON list of the given items, in their order.
#[verifier::external_body]
pub(crate) fn list_value(items: Vec<serde_json::Value>) -> (result: serde_json::Value)
    ensures
        json_of(result) == Json::List(jsons_of(items@)),
{
    serde_json::Value::Array(items)
}

/// `Value::Object` over a `serde_json::Map` collected from the given fields:
/// the JSON object with exactly those members.
#[verifier::external_body]
pub(crate) fn object_value(fields: Vec<(String, serde_json::Value)>) -> (result: serde_json::Value)
    requires
        distinct_keys(fields@),
    ensures
        json_of(result) == Json::Object(fields_of(fields@)),
{
    serde_json::Value::Object(fields.into_iter().collect())
}

} // verus!
