//! JSON text, read and written by `serde_json`.
use serde_json::{Number, Value};
use vstd::prelude::*;

use crate::json::{Decimal, Json, JsonObject, JsonView};

verus! {

/// A `serde_json` value, on its way between text and `Json`.
#[verifier::external_type_specification]
#[verifier::external_body]
pub struct ExValue(serde_json::Value);

/// What a `serde_json` value holds.
pub uninterp spec fn held(value: Value) -> JsonView;

/// What `serde_json::from_str` reads in a text: the value, or the text of the
/// error.
pub uninterp spec fn json_read(text: Seq<char>) -> Result<JsonView, Seq<char>>;

/// What `serde_json::Value` displays as: compact JSON.
pub uninterp spec fn json_written(value: JsonView) -> Seq<char>;

/// Whether `value` is an object of which each member is an array of texts.
pub open spec fn is_text_lists(value: JsonView) -> bool {
    value matches JsonView::Object(members) && forall|key: Seq<char>| #[trigger]
        members.contains_key(key) ==> {
            &&& members[key] matches JsonView::Array(items)
            &&& forall|i: int| 0 <= i < items.len() ==> (#[trigger] items[i]) is Text
        }
}

/// Whether `text` writes `value` in JSON.
pub open spec fn reads_as(text: Seq<char>, value: JsonView) -> bool {
    json_read(text) == Ok::<JsonView, Seq<char>>(value)
}

/// `serde_json::from_str`: the value that `text` writes, or the error's text.
/// Both depend on `text` alone.
#[verifier::external_body]
fn value_from_text(text: &str) -> (r: Result<Value, String>)
    ensures
        match r {
            Ok(value) => reads_as(text@, held(value)),
            Err(error) => json_read(text@) == Err::<JsonView, Seq<char>>(error@),
        },
{
    serde_json::from_str::<Value>(text).map_err(|error| error.to_string())
}

/// Moves a `serde_json::Value` into `Json`, variant by variant.
#[verifier::external_body]
fn json_from_value(value: Value) -> (r: Json)
    ensures
        r@ == held(value),
{
    match value {
        Value::Null => Json::Null,
        Value::Bool(b) => Json::Bool(b),
        Value::Number(n) => match (n.as_u64(), n.as_i64()) {
            (Some(n), _) => Json::Unsigned(n),
            (_, Some(n)) => Json::Signed(n),
            _ => Json::Decimal(Decimal { number: n }),
        },
        Value::String(s) => Json::Text(s),
        Value::Array(items) => Json::Array(items.into_iter().map(json_from_value).collect()),
        Value::Object(members) => Json::Object(
            JsonObject { entries: members.into_iter().map(|(key, value)| (key, json_from_value(value))).collect() },
        ),
    }
}

/// Builds the `serde_json::Value` that holds what `json` says, variant by
/// variant; `serde_json::Map::insert` lets the later of two members with one key
/// count.
#[verifier::external_body]
fn value_from_json(json: &Json) -> (r: Value)
    ensures
        held(r) == json@,
{
    match json {
        Json::Null => Value::Null,
        Json::Bool(b) => Value::Bool(*b),
        Json::Unsigned(n) => Value::Number(Number::from(*n)),
        Json::Signed(n) => Value::Number(Number::from(*n)),
        Json::Decimal(n) => Value::Number(n.number.clone()),
        Json::Text(s) => Value::String(s.clone()),
        Json::Array(items) => Value::Array(items.iter().map(value_from_json).collect()),
        Json::Object(object) => Value::Object(
            object.entries.iter().fold(serde_json::Map::new(), |mut map, entry| { map.insert(entry.0.clone(), value_from_json(&entry.1)); map }),
        ),
    }
}

/// `serde_json::Value`'s `Display`: the value as compact JSON, which depends on
/// what the value holds alone. Where that is an object of arrays of texts,
/// `serde_json::from_str` reads the same value back.
#[verifier::external_body]
fn text_of_value(value: &Value) -> (r: String)
    ensures
        r@ == json_written(held(*value)),
        is_text_lists(held(*value)) ==> reads_as(r@, held(*value)),
{
    value.to_string()
}

/// The characters of an error, or what the value says.
pub open spec fn result_view(r: Result<Json, String>) -> Result<JsonView, Seq<char>> {
    match r {
        Ok(value) => Ok(value@),
        Err(error) => Err(error@),
    }
}

/// The value that `text` writes in JSON, or the text of the error.
pub fn parse_json(text: &str) -> (r: Result<Json, String>)
    ensures
        result_view(r) == json_read(text@),
{
    match value_from_text(text) {
        Ok(value) => Ok(json_from_value(value)),
        Err(error) => Err(error),
    }
}

/// `value` as compact JSON.
pub fn render_json(value: &Json) -> (r: String)
    ensures
        r@ == json_written(value@),
        is_text_lists(value@) ==> reads_as(r@, value@),
{
    text_of_value(&value_from_json(value))
}

} // verus!
