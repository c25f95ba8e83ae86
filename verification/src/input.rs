//! The parameters of an action: JSON, or nothing at all.
use vstd::prelude::*;

use crate::codec::{json_read, parse_json, result_view};
use crate::json::{Json, JsonView};
use crate::text::{trim, trimmed};

verus! {

/// The parameters as parsed, or what is wrong with them.
pub open spec fn parameters(parsed: Result<JsonView, Seq<char>>) -> Result<JsonView, Seq<char>> {
    match parsed {
        Ok(value) => Ok(value),
        Err(error) => Err("动作参数不是有效 JSON: "@ + error),
    }
}

/// The parameters as parsed, or what is wrong with them.
pub fn accept_parameters(parsed: Result<Json, String>) -> (r: Result<Json, String>)
    ensures
        result_view(r) == parameters(result_view(parsed)),
{
    match parsed {
        Ok(value) => Ok(value),
        Err(error) => Err("动作参数不是有效 JSON: ".to_owned().concat(error.as_str())),
    }
}

/// The parameters that `raw` writes: `null` where it is blank.
pub open spec fn parameters_in(raw: Seq<char>) -> Result<JsonView, Seq<char>> {
    if trimmed(raw).len() == 0 {
        Ok(JsonView::Null)
    } else {
        parameters(json_read(raw))
    }
}

/// The parameters that `raw` writes: `null` where it is blank.
pub fn read_action_input(raw: &str) -> (r: Result<Json, String>)
    ensures
        result_view(r) == parameters_in(raw@),
{
    if trim(raw).is_empty() {
        return Ok(Json::Null);
    }
    accept_parameters(parse_json(raw))
}

/// What is said of an environment variable that is not set.
pub open spec fn missing(key: Seq<char>) -> Seq<char> {
    "缺少环境变量 "@ + key
}

/// The value of the environment variable `key`, or an error that names it.
pub fn required(key: &str, value: Option<String>) -> (r: Result<String, String>)
    ensures
        match r {
            Ok(text) => value == Some(text),
            Err(error) => value is None && error@ == missing(key@),
        },
{
    match value {
        Some(text) => Ok(text),
        None => Err("缺少环境变量 ".to_owned().concat(key)),
    }
}

} // verus!
