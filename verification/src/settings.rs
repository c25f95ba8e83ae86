//! Plugin settings: the members of a JSON object, each read with a default.
use vstd::prelude::*;

use crate::codec::{json_read, parse_json};
use crate::json::{as_int, as_text, as_truth, member, opt_text, Json, JsonObject, JsonView};

verus! {

/// The settings that `raw` writes: the members of a JSON object; none where
/// `raw` is missing or is not one.
pub open spec fn settings_in(raw: Option<Seq<char>>) -> Map<Seq<char>, JsonView> {
    match raw {
        Some(raw) => match json_read(raw) {
            Ok(value) => members_of(value),
            Err(_) => Map::empty(),
        },
        None => Map::empty(),
    }
}

/// The settings in the text `raw`, where there is one.
pub fn read_settings(raw: Option<&str>) -> (r: JsonObject)
    ensures
        r.members() == settings_in(opt_text(raw)),
{
    if let Some(raw) = raw {
        match parse_json(raw) {
            Ok(value) => settings_of(value),
            Err(_) => JsonObject::new(),
        }
    } else {
        JsonObject::new()
    }
}

/// The members of an object; none for another value.
pub open spec fn members_of(value: JsonView) -> Map<Seq<char>, JsonView> {
    match value {
        JsonView::Object(members) => members,
        _ => Map::empty(),
    }
}

/// The members of `value` as settings; none where it is no object.
pub fn settings_of(value: Json) -> (r: JsonObject)
    ensures
        r.members() == members_of(value@),
{
    match value {
        Json::Object(object) => object,
        _ => JsonObject::new(),
    }
}

/// The setting `key`.
pub open spec fn setting_view(settings: Map<Seq<char>, JsonView>, key: Seq<char>) -> Option<
    JsonView,
> {
    member(JsonView::Object(settings), key)
}

/// The text of the setting `key`, or `default` where it is no text.
pub open spec fn text_setting(
    settings: Map<Seq<char>, JsonView>,
    key: Seq<char>,
    default: Seq<char>,
) -> Seq<char> {
    match as_text(setting_view(settings, key)) {
        Some(s) => s,
        None => default,
    }
}

/// The truth of the setting `key`, or `default` where it is no boolean.
pub open spec fn bool_setting(
    settings: Map<Seq<char>, JsonView>,
    key: Seq<char>,
    default: bool,
) -> bool {
    match as_truth(setting_view(settings, key)) {
        Some(b) => b,
        None => default,
    }
}

/// The number of the setting `key`, or `default` where it is no integer between
/// `low` and `high`.
pub open spec fn int_setting(
    settings: Map<Seq<char>, JsonView>,
    key: Seq<char>,
    default: int,
    low: int,
    high: int,
) -> int {
    match as_int(setting_view(settings, key), low, high) {
        Some(n) => n,
        None => default,
    }
}

/// The text of the setting `key`, or `default` where it is no text.
pub fn setting_text<'a>(settings: &'a JsonObject, key: &str, default: &'a str) -> (r: &'a str)
    ensures
        r@ == text_setting(settings.members(), key@, default@),
{
    match settings.get(key) {
        Some(value) => match value.as_str() {
            Some(s) => s,
            None => default,
        },
        None => default,
    }
}

/// The text of the setting `key`, or the empty text where it is no text.
pub fn setting<'a>(settings: &'a JsonObject, key: &str) -> (r: &'a str)
    ensures
        r@ == text_setting(settings.members(), key@, Seq::empty()),
{
    proof {
        reveal_strlit("");
        assert(""@ =~= Seq::<char>::empty());
    }
    setting_text(settings, key, "")
}

/// The truth of the setting `key`, or `default` where it is no boolean.
pub fn setting_bool(settings: &JsonObject, key: &str, default: bool) -> (r: bool)
    ensures
        r == bool_setting(settings.members(), key@, default),
{
    match settings.get(key) {
        Some(value) => match value.as_bool() {
            Some(b) => b,
            None => default,
        },
        None => default,
    }
}

/// The number of the setting `key`, or `default` where it is no `u64`.
pub fn setting_u64(settings: &JsonObject, key: &str, default: u64) -> (r: u64)
    ensures
        r == int_setting(settings.members(), key@, default as int, 0, u64::MAX as int),
{
    match settings.get(key) {
        Some(value) => match value.as_u64() {
            Some(n) => n,
            None => default,
        },
        None => default,
    }
}

/// The number of the setting `key`, or `default` where it is no `i64`.
pub fn setting_i64(settings: &JsonObject, key: &str, default: i64) -> (r: i64)
    ensures
        r == int_setting(
            settings.members(),
            key@,
            default as int,
            i64::MIN as int,
            i64::MAX as int,
        ),
{
    match settings.get(key) {
        Some(value) => match value.as_i64() {
            Some(n) => n,
            None => default,
        },
        None => default,
    }
}

} // verus!
