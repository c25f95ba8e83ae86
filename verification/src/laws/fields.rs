//! Promises about the fields of values and about settings.
use vstd::prelude::*;

use super::text::{is_core, law_trimmed_is_the_core};
use crate::codec::json_read;
use crate::dc::response::{code_is, text_at, true_at};
use crate::input::{missing, parameters_in};
use crate::json::{Json, JsonObject, JsonView};
use crate::settings::{bool_setting, int_setting, settings_in, text_setting};
use crate::text::trimmed;

verus! {

/// Whether `value` is an object whose member `key` is `field`.
pub open spec fn holds(value: JsonView, key: Seq<char>, field: JsonView) -> bool {
    value matches JsonView::Object(members) && members.contains_key(key) && members[key] == field
}

/// Whether `value` is an object with a member `key`.
pub open spec fn has_field(value: JsonView, key: Seq<char>) -> bool {
    value matches JsonView::Object(members) && members.contains_key(key)
}

/// Whether `value` is an object whose member `key` is a text.
pub open spec fn has_text(value: JsonView, key: Seq<char>) -> bool {
    value matches JsonView::Object(members) && members.contains_key(key) && members[key] is Text
}

/// Whether `t` is the text of the member `key` without the white space around it;
/// where there is no such text, `t` is empty.
pub open spec fn tells(value: JsonView, key: Seq<char>, t: Seq<char>) -> bool {
    if has_text(value, key) {
        is_core(value->Object_0[key]->Text_0, t)
    } else {
        t.len() == 0
    }
}

/// The text of a field is what the field tells, and nothing else is.
pub proof fn law_field_text(value: JsonView, key: Seq<char>, t: Seq<char>)
    ensures
        text_at(value, key) == t <==> tells(value, key, t),
{
    if has_text(value, key) {
        law_trimmed_is_the_core(value->Object_0[key]->Text_0, t);
    } else {
        assert(t.len() == 0 ==> t =~= Seq::empty());
    }
}

/// A field is true exactly where the object holds `true` under the key.
pub proof fn law_field_truth(value: JsonView, key: Seq<char>)
    ensures
        true_at(value, key) <==> holds(value, key, JsonView::Bool(true)),
{
}

/// A reply has a code exactly where the object holds that integer under `code`.
pub proof fn law_reply_code(reply: JsonView, code: int)
    requires
        i64::MIN <= code <= i64::MAX,
    ensures
        code_is(reply, code) <==> holds(reply, "code"@, JsonView::Int(code)),
{
}

/// A setting that is a text is read as it stands, any other gives the default.
pub proof fn law_text_setting(
    settings: Map<Seq<char>, JsonView>,
    key: Seq<char>,
    default: Seq<char>,
)
    ensures
        settings.contains_key(key) && settings[key] is Text ==> text_setting(
            settings,
            key,
            default,
        ) == settings[key]->Text_0,
        !(settings.contains_key(key) && settings[key] is Text) ==> text_setting(
            settings,
            key,
            default,
        ) == default,
{
}

/// A setting that is a boolean is read as it stands, any other gives the default.
pub proof fn law_bool_setting(settings: Map<Seq<char>, JsonView>, key: Seq<char>, default: bool)
    ensures
        settings.contains_key(key) && settings[key] is Bool ==> bool_setting(
            settings,
            key,
            default,
        ) == settings[key]->Bool_0,
        !(settings.contains_key(key) && settings[key] is Bool) ==> bool_setting(
            settings,
            key,
            default,
        ) == default,
{
}

/// A setting that is an integer within the limits is read as it stands, any other
/// gives the default.
pub proof fn law_int_setting(
    settings: Map<Seq<char>, JsonView>,
    key: Seq<char>,
    default: int,
    low: int,
    high: int,
)
    ensures
        settings.contains_key(key) && settings[key] is Int && low <= settings[key]->Int_0 <= high
            ==> int_setting(settings, key, default, low, high) == settings[key]->Int_0,
        !(settings.contains_key(key) && settings[key] is Int && low <= settings[key]->Int_0
            <= high) ==> int_setting(settings, key, default, low, high) == default,
{
}

/// Settings are the members of the object that the text writes; without a text, or
/// with one that writes no object, there are none.
pub proof fn law_settings_are_an_object(raw: Option<Seq<char>>, key: Seq<char>)
    ensures
        match raw {
            Some(text) => match json_read(text) {
                Ok(JsonView::Object(members)) => settings_in(raw) == members,
                _ => !settings_in(raw).contains_key(key),
            },
            None => !settings_in(raw).contains_key(key),
        },
{
}

/// Parameters are what the text writes; blank text means none, and text that is no
/// JSON is refused with the reader's words.
pub proof fn law_parameters(raw: Seq<char>)
    ensures
        is_core(raw, Seq::empty()) ==> parameters_in(raw) == Ok::<JsonView, Seq<char>>(
            JsonView::Null,
        ),
        !is_core(raw, Seq::empty()) ==> match json_read(raw) {
            Ok(value) => parameters_in(raw) == Ok::<JsonView, Seq<char>>(value),
            Err(error) => parameters_in(raw) == Err::<JsonView, Seq<char>>(
                "动作参数不是有效 JSON: "@ + error,
            ),
        },
{
    law_trimmed_is_the_core(raw, Seq::empty());
    assert(trimmed(raw).len() == 0 ==> trimmed(raw) =~= Seq::empty());
}

/// A variable that is not set is named, and no two are named alike.
pub proof fn law_missing_variables_are_named(key: Seq<char>, other: Seq<char>)
    ensures
        missing(key) == "缺少环境变量 "@ + key,
        missing(key) == missing(other) <==> key == other,
{
    let label = "缺少环境变量 "@;
    assert((label + key).skip(label.len() as int) =~= key);
    assert((label + other).skip(label.len() as int) =~= other);
}

/// Values say what they hold: numbers the integer, whichever form they have, texts
/// their characters, arrays their items.
pub proof fn law_values_say_what_they_hold(
    n: u64,
    m: i64,
    b: bool,
    s: String,
    items: Vec<Json>,
    object: JsonObject,
)
    ensures
        Json::Null@ == JsonView::Null,
        Json::Bool(b)@ == JsonView::Bool(b),
        Json::Unsigned(n)@ == JsonView::Int(n as int),
        Json::Signed(m)@ == JsonView::Int(m as int),
        Json::Text(s)@ == JsonView::Text(s@),
        Json::Array(items)@ == JsonView::Array(items@.map_values(|j: Json| j@)),
        Json::Object(object)@ == JsonView::Object(object.members()),
{
    assert(Json::Array(items)@->Array_0 =~= items@.map_values(|j: Json| j@));
}

} // verus!
