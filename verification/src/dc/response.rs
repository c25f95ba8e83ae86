//! Docker Copilot's replies: what counts as success and what their fields say.
use vstd::prelude::*;

use crate::codec::{json_read, parse_json, result_view};
use crate::json::{
    as_int, as_items, as_text, as_truth, duplicate_all, json_views, member, Json, JsonObject,
    JsonView,
};
use crate::text::{decimal, decimal_u64, same, trim, trimmed};

verus! {

/// The text of the field `key` without surrounding white space; empty where
/// there is no such text.
pub open spec fn text_at(value: JsonView, key: Seq<char>) -> Seq<char> {
    match as_text(member(value, key)) {
        Some(s) => trimmed(s),
        None => Seq::empty(),
    }
}

/// The text of the field `key` without surrounding white space.
pub fn text(value: &Json, key: &str) -> (r: String)
    ensures
        r@ == text_at(value@, key@),
{
    match value.get(key) {
        Some(field) => match field.as_str() {
            Some(s) => trim(s).to_owned(),
            None => String::new(),
        },
        None => String::new(),
    }
}

/// The name of a container.
pub open spec fn name_of(value: JsonView) -> Seq<char> {
    text_at(value, "name"@)
}

/// The name of a container.
pub fn name(value: &Json) -> (r: String)
    ensures
        r@ == name_of(value@),
{
    text(value, "name")
}

/// The message of a reply.
pub open spec fn message_of(value: JsonView) -> Seq<char> {
    text_at(value, "msg"@)
}

/// The message of a reply.
pub fn message(value: &Json) -> (r: String)
    ensures
        r@ == message_of(value@),
{
    text(value, "msg")
}

/// Whether the field `key` is `true`.
pub open spec fn true_at(value: JsonView, key: Seq<char>) -> bool {
    as_truth(member(value, key)) == Some(true)
}

/// Whether the field `key` is `true`.
fn is_true(value: &Json, key: &str) -> (r: bool)
    ensures
        r == true_at(value@, key@),
{
    match value.get(key) {
        Some(field) => match field.as_bool() {
            Some(b) => b,
            None => false,
        },
        None => false,
    }
}

/// Whether a newer image exists for a container.
pub fn has_update(value: &Json) -> (r: bool)
    ensures
        r == true_at(value@, "haveUpdate"@),
{
    is_true(value, "haveUpdate")
}

/// Whether a container uses an image.
pub fn is_in_use(value: &Json) -> (r: bool)
    ensures
        r == true_at(value@, "inUsed"@),
{
    is_true(value, "inUsed")
}

/// Whether `tag` names no tag: it is empty, or a placeholder for none.
pub open spec fn blank_tag(tag: Seq<char>) -> bool {
    tag == ""@ || tag == "<none>"@ || tag == "None"@
}

/// Whether an image has no valid tag: the field is missing, `null`, a blank tag
/// or an empty list of tags.
pub open spec fn untagged(image: JsonView) -> bool {
    match member(image, "tag"@) {
        None => true,
        Some(JsonView::Null) => true,
        Some(JsonView::Text(tag)) => blank_tag(trimmed(tag)),
        Some(JsonView::Array(tags)) => tags.len() == 0,
        Some(_) => false,
    }
}

/// Whether an image has no valid tag.
pub fn is_untagged(image: &Json) -> (r: bool)
    ensures
        r == untagged(image@),
{
    match image.get("tag") {
        None => true,
        Some(Json::Null) => true,
        Some(Json::Text(tag)) => {
            let tag = trim(tag.as_str());
            same(tag, "") || same(tag, "<none>") || same(tag, "None")
        },
        Some(Json::Array(tags)) => tags.len() == 0,
        Some(_) => false,
    }
}

/// Whether the code of a reply is `code`.
pub open spec fn code_is(response: JsonView, code: int) -> bool {
    as_int(member(response, "code"@), i64::MIN as int, i64::MAX as int) == Some(code)
}

/// Whether the code of a reply is `code`.
pub fn has_code(response: &Json, code: i64) -> (r: bool)
    ensures
        r == code_is(response@, code as int),
{
    match response.get("code") {
        Some(field) => match field.as_i64() {
            Some(n) => n == code,
            None => false,
        },
        None => false,
    }
}

/// What a reply's body says, or why it cannot be used.
pub open spec fn accepted(parsed: Result<JsonView, Seq<char>>) -> Result<JsonView, Seq<char>> {
    match parsed {
        Ok(value) => Ok(value),
        Err(_) => Err("Docker Copilot 返回了无效 JSON"@),
    }
}

/// A parsed body, or why the reply cannot be used.
pub fn accept(parsed: Result<Json, String>) -> (r: Result<Json, String>)
    ensures
        result_view(r) == accepted(result_view(parsed)),
{
    match parsed {
        Ok(value) => Ok(value),
        Err(_) => Err("Docker Copilot 返回了无效 JSON".to_owned()),
    }
}

/// What a reply says: a body of JSON under a status of success.
pub open spec fn decoded(status: int, body: Seq<char>) -> Result<JsonView, Seq<char>> {
    if 200 <= status < 300 {
        accepted(json_read(body))
    } else {
        Err("Docker Copilot 返回 HTTP "@ + decimal(status as nat))
    }
}

/// What the reply with this HTTP status and body says, or why it cannot be used.
pub fn decode(status: u16, body: &str) -> (r: Result<Json, String>)
    ensures
        result_view(r) == decoded(status as int, body@),
{
    if status < 200 || status >= 300 {
        return Err(
            "Docker Copilot 返回 HTTP ".to_owned().concat(decimal_u64(status as u64).as_str()),
        );
    }
    accept(parse_json(body))
}

/// What is said of a request that did not get through.
pub open spec fn network_failure(timed_out: bool) -> Seq<char> {
    if timed_out {
        "请求 Docker Copilot 超时"@
    } else {
        "无法连接 Docker Copilot"@
    }
}

/// What is said of a request that did not get through.
pub fn network_error(timed_out: bool) -> (r: String)
    ensures
        r@ == network_failure(timed_out),
{
    if timed_out {
        "请求 Docker Copilot 超时".to_owned()
    } else {
        "无法连接 Docker Copilot".to_owned()
    }
}

/// The items that a reply lists under `data`, or why there are none to be had.
pub open spec fn data_array(response: JsonView, expected_code: int, operation: Seq<char>) -> Result<
    Seq<JsonView>,
    Seq<char>,
> {
    if !code_is(response, expected_code) {
        Err(operation + "失败: "@ + message_of(response))
    } else {
        match as_items(member(response, "data"@)) {
            Some(items) => Ok(items),
            None => Ok(Seq::empty()),
        }
    }
}

/// What the list of a reply, or its error, says.
pub open spec fn list_view(r: Result<Vec<Json>, String>) -> Result<Seq<JsonView>, Seq<char>> {
    match r {
        Ok(items) => Ok(json_views(items@)),
        Err(error) => Err(error@),
    }
}

/// The items that a reply with the code `expected_code` lists under `data`.
pub fn response_data_array(response: &Json, expected_code: i64, operation: &str) -> (r: Result<
    Vec<Json>,
    String,
>)
    ensures
        list_view(r) == data_array(response@, expected_code as int, operation@),
{
    if !has_code(response, expected_code) {
        return Err(
            operation.to_owned().concat("失败: ").concat(message(response).as_str()),
        );
    }
    let none: Vec<Json> = Vec::new();
    assert(json_views(none@) =~= Seq::empty());
    match response.get("data") {
        Some(data) => match data.as_array() {
            Some(items) => Ok(duplicate_all(items)),
            None => Ok(none),
        },
        None => Ok(none),
    }
}

/// The containers that a reply to `api/containers` lists.
pub open spec fn listed_containers(response: JsonView) -> Result<Seq<JsonView>, Seq<char>> {
    data_array(response, 0, "读取容器列表"@)
}

/// The containers that a reply to `api/containers` lists.
pub fn containers(response: &Json) -> (r: Result<Vec<Json>, String>)
    ensures
        list_view(r) == listed_containers(response@),
{
    response_data_array(response, 0, "读取容器列表")
}

/// The images that a reply to `api/images` lists.
pub open spec fn listed_images(response: JsonView) -> Result<Seq<JsonView>, Seq<char>> {
    data_array(response, 200, "读取镜像列表"@)
}

/// The images that a reply to `api/images` lists.
pub fn images(response: &Json) -> (r: Result<Vec<Json>, String>)
    ensures
        list_view(r) == listed_images(response@),
{
    response_data_array(response, 200, "读取镜像列表")
}

/// What is reported of a container.
pub open spec fn summary_of(container: JsonView) -> JsonView {
    JsonView::Object(
        map![
            "name"@ => JsonView::Text(name_of(container)),
            "image"@ => JsonView::Text(text_at(container, "usingImage"@)),
            "status"@ => JsonView::Text(text_at(container, "status"@)),
            "running_time"@ => JsonView::Text(text_at(container, "runningTime"@)),
            "created_at"@ => JsonView::Text(text_at(container, "createTime"@)),
        ],
    )
}

/// What is reported of a container.
pub fn container_summary(value: &Json) -> (r: Json)
    ensures
        r@ == summary_of(value@),
{
    Json::Object(
        JsonObject::new().with("name", Json::Text(name(value))).with(
            "image",
            Json::Text(text(value, "usingImage")),
        ).with("status", Json::Text(text(value, "status"))).with(
            "running_time",
            Json::Text(text(value, "runningTime")),
        ).with("created_at", Json::Text(text(value, "createTime"))),
    )
}

/// The outcome of a backup request: what is reported, or why it failed.
pub open spec fn backup_outcome(response: JsonView) -> Result<JsonView, Seq<char>> {
    if code_is(response, 200) {
        Ok(
            JsonView::Object(
                map![
                    "notice"@ => JsonView::Text("容器配置备份成功。"@),
                    "report"@ => JsonView::Object(map!["message"@ => JsonView::Text(message_of(response))]),
                ],
            ),
        )
    } else {
        Err("容器配置备份失败: "@ + message_of(response))
    }
}

/// The outcome of a backup request with this reply.
pub fn backup(response: &Json) -> (r: Result<Json, String>)
    ensures
        result_view(r) == backup_outcome(response@),
{
    if has_code(response, 200) {
        Ok(
            Json::Object(
                JsonObject::new().with("notice", Json::text("容器配置备份成功。")).with(
                    "report",
                    Json::Object(JsonObject::new().with("message", Json::Text(message(response)))),
                ),
            ),
        )
    } else {
        Err("容器配置备份失败: ".to_owned().concat(message(response).as_str()))
    }
}

} // verus!
