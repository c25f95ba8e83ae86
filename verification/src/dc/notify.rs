//! What the user is told after a run.
use vstd::prelude::*;

use super::action::{action_label, label_for};
use crate::json::{as_items, as_text, member, Json, JsonObject, JsonView};
use crate::settings::{bool_setting, setting_bool};
use crate::text::{drop_trailing, same, trim_end_matches};

verus! {

/// A notification: its title and its content.
#[derive(Debug)]
pub struct Notification {
    pub title: String,
    pub content: String,
}

#[verifier::ext_equal]
pub struct NotificationView {
    pub title: Seq<char>,
    pub content: Seq<char>,
}

impl View for Notification {
    type V = NotificationView;

    open spec fn view(&self) -> NotificationView {
        NotificationView { title: self.title@, content: self.content@ }
    }
}

/// A notification, where there is one.
pub open spec fn opt_notification(n: Option<Notification>) -> Option<NotificationView> {
    match n {
        Some(n) => Some(n@),
        None => None,
    }
}

/// How many updates a result reports.
pub open spec fn update_count(result: JsonView) -> int {
    match member(result, "report"@) {
        Some(report) => match as_items(member(report, "updates"@)) {
            Some(updates) => updates.len() as int,
            None => 0,
        },
        None => 0,
    }
}

/// The notice of a result, where it has one.
pub open spec fn notice_in(result: JsonView) -> Option<Seq<char>> {
    as_text(member(result, "notice"@))
}

/// The notice of a result, or `default` where it has none.
pub open spec fn told_or(result: JsonView, default: Seq<char>) -> Seq<char> {
    match notice_in(result) {
        Some(notice) => notice,
        None => default,
    }
}

/// Whether the user is told of a result: not of the page, not where
/// notifications are off, and of an update check without updates only where that
/// is asked for.
pub open spec fn tells(
    settings: Map<Seq<char>, JsonView>,
    action: Seq<char>,
    result: JsonView,
) -> bool {
    &&& bool_setting(settings, "send_notifications"@, true)
    &&& action != "dashboard"@
    &&& action == "check_updates"@ && update_count(result) == 0 ==> bool_setting(
        settings,
        "notify_when_no_updates"@,
        false,
    )
}

/// What the user is told of a result.
pub open spec fn success_message(
    settings: Map<Seq<char>, JsonView>,
    action: Seq<char>,
    result: JsonView,
) -> Option<NotificationView> {
    if tells(settings, action, result) {
        Some(
            NotificationView {
                title: "DC 助手："@ + label_for(action),
                content: told_or(result, "DC 助手任务已完成。"@),
            },
        )
    } else {
        None
    }
}

/// How many updates a result reports.
fn count_updates(result: &Json) -> (r: usize)
    ensures
        r == update_count(result@),
{
    match result.get("report") {
        Some(report) => match report.get("updates") {
            Some(updates) => match updates.as_array() {
                Some(items) => items.len(),
                None => 0,
            },
            None => 0,
        },
        None => 0,
    }
}

/// The notice of a result, or `default` where it has none.
pub fn notice_or<'a>(result: &'a Json, default: &'a str) -> (r: &'a str)
    ensures
        r@ == told_or(result@, default@),
{
    match result.get("notice") {
        Some(field) => match field.as_str() {
            Some(notice) => notice,
            None => default,
        },
        None => default,
    }
}

/// What the user is told of the result of `action`, if anything.
pub fn notify_success(settings: &JsonObject, action: &str, result: &Json) -> (r: Option<
    Notification,
>)
    ensures
        opt_notification(r) == success_message(settings.members(), action@, result@),
{
    if !setting_bool(settings, "send_notifications", true) || same(action, "dashboard") {
        return None;
    }
    if same(action, "check_updates") {
        if count_updates(result) == 0 && !setting_bool(settings, "notify_when_no_updates", false) {
            return None;
        }
    }
    let content = notice_or(result, "DC 助手任务已完成。").to_owned();
    Some(Notification { title: "DC 助手：".to_owned().concat(action_label(action)), content })
}

/// What the user is told of a run that failed.
pub open spec fn failure_message(
    settings: Map<Seq<char>, JsonView>,
    action: Seq<char>,
    error: Seq<char>,
) -> Option<NotificationView> {
    if bool_setting(settings, "send_notifications"@, true) {
        Some(
            NotificationView {
                title: "DC 助手执行失败"@,
                content: "动作："@ + label_for(action) + "\n原因："@ + error,
            },
        )
    } else {
        None
    }
}

/// What the user is told of a run of `action` that failed, if anything.
pub fn notify_failure(settings: &JsonObject, action: &str, error: &str) -> (r: Option<
    Notification,
>)
    ensures
        opt_notification(r) == failure_message(settings.members(), action@, error@),
{
    if !setting_bool(settings, "send_notifications", true) {
        return None;
    }
    Some(
        Notification {
            title: "DC 助手执行失败".to_owned(),
            content: "动作：".to_owned().concat(action_label(action)).concat("\n原因：").concat(error),
        },
    )
}

/// The address of the notification service.
pub open spec fn notification_address(api_url: Seq<char>) -> Seq<char> {
    drop_trailing(api_url, |c: char| c == '/') + "/plugin/notifications"@
}

/// The address of the notification service.
pub fn notification_url(api_url: &str) -> (r: String)
    ensures
        r@ == notification_address(api_url@),
{
    trim_end_matches(api_url, '/').to_owned().concat("/plugin/notifications")
}

/// The body of the request that sends a notification.
pub open spec fn request_body(notification: NotificationView) -> JsonView {
    JsonView::Object(
        map![
            "title"@ => JsonView::Text(notification.title),
            "content"@ => JsonView::Text(notification.content),
        ],
    )
}

impl Notification {
    /// The body of the request that sends this notification.
    pub fn body(&self) -> (r: Json)
        ensures
            r@ == request_body(self@),
    {
        Json::Object(
            JsonObject::new().with("title", Json::text(self.title.as_str())).with(
                "content",
                Json::text(self.content.as_str()),
            ),
        )
    }
}

} // verus!
