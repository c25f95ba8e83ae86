//! A run of the DC helper as a whole: what is looked at before anything is
//! requested, what each action makes of the replies, and what the settings have
//! to do with it.
use vstd::prelude::*;

use super::action::{action_named, parse_action, Action};
use super::auto_update::{
    after_containers, after_deletion, after_images, after_progress, after_request, after_selection,
    first_step, tasks_of, update_step, with_updated, RunView, SkippedView, StepView, TaskView,
};
use super::client::{key_in, service_in, DockerCopilot, ServiceView};
use super::dashboard::{asks_to_save, choose_containers, chosen, dashboard, is_saving, page};
use super::history::record_after;
use super::notify::{failure_message, notice_in, success_message, NotificationView};
use super::response::{backup_outcome, containers, listed_containers, message_of};
use super::selection::{load_selection, record_of, save_selection, selection_in_force};
use super::updates::{check_result, check_updates};
use crate::codec::{json_written, result_view};
use crate::input::{parameters_in, read_action_input};
use crate::json::{member, opt_text, Json, JsonObject, JsonView};
use crate::settings::setting_view;
use crate::text::opt_chars;

verus! {

/// What a run begins with: the action, the service and the parameters. What is
/// wrong with the parameters is told first, then what is wrong with the settings,
/// then that there is no such action.
pub open spec fn prepared(
    word: Seq<char>,
    settings: Map<Seq<char>, JsonView>,
    raw: Seq<char>,
) -> Result<(Action, ServiceView, JsonView), Seq<char>> {
    match parameters_in(raw) {
        Err(error) => Err(error),
        Ok(payload) => match service_in(settings) {
            Err(error) => Err(error),
            Ok(service) => match action_named(word) {
                Some(action) => Ok((action, service, payload)),
                None => Err("不支持的 DC 助手动作: "@ + word),
            },
        },
    }
}

/// What the beginning of a run, or its error, says.
pub open spec fn prepared_view(r: Result<(Action, DockerCopilot, Json), String>) -> Result<
    (Action, ServiceView, JsonView),
    Seq<char>,
> {
    match r {
        Ok((action, service, payload)) => Ok((action, service@, payload@)),
        Err(error) => Err(error@),
    }
}

/// What a run of `action` under `settings` with the parameters `raw` begins with.
pub fn prepare(action: &str, settings: &JsonObject, raw: &str) -> (r: Result<
    (Action, DockerCopilot, Json),
    String,
>)
    ensures
        prepared_view(r) == prepared(action@, settings.members(), raw@),
{
    let payload = match read_action_input(raw) {
        Ok(payload) => payload,
        Err(error) => {
            return Err(error);
        },
    };
    let service = match DockerCopilot::new(settings) {
        Ok(service) => service,
        Err(error) => {
            return Err(error);
        },
    };
    match parse_action(action) {
        Ok(action) => Ok((action, service, payload)),
        Err(error) => Err(error),
    }
}

/// A visit to the page: what it shows, and the text that stores the selection
/// where the visit asked for that.
#[derive(Debug)]
pub struct Visit {
    pub page: Json,
    pub stored: Option<String>,
}

#[verifier::ext_equal]
pub struct VisitView {
    pub page: JsonView,
    pub stored: Option<Seq<char>>,
}

impl View for Visit {
    type V = VisitView;

    open spec fn view(&self) -> VisitView {
        VisitView { page: self.page@, stored: opt_chars(self.stored) }
    }
}

/// What a visit comes to, or why it comes to nothing.
pub open spec fn visited(
    settings: Map<Seq<char>, JsonView>,
    stored: Option<Seq<char>>,
    payload: JsonView,
    reply: JsonView,
) -> Result<VisitView, Seq<char>> {
    match listed_containers(reply) {
        Ok(list) => {
            let selection = chosen(list, selection_in_force(settings, stored), payload);
            Ok(
                VisitView {
                    page: page(list, selection, asks_to_save(payload)),
                    stored: if asks_to_save(payload) {
                        Some(json_written(record_of(selection)))
                    } else {
                        None
                    },
                },
            )
        },
        Err(error) => Err(error),
    }
}

/// What a visit, or its error, says.
pub open spec fn visit_view(r: Result<Visit, String>) -> Result<VisitView, Seq<char>> {
    match r {
        Ok(visit) => Ok(visit@),
        Err(error) => Err(error@),
    }
}

/// What a visit with this payload comes to, given the stored selection and the
/// reply that lists the containers.
pub fn visit_page(
    settings: &JsonObject,
    stored: Option<&str>,
    payload: &Json,
    reply: &Json,
) -> (r: Result<Visit, String>)
    ensures
        visit_view(r) == visited(settings.members(), opt_text(stored), payload@, reply@),
{
    let list = match containers(reply) {
        Ok(list) => list,
        Err(error) => {
            return Err(error);
        },
    };
    let selection = choose_containers(&list, load_selection(settings, stored), payload);
    let saving = is_saving(payload);
    let text = if saving {
        Some(save_selection(&selection))
    } else {
        None
    };
    Ok(Visit { page: dashboard(&list, &selection, saving), stored: text })
}

/// What an update check reports, or why it reports nothing.
pub open spec fn checked(
    settings: Map<Seq<char>, JsonView>,
    stored: Option<Seq<char>>,
    reply: JsonView,
) -> Result<JsonView, Seq<char>> {
    match listed_containers(reply) {
        Ok(list) => Ok(check_result(list, selection_in_force(settings, stored).update_containers)),
        Err(error) => Err(error),
    }
}

/// What an update check reports, given the stored selection and the reply that
/// lists the containers.
pub fn check_chosen(settings: &JsonObject, stored: Option<&str>, reply: &Json) -> (r: Result<
    Json,
    String,
>)
    ensures
        result_view(r) == checked(settings.members(), opt_text(stored), reply@),
{
    match containers(reply) {
        Ok(list) => {
            let selection = load_selection(settings, stored);
            Ok(check_updates(&list, selection.update_containers()))
        },
        Err(error) => Err(error),
    }
}

/// What a run meets outside.
pub struct Outside {
    /// The stored selection, where there is one.
    pub stored: Option<Seq<char>>,
    /// The reply to each request in order, or why there is none.
    pub answers: Seq<Result<JsonView, Seq<char>>>,
    /// Whether a selection can be stored.
    pub kept: Result<(), Seq<char>>,
    /// The record of the latest runs, where there is one.
    pub record: Option<JsonView>,
    /// What the clock shows when the run is recorded.
    pub completed_at: int,
    pub updated_at: int,
}

/// The step of an automatic update after the reply to its request.
pub open spec fn after_reply(step: StepView, reply: JsonView) -> StepView {
    match step {
        StepView::ListImages(run) => after_images(run, reply),
        StepView::DeleteImage { path, id, run } => after_deletion(run, id, reply),
        StepView::ListContainers { selected, run } => after_containers(run, selected, reply),
        StepView::RequestUpdate { path, name, image, run } => after_request(run, name, reply),
        StepView::AskProgress { path, name, tracker, run } => after_progress(
            run,
            path,
            name,
            tracker,
            reply,
        ),
        StepView::Wait { seconds, path, name, tracker, run } => after_progress(
            run,
            path,
            name,
            tracker,
            reply,
        ),
        _ => step,
    }
}

/// How an automatic update ends that stands at `step`; nothing where the answers
/// run out before.
pub open spec fn driven(
    step: StepView,
    selected: Seq<Seq<char>>,
    answers: Seq<Result<JsonView, Seq<char>>>,
) -> Option<Result<JsonView, Seq<char>>>
    decreases
            answers.len(),
            if step is LoadSelection {
                1int
            } else {
                0int
            },
{
    match step {
        StepView::Finish(result) => Some(Ok(result)),
        StepView::Fail(error) => Some(Err(error)),
        StepView::LoadSelection(run) => driven(after_selection(run, selected), selected, answers),
        _ => if answers.len() == 0 {
            None
        } else {
            match answers[0] {
                Ok(reply) => driven(after_reply(step, reply), selected, answers.drop_first()),
                Err(error) => Some(Err(error)),
            }
        },
    }
}

/// What a run of an action comes to, and the selection that it stores, where it
/// stores one; nothing where the answers run out before the end.
pub open spec fn performed(
    action: Action,
    settings: Map<Seq<char>, JsonView>,
    payload: JsonView,
    outside: Outside,
) -> Option<(Result<JsonView, Seq<char>>, Option<Seq<char>>)> {
    let selection = selection_in_force(settings, outside.stored);
    if action is AutoUpdate {
        match driven(first_step(settings), selection.auto_update_containers, outside.answers) {
            Some(result) => Some((result, None)),
            None => None,
        }
    } else if outside.answers.len() == 0 {
        None
    } else {
        match (outside.answers[0], action) {
            (Err(error), _) => Some((Err(error), None)),
            (Ok(reply), Action::CheckUpdates) => Some(
                (checked(settings, outside.stored, reply), None),
            ),
            (Ok(reply), Action::Dashboard) => match visited(
                settings,
                outside.stored,
                payload,
                reply,
            ) {
                Err(error) => Some((Err(error), None)),
                Ok(visit) => match (visit.stored, outside.kept) {
                    (Some(text), Err(error)) => Some((Err(error), None)),
                    _ => Some((Ok(visit.page), visit.stored)),
                },
            },
            (Ok(reply), _) => Some((backup_outcome(reply), None)),
        }
    }
}

/// What a whole run comes to, and the selection that it stores.
pub open spec fn ran(
    word: Seq<char>,
    settings: Map<Seq<char>, JsonView>,
    raw: Seq<char>,
    outside: Outside,
) -> Option<(Result<JsonView, Seq<char>>, Option<Seq<char>>)> {
    match prepared(word, settings, raw) {
        Ok((action, service, payload)) => performed(action, settings, payload, outside),
        Err(error) => Some((Err(error), None)),
    }
}

/// The record after a run with this result.
pub open spec fn recorded(
    record: Option<JsonView>,
    word: Seq<char>,
    result: Result<JsonView, Seq<char>>,
    completed_at: int,
    updated_at: int,
) -> JsonView {
    let notice = match result {
        Ok(result) => match notice_in(result) {
            Some(notice) => notice,
            None => Seq::empty(),
        },
        Err(error) => "执行失败："@ + error,
    };
    record_after(record, word, result is Ok, notice, completed_at, updated_at)
}

/// What the user is told of a run with this result.
pub open spec fn told(
    settings: Map<Seq<char>, JsonView>,
    word: Seq<char>,
    result: Result<JsonView, Seq<char>>,
) -> Option<NotificationView> {
    match result {
        Ok(result) => success_message(settings, word, result),
        Err(error) => failure_message(settings, word, error),
    }
}

/// All that a run leaves behind.
pub struct Traces {
    pub result: Result<JsonView, Seq<char>>,
    pub selection: Option<Seq<char>>,
    pub record: JsonView,
    pub notification: Option<NotificationView>,
}

/// What a whole run leaves behind; nothing where the answers run out before the
/// end.
pub open spec fn left_behind(
    word: Seq<char>,
    settings: Map<Seq<char>, JsonView>,
    raw: Seq<char>,
    outside: Outside,
) -> Option<Traces> {
    match ran(word, settings, raw, outside) {
        Some((result, selection)) => Some(
            Traces {
                result,
                selection,
                record: recorded(
                    outside.record,
                    word,
                    result,
                    outside.completed_at,
                    outside.updated_at,
                ),
                notification: told(settings, word, result),
            },
        ),
        None => None,
    }
}

/// Whether a result has a notice, which is a text, and a report, which is an
/// object.
pub open spec fn is_reported(result: JsonView) -> bool {
    &&& notice_in(result) is Some
    &&& member(result, "report"@) matches Some(report) && report is Object
}

/// Whether a step that ends an automatic update ends it with a notice and a
/// report.
pub open spec fn ends_reported(step: StepView) -> bool {
    step matches StepView::Finish(result) ==> is_reported(result)
}

proof fn lemma_notice_and_report()
    ensures
        "notice"@ != "report"@,
{
    reveal_strlit("notice");
    reveal_strlit("report");
    assert("notice"@[0] != "report"@[0]);
}

proof fn lemma_update_step_reported(run: RunView)
    ensures
        ends_reported(update_step(run)),
    decreases run.tasks.len(),
{
    lemma_notice_and_report();
    if run.tasks.len() > 0 {
        match run.tasks[0] {
            TaskView::Skip(skipped) => {
                lemma_update_step_reported(
                    RunView {
                        tasks: run.tasks.drop_first(),
                        skipped: run.skipped.push(skipped),
                        ..run
                    },
                );
            },
            TaskView::Request { id, name, image } => {},
        }
    }
}

proof fn lemma_reply_reported(step: StepView, reply: JsonView)
    requires
        ends_reported(step),
    ensures
        ends_reported(after_reply(step, reply)),
{
    match step {
        StepView::ListContainers { selected, run } => {
            if let Ok(list) = listed_containers(reply) {
                lemma_update_step_reported(RunView { tasks: tasks_of(list, selected), ..run });
            }
        },
        StepView::RequestUpdate { path, name, image, run } => {
            lemma_update_step_reported(with_updated(run, name, None));
            lemma_update_step_reported(
                RunView {
                    skipped: run.skipped.push(SkippedView { name, reason: message_of(reply) }),
                    ..run
                },
            );
        },
        StepView::AskProgress { path, name, tracker, run } => {
            lemma_update_step_reported(
                with_updated(run, name, Some(tracker.after(reply).latest)),
            );
        },
        StepView::Wait { seconds, path, name, tracker, run } => {
            lemma_update_step_reported(
                with_updated(run, name, Some(tracker.after(reply).latest)),
            );
        },
        _ => {},
    }
}

proof fn lemma_driven_reported(
    step: StepView,
    selected: Seq<Seq<char>>,
    answers: Seq<Result<JsonView, Seq<char>>>,
)
    requires
        ends_reported(step),
    ensures
        driven(step, selected, answers) matches Some(Ok(result)) ==> is_reported(result),
    decreases
            answers.len(),
            if step is LoadSelection {
                1int
            } else {
                0int
            },
{
    lemma_notice_and_report();
    match step {
        StepView::Finish(_) => {},
        StepView::Fail(_) => {},
        StepView::LoadSelection(run) => {
            lemma_driven_reported(after_selection(run, selected), selected, answers);
        },
        _ => {
            if answers.len() > 0 {
                if let Ok(reply) = answers[0] {
                    lemma_reply_reported(step, reply);
                    lemma_driven_reported(
                        after_reply(step, reply),
                        selected,
                        answers.drop_first(),
                    );
                }
            }
        },
    }
}

/// A check, an automatic update or a backup that succeeds gives a notice and a
/// report, whatever it meets outside; a visit to the page gives a notice.
pub proof fn law_results_have_notice_and_report(
    action: Action,
    settings: Map<Seq<char>, JsonView>,
    payload: JsonView,
    outside: Outside,
)
    ensures
        performed(action, settings, payload, outside) matches Some((Ok(result), selection)) ==> {
            &&& notice_in(result) is Some
            &&& action != Action::Dashboard ==> is_reported(result)
        },
{
    lemma_notice_and_report();
    let selected = selection_in_force(settings, outside.stored).auto_update_containers;
    lemma_driven_reported(first_step(settings), selected, outside.answers);
    reveal_strlit("notice");
    reveal_strlit("items");
    reveal_strlit("form_options");
    reveal_strlit("form_values");
    assert("notice"@.len() == 6 && "items"@.len() == 5 && "form_options"@.len() == 12
        && "form_values"@.len() == 11);
}

/// Whether two settings agree on everything but the secret key, which neither
/// leaves blank.
pub open spec fn differ_in_secret_key(
    a: Map<Seq<char>, JsonView>,
    b: Map<Seq<char>, JsonView>,
) -> bool {
    &&& key_in(a).len() > 0
    &&& key_in(b).len() > 0
    &&& forall|key: Seq<char>|
        key != "secret_key"@ ==> #[trigger] setting_view(a, key) == setting_view(b, key)
}

/// The host that requests go to, or why there is none.
pub open spec fn host_in(settings: Map<Seq<char>, JsonView>) -> Result<Seq<char>, Seq<char>> {
    match service_in(settings) {
        Ok(service) => Ok(service.host),
        Err(error) => Err(error),
    }
}

proof fn lemma_other_keys()
    ensures
        "secret_key"@ != "host"@,
        "secret_key"@ != "update_containers"@,
        "secret_key"@ != "auto_update_containers"@,
        "secret_key"@ != "clean_unused_images"@,
        "secret_key"@ != "track_progress"@,
        "secret_key"@ != "progress_attempts"@,
        "secret_key"@ != "progress_interval_seconds"@,
        "secret_key"@ != "send_notifications"@,
        "secret_key"@ != "notify_when_no_updates"@,
{
    reveal_strlit("secret_key");
    reveal_strlit("host");
    reveal_strlit("update_containers");
    reveal_strlit("auto_update_containers");
    reveal_strlit("clean_unused_images");
    reveal_strlit("track_progress");
    reveal_strlit("progress_attempts");
    reveal_strlit("progress_interval_seconds");
    reveal_strlit("send_notifications");
    reveal_strlit("notify_when_no_updates");
    assert("secret_key"@.len() == 10);
    assert("host"@.len() == 4);
    assert("update_containers"@.len() == 17);
    assert("auto_update_containers"@.len() == 22);
    assert("clean_unused_images"@.len() == 19);
    assert("track_progress"@.len() == 14);
    assert("progress_attempts"@.len() == 17);
    assert("progress_interval_seconds"@.len() == 25);
    assert("send_notifications"@.len() == 18);
    assert("notify_when_no_updates"@.len() == 22);
}

/// The secret key has no part in anything else that is read from the settings:
/// the host or what is wrong with it, the selection, the first step of an
/// automatic update, and what the user is told.
pub proof fn law_secret_key_only_signs(
    a: Map<Seq<char>, JsonView>,
    b: Map<Seq<char>, JsonView>,
    stored: Option<Seq<char>>,
    word: Seq<char>,
    result: JsonView,
    error: Seq<char>,
)
    requires
        differ_in_secret_key(a, b),
    ensures
        host_in(a) == host_in(b),
        selection_in_force(a, stored) == selection_in_force(b, stored),
        first_step(a) == first_step(b),
        success_message(a, word, result) == success_message(b, word, result),
        failure_message(a, word, error) == failure_message(b, word, error),
{
    lemma_other_keys();
    assert(setting_view(a, "host"@) == setting_view(b, "host"@));
    assert(setting_view(a, "update_containers"@) == setting_view(b, "update_containers"@));
    assert(setting_view(a, "auto_update_containers"@) == setting_view(
        b,
        "auto_update_containers"@,
    ));
    assert(setting_view(a, "clean_unused_images"@) == setting_view(b, "clean_unused_images"@));
    assert(setting_view(a, "track_progress"@) == setting_view(b, "track_progress"@));
    assert(setting_view(a, "progress_attempts"@) == setting_view(b, "progress_attempts"@));
    assert(setting_view(a, "progress_interval_seconds"@) == setting_view(
        b,
        "progress_interval_seconds"@,
    ));
    assert(setting_view(a, "send_notifications"@) == setting_view(b, "send_notifications"@));
    assert(setting_view(a, "notify_when_no_updates"@) == setting_view(
        b,
        "notify_when_no_updates"@,
    ));
}

/// The secret key reaches no result, no error and no stored data: two runs that
/// differ in it alone, and meet the same outside, come to the same result, store
/// the same selection and the same record, and tell the user the same.
pub proof fn law_secret_key_stays_out_of_results(
    a: Map<Seq<char>, JsonView>,
    b: Map<Seq<char>, JsonView>,
    word: Seq<char>,
    raw: Seq<char>,
    outside: Outside,
)
    requires
        differ_in_secret_key(a, b),
    ensures
        left_behind(word, a, raw, outside) == left_behind(word, b, raw, outside),
{
    law_secret_key_only_signs(a, b, outside.stored, word, JsonView::Null, Seq::empty());
    match ran(word, a, raw, outside) {
        Some((Ok(result), _)) => {
            law_secret_key_only_signs(a, b, outside.stored, word, result, Seq::empty());
        },
        Some((Err(error), _)) => {
            law_secret_key_only_signs(a, b, outside.stored, word, JsonView::Null, error);
        },
        None => {},
    }
}

} // verus!
