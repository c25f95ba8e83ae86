//! Promises of the DC helper.
use vstd::prelude::*;

use super::fields::{has_field, has_text, holds, law_field_text, tells};
use super::text::law_trimmed_is_the_core;
use crate::codec::json_read;
use crate::dc::auto_update::{
    after_containers, after_deletion, after_images, after_progress, after_request, after_selection,
    clean_step, first_step, ids_to_clean, result_of, tasks_of, update_step, RunView, SkippedView,
    StepView, TaskView, UpdatedView,
};
use crate::dc::progress::{Pace, TrackerView};
use crate::dc::response::{
    backup_outcome, data_array, decoded, listed_containers, listed_images, name_of, text_at,
};
use crate::dc::updates::check_result;
use crate::json::JsonView;
use crate::lists::lemma_filter_map_add;
use crate::text::{decimal, joined};

verus! {

/// A reply is used where its status begins with a two and its body is JSON.
pub proof fn law_replies_are_decoded(status: int, body: Seq<char>)
    requires
        100 <= status <= 999,
    ensures
        status / 100 == 2 ==> match json_read(body) {
            Ok(value) => decoded(status, body) == Ok::<JsonView, Seq<char>>(value),
            Err(_) => decoded(status, body) == Err::<JsonView, Seq<char>>(
                "Docker Copilot 返回了无效 JSON"@,
            ),
        },
        status / 100 != 2 ==> decoded(status, body) == Err::<JsonView, Seq<char>>(
            "Docker Copilot 返回 HTTP "@ + decimal(status as nat),
        ),
{
}

/// A reply with the expected code lists its items under `data`, and none where that is
/// no array; with another code there is an error with the operation and the message.
pub proof fn law_lists_are_had_with_the_code(
    reply: JsonView,
    code: int,
    operation: Seq<char>,
    message: Seq<char>,
)
    requires
        tells(reply, "msg"@, message),
        i64::MIN <= code <= i64::MAX,
    ensures
        data_array(reply, code, operation) == if !holds(reply, "code"@, JsonView::Int(code)) {
            Err::<Seq<JsonView>, Seq<char>>(operation + "失败: "@ + message)
        } else if has_field(reply, "data"@) && reply->Object_0["data"@] is Array {
            Ok(reply->Object_0["data"@]->Array_0)
        } else {
            Ok(Seq::empty())
        },
{
    law_field_text(reply, "msg"@, message);
}

/// Containers are what a reply with the code 0 lists under `data`; with another
/// code there is an error with the message of the reply.
pub proof fn law_containers_are_listed(reply: JsonView, list: Seq<JsonView>, message: Seq<char>)
    requires
        tells(reply, "msg"@, message),
    ensures
        holds(reply, "code"@, JsonView::Int(0)) && holds(reply, "data"@, JsonView::Array(list))
            ==> listed_containers(reply) == Ok::<Seq<JsonView>, Seq<char>>(list),
        holds(reply, "code"@, JsonView::Int(0)) && !(has_field(reply, "data"@)
            && reply->Object_0["data"@] is Array) ==> listed_containers(reply) == Ok::<
            Seq<JsonView>,
            Seq<char>,
        >(Seq::empty()),
        !holds(reply, "code"@, JsonView::Int(0)) ==> listed_containers(reply) == Err::<
            Seq<JsonView>,
            Seq<char>,
        >("读取容器列表失败: "@ + message),
{
    law_field_text(reply, "msg"@, message);
    assert("读取容器列表"@ + "失败: "@ + message =~= "读取容器列表失败: "@ + message) by {
        reveal_strlit("读取容器列表");
        reveal_strlit("失败: ");
        reveal_strlit("读取容器列表失败: ");
    }
}

/// Images are what a reply with the code 200 lists under `data`; with another code
/// there is an error with the message of the reply.
pub proof fn law_images_are_listed(reply: JsonView, list: Seq<JsonView>, message: Seq<char>)
    requires
        tells(reply, "msg"@, message),
    ensures
        holds(reply, "code"@, JsonView::Int(200)) && holds(reply, "data"@, JsonView::Array(list))
            ==> listed_images(reply) == Ok::<Seq<JsonView>, Seq<char>>(list),
        holds(reply, "code"@, JsonView::Int(200)) && !(has_field(reply, "data"@)
            && reply->Object_0["data"@] is Array) ==> listed_images(reply) == Ok::<
            Seq<JsonView>,
            Seq<char>,
        >(Seq::empty()),
        !holds(reply, "code"@, JsonView::Int(200)) ==> listed_images(reply) == Err::<
            Seq<JsonView>,
            Seq<char>,
        >("读取镜像列表失败: "@ + message),
{
    law_field_text(reply, "msg"@, message);
    assert("读取镜像列表"@ + "失败: "@ + message =~= "读取镜像列表失败: "@ + message) by {
        reveal_strlit("读取镜像列表");
        reveal_strlit("失败: ");
        reveal_strlit("读取镜像列表失败: ");
    }
}

/// A backup succeeds exactly where the reply has the code 200; the message of the
/// reply is reported either way.
pub proof fn law_backup(reply: JsonView, message: Seq<char>)
    requires
        tells(reply, "msg"@, message),
    ensures
        holds(reply, "code"@, JsonView::Int(200)) <==> backup_outcome(reply) is Ok,
        backup_outcome(reply) matches Ok(result) ==> {
            &&& holds(result, "notice"@, JsonView::Text("容器配置备份成功。"@))
            &&& has_field(result, "report"@)
            &&& holds(result->Object_0["report"@], "message"@, JsonView::Text(message))
        },
        backup_outcome(reply) matches Err(error) ==> error == "容器配置备份失败: "@ + message,
{
    law_field_text(reply, "msg"@, message);
    reveal_strlit("notice");
    reveal_strlit("report");
    assert("notice"@[0] != "report"@[0]);
}

/// Whether an image has no valid tag: the field is missing or `null`, is blank or a
/// placeholder for none, or is an empty list.
pub open spec fn without_tag(image: JsonView) -> bool {
    ||| !has_field(image, "tag"@)
    ||| holds(image, "tag"@, JsonView::Null)
    ||| has_text(image, "tag"@) && (tells(image, "tag"@, Seq::empty()) || tells(
        image,
        "tag"@,
        "<none>"@,
    ) || tells(image, "tag"@, "None"@))
    ||| holds(image, "tag"@, JsonView::Array(Seq::empty()))
}

/// An image is cleaned exactly where no container uses it, it has no valid tag and
/// it has an id; the id is what is asked to be deleted.
pub proof fn law_one_image(image: JsonView, id: Seq<char>)
    requires
        tells(image, "id"@, id),
    ensures
        ids_to_clean(seq![image]) == if !holds(image, "inUsed"@, JsonView::Bool(true))
            && without_tag(image) && id.len() > 0 {
            seq![id]
        } else {
            Seq::empty()
        },
{
    law_field_text(image, "id"@, id);
    if has_text(image, "tag"@) {
        let tag = image->Object_0["tag"@]->Text_0;
        law_trimmed_is_the_core(tag, Seq::empty());
        law_trimmed_is_the_core(tag, "<none>"@);
        law_trimmed_is_the_core(tag, "None"@);
        reveal_strlit("");
        assert(""@ =~= Seq::<char>::empty());
    }
    if has_field(image, "tag"@) {
        if let JsonView::Array(tags) = image->Object_0["tag"@] {
            assert(tags.len() == 0 ==> tags =~= Seq::empty());
        }
    }
    reveal_with_fuel(Seq::filter_map, 2);
    assert(seq![image].drop_last() =~= Seq::empty());
    assert(ids_to_clean(seq![image]) =~= if !holds(image, "inUsed"@, JsonView::Bool(true))
        && without_tag(image) && id.len() > 0 {
        seq![id]
    } else {
        Seq::empty()
    });
}

/// Images are looked at one by one and in order.
pub proof fn law_images_in_order(a: Seq<JsonView>, b: Seq<JsonView>)
    ensures
        ids_to_clean(a + b) == ids_to_clean(a) + ids_to_clean(b),
        ids_to_clean(Seq::empty()) == Seq::<Seq<char>>::empty(),
{
    let f = |image: JsonView|
        if crate::dc::auto_update::to_clean(image) && text_at(image, "id"@).len() > 0 {
            Some(text_at(image, "id"@))
        } else {
            None
        };
    lemma_filter_map_add(a, b, f);
    assert(Seq::<JsonView>::empty().filter_map(f) =~= Seq::empty());
}

/// A container gets a task exactly where it has an update and is chosen. The task
/// requests its update where it has an id and an image with a tag; else it says why
/// that cannot be.
pub proof fn law_one_container(
    container: JsonView,
    selected: Seq<Seq<char>>,
    name: Seq<char>,
    image: Seq<char>,
    id: Seq<char>,
)
    requires
        tells(container, "name"@, name),
        tells(container, "usingImage"@, image),
        tells(container, "id"@, id),
    ensures
        !(holds(container, "haveUpdate"@, JsonView::Bool(true)) && selected.contains(name))
            ==> tasks_of(seq![container], selected) == Seq::<TaskView>::empty(),
        holds(container, "haveUpdate"@, JsonView::Bool(true)) && selected.contains(name)
            ==> tasks_of(seq![container], selected) == seq![
            if image.len() == 0 || (exists|rest: Seq<char>| image == #[trigger] ("sha256:"@
                + rest)) {
                TaskView::Skip(
                    SkippedView {
                        name,
                        reason: "当前镜像没有可用标签，无法通过 Docker Copilot 自动更新"@,
                    },
                )
            } else if id.len() == 0 {
                TaskView::Skip(SkippedView { name, reason: "容器缺少 ID"@ })
            } else {
                TaskView::Request { id, name, image }
            },
        ],
{
    law_field_text(container, "name"@, name);
    law_field_text(container, "usingImage"@, image);
    law_field_text(container, "id"@, id);
    super::text::law_begins_with(image, "sha256:"@);
    reveal_with_fuel(Seq::filter_map, 2);
    assert(seq![container].drop_last() =~= Seq::empty());
}

/// Containers are looked at one by one and in order.
pub proof fn law_containers_in_order(
    a: Seq<JsonView>,
    b: Seq<JsonView>,
    selected: Seq<Seq<char>>,
)
    ensures
        tasks_of(a + b, selected) == tasks_of(a, selected) + tasks_of(b, selected),
        tasks_of(Seq::empty(), selected) == Seq::<TaskView>::empty(),
{
    let f = |c: JsonView| crate::dc::auto_update::task_of(c, selected);
    lemma_filter_map_add(a, b, f);
    assert(Seq::<JsonView>::empty().filter_map(f) =~= Seq::empty());
}

/// A run over containers of which the first can be updated requests that update, at
/// the address of the container and with its name and image, and keeps the others
/// for later.
pub proof fn law_a_chosen_container_is_updated(
    run: RunView,
    selected: Seq<Seq<char>>,
    reply: JsonView,
    container: JsonView,
    others: Seq<JsonView>,
    name: Seq<char>,
    image: Seq<char>,
    id: Seq<char>,
)
    requires
        holds(reply, "code"@, JsonView::Int(0)),
        holds(reply, "data"@, JsonView::Array(seq![container] + others)),
        holds(container, "haveUpdate"@, JsonView::Bool(true)),
        tells(container, "name"@, name),
        tells(container, "usingImage"@, image),
        tells(container, "id"@, id),
        selected.contains(name),
        id.len() > 0,
        image.len() > 0,
        forall|rest: Seq<char>| image != #[trigger] ("sha256:"@ + rest),
    ensures
        after_containers(run, selected, reply) == (StepView::RequestUpdate {
            path: "api/container/"@ + id + "/update"@,
            name,
            image,
            run: RunView { tasks: tasks_of(others, selected), ..run },
        }),
{
    law_one_container(container, selected, name, image, id);
    law_containers_in_order(seq![container], others, selected);
    let tasks = tasks_of(seq![container] + others, selected);
    assert(tasks.drop_first() =~= tasks_of(others, selected));
}

/// A run that lists its containers plans all of them, and ends at once where the
/// list cannot be had.
pub proof fn law_listed_containers_are_planned(
    run: RunView,
    selected: Seq<Seq<char>>,
    reply: JsonView,
    list: Seq<JsonView>,
    message: Seq<char>,
)
    requires
        tells(reply, "msg"@, message),
    ensures
        holds(reply, "code"@, JsonView::Int(0)) && holds(reply, "data"@, JsonView::Array(list))
            ==> after_containers(run, selected, reply) == update_step(
            RunView { tasks: tasks_of(list, selected), ..run },
        ),
        !holds(reply, "code"@, JsonView::Int(0)) ==> after_containers(run, selected, reply)
            == StepView::Fail("读取容器列表失败: "@ + message),
{
    law_containers_are_listed(reply, list, message);
}

/// Tasks are settled one by one: a container that cannot be updated is noted, the
/// update of the next one is requested, and without a task the run ends.
pub proof fn law_tasks_are_settled_in_order(run: RunView, task: TaskView, rest: Seq<TaskView>)
    ensures
        update_step(RunView { tasks: Seq::empty(), ..run }) == StepView::Finish(
            result_of(RunView { tasks: Seq::empty(), ..run }),
        ),
        update_step(RunView { tasks: seq![task] + rest, ..run }) == match task {
            TaskView::Skip(skipped) => update_step(
                RunView { tasks: rest, skipped: run.skipped.push(skipped), ..run },
            ),
            TaskView::Request { id, name, image } => StepView::RequestUpdate {
                path: "api/container/"@ + id + "/update"@,
                name,
                image,
                run: RunView { tasks: rest, ..run },
            },
        },
{
    assert((seq![task] + rest).drop_first() =~= rest);
}

/// The images that a reply lists are deleted one after the other, and only then is
/// the selection loaded; the run ends at once where the list cannot be had.
pub proof fn law_images_are_deleted_in_order(
    run: RunView,
    reply: JsonView,
    list: Seq<JsonView>,
    message: Seq<char>,
    id: Seq<char>,
    ids: Seq<Seq<char>>,
)
    requires
        tells(reply, "msg"@, message),
    ensures
        holds(reply, "code"@, JsonView::Int(200)) && holds(reply, "data"@, JsonView::Array(list))
            ==> after_images(run, reply) == clean_step(
            RunView { images: ids_to_clean(list), ..run },
        ),
        !holds(reply, "code"@, JsonView::Int(200)) ==> after_images(run, reply) == StepView::Fail(
            "读取镜像列表失败: "@ + message,
        ),
        clean_step(RunView { images: Seq::empty(), ..run }) == StepView::LoadSelection(
            RunView { images: Seq::empty(), ..run },
        ),
        clean_step(RunView { images: seq![id] + ids, ..run }) == (StepView::DeleteImage {
            path: "api/image/"@ + id + "?force=false"@,
            id,
            run: RunView { images: ids, ..run },
        }),
{
    law_images_are_listed(reply, list, message);
    assert((seq![id] + ids).drop_first() =~= ids);
}

/// An image counts as cleaned exactly where the reply has the code 200.
pub proof fn law_deleted_images_are_noted(run: RunView, id: Seq<char>, reply: JsonView)
    ensures
        holds(reply, "code"@, JsonView::Int(200)) ==> after_deletion(run, id, reply) == clean_step(
            RunView { cleaned: run.cleaned.push(id), ..run },
        ),
        !holds(reply, "code"@, JsonView::Int(200)) ==> after_deletion(run, id, reply)
            == clean_step(run),
{
}

/// A number moved between 1 and `high`.
pub open spec fn moderated(
    settings: Map<Seq<char>, JsonView>,
    key: Seq<char>,
    default: int,
    high: int,
    n: int,
) -> bool {
    if settings.contains_key(key) && settings[key] is Int && 0 <= settings[key]->Int_0 <= u64::MAX {
        let asked = settings[key]->Int_0;
        &&& 1 <= asked <= high ==> n == asked
        &&& asked < 1 ==> n == 1
        &&& asked > high ==> n == high
    } else {
        n == default
    }
}

/// A run cleans images first exactly where the settings say so, and follows update
/// tasks unless the settings say not to: as often as they ask, between once and a
/// hundred times, and as many seconds apart as they ask, between one and three
/// hundred; six times and ten seconds where they ask for nothing. It begins with
/// nothing done.
pub proof fn law_runs_begin_as_set(settings: Map<Seq<char>, JsonView>)
    ensures
        ({
            let cleans = settings.contains_key("clean_unused_images"@)
                && settings["clean_unused_images"@] == JsonView::Bool(true);
            let follows = !(settings.contains_key("track_progress"@) && settings["track_progress"@]
                == JsonView::Bool(false));
            let step = first_step(settings);
            let run = if cleans {
                step->ListImages_0
            } else {
                step->LoadSelection_0
            };
            &&& if cleans {
                step is ListImages
            } else {
                step is LoadSelection
            }
            &&& run.follow is Some <==> follows
            &&& run.follow matches Some(pace) ==> {
                &&& moderated(settings, "progress_attempts"@, 6, 100, pace.attempts as int)
                &&& moderated(settings, "progress_interval_seconds"@, 10, 300, pace.interval as int)
            }
            &&& run.images.len() == 0
            &&& run.tasks.len() == 0
            &&& run.cleaned.len() == 0
            &&& run.updated.len() == 0
            &&& run.skipped.len() == 0
        }),
{
}

/// With containers chosen a run asks for the list of containers; with none chosen it
/// ends, and says what was cleaned.
pub proof fn law_a_choice_is_followed(run: RunView, selected: Seq<Seq<char>>)
    ensures
        selected.len() > 0 ==> after_selection(run, selected) == (StepView::ListContainers {
            selected,
            run,
        }),
        selected.len() == 0 ==> {
            &&& after_selection(run, selected) matches StepView::Finish(result)
            &&& holds(result, "notice"@, JsonView::Text("未设置自动更新容器，未执行更新。"@))
            &&& has_field(result, "report"@)
            &&& holds(result->Object_0["report"@], "updated"@, JsonView::Array(Seq::empty()))
            &&& holds(
                result->Object_0["report"@],
                "cleaned_images"@,
                JsonView::Array(run.cleaned.map_values(|s: Seq<char>| JsonView::Text(s))),
            )
        },
{
    reveal_strlit("notice");
    reveal_strlit("report");
    assert("notice"@[0] != "report"@[0]);
    reveal_strlit("cleaned_images");
    reveal_strlit("updated");
    assert("cleaned_images"@.len() != "updated"@.len());
}

/// A requested update was begun exactly where the reply has the code 200 and says
/// `success`. Where it names a task and tasks are followed, its progress is asked
/// for; else the container is noted as updated. An update that was not begun is
/// noted as skipped, with the message of the reply.
pub proof fn law_requests_are_settled(
    run: RunView,
    name: Seq<char>,
    reply: JsonView,
    message: Seq<char>,
    pace: Pace,
    task_id: Seq<char>,
)
    requires
        tells(reply, "msg"@, message),
    ensures
        ({
            let begun = holds(reply, "code"@, JsonView::Int(200)) && message == "success"@;
            let names_task = has_field(reply, "data"@) && has_text(
                reply->Object_0["data"@],
                "taskID"@,
            );
            let task = reply->Object_0["data"@]->Object_0["taskID"@]->Text_0;
            let step = after_request(run, name, reply);
            &&& begun && run.follow == Some(pace) && names_task ==> step == (
            StepView::AskProgress {
                path: "api/progress/"@ + task,
                name,
                tracker: TrackerView { pace, asked: 0, latest: "等待更新进度"@ },
                run,
            })
            &&& begun && (run.follow is None || !names_task) ==> step == update_step(
                RunView { updated: run.updated.push(UpdatedView { name, progress: None }), ..run },
            )
            &&& !begun ==> step == update_step(
                RunView { skipped: run.skipped.push(SkippedView { name, reason: message }), ..run },
            )
        }),
{
    law_field_text(reply, "msg"@, message);
}

/// A task is asked for once more exactly while it was asked for less often than the
/// pace allows, which is a hundred times at most and at most five minutes apart.
pub proof fn law_tasks_are_asked_for_within_their_pace(tracker: TrackerView)
    ensures
        tracker.in_progress() <==> 0 <= tracker.asked && tracker.asked < tracker.pace.attempts
            && tracker.pace.attempts <= 100 && 0 < tracker.pace.interval && tracker.pace.interval
            <= 5 * 60,
{
}

/// Following a task ends exactly where a reply has the code 200 and says `更新成功`,
/// or the attempts are used up; the container is then noted as updated, with the
/// last message that came with the code 200. Else the next request comes after the
/// pause that the pace sets.
pub proof fn law_progress_is_followed(
    run: RunView,
    path: Seq<char>,
    name: Seq<char>,
    tracker: TrackerView,
    reply: JsonView,
    message: Seq<char>,
)
    requires
        tells(reply, "msg"@, message),
    ensures
        ({
            let good = holds(reply, "code"@, JsonView::Int(200));
            let latest = if good {
                message
            } else {
                tracker.latest
            };
            let over = good && message == "更新成功"@ || tracker.asked + 1 >= tracker.pace.attempts;
            let step = after_progress(run, path, name, tracker, reply);
            &&& over ==> step == update_step(
                RunView {
                    updated: run.updated.push(UpdatedView { name, progress: Some(latest) }),
                    ..run
                },
            )
            &&& !over ==> step == (StepView::Wait {
                seconds: tracker.pace.interval as int,
                path,
                name,
                tracker: TrackerView { pace: tracker.pace, asked: tracker.asked + 1, latest },
                run,
            })
        }),
{
    law_field_text(reply, "msg"@, message);
}

/// The names of the first containers of a list, at most five.
pub open spec fn first_five(skipped: Seq<SkippedView>, names: Seq<Seq<char>>) -> bool {
    &&& names.len() <= skipped.len()
    &&& names.len() == skipped.len() || names.len() == 5
    &&& names.len() <= 5
    &&& forall|i: int| 0 <= i < names.len() ==> #[trigger] names[i] == skipped[i].name
}

/// The result of a run lists what was cleaned, updated and skipped, entry by entry
/// and in order; its notice counts them and names the first five that were skipped.
pub proof fn law_runs_report_what_they_did(run: RunView, names: Seq<Seq<char>>)
    requires
        first_five(run.skipped, names),
    ensures
        ({
            let result = result_of(run);
            let report = result->Object_0["report"@];
            let updated = report->Object_0["updated"@]->Array_0;
            let skipped = report->Object_0["skipped"@]->Array_0;
            let cleaned = report->Object_0["cleaned_images"@]->Array_0;
            let detail = joined(names, "、"@);
            &&& has_field(result, "report"@)
            &&& holds(report, "updated"@, JsonView::Array(updated))
            &&& holds(report, "skipped"@, JsonView::Array(skipped))
            &&& holds(report, "cleaned_images"@, JsonView::Array(cleaned))
            &&& updated.len() == run.updated.len()
            &&& skipped.len() == run.skipped.len()
            &&& cleaned.len() == run.cleaned.len()
            &&& forall|i: int|
                0 <= i < updated.len() ==> {
                    let entry = #[trigger] updated[i];
                    &&& holds(entry, "name"@, JsonView::Text(run.updated[i].name))
                    &&& holds(entry, "status"@, JsonView::Text("任务已创建"@))
                    &&& match run.updated[i].progress {
                        Some(progress) => holds(entry, "progress"@, JsonView::Text(progress)),
                        None => !has_field(entry, "progress"@),
                    }
                }
            &&& forall|i: int|
                0 <= i < skipped.len() ==> {
                    let entry = #[trigger] skipped[i];
                    &&& holds(entry, "name"@, JsonView::Text(run.skipped[i].name))
                    &&& holds(entry, "reason"@, JsonView::Text(run.skipped[i].reason))
                }
            &&& forall|i: int|
                0 <= i < cleaned.len() ==> #[trigger] cleaned[i] == JsonView::Text(run.cleaned[i])
            &&& holds(
                result,
                "notice"@,
                JsonView::Text(
                    "自动更新完成：创建 "@ + decimal(run.updated.len()) + " 个任务，跳过 "@ + decimal(
                        run.skipped.len(),
                    ) + " 个容器"@ + (if detail.len() == 0 {
                        Seq::empty()
                    } else {
                        "（"@ + detail + "）"@
                    }) + "，清理 "@ + decimal(run.cleaned.len()) + " 个镜像。"@,
                ),
            )
        }),
{
    reveal_strlit("notice");
    reveal_strlit("report");
    assert("notice"@[0] != "report"@[0]);
    reveal_strlit("cleaned_images");
    reveal_strlit("updated");
    reveal_strlit("skipped");
    assert("cleaned_images"@.len() == 14 && "updated"@.len() == 7 && "skipped"@.len() == 7);
    assert("updated"@[0] != "skipped"@[0]);
    reveal_strlit("name");
    reveal_strlit("status");
    reveal_strlit("reason");
    reveal_strlit("progress");
    assert("name"@.len() == 4 && "status"@.len() == 6 && "reason"@.len() == 6 && "progress"@.len()
        == 8);
    let all = run.skipped.map_values(|s: SkippedView| s.name);
    assert(names =~= all.take(if all.len() < 5 { all.len() as int } else { 5 }));
}

/// The containers with an update that a check reports, as it reports them.
pub open spec fn updates_in(result: JsonView) -> Seq<JsonView> {
    result->Object_0["report"@]->Object_0["updates"@]->Array_0
}

/// A check of one container reports it exactly where it has an update and is chosen,
/// or nothing is chosen: with its name, image, status, running time and time of
/// creation.
pub proof fn law_one_checked_container(
    container: JsonView,
    selected: Seq<Seq<char>>,
    name: Seq<char>,
    image: Seq<char>,
    status: Seq<char>,
    running: Seq<char>,
    created: Seq<char>,
)
    requires
        tells(container, "name"@, name),
        tells(container, "usingImage"@, image),
        tells(container, "status"@, status),
        tells(container, "runningTime"@, running),
        tells(container, "createTime"@, created),
    ensures
        ({
            let updates = updates_in(check_result(seq![container], selected));
            let told = holds(container, "haveUpdate"@, JsonView::Bool(true)) && (selected.len() == 0
                || selected.contains(name));
            &&& !told ==> updates == Seq::<JsonView>::empty()
            &&& told ==> updates.len() == 1 && holds(updates[0], "name"@, JsonView::Text(name))
                && holds(updates[0], "image"@, JsonView::Text(image)) && holds(
                updates[0],
                "status"@,
                JsonView::Text(status),
            ) && holds(updates[0], "running_time"@, JsonView::Text(running)) && holds(
                updates[0],
                "created_at"@,
                JsonView::Text(created),
            )
        }),
{
    lemma_check_keys();
    law_field_text(container, "name"@, name);
    law_field_text(container, "usingImage"@, image);
    law_field_text(container, "status"@, status);
    law_field_text(container, "runningTime"@, running);
    law_field_text(container, "createTime"@, created);
    reveal_with_fuel(Seq::filter_map, 2);
    assert(seq![container].drop_last() =~= Seq::empty());
    reveal_strlit("name");
    reveal_strlit("image");
    reveal_strlit("status");
    reveal_strlit("running_time");
    reveal_strlit("created_at");
    assert("name"@.len() == 4 && "image"@.len() == 5 && "status"@.len() == 6
        && "running_time"@.len() == 12 && "created_at"@.len() == 10);
}

proof fn lemma_check_keys()
    ensures
        "notice"@ != "report"@,
        "checked"@ != "updates"@,
{
    reveal_strlit("notice");
    reveal_strlit("report");
    assert("notice"@[0] != "report"@[0]);
    reveal_strlit("checked");
    reveal_strlit("updates");
    assert("checked"@[0] != "updates"@[0]);
}

/// A check goes through the containers one by one and in order, and counts them all.
pub proof fn law_checks_in_order(a: Seq<JsonView>, b: Seq<JsonView>, selected: Seq<Seq<char>>)
    ensures
        updates_in(check_result(a + b, selected)) == updates_in(check_result(a, selected))
            + updates_in(check_result(b, selected)),
        updates_in(check_result(Seq::empty(), selected)) == Seq::<JsonView>::empty(),
        ({
            let result = check_result(a, selected);
            &&& has_field(result, "report"@)
            &&& holds(
                result->Object_0["report"@],
                "updates"@,
                JsonView::Array(updates_in(result)),
            )
            &&& holds(result->Object_0["report"@], "checked"@, JsonView::Int(a.len() as int))
        }),
{
    lemma_check_keys();
    let f = |c: JsonView|
        if crate::dc::updates::to_report(c, selected) {
            Some(crate::dc::response::summary_of(c))
        } else {
            None
        };
    lemma_filter_map_add(a, b, f);
    assert(Seq::<JsonView>::empty().filter_map(f) =~= Seq::empty());
}

/// The notice of a check agrees with what it reports: it counts the reported
/// containers and names each of them, in order.
pub proof fn law_notice_agrees_with_updates(
    containers: Seq<JsonView>,
    selected: Seq<Seq<char>>,
)
    ensures
        ({
            let result = check_result(containers, selected);
            let updates = updates_in(result);
            let names = updates.map_values(|u: JsonView| u->Object_0["name"@]->Text_0);
            holds(
                result,
                "notice"@,
                JsonView::Text(
                    if updates.len() == 0 {
                        "没有发现可更新的容器。"@
                    } else {
                        "发现 "@ + decimal(updates.len()) + " 个可更新容器："@ + joined(names, "、"@) + "。"@
                    },
                ),
            )
        }),
{
    lemma_check_keys();
    lemma_names_of_updates(containers, selected);
}

proof fn lemma_names_of_updates(containers: Seq<JsonView>, selected: Seq<Seq<char>>)
    ensures
        crate::dc::updates::reported_names(containers, selected) == crate::dc::updates::reported(
            containers,
            selected,
        ).map_values(|u: JsonView| u->Object_0["name"@]->Text_0),
    decreases containers.len(),
{
    let g = |u: JsonView| u->Object_0["name"@]->Text_0;
    let names = crate::dc::updates::reported_names(containers, selected);
    let updates = crate::dc::updates::reported(containers, selected);
    if containers.len() > 0 {
        let shorter = containers.drop_last();
        lemma_names_of_updates(shorter, selected);
        let before = crate::dc::updates::reported(shorter, selected);
        let last = crate::dc::response::summary_of(containers.last());
        reveal_strlit("name");
        reveal_strlit("image");
        reveal_strlit("status");
        reveal_strlit("running_time");
        reveal_strlit("created_at");
        assert("name"@.len() == 4 && "image"@.len() == 5 && "status"@.len() == 6
            && "running_time"@.len() == 12 && "created_at"@.len() == 10);
        assert(g(last) == name_of(containers.last()));
        assert((before + seq![last]).map_values(g) =~= before.map_values(g) + seq![g(last)]);
    }
    assert(names =~= updates.map_values(g));
}

} // verus!
