//! Automatic updates: unused images are cleaned, then the chosen containers that
//! have an update are updated one after the other.
//!
//! A run is a chain of steps. Each step names one request to make, or one thing
//! to do, and holds what continues the run once the reply is there.
use vstd::prelude::*;

use super::progress::{fresh_tracker, pace_in, Pace, TrackStep, Tracker, TrackerView};
use super::response::{
    code_is, containers, has_code, has_update, images, is_in_use, is_untagged, listed_containers,
    listed_images, message, message_of, name, name_of, text, text_at, true_at, untagged,
};
use crate::json::{
    as_text, json_views, member, text_array_view, Json, JsonObject, JsonView,
};
use crate::lists::lemma_filter_map_push;
use crate::names::NameSet;
use crate::settings::{bool_setting, setting_bool};
use crate::text::{begins_with, decimal, decimal_u64, join, joined, same, starts_with, views};

verus! {

/// Whether an image is to be cleaned: no container uses it and it has no valid
/// tag.
pub open spec fn to_clean(image: JsonView) -> bool {
    !true_at(image, "inUsed"@) && untagged(image)
}

/// The ids of the images to be cleaned, in order.
pub open spec fn ids_to_clean(images: Seq<JsonView>) -> Seq<Seq<char>> {
    images.filter_map(
        |image: JsonView|
            if to_clean(image) && text_at(image, "id"@).len() > 0 {
                Some(text_at(image, "id"@))
            } else {
                None
            },
    )
}

/// The ids of the images to be cleaned.
pub fn images_to_clean(images: &Vec<Json>) -> (r: Vec<String>)
    ensures
        views(r@) == ids_to_clean(json_views(images@)),
{
    let mut ids: Vec<String> = Vec::new();
    let ghost all = json_views(images@);
    let ghost f = |image: JsonView|
        if to_clean(image) && text_at(image, "id"@).len() > 0 {
            Some(text_at(image, "id"@))
        } else {
            None
        };
    let mut i: usize = 0;
    assert(all.take(0).filter_map(f) =~= views(ids@));
    while i < images.len()
        invariant
            i <= images@.len(),
            all == json_views(images@),
            f == (|image: JsonView|
                if to_clean(image) && text_at(image, "id"@).len() > 0 {
                    Some(text_at(image, "id"@))
                } else {
                    None
                }),
            views(ids@) == all.take(i as int).filter_map(f),
        decreases images@.len() - i,
    {
        proof {
            lemma_filter_map_push(all, f, i as int);
        }
        let ghost before = views(ids@);
        let image = &images[i];
        if !is_in_use(image) && is_untagged(image) {
            let id = text(image, "id");
            if !id.as_str().is_empty() {
                ids.push(id);
                assert(views(ids@) =~= before.push(id@));
            }
        }
        i = i + 1;
    }
    assert(all.take(all.len() as int) =~= all);
    ids
}

/// What is to be done about one container that is to be updated.
#[derive(Debug)]
pub enum Task {
    /// It cannot be updated, for the reason given.
    Skip(Skipped),
    /// Its update is to be requested.
    Request { id: String, name: String, image: String },
}

/// A container that was not updated, and why.
#[derive(Debug)]
pub struct Skipped {
    pub name: String,
    pub reason: String,
}

/// A container whose update was begun, and how it went where it was followed.
#[derive(Debug)]
pub struct Updated {
    pub name: String,
    pub progress: Option<String>,
}

#[verifier::ext_equal]
pub struct SkippedView {
    pub name: Seq<char>,
    pub reason: Seq<char>,
}

#[verifier::ext_equal]
pub struct UpdatedView {
    pub name: Seq<char>,
    pub progress: Option<Seq<char>>,
}

pub enum TaskView {
    Skip(SkippedView),
    Request { id: Seq<char>, name: Seq<char>, image: Seq<char> },
}

impl View for Skipped {
    type V = SkippedView;

    open spec fn view(&self) -> SkippedView {
        SkippedView { name: self.name@, reason: self.reason@ }
    }
}

impl View for Updated {
    type V = UpdatedView;

    open spec fn view(&self) -> UpdatedView {
        UpdatedView {
            name: self.name@,
            progress: match self.progress {
                Some(s) => Some(s@),
                None => None,
            },
        }
    }
}

impl View for Task {
    type V = TaskView;

    open spec fn view(&self) -> TaskView {
        match self {
            Task::Skip(skipped) => TaskView::Skip(skipped@),
            Task::Request { id, name, image } => TaskView::Request {
                id: id@,
                name: name@,
                image: image@,
            },
        }
    }
}

/// What is to be done about a container: nothing unless it has an update and was
/// chosen.
pub open spec fn task_of(container: JsonView, selected: Seq<Seq<char>>) -> Option<TaskView> {
    let name = name_of(container);
    let image = text_at(container, "usingImage"@);
    let id = text_at(container, "id"@);
    if !true_at(container, "haveUpdate"@) || !selected.contains(name) {
        None
    } else if image.len() == 0 || begins_with(image, "sha256:"@) {
        Some(
            TaskView::Skip(
                SkippedView {
                    name,
                    reason: "当前镜像没有可用标签，无法通过 Docker Copilot 自动更新"@,
                },
            ),
        )
    } else if id.len() == 0 {
        Some(TaskView::Skip(SkippedView { name, reason: "容器缺少 ID"@ }))
    } else {
        Some(TaskView::Request { id, name, image })
    }
}

/// What is to be done, container by container.
pub open spec fn tasks_of(containers: Seq<JsonView>, selected: Seq<Seq<char>>) -> Seq<TaskView> {
    containers.filter_map(|c: JsonView| task_of(c, selected))
}

/// What each task of a list is.
pub open spec fn task_views(tasks: Seq<Task>) -> Seq<TaskView> {
    tasks.map_values(|t: Task| t@)
}

/// What each entry of a list is.
pub open spec fn skipped_views(list: Seq<Skipped>) -> Seq<SkippedView> {
    list.map_values(|s: Skipped| s@)
}

/// What each entry of a list is.
pub open spec fn updated_views(list: Seq<Updated>) -> Seq<UpdatedView> {
    list.map_values(|u: Updated| u@)
}

/// What is to be done about `container`.
fn plan_container(container: &Json, selected: &NameSet) -> (r: Option<Task>)
    ensures
        match r {
            Some(task) => task_of(container@, selected@) == Some(task@),
            None => task_of(container@, selected@) is None,
        },
{
    let name = name(container);
    if !has_update(container) || !selected.contains(name.as_str()) {
        return None;
    }
    let image = text(container, "usingImage");
    if image.as_str().is_empty() || starts_with(image.as_str(), "sha256:") {
        return Some(
            Task::Skip(
                Skipped {
                    name,
                    reason: "当前镜像没有可用标签，无法通过 Docker Copilot 自动更新".to_owned(),
                },
            ),
        );
    }
    let id = text(container, "id");
    if id.as_str().is_empty() {
        return Some(Task::Skip(Skipped { name, reason: "容器缺少 ID".to_owned() }));
    }
    Some(Task::Request { id, name, image })
}

/// What is to be done about `containers`, of which `selected` were chosen.
pub fn plan_updates(containers: &Vec<Json>, selected: &NameSet) -> (r: Vec<Task>)
    ensures
        task_views(r@) == tasks_of(json_views(containers@), selected@),
{
    let mut tasks: Vec<Task> = Vec::new();
    let ghost all = json_views(containers@);
    let ghost f = |c: JsonView| task_of(c, selected@);
    let mut i: usize = 0;
    assert(all.take(0).filter_map(f) =~= task_views(tasks@));
    while i < containers.len()
        invariant
            i <= containers@.len(),
            all == json_views(containers@),
            f == (|c: JsonView| task_of(c, selected@)),
            task_views(tasks@) == all.take(i as int).filter_map(f),
        decreases containers@.len() - i,
    {
        proof {
            lemma_filter_map_push(all, f, i as int);
        }
        let ghost before = task_views(tasks@);
        match plan_container(&containers[i], selected) {
            Some(task) => {
                tasks.push(task);
                assert(task_views(tasks@) =~= before.push(task@));
            },
            None => {},
        }
        i = i + 1;
    }
    assert(all.take(all.len() as int) =~= all);
    tasks
}

/// How a run follows its update tasks; not at all where there is no pace.
pub open spec fn follow_rule(settings: Map<Seq<char>, JsonView>) -> Option<Pace> {
    if bool_setting(settings, "track_progress"@, true) {
        Some(pace_in(settings))
    } else {
        None
    }
}

/// A run between steps: what is left to clean and to update, and what was done.
#[derive(Debug)]
pub struct Run {
    /// How update tasks are followed; not at all where there is no pace.
    pub follow: Option<Pace>,
    /// The images still to be cleaned.
    pub images: Vec<String>,
    /// What is still to be done about containers.
    pub tasks: Vec<Task>,
    pub cleaned: Vec<String>,
    pub updated: Vec<Updated>,
    pub skipped: Vec<Skipped>,
}

#[verifier::ext_equal]
pub struct RunView {
    pub follow: Option<Pace>,
    pub images: Seq<Seq<char>>,
    pub tasks: Seq<TaskView>,
    pub cleaned: Seq<Seq<char>>,
    pub updated: Seq<UpdatedView>,
    pub skipped: Seq<SkippedView>,
}

impl View for Run {
    type V = RunView;

    open spec fn view(&self) -> RunView {
        RunView {
            follow: self.follow,
            images: views(self.images@),
            tasks: task_views(self.tasks@),
            cleaned: views(self.cleaned@),
            updated: updated_views(self.updated@),
            skipped: skipped_views(self.skipped@),
        }
    }
}

/// A run that has done nothing yet.
pub open spec fn fresh_run(follow: Option<Pace>) -> RunView {
    RunView {
        follow,
        images: Seq::empty(),
        tasks: Seq::empty(),
        cleaned: Seq::empty(),
        updated: Seq::empty(),
        skipped: Seq::empty(),
    }
}

impl RunView {
    /// Whether the pace, where there is one, is moderate.
    pub open spec fn paced(self) -> bool {
        self.follow matches Some(pace) ==> pace.moderate()
    }
}

/// What a run is to do next, and how it goes on.
#[derive(Debug)]
pub enum Step {
    /// Ask `api/images` for the images; go on with `images_listed`.
    ListImages(Run),
    /// Delete `path`; go on with `image_deleted`.
    DeleteImage { path: String, id: String, run: Run },
    /// Load the selection; go on with `selection_loaded`.
    LoadSelection(Run),
    /// Ask `api/containers` for the containers; go on with `containers_listed`.
    ListContainers { selected: NameSet, run: Run },
    /// Post the form fields `containerName` and `imageNameAndTag` to `path`; go
    /// on with `update_requested`.
    RequestUpdate { path: String, name: String, image: String, run: Run },
    /// Ask `path` for the progress; go on with `progress_told`.
    AskProgress { path: String, name: String, tracker: Tracker, run: Run },
    /// Wait that many seconds, then ask `path` for the progress.
    Wait { seconds: u64, path: String, name: String, tracker: Tracker, run: Run },
    /// The run is over, with this result.
    Finish(Json),
    /// The run is over, with this error.
    Fail(String),
}

pub enum StepView {
    ListImages(RunView),
    DeleteImage { path: Seq<char>, id: Seq<char>, run: RunView },
    LoadSelection(RunView),
    ListContainers { selected: Seq<Seq<char>>, run: RunView },
    RequestUpdate { path: Seq<char>, name: Seq<char>, image: Seq<char>, run: RunView },
    AskProgress { path: Seq<char>, name: Seq<char>, tracker: TrackerView, run: RunView },
    Wait { seconds: int, path: Seq<char>, name: Seq<char>, tracker: TrackerView, run: RunView },
    Finish(JsonView),
    Fail(Seq<char>),
}

impl View for Step {
    type V = StepView;

    open spec fn view(&self) -> StepView {
        match self {
            Step::ListImages(run) => StepView::ListImages(run@),
            Step::DeleteImage { path, id, run } => StepView::DeleteImage {
                path: path@,
                id: id@,
                run: run@,
            },
            Step::LoadSelection(run) => StepView::LoadSelection(run@),
            Step::ListContainers { selected, run } => StepView::ListContainers {
                selected: selected@,
                run: run@,
            },
            Step::RequestUpdate { path, name, image, run } => StepView::RequestUpdate {
                path: path@,
                name: name@,
                image: image@,
                run: run@,
            },
            Step::AskProgress { path, name, tracker, run } => StepView::AskProgress {
                path: path@,
                name: name@,
                tracker: tracker@,
                run: run@,
            },
            Step::Wait { seconds, path, name, tracker, run } => StepView::Wait {
                seconds: *seconds as int,
                path: path@,
                name: name@,
                tracker: tracker@,
                run: run@,
            },
            Step::Finish(result) => StepView::Finish(result@),
            Step::Fail(error) => StepView::Fail(error@),
        }
    }
}

/// The first step of a run.
pub open spec fn first_step(settings: Map<Seq<char>, JsonView>) -> StepView {
    let run = fresh_run(follow_rule(settings));
    if bool_setting(settings, "clean_unused_images"@, false) {
        StepView::ListImages(run)
    } else {
        StepView::LoadSelection(run)
    }
}

/// The path under which an image is deleted.
pub open spec fn image_path(id: Seq<char>) -> Seq<char> {
    "api/image/"@ + id + "?force=false"@
}

/// The step with which cleaning goes on: the next image, then the selection.
pub open spec fn clean_step(run: RunView) -> StepView {
    if run.images.len() > 0 {
        StepView::DeleteImage {
            path: image_path(run.images[0]),
            id: run.images[0],
            run: RunView { images: run.images.drop_first(), ..run },
        }
    } else {
        StepView::LoadSelection(run)
    }
}

/// The step after the images were listed.
pub open spec fn after_images(run: RunView, reply: JsonView) -> StepView {
    match listed_images(reply) {
        Ok(images) => clean_step(RunView { images: ids_to_clean(images), ..run }),
        Err(error) => StepView::Fail(error),
    }
}

/// A run after the reply to the deletion of the image `id`.
pub open spec fn run_after_deletion(run: RunView, id: Seq<char>, reply: JsonView) -> RunView {
    if code_is(reply, 200) {
        RunView { cleaned: run.cleaned.push(id), ..run }
    } else {
        run
    }
}

/// The step after the image `id` was deleted.
pub open spec fn after_deletion(run: RunView, id: Seq<char>, reply: JsonView) -> StepView {
    clean_step(run_after_deletion(run, id, reply))
}

/// The result where no container was chosen.
pub open spec fn nothing_chosen(cleaned: Seq<Seq<char>>) -> JsonView {
    JsonView::Object(
        map![
            "notice"@ => JsonView::Text("未设置自动更新容器，未执行更新。"@),
            "report"@ => JsonView::Object(
                map![
                    "cleaned_images"@ => text_array_view(cleaned),
                    "updated"@ => JsonView::Array(Seq::empty()),
                ],
            ),
        ],
    )
}

/// The step after the selection was loaded.
pub open spec fn after_selection(run: RunView, selected: Seq<Seq<char>>) -> StepView {
    if selected.len() == 0 {
        StepView::Finish(nothing_chosen(run.cleaned))
    } else {
        StepView::ListContainers { selected, run }
    }
}

/// The path under which an update is requested.
pub open spec fn update_path(id: Seq<char>) -> Seq<char> {
    "api/container/"@ + id + "/update"@
}

/// The step with which updating goes on: containers that cannot be updated are
/// noted, the next update is requested, and the run ends where none is left.
pub open spec fn update_step(run: RunView) -> StepView
    decreases run.tasks.len(),
{
    if run.tasks.len() == 0 {
        StepView::Finish(result_of(run))
    } else {
        let rest = RunView { tasks: run.tasks.drop_first(), ..run };
        match run.tasks[0] {
            TaskView::Skip(skipped) => update_step(
                RunView { skipped: rest.skipped.push(skipped), ..rest },
            ),
            TaskView::Request { id, name, image } => StepView::RequestUpdate {
                path: update_path(id),
                name,
                image,
                run: rest,
            },
        }
    }
}

/// The step after the containers were listed.
pub open spec fn after_containers(
    run: RunView,
    selected: Seq<Seq<char>>,
    reply: JsonView,
) -> StepView {
    match listed_containers(reply) {
        Ok(containers) => update_step(RunView { tasks: tasks_of(containers, selected), ..run }),
        Err(error) => StepView::Fail(error),
    }
}

/// Whether a reply says that an update task was created.
pub open spec fn says_created(reply: JsonView) -> bool {
    code_is(reply, 200) && message_of(reply) == "success"@
}

/// The task that a reply names.
pub open spec fn task_id_of(reply: JsonView) -> Option<Seq<char>> {
    match member(reply, "data"@) {
        Some(data) => as_text(member(data, "taskID"@)),
        None => None,
    }
}

/// The path under which the progress of a task is told.
pub open spec fn progress_path(task_id: Seq<char>) -> Seq<char> {
    "api/progress/"@ + task_id
}

/// A run with one more updated container.
pub open spec fn with_updated(
    run: RunView,
    name: Seq<char>,
    progress: Option<Seq<char>>,
) -> RunView {
    RunView { updated: run.updated.push(UpdatedView { name, progress }), ..run }
}

/// The step after the update of the container `name` was requested.
pub open spec fn after_request(run: RunView, name: Seq<char>, reply: JsonView) -> StepView {
    if says_created(reply) {
        match (run.follow, task_id_of(reply)) {
            (Some(pace), Some(task_id)) => StepView::AskProgress {
                path: progress_path(task_id),
                name,
                tracker: fresh_tracker(pace),
                run,
            },
            _ => update_step(with_updated(run, name, None)),
        }
    } else {
        update_step(
            RunView {
                skipped: run.skipped.push(SkippedView { name, reason: message_of(reply) }),
                ..run
            },
        )
    }
}

/// The step after the progress of the update of the container `name` was told.
pub open spec fn after_progress(
    run: RunView,
    path: Seq<char>,
    name: Seq<char>,
    tracker: TrackerView,
    reply: JsonView,
) -> StepView {
    if tracker.ends_with(reply) {
        update_step(with_updated(run, name, Some(tracker.after(reply).latest)))
    } else {
        StepView::Wait {
            seconds: tracker.pace.interval as int,
            path,
            name,
            tracker: tracker.after(reply),
            run,
        }
    }
}

/// What is reported of an updated container.
pub open spec fn updated_entry(updated: UpdatedView) -> JsonView {
    let entry = map![
        "name"@ => JsonView::Text(updated.name),
        "status"@ => JsonView::Text("任务已创建"@),
    ];
    match updated.progress {
        Some(progress) => JsonView::Object(entry.insert("progress"@, JsonView::Text(progress))),
        None => JsonView::Object(entry),
    }
}

/// What is reported of a container that was not updated.
pub open spec fn skipped_entry(skipped: SkippedView) -> JsonView {
    JsonView::Object(
        map![
            "name"@ => JsonView::Text(skipped.name),
            "reason"@ => JsonView::Text(skipped.reason),
        ],
    )
}

/// The names of at most five containers that were not updated.
pub open spec fn skipped_detail(skipped: Seq<SkippedView>) -> Seq<char> {
    let names = skipped.map_values(|s: SkippedView| s.name);
    joined(names.take(if names.len() < 5 { names.len() as int } else { 5 }), "、"@)
}

/// The notice of a run.
pub open spec fn notice_of(run: RunView) -> Seq<char> {
    let detail = skipped_detail(run.skipped);
    "自动更新完成：创建 "@ + decimal(run.updated.len()) + " 个任务，跳过 "@ + decimal(
        run.skipped.len(),
    ) + " 个容器"@ + (if detail.len() == 0 {
        Seq::empty()
    } else {
        "（"@ + detail + "）"@
    }) + "，清理 "@ + decimal(run.cleaned.len()) + " 个镜像。"@
}

/// The result of a run.
pub open spec fn result_of(run: RunView) -> JsonView {
    JsonView::Object(
        map![
            "notice"@ => JsonView::Text(notice_of(run)),
            "report"@ => JsonView::Object(
                map![
                    "cleaned_images"@ => text_array_view(run.cleaned),
                    "updated"@ => JsonView::Array(
                        run.updated.map_values(|u: UpdatedView| updated_entry(u)),
                    ),
                    "skipped"@ => JsonView::Array(
                        run.skipped.map_values(|s: SkippedView| skipped_entry(s)),
                    ),
                ],
            ),
        ],
    )
}

/// The result where no container was chosen.
fn finish_unchosen(cleaned: &Vec<String>) -> (r: Json)
    ensures
        r@ == nothing_chosen(views(cleaned@)),
{
    let none: Vec<Json> = Vec::new();
    assert(json_views(none@) =~= Seq::empty());
    Json::Object(
        JsonObject::new().with("notice", Json::text("未设置自动更新容器，未执行更新。")).with(
            "report",
            Json::Object(
                JsonObject::new().with("cleaned_images", Json::text_array(cleaned)).with(
                    "updated",
                    Json::array(none),
                ),
            ),
        ),
    )
}

impl Updated {
    /// What is reported of this container.
    fn entry(&self) -> (r: Json)
        ensures
            r@ == updated_entry(self@),
    {
        let entry = JsonObject::new().with("name", Json::text(self.name.as_str())).with(
            "status",
            Json::text("任务已创建"),
        );
        match &self.progress {
            Some(progress) => Json::Object(entry.with("progress", Json::text(progress.as_str()))),
            None => Json::Object(entry),
        }
    }
}

impl Skipped {
    /// What is reported of this container.
    fn entry(&self) -> (r: Json)
        ensures
            r@ == skipped_entry(self@),
    {
        Json::Object(
            JsonObject::new().with("name", Json::text(self.name.as_str())).with(
                "reason",
                Json::text(self.reason.as_str()),
            ),
        )
    }
}

impl Run {
    /// What is reported of the updated containers.
    fn updated_entries(&self) -> (r: Json)
        ensures
            r@ == JsonView::Array(self@.updated.map_values(|u: UpdatedView| updated_entry(u))),
    {
        let mut list: Vec<Json> = Vec::new();
        let mut i: usize = 0;
        while i < self.updated.len()
            invariant
                i <= self.updated@.len(),
                list@.len() == i,
                forall|k: int|
                    0 <= k < i ==> (#[trigger] list@[k])@ == updated_entry(self.updated@[k]@),
            decreases self.updated@.len() - i,
        {
            list.push(self.updated[i].entry());
            i = i + 1;
        }
        assert(json_views(list@) =~= self@.updated.map_values(|u: UpdatedView| updated_entry(u)));
        Json::array(list)
    }

    /// What is reported of the containers that were not updated.
    fn skipped_entries(&self) -> (r: Json)
        ensures
            r@ == JsonView::Array(self@.skipped.map_values(|s: SkippedView| skipped_entry(s))),
    {
        let mut list: Vec<Json> = Vec::new();
        let mut i: usize = 0;
        while i < self.skipped.len()
            invariant
                i <= self.skipped@.len(),
                list@.len() == i,
                forall|k: int|
                    0 <= k < i ==> (#[trigger] list@[k])@ == skipped_entry(self.skipped@[k]@),
            decreases self.skipped@.len() - i,
        {
            list.push(self.skipped[i].entry());
            i = i + 1;
        }
        assert(json_views(list@) =~= self@.skipped.map_values(|s: SkippedView| skipped_entry(s)));
        Json::array(list)
    }

    /// The names of at most five containers that were not updated.
    fn detail(&self) -> (r: String)
        ensures
            r@ == skipped_detail(self@.skipped),
    {
        let mut names: Vec<String> = Vec::new();
        let mut i: usize = 0;
        while i < self.skipped.len() && i < 5
            invariant
                i <= self.skipped@.len(),
                i <= 5,
                names@.len() == i,
                forall|k: int| 0 <= k < i ==> (#[trigger] names@[k])@ == self.skipped@[k].name@,
            decreases self.skipped@.len() - i,
        {
            names.push(self.skipped[i].name.clone());
            i = i + 1;
        }
        assert(views(names@) =~= self@.skipped.map_values(|s: SkippedView| s.name).take(i as int));
        join(&names, "、")
    }

    /// The notice of this run.
    fn notice(&self) -> (r: String)
        ensures
            r@ == notice_of(self@),
    {
        let detail = self.detail();
        let shown = if detail.as_str().is_empty() {
            String::new()
        } else {
            "（".to_owned().concat(detail.as_str()).concat("）")
        };
        "自动更新完成：创建 ".to_owned().concat(
            decimal_u64(self.updated.len() as u64).as_str(),
        ).concat(" 个任务，跳过 ").concat(decimal_u64(self.skipped.len() as u64).as_str()).concat(
            " 个容器",
        ).concat(shown.as_str()).concat("，清理 ").concat(
            decimal_u64(self.cleaned.len() as u64).as_str(),
        ).concat(" 个镜像。")
    }

    /// The result of this run.
    fn result(&self) -> (r: Json)
        ensures
            r@ == result_of(self@),
    {
        Json::Object(
            JsonObject::new().with("notice", Json::Text(self.notice())).with(
                "report",
                Json::Object(
                    JsonObject::new().with(
                        "cleaned_images",
                        Json::text_array(&self.cleaned),
                    ).with("updated", self.updated_entries()).with(
                        "skipped",
                        self.skipped_entries(),
                    ),
                ),
            ),
        )
    }

    /// The step with which cleaning goes on.
    fn clean(self) -> (r: Step)
        ensures
            r@ == clean_step(self@),
    {
        let mut run = self;
        if run.images.len() > 0 {
            let ghost before = run@;
            let id = run.images.remove(0);
            let path = "api/image/".to_owned().concat(id.as_str()).concat("?force=false");
            assert(run@.images =~= before.images.drop_first());
            Step::DeleteImage { path, id, run }
        } else {
            Step::LoadSelection(run)
        }
    }

    /// The step with which updating goes on.
    fn update(self) -> (r: Step)
        ensures
            r@ == update_step(self@),
    {
        let mut run = self;
        while run.tasks.len() > 0
            invariant
                update_step(run@) == update_step(self@),
            decreases run.tasks@.len(),
        {
            let ghost before = run@;
            let task = run.tasks.remove(0);
            assert(run@.tasks =~= before.tasks.drop_first());
            match task {
                Task::Skip(skipped) => {
                    run.skipped.push(skipped);
                    assert(run@.skipped =~= before.skipped.push(skipped@));
                    assert(run@ =~= (RunView {
                        tasks: before.tasks.drop_first(),
                        skipped: before.skipped.push(skipped@),
                        ..before
                    }));
                },
                Task::Request { id, name, image } => {
                    let path = "api/container/".to_owned().concat(id.as_str()).concat("/update");
                    assert(run@ =~= (RunView { tasks: before.tasks.drop_first(), ..before }));
                    return Step::RequestUpdate { path, name, image, run };
                },
            }
        }
        Step::Finish(run.result())
    }

    /// This run with one more updated container.
    fn with_updated(self, name: String, progress: Option<String>) -> (r: Run)
        ensures
            r@ == with_updated(
                self@,
                name@,
                match progress {
                    Some(s) => Some(s@),
                    None => None,
                },
            ),
    {
        let mut run = self;
        let entry = Updated { name, progress };
        run.updated.push(entry);
        assert(run@.updated =~= self@.updated.push(entry@));
        run
    }

    /// Goes on after the images were listed.
    pub fn images_listed(self, reply: &Json) -> (r: Step)
        ensures
            r@ == after_images(self@, reply@),
    {
        match images(reply) {
            Ok(list) => {
                let mut run = self;
                run.images = images_to_clean(&list);
                run.clean()
            },
            Err(error) => Step::Fail(error),
        }
    }

    /// Goes on after the image `id` was deleted.
    pub fn image_deleted(self, id: String, reply: &Json) -> (r: Step)
        ensures
            r@ == after_deletion(self@, id@, reply@),
    {
        let mut run = self;
        if has_code(reply, 200) {
            run.cleaned.push(id);
            assert(run@.cleaned =~= self@.cleaned.push(id@));
        }
        run.clean()
    }

    /// Goes on after the selection was loaded, with the containers that are to be
    /// updated automatically.
    pub fn selection_loaded(self, selected: NameSet) -> (r: Step)
        ensures
            r@ == after_selection(self@, selected@),
    {
        if selected.is_empty() {
            Step::Finish(finish_unchosen(&self.cleaned))
        } else {
            Step::ListContainers { selected, run: self }
        }
    }

    /// Goes on after the containers were listed.
    pub fn containers_listed(self, selected: &NameSet, reply: &Json) -> (r: Step)
        ensures
            r@ == after_containers(self@, selected@, reply@),
    {
        match containers(reply) {
            Ok(list) => {
                let mut run = self;
                run.tasks = plan_updates(&list, selected);
                run.update()
            },
            Err(error) => Step::Fail(error),
        }
    }

    /// Goes on after the update of the container `name` was requested.
    pub fn update_requested(self, name: String, reply: &Json) -> (r: Step)
        ensures
            r@ == after_request(self@, name@, reply@),
    {
        let message = message(reply);
        if has_code(reply, 200) && same(message.as_str(), "success") {
            match (self.follow, task_id(reply)) {
                (Some(pace), Some(task_id)) => {
                    let path = "api/progress/".to_owned().concat(task_id);
                    Step::AskProgress { path, name, tracker: Tracker::new(pace), run: self }
                },
                _ => self.with_updated(name, None).update(),
            }
        } else {
            let mut run = self;
            let entry = Skipped { name, reason: message };
            run.skipped.push(entry);
            assert(run@.skipped =~= self@.skipped.push(entry@));
            run.update()
        }
    }

    /// Goes on after the progress of the update of the container `name` was told.
    pub fn progress_told(
        self,
        path: String,
        name: String,
        tracker: Tracker,
        reply: &Json,
    ) -> (r: Step)
        requires
            tracker@.in_progress(),
        ensures
            r@ == after_progress(self@, path@, name@, tracker@, reply@),
    {
        match tracker.observe(reply) {
            TrackStep::Done(text) => self.with_updated(name, Some(text)).update(),
            TrackStep::Wait(next) => Step::Wait {
                seconds: next.pace.interval,
                path,
                name,
                tracker: next,
                run: self,
            },
        }
    }
}

/// The task that a reply names.
fn task_id(reply: &Json) -> (r: Option<&str>)
    ensures
        crate::json::opt_text(r) == task_id_of(reply@),
{
    match reply.get("data") {
        Some(data) => match data.get("taskID") {
            Some(field) => field.as_str(),
            None => None,
        },
        None => None,
    }
}

/// The first step of a run under `settings`.
pub fn auto_update(settings: &JsonObject) -> (r: Step)
    ensures
        r@ == first_step(settings.members()),
{
    let follow = if setting_bool(settings, "track_progress", true) {
        Some(Pace::from_settings(settings))
    } else {
        None
    };
    let run = Run {
        follow,
        images: Vec::new(),
        tasks: Vec::new(),
        cleaned: Vec::new(),
        updated: Vec::new(),
        skipped: Vec::new(),
    };
    assert(run@ =~= fresh_run(follow_rule(settings.members())));
    if setting_bool(settings, "clean_unused_images", false) {
        Step::ListImages(run)
    } else {
        Step::LoadSelection(run)
    }
}

/// Only images that no container uses and that have no valid tag are ever
/// cleaned.
pub proof fn law_only_idle_untagged_images_are_cleaned(images: Seq<JsonView>, id: Seq<char>)
    requires
        ids_to_clean(images).contains(id),
    ensures
        exists|image: JsonView| #[trigger]
            images.contains(image) && !true_at(image, "inUsed"@) && untagged(image) && text_at(
                image,
                "id"@,
            ) == id && id.len() > 0,
{
    let f = |image: JsonView|
        if to_clean(image) && text_at(image, "id"@).len() > 0 {
            Some(text_at(image, "id"@))
        } else {
            None
        };
    images.lemma_filter_map_contains(f, id);
    let image = choose|image: JsonView| #[trigger] images.contains(image) && f(image) == Some(id);
    assert(images.contains(image));
}

/// Only containers that have an update and were chosen get a task, and an update
/// is requested only of one with an id and a tagged image.
pub proof fn law_only_chosen_containers_are_updated(
    containers: Seq<JsonView>,
    selected: Seq<Seq<char>>,
    task: TaskView,
)
    requires
        tasks_of(containers, selected).contains(task),
    ensures
        exists|c: JsonView|
            {
                &&& #[trigger] containers.contains(c)
                &&& true_at(c, "haveUpdate"@)
                &&& selected.contains(name_of(c))
                &&& match task {
                    TaskView::Skip(skipped) => skipped.name == name_of(c),
                    TaskView::Request { id, name, image } => {
                        &&& name == name_of(c)
                        &&& id == text_at(c, "id"@) && id.len() > 0
                        &&& image == text_at(c, "usingImage"@) && image.len() > 0
                        &&& !begins_with(image, "sha256:"@)
                    },
                }
            },
{
    let f = |c: JsonView| task_of(c, selected);
    containers.lemma_filter_map_contains(f, task);
    let c = choose|c: JsonView| #[trigger] containers.contains(c) && f(c) == Some(task);
    assert(containers.contains(c));
}

/// With no container chosen, a run ends without asking for the containers.
pub proof fn law_no_choice_no_update(run: RunView)
    ensures
        after_selection(run, Seq::empty()) == StepView::Finish(nothing_chosen(run.cleaned)),
{
}

/// The ids whose deletion was answered with the code of success.
pub open spec fn deleted(ids: Seq<Seq<char>>, replies: Seq<JsonView>) -> Seq<Seq<char>>
    decreases ids.len(),
{
    if ids.len() == 0 || replies.len() == 0 {
        Seq::empty()
    } else if code_is(replies[0], 200) {
        seq![ids[0]] + deleted(ids.drop_first(), replies.drop_first())
    } else {
        deleted(ids.drop_first(), replies.drop_first())
    }
}

/// Where a run stands after `replies` to its deletions.
pub open spec fn cleaned_through(step: StepView, replies: Seq<JsonView>) -> StepView
    decreases replies.len(),
{
    match step {
        StepView::DeleteImage { path, id, run } => if replies.len() > 0 {
            cleaned_through(after_deletion(run, id, replies[0]), replies.drop_first())
        } else {
            step
        },
        _ => step,
    }
}

/// Cleaning asks for each image once, in order; it reports those whose deletion
/// was answered with the code of success, and then goes on to the selection.
pub proof fn law_cleaning_reports_the_deleted(run: RunView, replies: Seq<JsonView>)
    requires
        replies.len() == run.images.len(),
    ensures
        cleaned_through(clean_step(run), replies) == StepView::LoadSelection(
            RunView {
                images: Seq::empty(),
                cleaned: run.cleaned + deleted(run.images, replies),
                ..run
            },
        ),
    decreases replies.len(),
{
    if replies.len() == 0 {
        assert(run.images =~= Seq::empty());
        assert(run.cleaned + deleted(run.images, replies) =~= run.cleaned);
    } else {
        let id = run.images[0];
        let rest = RunView { images: run.images.drop_first(), ..run };
        let next = run_after_deletion(rest, id, replies[0]);
        law_cleaning_reports_the_deleted(next, replies.drop_first());
        assert(next.cleaned + deleted(next.images, replies.drop_first()) =~= run.cleaned + deleted(
            run.images,
            replies,
        ));
    }
}

/// The containers of a run that are settled or still to be settled.
pub open spec fn account(run: RunView) -> nat {
    run.tasks.len() + run.updated.len() + run.skipped.len()
}

/// Whether `last` is `run` at its end: nothing is left to do, and each task was
/// noted as updated or as skipped.
pub open spec fn settles(run: RunView, last: RunView) -> bool {
    &&& last.tasks.len() == 0
    &&& account(last) == account(run)
    &&& last.updated == run.updated
    &&& last.cleaned == run.cleaned
    &&& run.skipped.is_prefix_of(last.skipped)
}

/// No container is lost: a run goes on with the one that it requests taken out
/// of the account, or ends with every task noted as updated or as skipped.
pub proof fn law_update_step_loses_no_container(run: RunView)
    ensures
        match update_step(run) {
            StepView::RequestUpdate { path, name, image, run: rest } => account(rest) + 1
                == account(run) && rest.updated == run.updated && run.skipped.is_prefix_of(
                rest.skipped,
            ),
            StepView::Finish(result) => exists|last: RunView|
                result == #[trigger] result_of(last) && settles(run, last),
            _ => false,
        },
    decreases run.tasks.len(),
{
    if run.tasks.len() == 0 {
        assert(settles(run, run));
    } else {
        match run.tasks[0] {
            TaskView::Skip(skipped) => {
                let next = RunView {
                    tasks: run.tasks.drop_first(),
                    skipped: run.skipped.push(skipped),
                    ..run
                };
                law_update_step_loses_no_container(next);
                match update_step(next) {
                    StepView::RequestUpdate { path, name, image, run: rest } => {
                        assert(run.skipped.is_prefix_of(rest.skipped));
                    },
                    StepView::Finish(result) => {
                        let last = choose|last: RunView|
                            result == #[trigger] result_of(last) && settles(next, last);
                        assert(run.skipped.is_prefix_of(last.skipped));
                        assert(settles(run, last));
                    },
                    _ => {},
                }
            },
            TaskView::Request { id, name, image } => {},
        }
    }
}

/// Whether `n` containers are accounted for at a step of the updating part: in
/// the run, or in the report that ends it.
pub open spec fn accounts_for(step: StepView, n: nat) -> bool {
    match step {
        StepView::RequestUpdate { path, name, image, run } => account(run) + 1 == n,
        StepView::AskProgress { path, name, tracker, run } => account(run) + 1 == n,
        StepView::Wait { seconds, path, name, tracker, run } => account(run) + 1 == n,
        StepView::Finish(result) => exists|last: RunView|
            result == #[trigger] result_of(last) && last.updated.len() + last.skipped.len() == n,
        _ => false,
    }
}

/// Where a run stands after `replies` to its update and progress requests.
pub open spec fn updated_through(step: StepView, replies: Seq<JsonView>) -> StepView
    decreases replies.len(),
{
    if replies.len() == 0 {
        step
    } else {
        let rest = replies.drop_first();
        match step {
            StepView::RequestUpdate { path, name, image, run } => updated_through(
                after_request(run, name, replies[0]),
                rest,
            ),
            StepView::AskProgress { path, name, tracker, run } => updated_through(
                after_progress(run, path, name, tracker, replies[0]),
                rest,
            ),
            StepView::Wait { seconds, path, name, tracker, run } => updated_through(
                after_progress(run, path, name, tracker, replies[0]),
                rest,
            ),
            _ => step,
        }
    }
}

proof fn lemma_update_step_accounts(run: RunView)
    ensures
        accounts_for(update_step(run), account(run)),
{
    law_update_step_loses_no_container(run);
    match update_step(run) {
        StepView::Finish(result) => {
            let last = choose|last: RunView|
                result == #[trigger] result_of(last) && settles(run, last);
            assert(last.updated.len() + last.skipped.len() == account(run));
        },
        _ => {},
    }
}

/// However the requests of a run are answered, as many containers as got a task
/// are accounted for at every step, and are reported when the run ends.
pub proof fn law_every_task_is_accounted_for(run: RunView, replies: Seq<JsonView>)
    ensures
        accounts_for(updated_through(update_step(run), replies), account(run)),
{
    lemma_update_step_accounts(run);
    lemma_account_kept(update_step(run), replies, account(run));
}

proof fn lemma_account_kept(step: StepView, replies: Seq<JsonView>, n: nat)
    requires
        accounts_for(step, n),
    ensures
        accounts_for(updated_through(step, replies), n),
    decreases replies.len(),
{
    if replies.len() > 0 {
        let reply = replies[0];
        let rest = replies.drop_first();
        match step {
            StepView::RequestUpdate { path, name, image, run } => {
                let skipped = RunView {
                    skipped: run.skipped.push(SkippedView { name, reason: message_of(reply) }),
                    ..run
                };
                lemma_update_step_accounts(with_updated(run, name, None));
                lemma_update_step_accounts(skipped);
                lemma_account_kept(after_request(run, name, reply), rest, n);
            },
            StepView::AskProgress { path, name, tracker, run } => {
                lemma_update_step_accounts(
                    with_updated(run, name, Some(tracker.after(reply).latest)),
                );
                lemma_account_kept(after_progress(run, path, name, tracker, reply), rest, n);
            },
            StepView::Wait { seconds, path, name, tracker, run } => {
                lemma_update_step_accounts(
                    with_updated(run, name, Some(tracker.after(reply).latest)),
                );
                lemma_account_kept(after_progress(run, path, name, tracker, reply), rest, n);
            },
            _ => {},
        }
    }
}

/// The container that a task is about.
pub open spec fn task_name(task: TaskView) -> Seq<char> {
    match task {
        TaskView::Skip(skipped) => skipped.name,
        TaskView::Request { id, name, image } => name,
    }
}

/// The replies that answered update requests, in the order of the requests, among
/// `replies` to a run at `step`.
pub open spec fn request_replies(step: StepView, replies: Seq<JsonView>) -> Seq<JsonView>
    decreases replies.len(),
{
    if replies.len() == 0 {
        Seq::empty()
    } else {
        let rest = replies.drop_first();
        match step {
            StepView::RequestUpdate { path, name, image, run } => seq![replies[0]]
                + request_replies(after_request(run, name, replies[0]), rest),
            StepView::AskProgress { path, name, tracker, run } => request_replies(
                after_progress(run, path, name, tracker, replies[0]),
                rest,
            ),
            StepView::Wait { seconds, path, name, tracker, run } => request_replies(
                after_progress(run, path, name, tracker, replies[0]),
                rest,
            ),
            _ => Seq::empty(),
        }
    }
}

/// The marks of tasks, given the replies to their requests: a task is marked
/// exactly where its update was requested and the reply says that an update task
/// was created. There is a mark for each task up to the first whose request has
/// no reply.
pub open spec fn marks_of(tasks: Seq<TaskView>, answers: Seq<JsonView>) -> Seq<bool>
    decreases tasks.len(),
{
    if tasks.len() == 0 {
        Seq::empty()
    } else {
        match tasks[0] {
            TaskView::Skip(skipped) => seq![false] + marks_of(tasks.drop_first(), answers),
            TaskView::Request { id, name, image } => if answers.len() == 0 {
                Seq::empty()
            } else {
                seq![says_created(answers[0])] + marks_of(
                    tasks.drop_first(),
                    answers.drop_first(),
                )
            },
        }
    }
}

/// The names of the tasks with this mark, in order.
pub open spec fn names_marked(tasks: Seq<TaskView>, marks: Seq<bool>, mark: bool) -> Seq<Seq<char>>
    decreases tasks.len(),
{
    if tasks.len() == 0 || marks.len() == 0 {
        Seq::empty()
    } else {
        let rest = names_marked(tasks.drop_first(), marks.drop_first(), mark);
        if marks[0] == mark {
            seq![task_name(tasks[0])] + rest
        } else {
            rest
        }
    }
}

/// The names of the containers whose update was begun.
pub open spec fn updated_names(run: RunView) -> Seq<Seq<char>> {
    run.updated.map_values(|u: UpdatedView| u.name)
}

/// The names of the containers that were not updated.
pub open spec fn skipped_names(run: RunView) -> Seq<Seq<char>> {
    run.skipped.map_values(|s: SkippedView| s.name)
}

/// Whether `last` is `run` at its end: there is a mark for each task, the marked
/// ones were added to the updated containers and the others to the skipped ones,
/// each once and in order, and what was cleaned stays.
pub open spec fn reports_each(run: RunView, last: RunView, answers: Seq<JsonView>) -> bool {
    let marks = marks_of(run.tasks, answers);
    &&& marks.len() == run.tasks.len()
    &&& updated_names(last) == updated_names(run) + names_marked(run.tasks, marks, true)
    &&& skipped_names(last) == skipped_names(run) + names_marked(run.tasks, marks, false)
    &&& last.cleaned == run.cleaned
}

/// Whether a run that comes to `end` has reported each task of `run` by then.
pub open spec fn ends_reporting(run: RunView, end: StepView, answers: Seq<JsonView>) -> bool {
    end matches StepView::Finish(result) ==> exists|last: RunView|
        result == #[trigger] result_of(last) && reports_each(run, last, answers)
}

/// What `run` reports at its end, given what it reports at its end with its first
/// task settled: marked, where `mark` is set, or not.
proof fn lemma_first_task_reported(
    run: RunView,
    next: RunView,
    mark: bool,
    end: StepView,
    answers: Seq<JsonView>,
    later: Seq<JsonView>,
)
    requires
        run.tasks.len() > 0,
        next.tasks == run.tasks.drop_first(),
        next.cleaned == run.cleaned,
        updated_names(next) == if mark {
            updated_names(run).push(task_name(run.tasks[0]))
        } else {
            updated_names(run)
        },
        skipped_names(next) == if mark {
            skipped_names(run)
        } else {
            skipped_names(run).push(task_name(run.tasks[0]))
        },
        marks_of(run.tasks, answers) == seq![mark] + marks_of(next.tasks, later),
        ends_reporting(next, end, later),
    ensures
        ends_reporting(run, end, answers),
{
    if let StepView::Finish(result) = end {
        let last = choose|last: RunView|
            result == #[trigger] result_of(last) && reports_each(next, last, later);
        let name = task_name(run.tasks[0]);
        let marks = marks_of(run.tasks, answers);
        let rest = marks_of(next.tasks, later);
        assert(marks.drop_first() =~= rest);
        assert(marks[0] == mark);
        let updated = names_marked(next.tasks, rest, true);
        let skipped = names_marked(next.tasks, rest, false);
        assert(updated_names(run).push(name) + updated =~= updated_names(run) + (seq![name]
            + updated));
        assert(skipped_names(run).push(name) + skipped =~= skipped_names(run) + (seq![name]
            + skipped));
        assert(reports_each(run, last, answers));
    }
}

/// However the requests of a run are answered, each container that got a task is
/// reported once when the run ends: as updated where the reply to its request says
/// that an update task was created, else as skipped, in the order of the tasks.
pub proof fn law_every_task_is_reported(run: RunView, replies: Seq<JsonView>)
    ensures
        ends_reporting(
            run,
            updated_through(update_step(run), replies),
            request_replies(update_step(run), replies),
        ),
    decreases replies.len(), run.tasks.len(), 1int,
{
    let step = update_step(run);
    let end = updated_through(step, replies);
    let answers = request_replies(step, replies);
    if run.tasks.len() == 0 {
        assert(names_marked(run.tasks, marks_of(run.tasks, answers), true) =~= Seq::empty());
        assert(updated_names(run) + Seq::empty() =~= updated_names(run));
        assert(skipped_names(run) + Seq::empty() =~= skipped_names(run));
        assert(reports_each(run, run, answers));
    } else {
        let rest = RunView { tasks: run.tasks.drop_first(), ..run };
        match run.tasks[0] {
            TaskView::Skip(skipped) => {
                let next = RunView { skipped: rest.skipped.push(skipped), ..rest };
                law_every_task_is_reported(next, replies);
                assert(skipped_names(next) =~= skipped_names(run).push(skipped.name));
                lemma_first_task_reported(run, next, false, end, answers, answers);
            },
            TaskView::Request { id, name, image } => {
                if replies.len() > 0 {
                    lemma_request_reported(run, replies);
                }
            },
        }
    }
}

proof fn lemma_request_reported(run: RunView, replies: Seq<JsonView>)
    requires
        run.tasks.len() > 0,
        run.tasks[0] is Request,
        replies.len() > 0,
    ensures
        ends_reporting(
            run,
            updated_through(update_step(run), replies),
            request_replies(update_step(run), replies),
        ),
    decreases replies.len(), run.tasks.len(), 0int,
{
    let name = task_name(run.tasks[0]);
    let rest = RunView { tasks: run.tasks.drop_first(), ..run };
    let reply = replies[0];
    let others = replies.drop_first();
    let end = updated_through(update_step(run), replies);
    let answers = request_replies(update_step(run), replies);
    let later = request_replies(after_request(rest, name, reply), others);
    assert(answers == seq![reply] + later);
    assert(answers.drop_first() =~= later);
    if says_created(reply) {
        let next = with_updated(rest, name, None);
        assert(updated_names(next) =~= updated_names(run).push(name));
        match (rest.follow, task_id_of(reply)) {
            (Some(pace), Some(task_id)) => {
                lemma_following_reported(
                    rest,
                    progress_path(task_id),
                    name,
                    fresh_tracker(pace),
                    after_request(rest, name, reply),
                    others,
                );
            },
            _ => {
                law_every_task_is_reported(next, others);
            },
        }
        lemma_first_task_reported(run, next, true, end, answers, later);
    } else {
        let next = RunView {
            skipped: rest.skipped.push(SkippedView { name, reason: message_of(reply) }),
            ..rest
        };
        assert(skipped_names(next) =~= skipped_names(run).push(name));
        law_every_task_is_reported(next, others);
        lemma_first_task_reported(run, next, false, end, answers, later);
    }
}

/// A run that follows the update of `name` reports as if that was updated.
proof fn lemma_following_reported(
    run: RunView,
    path: Seq<char>,
    name: Seq<char>,
    tracker: TrackerView,
    step: StepView,
    replies: Seq<JsonView>,
)
    requires
        step == (StepView::AskProgress { path, name, tracker, run }) || exists|seconds: int|
            step == (StepView::Wait { seconds, path, name, tracker, run }),
    ensures
        ends_reporting(
            with_updated(run, name, None),
            updated_through(step, replies),
            request_replies(step, replies),
        ),
    decreases replies.len(), run.tasks.len(), 0int,
{
    if replies.len() > 0 {
        let reply = replies[0];
        let rest = replies.drop_first();
        let after = after_progress(run, path, name, tracker, reply);
        if tracker.ends_with(reply) {
            let noted = with_updated(run, name, Some(tracker.after(reply).latest));
            law_every_task_is_reported(noted, rest);
            assert(updated_names(noted) =~= updated_names(with_updated(run, name, None)));
            let end = updated_through(after, rest);
            if let StepView::Finish(result) = end {
                let answers = request_replies(after, rest);
                let last = choose|last: RunView|
                    result == #[trigger] result_of(last) && reports_each(noted, last, answers);
                assert(reports_each(with_updated(run, name, None), last, answers));
            }
        } else {
            lemma_following_reported(run, path, name, tracker.after(reply), after, rest);
        }
    }
}

/// Whether every task of a run is about a chosen container.
pub open spec fn within_choice(run: RunView, selected: Seq<Seq<char>>) -> bool {
    forall|i: int|
        0 <= i < run.tasks.len() ==> selected.contains(task_name(#[trigger] run.tasks[i]))
}

/// Whether a step updates a chosen container, and so will those that follow it.
pub open spec fn updates_chosen(step: StepView, selected: Seq<Seq<char>>) -> bool {
    match step {
        StepView::RequestUpdate { path, name, image, run } => selected.contains(name)
            && within_choice(run, selected),
        StepView::AskProgress { path, name, tracker, run } => within_choice(run, selected),
        StepView::Wait { seconds, path, name, tracker, run } => within_choice(run, selected),
        _ => true,
    }
}

proof fn lemma_update_step_chosen(run: RunView, selected: Seq<Seq<char>>)
    requires
        within_choice(run, selected),
    ensures
        updates_chosen(update_step(run), selected),
    decreases run.tasks.len(),
{
    if run.tasks.len() > 0 {
        let rest = RunView { tasks: run.tasks.drop_first(), ..run };
        assert forall|i: int| 0 <= i < rest.tasks.len() implies selected.contains(
            task_name(#[trigger] rest.tasks[i]),
        ) by {
            assert(rest.tasks[i] == run.tasks[i + 1]);
        }
        assert(selected.contains(task_name(run.tasks[0])));
        match run.tasks[0] {
            TaskView::Skip(skipped) => {
                lemma_update_step_chosen(
                    RunView { skipped: rest.skipped.push(skipped), ..rest },
                    selected,
                );
            },
            TaskView::Request { id, name, image } => {},
        }
    }
}

proof fn lemma_steps_chosen(step: StepView, replies: Seq<JsonView>, selected: Seq<Seq<char>>)
    requires
        updates_chosen(step, selected),
    ensures
        updates_chosen(updated_through(step, replies), selected),
    decreases replies.len(),
{
    if replies.len() > 0 {
        let reply = replies[0];
        let rest = replies.drop_first();
        match step {
            StepView::RequestUpdate { path, name, image, run } => {
                let skipped = RunView {
                    skipped: run.skipped.push(SkippedView { name, reason: message_of(reply) }),
                    ..run
                };
                lemma_update_step_chosen(with_updated(run, name, None), selected);
                lemma_update_step_chosen(skipped, selected);
                lemma_steps_chosen(after_request(run, name, reply), rest, selected);
            },
            StepView::AskProgress { path, name, tracker, run } => {
                lemma_update_step_chosen(
                    with_updated(run, name, Some(tracker.after(reply).latest)),
                    selected,
                );
                lemma_steps_chosen(
                    after_progress(run, path, name, tracker, reply),
                    rest,
                    selected,
                );
            },
            StepView::Wait { seconds, path, name, tracker, run } => {
                lemma_update_step_chosen(
                    with_updated(run, name, Some(tracker.after(reply).latest)),
                    selected,
                );
                lemma_steps_chosen(
                    after_progress(run, path, name, tracker, reply),
                    rest,
                    selected,
                );
            },
            _ => {},
        }
    }
}

/// Whatever the containers and however the requests are answered, an update is
/// only ever requested of a chosen container.
pub proof fn law_run_updates_only_the_chosen(
    run: RunView,
    selected: Seq<Seq<char>>,
    listed: JsonView,
    replies: Seq<JsonView>,
)
    ensures
        updated_through(after_containers(run, selected, listed), replies) matches
            StepView::RequestUpdate { path: _, name, image: _, run: _ } ==> selected.contains(name),
{
    match listed_containers(listed) {
        Ok(containers) => {
            let planned = RunView { tasks: tasks_of(containers, selected), ..run };
            assert forall|i: int| 0 <= i < planned.tasks.len() implies selected.contains(
                task_name(#[trigger] planned.tasks[i]),
            ) by {
                assert(planned.tasks.contains(planned.tasks[i]));
                law_only_chosen_containers_are_updated(containers, selected, planned.tasks[i]);
            }
            lemma_update_step_chosen(planned, selected);
            lemma_steps_chosen(update_step(planned), replies, selected);
        },
        Err(_) => {},
    }
}

/// Whether a step deletes one of the images `ids`, and so will those that follow
/// it.
pub open spec fn deletes_among(step: StepView, ids: Seq<Seq<char>>) -> bool {
    step matches StepView::DeleteImage { path, id, run } ==> {
        &&& ids.contains(id)
        &&& path == image_path(id)
        &&& forall|i: int| 0 <= i < run.images.len() ==> ids.contains(#[trigger] run.images[i])
    }
}

proof fn lemma_deletes_among(step: StepView, replies: Seq<JsonView>, ids: Seq<Seq<char>>)
    requires
        deletes_among(step, ids),
    ensures
        deletes_among(cleaned_through(step, replies), ids),
    decreases replies.len(),
{
    match step {
        StepView::DeleteImage { path, id, run } => {
            if replies.len() > 0 {
                let next = run_after_deletion(run, id, replies[0]);
                if next.images.len() > 0 {
                    assert(ids.contains(next.images[0]));
                }
                lemma_deletes_among(clean_step(next), replies.drop_first(), ids);
            }
        },
        _ => {},
    }
}

/// Whatever the images and however the requests are answered, an image is only
/// ever deleted if no container uses it and it has no valid tag.
pub proof fn law_run_deletes_only_idle_untagged_images(
    run: RunView,
    listed: JsonView,
    replies: Seq<JsonView>,
)
    ensures
        cleaned_through(after_images(run, listed), replies) matches StepView::DeleteImage {
            path,
            id,
            run: _,
        } ==> path == image_path(id) && (listed_images(listed) matches Ok(images)
            && exists|image: JsonView| #[trigger]
            images.contains(image) && !true_at(image, "inUsed"@) && untagged(image) && text_at(
                image,
                "id"@,
            ) == id && id.len() > 0),
{
    match listed_images(listed) {
        Ok(images) => {
            let ids = ids_to_clean(images);
            let start = RunView { images: ids, ..run };
            if ids.len() > 0 {
                assert(ids.contains(ids[0]));
            }
            lemma_deletes_among(clean_step(start), replies, ids);
            match cleaned_through(clean_step(start), replies) {
                StepView::DeleteImage { path, id, run: _ } => {
                    law_only_idle_untagged_images_are_cleaned(images, id);
                },
                _ => {},
            }
        },
        Err(_) => {},
    }
}

/// Whether a step keeps to the pace: progress is asked for only while attempts
/// are left, and a wait lasts one second to five minutes.
pub open spec fn keeps_pace(step: StepView) -> bool {
    match step {
        StepView::ListImages(run) => run.paced(),
        StepView::DeleteImage { path, id, run } => run.paced(),
        StepView::LoadSelection(run) => run.paced(),
        StepView::ListContainers { selected, run } => run.paced(),
        StepView::RequestUpdate { path, name, image, run } => run.paced(),
        StepView::AskProgress { path, name, tracker, run } => run.paced() && tracker.in_progress(),
        StepView::Wait { seconds, path, name, tracker, run } => run.paced()
            && tracker.in_progress() && 1 <= seconds <= 300,
        StepView::Finish(_) => true,
        StepView::Fail(_) => true,
    }
}

proof fn lemma_update_step_keeps_pace(run: RunView)
    requires
        run.paced(),
    ensures
        keeps_pace(update_step(run)),
    decreases run.tasks.len(),
{
    if run.tasks.len() > 0 {
        match run.tasks[0] {
            TaskView::Skip(skipped) => {
                lemma_update_step_keeps_pace(
                    RunView {
                        tasks: run.tasks.drop_first(),
                        skipped: run.skipped.push(skipped),
                        ..run
                    },
                );
            },
            TaskView::Request { id, name, image } => {},
        }
    }
}

/// The first step of a run keeps to the pace.
pub proof fn law_first_step_keeps_pace(settings: Map<Seq<char>, JsonView>)
    ensures
        keeps_pace(first_step(settings)),
{
}

/// Whatever the reply to a step that keeps to the pace, so does the step after
/// it.
pub proof fn law_every_step_keeps_pace(
    step: StepView,
    reply: JsonView,
    selection: Seq<Seq<char>>,
)
    requires
        keeps_pace(step),
    ensures
        match step {
            StepView::ListImages(run) => keeps_pace(after_images(run, reply)),
            StepView::DeleteImage { path, id, run } => keeps_pace(after_deletion(run, id, reply)),
            StepView::LoadSelection(run) => keeps_pace(after_selection(run, selection)),
            StepView::ListContainers { selected, run } => keeps_pace(
                after_containers(run, selected, reply),
            ),
            StepView::RequestUpdate { path, name, image, run } => keeps_pace(
                after_request(run, name, reply),
            ),
            StepView::AskProgress { path, name, tracker, run } => keeps_pace(
                after_progress(run, path, name, tracker, reply),
            ),
            StepView::Wait { seconds, path, name, tracker, run } => keeps_pace(
                after_progress(run, path, name, tracker, reply),
            ),
            _ => true,
        },
{
    match step {
        StepView::ListContainers { selected, run } => {
            match listed_containers(reply) {
                Ok(containers) => {
                    lemma_update_step_keeps_pace(
                        RunView { tasks: tasks_of(containers, selected), ..run },
                    );
                },
                Err(_) => {},
            }
        },
        StepView::RequestUpdate { path, name, image, run } => {
            lemma_update_step_keeps_pace(with_updated(run, name, None));
            lemma_update_step_keeps_pace(
                RunView {
                    skipped: run.skipped.push(SkippedView { name, reason: message_of(reply) }),
                    ..run
                },
            );
        },
        StepView::AskProgress { path, name, tracker, run } => {
            lemma_update_step_keeps_pace(
                with_updated(run, name, Some(tracker.after(reply).latest)),
            );
        },
        StepView::Wait { seconds, path, name, tracker, run } => {
            lemma_update_step_keeps_pace(
                with_updated(run, name, Some(tracker.after(reply).latest)),
            );
        },
        _ => {},
    }
}

} // verus!
