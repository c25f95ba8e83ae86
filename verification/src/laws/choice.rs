//! Promises of the DC helper about choices, records, notifications and access.
use vstd::prelude::*;

use super::fields::{has_field, has_text, holds, law_field_text, tells};
use super::text::{
    all_of, is_core, law_drop_leading, law_drop_trailing, law_trimmed_is_the_core,
};
use crate::codec::{json_read, json_written};
use crate::dc::action::{action_named, action_or_error, label_for, Action};
use crate::dc::client::{
    authorisation, base64_url, bearer_read_at, endpoint_at, hmac_sha256, service_in, url_joined,
    url_read, ServiceView,
};
use crate::dc::dashboard::{available_names, chosen, given_name, page};
use crate::dc::history::{failed_with, record_after, record_in, takes_run};
use crate::dc::notify::{
    failure_message, notification_address, request_body, success_message, told_or,
    NotificationView,
};
use crate::dc::response::{listed_containers, network_failure};
use crate::dc::run::{checked, prepared, visited, VisitView};
use crate::dc::selection::{
    kept_name, kept_names, names_at, names_in, record_of, selection_in_force, texts_among,
    SelectionView,
};
use crate::dc::updates::check_result;
use crate::input::parameters_in;
use crate::json::JsonView;
use crate::lists::{lemma_filter_map_add, lemma_filter_map_keeps};
use crate::names::lemma_distinct;
use crate::text::{pieces, trimmed};
use vstd::utf8::encode_utf8;

verus! {

/// Whether `value` lists `name` under `key`: the member is an array that holds a
/// text which is `name` but for white space around it.
pub open spec fn lists(value: JsonView, key: Seq<char>, name: Seq<char>) -> bool {
    &&& name.len() > 0
    &&& has_field(value, key)
    &&& value->Object_0[key] matches JsonView::Array(items)
    &&& exists|i: int|
        0 <= i < items.len() && (#[trigger] items[i]) is Text && is_core(items[i]->Text_0, name)
}

/// Whether a container of the list has that name.
pub open spec fn named_among(containers: Seq<JsonView>, name: Seq<char>) -> bool {
    &&& name.len() > 0
    &&& exists|i: int| 0 <= i < containers.len() && tells(#[trigger] containers[i], "name"@, name)
}

proof fn lemma_kept_names(list: Seq<Seq<char>>, name: Seq<char>)
    ensures
        kept_names(list).contains(name) <==> name.len() > 0 && exists|i: int|
            0 <= i < list.len() && is_core(#[trigger] list[i], name),
        kept_names(list).no_duplicates(),
{
    let f = |s: Seq<char>| kept_name(s);
    let kept = list.filter_map(f);
    lemma_distinct(kept);
    if kept_names(list).contains(name) {
        assert(kept.contains(name));
        list.lemma_filter_map_contains(f, name);
        let s = choose|s: Seq<char>| #[trigger] list.contains(s) && f(s) == Some(name);
        let i = choose|i: int| 0 <= i < list.len() && list[i] == s;
        law_trimmed_is_the_core(s, name);
        assert(is_core(list[i], name));
    }
    if name.len() > 0 && exists|i: int| 0 <= i < list.len() && is_core(#[trigger] list[i], name) {
        let i = choose|i: int| 0 <= i < list.len() && is_core(#[trigger] list[i], name);
        law_trimmed_is_the_core(list[i], name);
        lemma_filter_map_keeps(list, f, i);
        assert(kept.contains(name));
    }
}

proof fn lemma_texts_among(items: Seq<JsonView>, s: Seq<char>)
    ensures
        texts_among(items).contains(s) <==> items.contains(JsonView::Text(s)),
{
    let f = |item: JsonView|
        match item {
            JsonView::Text(s) => Some(s),
            _ => None,
        };
    if texts_among(items).contains(s) {
        items.lemma_filter_map_contains(f, s);
        let item = choose|item: JsonView| #[trigger] items.contains(item) && f(item) == Some(s);
        assert(item == JsonView::Text(s));
    }
    if items.contains(JsonView::Text(s)) {
        let i = choose|i: int| 0 <= i < items.len() && items[i] == JsonView::Text(s);
        lemma_filter_map_keeps(items, f, i);
    }
}

/// The names read from an array are exactly those that it lists, each once.
pub proof fn law_names_are_read(value: JsonView, key: Seq<char>, name: Seq<char>)
    ensures
        names_at(value, key).contains(name) <==> lists(value, key, name),
        names_at(value, key).no_duplicates(),
{
    if has_field(value, key) {
        if let JsonView::Array(items) = value->Object_0[key] {
            let texts = texts_among(items);
            lemma_kept_names(texts, name);
            if names_at(value, key).contains(name) {
                let k = choose|k: int| 0 <= k < texts.len() && is_core(#[trigger] texts[k], name);
                assert(texts.contains(texts[k]));
                lemma_texts_among(items, texts[k]);
                let i = choose|i: int| 0 <= i < items.len() && items[i] == JsonView::Text(texts[k]);
                assert(items[i] is Text && is_core(items[i]->Text_0, name));
            }
            if lists(value, key, name) {
                let i = choose|i: int|
                    0 <= i < items.len() && (#[trigger] items[i]) is Text && is_core(
                        items[i]->Text_0,
                        name,
                    );
                let s = items[i]->Text_0;
                assert(items.contains(JsonView::Text(s)));
                lemma_texts_among(items, s);
                let k = choose|k: int| 0 <= k < texts.len() && texts[k] == s;
                assert(is_core(texts[k], name));
            }
        }
    }
}

/// The names in a text are those between its commas, without the white space around
/// them and without the blank ones, each once.
pub proof fn law_names_between_commas(raw: Seq<char>, name: Seq<char>)
    ensures
        names_in(raw).contains(name) <==> name.len() > 0 && exists|i: int|
            0 <= i < pieces(raw, ',').len() && is_core(#[trigger] pieces(raw, ',')[i], name),
        names_in(raw).no_duplicates(),
{
    lemma_kept_names(pieces(raw, ','), name);
}

proof fn lemma_available(containers: Seq<JsonView>, name: Seq<char>)
    ensures
        available_names(containers).contains(name) <==> named_among(containers, name),
{
    let f = |c: JsonView| given_name(c);
    let given = containers.filter_map(f);
    lemma_distinct(given);
    if available_names(containers).contains(name) {
        assert(given.contains(name));
        containers.lemma_filter_map_contains(f, name);
        let c = choose|c: JsonView| #[trigger] containers.contains(c) && f(c) == Some(name);
        let i = choose|i: int| 0 <= i < containers.len() && containers[i] == c;
        law_field_text(c, "name"@, name);
        assert(tells(containers[i], "name"@, name));
    }
    if named_among(containers, name) {
        let i = choose|i: int|
            0 <= i < containers.len() && tells(#[trigger] containers[i], "name"@, name);
        law_field_text(containers[i], "name"@, name);
        lemma_filter_map_keeps(containers, f, i);
        assert(given.contains(name));
    }
}

proof fn lemma_filtered(list: Seq<Seq<char>>, p: spec_fn(Seq<char>) -> bool, name: Seq<char>)
    requires
        list.no_duplicates(),
    ensures
        list.filter(p).contains(name) <==> list.contains(name) && p(name),
        list.filter(p).no_duplicates(),
    decreases list.len(),
{
    reveal(Seq::filter);
    if list.len() > 0 {
        let shorter = list.drop_last();
        let last = list.last();
        lemma_filtered(shorter, p, name);
        lemma_filtered(shorter, p, last);
        assert(list =~= shorter.push(last));
        assert(!shorter.contains(last));
        if shorter.contains(name) {
            let i = choose|i: int| 0 <= i < shorter.len() && shorter[i] == name;
            assert(list[i] == name);
        }
        if p(last) {
            let before = shorter.filter(p);
            assert(list.filter(p) == before.push(last));
            assert(before.push(last).last() == last);
            if before.contains(name) {
                let k = choose|k: int| 0 <= k < before.len() && before[k] == name;
                assert(before.push(last)[k] == name);
            }
        }
    }
}

/// After a visit that saves, a container is chosen exactly where the payload lists
/// it and there is a container of that name; of each of the two choices this holds
/// by itself. A visit that saves nothing leaves the choice as it was.
pub proof fn law_saved_choice(
    containers: Seq<JsonView>,
    before: SelectionView,
    payload: JsonView,
    name: Seq<char>,
)
    ensures
        ({
            let saving = has_field(payload, "update_containers"@) || has_field(
                payload,
                "auto_update_containers"@,
            );
            let after = chosen(containers, before, payload);
            &&& !saving ==> after == before
            &&& saving ==> {
                &&& after.update_containers.contains(name) <==> lists(
                    payload,
                    "update_containers"@,
                    name,
                ) && named_among(containers, name)
                &&& after.auto_update_containers.contains(name) <==> lists(
                    payload,
                    "auto_update_containers"@,
                    name,
                ) && named_among(containers, name)
                &&& after.update_containers.no_duplicates()
                &&& after.auto_update_containers.no_duplicates()
            }
        }),
{
    let available = available_names(containers);
    let p = |n: Seq<char>| available.contains(n);
    lemma_available(containers, name);
    law_names_are_read(payload, "update_containers"@, name);
    law_names_are_read(payload, "auto_update_containers"@, name);
    lemma_filtered(names_at(payload, "update_containers"@), p, name);
    lemma_filtered(names_at(payload, "auto_update_containers"@), p, name);
}

/// The choice in force is the stored one wherever it is JSON, whatever the settings
/// say; else it is the one that the settings write.
pub proof fn law_choice_in_force(
    settings: Map<Seq<char>, JsonView>,
    stored: Option<Seq<char>>,
    name: Seq<char>,
)
    ensures
        ({
            let choice = selection_in_force(settings, stored);
            match stored {
                Some(text) if json_read(text) is Ok => {
                    let record = json_read(text)->Ok_0;
                    &&& choice.update_containers.contains(name) <==> lists(
                        record,
                        "update_containers"@,
                        name,
                    )
                    &&& choice.auto_update_containers.contains(name) <==> lists(
                        record,
                        "auto_update_containers"@,
                        name,
                    )
                },
                _ => {
                    &&& choice.update_containers.contains(name) <==> written_in(
                        settings,
                        "update_containers"@,
                        name,
                    )
                    &&& choice.auto_update_containers.contains(name) <==> written_in(
                        settings,
                        "auto_update_containers"@,
                        name,
                    )
                },
            }
        }),
{
    if let Some(text) = stored {
        if let Ok(record) = json_read(text) {
            law_names_are_read(record, "update_containers"@, name);
            law_names_are_read(record, "auto_update_containers"@, name);
        }
    }
    lemma_written(settings, "update_containers"@, name);
    lemma_written(settings, "auto_update_containers"@, name);
}

/// Whether the setting `key` is a text that writes `name` between commas.
pub open spec fn written_in(
    settings: Map<Seq<char>, JsonView>,
    key: Seq<char>,
    name: Seq<char>,
) -> bool {
    &&& name.len() > 0
    &&& settings.contains_key(key)
    &&& settings[key] matches JsonView::Text(raw)
    &&& exists|i: int|
        0 <= i < pieces(raw, ',').len() && is_core(#[trigger] pieces(raw, ',')[i], name)
}

proof fn lemma_written(settings: Map<Seq<char>, JsonView>, key: Seq<char>, name: Seq<char>)
    ensures
        names_in(crate::settings::text_setting(settings, key, Seq::empty())).contains(name)
            <==> written_in(settings, key, name),
{
    let raw = crate::settings::text_setting(settings, key, Seq::empty());
    law_names_between_commas(raw, name);
    if !(settings.contains_key(key) && settings[key] is Text) {
        let list = pieces(raw, ',');
        assert(list.len() == 1 && list[0] == Seq::<char>::empty());
        law_trimmed_is_the_core(Seq::empty(), name);
        assert(trimmed(Seq::empty()) =~= Seq::empty());
    }
}

/// What is stored of a choice lists its names under the two keys.
pub proof fn law_stored_choice(selection: SelectionView)
    ensures
        holds(
            record_of(selection),
            "update_containers"@,
            JsonView::Array(
                selection.update_containers.map_values(|s: Seq<char>| JsonView::Text(s)),
            ),
        ),
        holds(
            record_of(selection),
            "auto_update_containers"@,
            JsonView::Array(
                selection.auto_update_containers.map_values(|s: Seq<char>| JsonView::Text(s)),
            ),
        ),
{
    lemma_choice_keys();
}

proof fn lemma_choice_keys()
    ensures
        "update_containers"@ != "auto_update_containers"@,
{
    reveal_strlit("update_containers");
    reveal_strlit("auto_update_containers");
    assert("update_containers"@.len() != "auto_update_containers"@.len());
}

proof fn lemma_page_keys()
    ensures
        "notice"@ != "items"@,
        "notice"@ != "form_options"@,
        "notice"@ != "form_values"@,
        "items"@ != "form_options"@,
        "items"@ != "form_values"@,
        "form_options"@ != "form_values"@,
        "update_containers"@ != "auto_update_containers"@,
{
    lemma_choice_keys();
    reveal_strlit("notice");
    reveal_strlit("items");
    reveal_strlit("form_options");
    reveal_strlit("form_values");
    assert("notice"@.len() == 6 && "items"@.len() == 5 && "form_options"@.len() == 12
        && "form_values"@.len() == 11);
}

/// The entries of a page.
pub open spec fn entries_of(shown: JsonView) -> Seq<JsonView> {
    shown->Object_0["items"@]->Array_0
}

/// The options that a page offers under `key`.
pub open spec fn options_of(shown: JsonView, key: Seq<char>) -> Seq<JsonView> {
    shown->Object_0["form_options"@]->Object_0[key]->Array_0
}

/// A page shows the choice in force under the two keys, and says whether it was
/// saved.
pub proof fn law_page_shows_the_choice(
    containers: Seq<JsonView>,
    selection: SelectionView,
    saving: bool,
)
    ensures
        ({
            let shown = page(containers, selection, saving);
            let values = shown->Object_0["form_values"@];
            &&& has_field(shown, "form_values"@)
            &&& holds(
                values,
                "update_containers"@,
                JsonView::Array(
                    selection.update_containers.map_values(|s: Seq<char>| JsonView::Text(s)),
                ),
            )
            &&& holds(
                values,
                "auto_update_containers"@,
                JsonView::Array(
                    selection.auto_update_containers.map_values(|s: Seq<char>| JsonView::Text(s)),
                ),
            )
            &&& saving ==> holds(shown, "notice"@, JsonView::Text("容器选择已保存。"@))
            &&& !saving ==> holds(
                shown,
                "notice"@,
                JsonView::Text("已从 Docker Copilot 加载容器。"@),
            )
            &&& holds(shown, "items"@, JsonView::Array(entries_of(shown)))
            &&& has_field(shown, "form_options"@)
            &&& holds(
                shown->Object_0["form_options"@],
                "update_containers"@,
                JsonView::Array(options_of(shown, "update_containers"@)),
            )
            &&& holds(
                shown->Object_0["form_options"@],
                "auto_update_containers"@,
                JsonView::Array(options_of(shown, "auto_update_containers"@)),
            )
            &&& options_of(shown, "update_containers"@) == options_of(
                shown,
                "auto_update_containers"@,
            )
        }),
{
    lemma_page_keys();
}

/// A page goes through the containers one by one and in order.
pub proof fn law_page_in_order(
    a: Seq<JsonView>,
    b: Seq<JsonView>,
    selection: SelectionView,
    saving: bool,
)
    ensures
        entries_of(page(a + b, selection, saving)) == entries_of(page(a, selection, saving))
            + entries_of(page(b, selection, saving)),
        options_of(page(a + b, selection, saving), "update_containers"@) == options_of(
            page(a, selection, saving),
            "update_containers"@,
        ) + options_of(page(b, selection, saving), "update_containers"@),
        entries_of(page(Seq::empty(), selection, saving)) == Seq::<JsonView>::empty(),
        options_of(page(Seq::empty(), selection, saving), "update_containers"@) == Seq::<
            JsonView,
        >::empty(),
{
    lemma_page_keys();
    let f = |c: JsonView| crate::dc::dashboard::item_of(c);
    let g = |c: JsonView| crate::dc::dashboard::option_of(c);
    lemma_filter_map_add(a, b, f);
    lemma_filter_map_add(a, b, g);
    assert(Seq::<JsonView>::empty().filter_map(f) =~= Seq::empty());
    assert(Seq::<JsonView>::empty().filter_map(g) =~= Seq::empty());
}

/// A container with a name has one entry and one option on the page; the entry tells
/// its image, status and running time, and whether there is an update. A container
/// without a name has neither.
pub proof fn law_one_container_on_the_page(
    container: JsonView,
    selection: SelectionView,
    saving: bool,
    name: Seq<char>,
    image: Seq<char>,
    status: Seq<char>,
    running: Seq<char>,
)
    requires
        tells(container, "name"@, name),
        tells(container, "usingImage"@, image),
        tells(container, "status"@, status),
        tells(container, "runningTime"@, running),
    ensures
        ({
            let shown = page(seq![container], selection, saving);
            let newer = holds(container, "haveUpdate"@, JsonView::Bool(true));
            &&& name.len() == 0 ==> entries_of(shown).len() == 0 && options_of(
                shown,
                "update_containers"@,
            ).len() == 0
            &&& name.len() > 0 ==> {
                &&& options_of(shown, "update_containers"@) == seq![
                    JsonView::Object(
                        map!["label"@ => JsonView::Text(name), "value"@ => JsonView::Text(name)],
                    ),
                ]
                &&& entries_of(shown) == seq![
                    JsonView::Object(
                        map![
                            "key"@ => JsonView::Text(name),
                            "title"@ => JsonView::Text(name),
                            "subtitle"@ => JsonView::Text(image),
                            "badges"@ => JsonView::Array(
                                seq![
                                    JsonView::Object(
                                        map![
                                            "label"@ => JsonView::Text(
                                                if newer { "可更新"@ } else { "已是最新"@ },
                                            ),
                                            "tone"@ => JsonView::Text(
                                                if newer { "warning"@ } else { "success"@ },
                                            ),
                                        ],
                                    ),
                                ],
                            ),
                            "metadata"@ => JsonView::Array(
                                seq![
                                    JsonView::Object(
                                        map![
                                            "label"@ => JsonView::Text("状态"@),
                                            "value"@ => JsonView::Text(status),
                                        ],
                                    ),
                                    JsonView::Object(
                                        map![
                                            "label"@ => JsonView::Text("运行时长"@),
                                            "value"@ => JsonView::Text(running),
                                        ],
                                    ),
                                ],
                            ),
                        ],
                    ),
                ]
            }
        }),
{
    lemma_page_keys();
    law_field_text(container, "name"@, name);
    law_field_text(container, "usingImage"@, image);
    law_field_text(container, "status"@, status);
    law_field_text(container, "runningTime"@, running);
    reveal_with_fuel(Seq::filter_map, 2);
    assert(seq![container].drop_last() =~= Seq::empty());
}

/// The runs that a record lists.
pub open spec fn runs_in(record: Option<JsonView>) -> Seq<JsonView> {
    match record {
        Some(JsonView::Object(members)) => if members.contains_key("items"@)
            && members["items"@] is Array {
            members["items"@]->Array_0
        } else {
            Seq::empty()
        },
        _ => Seq::empty(),
    }
}

/// The summary that a record holds.
pub open spec fn summary_in(record: Option<JsonView>) -> Map<Seq<char>, JsonView> {
    match record {
        Some(JsonView::Object(members)) => if members.contains_key("summary"@)
            && members["summary"@] is Object {
            members["summary"@]->Object_0
        } else {
            Map::empty()
        },
        _ => Map::empty(),
    }
}

/// The number of runs that a record counts.
pub open spec fn count_in(record: Option<JsonView>) -> int {
    let summary = summary_in(record);
    if summary.contains_key("runs"@) && summary["runs"@] is Int && 0 <= summary["runs"@]->Int_0
        <= u64::MAX {
        summary["runs"@]->Int_0
    } else {
        0
    }
}

/// A run is recorded with its action, its success, its notice and its time, before
/// the runs that were recorded earlier, of which the latest nineteen stay; the
/// summary tells the action and the success of the run, counts one run more, and
/// keeps whatever else it held.
pub proof fn law_runs_are_recorded(
    record: Option<JsonView>,
    action: Seq<char>,
    ok: bool,
    notice: Seq<char>,
    completed_at: int,
    updated_at: int,
)
    ensures
        ({
            let after = record_after(record, action, ok, notice, completed_at, updated_at);
            let runs = runs_in(Some(after));
            let summary = summary_in(Some(after));
            &&& holds(after, "updated_at"@, JsonView::Int(updated_at))
            &&& runs.len() == if runs_in(record).len() < 19 {
                runs_in(record).len() + 1
            } else {
                20
            }
            &&& holds(runs[0], "action"@, JsonView::Text(action))
            &&& holds(runs[0], "ok"@, JsonView::Bool(ok))
            &&& holds(runs[0], "notice"@, JsonView::Text(notice))
            &&& holds(runs[0], "completed_at"@, JsonView::Int(completed_at))
            &&& forall|i: int| 0 < i < runs.len() ==> #[trigger] runs[i] == runs_in(record)[i - 1]
            &&& holds(JsonView::Object(summary), "action"@, JsonView::Text(action))
            &&& holds(JsonView::Object(summary), "ok"@, JsonView::Bool(ok))
            &&& holds(JsonView::Object(summary), "runs"@, JsonView::Int(count_in(record) + 1))
            &&& forall|key: Seq<char>|
                key != "action"@ && key != "ok"@ && key != "runs"@ ==> {
                    &&& #[trigger] summary.contains_key(key) <==> summary_in(record).contains_key(key)
                    &&& summary.contains_key(key) ==> summary[key] == summary_in(record)[key]
                }
        }),
{
    reveal_strlit("updated_at");
    reveal_strlit("summary");
    reveal_strlit("items");
    reveal_strlit("runs");
    reveal_strlit("action");
    reveal_strlit("ok");
    reveal_strlit("notice");
    reveal_strlit("completed_at");
    assert("updated_at"@.len() == 10 && "summary"@.len() == 7 && "items"@.len() == 5);
    assert("action"@.len() == 6 && "ok"@.len() == 2 && "runs"@.len() == 4 && "completed_at"@.len()
        == 12 && "notice"@.len() == 6);
    assert("action"@[0] != "notice"@[0]);
}

/// The label of an action.
pub proof fn law_labels(word: Seq<char>)
    ensures
        word == "check_updates"@ ==> label_for(word) == "检查更新"@,
        word == "auto_update"@ ==> label_for(word) == "自动更新"@,
        word == "backup"@ ==> label_for(word) == "备份容器配置"@,
        word == "dashboard"@ ==> label_for(word) == "容器选择"@,
        word != "check_updates"@ && word != "auto_update"@ && word != "backup"@ && word
            != "dashboard"@ ==> label_for(word) == "未知动作"@ && action_named(word) is None,
        word == "check_updates"@ <==> action_named(word) == Some(Action::CheckUpdates),
        word == "auto_update"@ <==> action_named(word) == Some(Action::AutoUpdate),
        word == "backup"@ <==> action_named(word) == Some(Action::Backup),
        word == "dashboard"@ <==> action_named(word) == Some(Action::Dashboard),
{
    reveal_strlit("dashboard");
    reveal_strlit("check_updates");
    reveal_strlit("auto_update");
    reveal_strlit("backup");
    assert("dashboard"@.len() == 9 && "check_updates"@.len() == 13 && "auto_update"@.len() == 11
        && "backup"@.len() == 6);
}

/// A word is taken for the action that it names; any other is refused and quoted.
pub proof fn law_words_are_taken_for_actions(word: Seq<char>, action: Action)
    ensures
        action_or_error(word) == Ok::<Action, Seq<char>>(action) <==> match action {
            Action::CheckUpdates => word == "check_updates"@,
            Action::AutoUpdate => word == "auto_update"@,
            Action::Backup => word == "backup"@,
            Action::Dashboard => word == "dashboard"@,
        },
        action_or_error(word) matches Err(error) ==> error == "不支持的 DC 助手动作: "@ + word,
{
    law_labels(word);
}

/// The notice of a result is the text that it has for one; else what stands in for it.
pub proof fn law_notices_are_read(result: JsonView, default: Seq<char>)
    ensures
        has_text(result, "notice"@) ==> told_or(result, default)
            == result->Object_0["notice"@]->Text_0,
        !has_text(result, "notice"@) ==> told_or(result, default) == default,
{
}

/// The record of a run that failed ends with the reason, and two reasons never look
/// alike; a request that took too long is told from one that found nobody.
pub proof fn law_failures_are_told_apart(error: Seq<char>, other: Seq<char>)
    ensures
        failed_with(error) == "执行失败："@ + error,
        failed_with(error) == failed_with(other) <==> error == other,
        network_failure(true) == "请求 Docker Copilot 超时"@,
        network_failure(false) == "无法连接 Docker Copilot"@,
{
    let label = "执行失败："@;
    assert((label + error).skip(label.len() as int) =~= error);
    assert((label + other).skip(label.len() as int) =~= other);
}

/// Whether the setting `key` is that boolean.
pub open spec fn is_set(settings: Map<Seq<char>, JsonView>, key: Seq<char>, b: bool) -> bool {
    settings.contains_key(key) && settings[key] == JsonView::Bool(b)
}

/// The user is told of a result unless notifications are off, the page was visited,
/// or a check found no update and the user did not ask to hear of that; the title
/// names the action and the content is the notice of the result.
pub proof fn law_results_are_told(
    settings: Map<Seq<char>, JsonView>,
    action: Seq<char>,
    result: JsonView,
)
    ensures
        ({
            let found = has_field(result, "report"@) && has_field(
                result->Object_0["report"@],
                "updates"@,
            ) && (result->Object_0["report"@]->Object_0["updates"@] matches JsonView::Array(list)
                && list.len() > 0);
            let silent = is_set(settings, "send_notifications"@, false) || action == "dashboard"@
                || action == "check_updates"@ && !found && !is_set(
                settings,
                "notify_when_no_updates"@,
                true,
            );
            &&& success_message(settings, action, result) is None <==> silent
            &&& success_message(settings, action, result) matches Some(message) ==> {
                &&& message.title == "DC 助手："@ + label_for(action)
                &&& message.content == if has_text(result, "notice"@) {
                    result->Object_0["notice"@]->Text_0
                } else {
                    "DC 助手任务已完成。"@
                }
            }
        }),
{
}

/// The user is told of a failure unless notifications are off, with the action and
/// the reason.
pub proof fn law_failures_are_told(
    settings: Map<Seq<char>, JsonView>,
    action: Seq<char>,
    error: Seq<char>,
)
    ensures
        failure_message(settings, action, error) is None <==> is_set(
            settings,
            "send_notifications"@,
            false,
        ),
        failure_message(settings, action, error) matches Some(message) ==> message.title
            == "DC 助手执行失败"@ && message.content == "动作："@ + label_for(action) + "\n原因："@ + error,
{
}

/// The settings name a service where the address, without the white space around it
/// and without slashes at its end, is a URL of HTTP once a slash is added, and the
/// key is not blank. What is wrong is told in that order.
pub proof fn law_services(
    settings: Map<Seq<char>, JsonView>,
    address: Seq<char>,
    slashes: Seq<char>,
    key: Seq<char>,
)
    requires
        tells(JsonView::Object(settings), "host"@, address + slashes),
        all_of(slashes, |c: char| c == '/'),
        address.len() > 0 ==> address.last() != '/',
        tells(JsonView::Object(settings), "secret_key"@, key),
    ensures
        service_in(settings) == if address.len() == 0 {
            Err::<ServiceView, Seq<char>>("请先配置 Docker Copilot 地址"@)
        } else {
            match url_read(address + "/"@) {
                None => Err("Docker Copilot 地址不是有效 URL"@),
                Some((scheme, url)) => if scheme != "http"@ && scheme != "https"@ {
                    Err("Docker Copilot 地址必须使用 http 或 https"@)
                } else if key.len() == 0 {
                    Err("请先配置 Docker Copilot Secret Key"@)
                } else {
                    Ok(ServiceView { host: url, secret_key: key })
                },
            }
        },
{
    let host = crate::settings::text_setting(settings, "host"@, Seq::empty());
    let secret = crate::settings::text_setting(settings, "secret_key"@, Seq::empty());
    let p = |c: char| c == '/';
    lemma_setting_core(settings, "host"@, address + slashes);
    lemma_setting_core(settings, "secret_key"@, key);
    law_drop_trailing(address, slashes, p);
}

proof fn lemma_setting_core(settings: Map<Seq<char>, JsonView>, key: Seq<char>, t: Seq<char>)
    requires
        tells(JsonView::Object(settings), key, t),
    ensures
        trimmed(crate::settings::text_setting(settings, key, Seq::empty())) == t,
{
    let s = crate::settings::text_setting(settings, key, Seq::empty());
    if has_text(JsonView::Object(settings), key) {
        law_trimmed_is_the_core(s, t);
    } else {
        assert(trimmed(Seq::empty()) =~= Seq::empty());
        assert(t =~= Seq::empty());
    }
}

/// A request is authorised by a token that was issued now and ends four weeks later,
/// signed with the key.
pub proof fn law_tokens(key: Seq<char>, now: int)
    ensures
        ({
            let header = base64_url(encode_utf8("{\"alg\":\"HS256\",\"typ\":\"JWT\"}"@));
            let claims = base64_url(
                encode_utf8(
                    json_written(
                        JsonView::Object(
                            map![
                                "iat"@ => JsonView::Int(now),
                                "exp"@ => JsonView::Int(now + 28 * 24 * 60 * 60),
                            ],
                        ),
                    ),
                ),
            );
            let signed = header + "."@ + claims;
            authorisation(key, now) == "Bearer "@ + signed + "."@ + base64_url(
                hmac_sha256(encode_utf8(key), encode_utf8(signed)),
            )
        }),
{
}

/// A request is authorised at every reading of the clock for which the token, which
/// holds for twenty-eight days, ends in a moment that can be told; without a reading
/// it fails.
pub proof fn law_requests_are_authorised(key: Seq<char>, seconds: u64)
    ensures
        bearer_read_at(key, Some(seconds)) is Some <==> seconds + 28 * 24 * 60 * 60 <= u64::MAX,
        seconds + 28 * 24 * 60 * 60 <= u64::MAX ==> bearer_read_at(key, Some(seconds)) == Some(
            Ok::<Seq<char>, Seq<char>>(authorisation(key, seconds as int)),
        ),
        bearer_read_at(key, None) == Some(Err::<Seq<char>, Seq<char>>("系统时间早于 Unix 纪元"@)),
{
}

/// A run begins with an action, a service and parameters where all three can be had;
/// else it fails with what is wrong with the parameters, or if nothing is, with the
/// settings, or if nothing is, with the action.
pub proof fn law_runs_are_prepared(
    word: Seq<char>,
    settings: Map<Seq<char>, JsonView>,
    raw: Seq<char>,
)
    ensures
        parameters_in(raw) matches Err(error) ==> prepared(word, settings, raw) == Err::<
            (Action, ServiceView, JsonView),
            Seq<char>,
        >(error),
        parameters_in(raw) is Ok && service_in(settings) is Err ==> prepared(word, settings, raw)
            == Err::<(Action, ServiceView, JsonView), Seq<char>>(service_in(settings)->Err_0),
        parameters_in(raw) is Ok && service_in(settings) is Ok && action_named(word) is None
            ==> prepared(word, settings, raw) == Err::<(Action, ServiceView, JsonView), Seq<char>>(
            "不支持的 DC 助手动作: "@ + word,
        ),
        parameters_in(raw) is Ok && service_in(settings) is Ok && action_named(word) is Some
            ==> prepared(word, settings, raw) == Ok::<(Action, ServiceView, JsonView), Seq<char>>(
            (action_named(word)->0, service_in(settings)->Ok_0, parameters_in(raw)->Ok_0),
        ),
{
}

/// A visit shows the page with the choice after it, and stores that choice exactly
/// where the payload speaks of one; a check is made with the choice in force.
pub proof fn law_visits_and_checks(
    settings: Map<Seq<char>, JsonView>,
    stored: Option<Seq<char>>,
    payload: JsonView,
    reply: JsonView,
)
    ensures
        ({
            let saving = has_field(payload, "update_containers"@) || has_field(
                payload,
                "auto_update_containers"@,
            );
            let force = selection_in_force(settings, stored);
            match listed_containers(reply) {
                Ok(list) => {
                    let after = chosen(list, force, payload);
                    &&& visited(settings, stored, payload, reply) == Ok::<VisitView, Seq<char>>(
                        VisitView {
                            page: page(list, after, saving),
                            stored: if saving {
                                Some(json_written(record_of(after)))
                            } else {
                                None
                            },
                        },
                    )
                    &&& checked(settings, stored, reply) == Ok::<JsonView, Seq<char>>(
                        check_result(list, force.update_containers),
                    )
                },
                Err(error) => {
                    &&& visited(settings, stored, payload, reply) == Err::<VisitView, Seq<char>>(
                        error,
                    )
                    &&& checked(settings, stored, reply) == Err::<JsonView, Seq<char>>(error)
                },
            }
        }),
{
}

/// A request goes to the host of the service, joined with its path; slashes at the
/// beginning of the path do not count.
pub proof fn law_endpoints(host: Seq<char>, slashes: Seq<char>, path: Seq<char>)
    requires
        all_of(slashes, |c: char| c == '/'),
        path.len() > 0 ==> path[0] != '/',
    ensures
        endpoint_at(host, slashes + path) == match url_joined(host, path) {
            Some(url) => Ok::<Seq<char>, Seq<char>>(url),
            None => Err("无法构造 Docker Copilot 请求地址"@),
        },
{
    law_drop_leading(slashes, path, |c: char| c == '/');
}

/// A notification is posted under the address of Mediary, however many slashes end
/// that, with its title and its content.
pub proof fn law_notifications_are_posted(
    base: Seq<char>,
    slashes: Seq<char>,
    notification: NotificationView,
)
    requires
        all_of(slashes, |c: char| c == '/'),
        base.len() > 0 ==> base.last() != '/',
    ensures
        notification_address(base + slashes) == base + "/plugin/notifications"@,
        holds(request_body(notification), "title"@, JsonView::Text(notification.title)),
        holds(request_body(notification), "content"@, JsonView::Text(notification.content)),
{
    law_drop_trailing(base, slashes, |c: char| c == '/');
    reveal_strlit("title");
    reveal_strlit("content");
    assert("title"@.len() != "content"@.len());
}

/// A record is what the stored text writes, where it is JSON. It can take a run
/// exactly where its summary is missing, `null` or an object, and the count of runs
/// can grow.
pub proof fn law_records_are_read(raw: Option<Seq<char>>, record: Option<JsonView>)
    ensures
        match raw {
            Some(text) => match json_read(text) {
                Ok(value) => record_in(raw) == Some(value),
                Err(_) => record_in(raw) is None,
            },
            None => record_in(raw) is None,
        },
        takes_run(record) <==> {
            let summary = record is Some && has_field(record->0, "summary"@);
            &&& summary ==> record->0->Object_0["summary"@] is Null
                || record->0->Object_0["summary"@] is Object
            &&& count_in(record) < u64::MAX
        },
{
}

} // verus!
