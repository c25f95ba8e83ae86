//! The page on which the user chooses containers.
use vstd::prelude::*;

use super::response::{has_update, name, name_of, text, text_at, true_at};
use super::selection::{names_at, selection_in_payload, ContainerSelection, SelectionView};
use crate::json::{json_views, member, text_array_view, Json, JsonObject, JsonView};
use crate::lists::lemma_filter_map_push;
use crate::names::{distinct, lemma_distinct, NameSet};

verus! {

/// The name of a container, where it has one.
pub open spec fn given_name(container: JsonView) -> Option<Seq<char>> {
    if name_of(container).len() > 0 {
        Some(name_of(container))
    } else {
        None
    }
}

/// The names of the containers that have one, each once.
pub open spec fn available_names(containers: Seq<JsonView>) -> Seq<Seq<char>> {
    distinct(containers.filter_map(|c: JsonView| given_name(c)))
}

/// The names of the containers that have one.
pub fn available(containers: &Vec<Json>) -> (r: NameSet)
    ensures
        r@ == available_names(json_views(containers@)),
{
    let mut set = NameSet::new();
    let ghost all = json_views(containers@);
    let ghost f = |c: JsonView| given_name(c);
    let mut i: usize = 0;
    assert(all.take(0).filter_map(f) =~= Seq::empty());
    while i < containers.len()
        invariant
            i <= containers@.len(),
            all == json_views(containers@),
            f == (|c: JsonView| given_name(c)),
            set@ == distinct(all.take(i as int).filter_map(f)),
        decreases containers@.len() - i,
    {
        proof {
            lemma_filter_map_push(all, f, i as int);
        }
        let name = name(&containers[i]);
        if !name.as_str().is_empty() {
            let ghost before = all.take(i as int).filter_map(f);
            assert(before.push(name@).drop_last() =~= before);
            set = set.with(name.as_str());
        }
        i = i + 1;
    }
    assert(all.take(all.len() as int) =~= all);
    set
}

/// Whether a payload asks for a selection to be stored.
pub open spec fn asks_to_save(payload: JsonView) -> bool {
    member(payload, "update_containers"@) is Some || member(payload, "auto_update_containers"@)
        is Some
}

/// Whether `payload` asks for a selection to be stored.
pub fn is_saving(payload: &Json) -> (r: bool)
    ensures
        r == asks_to_save(payload@),
{
    payload.get("update_containers").is_some() || payload.get("auto_update_containers").is_some()
}

/// The selection after a visit: what the payload asks for, among the containers
/// that exist; the one before where it asks for none.
pub open spec fn chosen(
    containers: Seq<JsonView>,
    before: SelectionView,
    payload: JsonView,
) -> SelectionView {
    if asks_to_save(payload) {
        selection_in_payload(payload, available_names(containers))
    } else {
        before
    }
}

/// The selection after a visit with this payload.
pub fn choose_containers(
    containers: &Vec<Json>,
    before: ContainerSelection,
    payload: &Json,
) -> (r: ContainerSelection)
    ensures
        r@ == chosen(json_views(containers@), before@, payload@),
{
    if is_saving(payload) {
        ContainerSelection::from_payload(payload, &available(containers))
    } else {
        before
    }
}

/// Only containers that exist can be chosen on the page.
pub proof fn law_only_existing_containers_are_chosen(
    containers: Seq<JsonView>,
    before: SelectionView,
    payload: JsonView,
    name: Seq<char>,
)
    requires
        asks_to_save(payload),
        chosen(containers, before, payload).update_containers.contains(name) || chosen(
            containers,
            before,
            payload,
        ).auto_update_containers.contains(name),
    ensures
        exists|c: JsonView| #[trigger] containers.contains(c) && name_of(c) == name,
{
    let available = available_names(containers);
    let p = |n: Seq<char>| available.contains(n);
    let checked = names_at(payload, "update_containers"@);
    let updated = names_at(payload, "auto_update_containers"@);
    if checked.filter(p).contains(name) {
        checked.lemma_filter_contains_rev(p, name);
        let i = choose|i: int| 0 <= i < checked.filter(p).len() && checked.filter(p)[i] == name;
        checked.lemma_filter_pred(p, i);
    } else {
        let i = choose|i: int| 0 <= i < updated.filter(p).len() && updated.filter(p)[i] == name;
        updated.lemma_filter_pred(p, i);
    }
    let f = |c: JsonView| given_name(c);
    lemma_distinct(containers.filter_map(f));
    containers.lemma_filter_map_contains(f, name);
    let c = choose|c: JsonView| #[trigger] containers.contains(c) && f(c) == Some(name);
    assert(containers.contains(c));
}

/// The form option of a container.
pub open spec fn option_of(container: JsonView) -> Option<JsonView> {
    match given_name(container) {
        Some(name) => Some(labelled(name, name)),
        None => None,
    }
}

/// A labelled value.
pub open spec fn labelled(label: Seq<char>, value: Seq<char>) -> JsonView {
    JsonView::Object(map!["label"@ => JsonView::Text(label), "value"@ => JsonView::Text(value)])
}

/// The entry of a container on the page.
pub open spec fn item_of(container: JsonView) -> Option<JsonView> {
    match given_name(container) {
        Some(name) => {
            let newer = true_at(container, "haveUpdate"@);
            let badge = JsonView::Object(
                map![
                    "label"@ => JsonView::Text(if newer { "可更新"@ } else { "已是最新"@ }),
                    "tone"@ => JsonView::Text(if newer { "warning"@ } else { "success"@ }),
                ],
            );
            Some(
                JsonView::Object(
                    map![
                        "key"@ => JsonView::Text(name),
                        "title"@ => JsonView::Text(name),
                        "subtitle"@ => JsonView::Text(text_at(container, "usingImage"@)),
                        "badges"@ => JsonView::Array(seq![badge]),
                        "metadata"@ => JsonView::Array(
                            seq![
                                labelled("状态"@, text_at(container, "status"@)),
                                labelled("运行时长"@, text_at(container, "runningTime"@)),
                            ],
                        ),
                    ],
                ),
            )
        },
        None => None,
    }
}

/// What the page shows.
pub open spec fn page(
    containers: Seq<JsonView>,
    selection: SelectionView,
    saving: bool,
) -> JsonView {
    let options = JsonView::Array(containers.filter_map(|c: JsonView| option_of(c)));
    JsonView::Object(
        map![
            "notice"@ => JsonView::Text(
                if saving { "容器选择已保存。"@ } else { "已从 Docker Copilot 加载容器。"@ },
            ),
            "items"@ => JsonView::Array(containers.filter_map(|c: JsonView| item_of(c))),
            "form_options"@ => JsonView::Object(
                map!["update_containers"@ => options, "auto_update_containers"@ => options],
            ),
            "form_values"@ => JsonView::Object(
                map![
                    "update_containers"@ => text_array_view(selection.update_containers),
                    "auto_update_containers"@ => text_array_view(selection.auto_update_containers),
                ],
            ),
        ],
    )
}

/// A labelled value.
fn label_value(label: &str, value: String) -> (r: Json)
    ensures
        r@ == labelled(label@, value@),
{
    Json::Object(JsonObject::new().with("label", Json::text(label)).with("value", Json::Text(value)))
}

/// The array of two values.
fn pair(first: Json, second: Json) -> (r: Json)
    ensures
        r@ == JsonView::Array(seq![first@, second@]),
{
    let mut items: Vec<Json> = Vec::new();
    items.push(first);
    items.push(second);
    assert(json_views(items@) =~= seq![first@, second@]);
    Json::array(items)
}

/// The form options of the containers that have a name.
fn options(containers: &Vec<Json>) -> (r: Vec<Json>)
    ensures
        json_views(r@) == json_views(containers@).filter_map(|c: JsonView| option_of(c)),
{
    let mut list: Vec<Json> = Vec::new();
    let ghost all = json_views(containers@);
    let ghost f = |c: JsonView| option_of(c);
    let mut i: usize = 0;
    assert(all.take(0).filter_map(f) =~= json_views(list@));
    while i < containers.len()
        invariant
            i <= containers@.len(),
            all == json_views(containers@),
            f == (|c: JsonView| option_of(c)),
            json_views(list@) == all.take(i as int).filter_map(f),
        decreases containers@.len() - i,
    {
        proof {
            lemma_filter_map_push(all, f, i as int);
        }
        let ghost before = json_views(list@);
        let name = name(&containers[i]);
        if !name.as_str().is_empty() {
            let option = label_value(name.as_str(), name.clone());
            list.push(option);
            assert(json_views(list@) =~= before.push(option@));
        }
        i = i + 1;
    }
    assert(all.take(all.len() as int) =~= all);
    list
}

/// The entry on the page of a container with the name `name`.
fn item(container: &Json, name: &str) -> (r: Json)
    requires
        given_name(container@) == Some(name@),
    ensures
        Some(r@) == item_of(container@),
{
    let newer = has_update(container);
    let badge = Json::Object(
        JsonObject::new().with(
            "label",
            Json::text(if newer { "可更新" } else { "已是最新" }),
        ).with("tone", Json::text(if newer { "warning" } else { "success" })),
    );
    let mut badges: Vec<Json> = Vec::new();
    badges.push(badge);
    assert(json_views(badges@) =~= seq![badge@]);
    Json::Object(
        JsonObject::new().with("key", Json::text(name)).with("title", Json::text(name)).with(
            "subtitle",
            Json::Text(text(container, "usingImage")),
        ).with("badges", Json::array(badges)).with(
            "metadata",
            pair(
                label_value("状态", text(container, "status")),
                label_value("运行时长", text(container, "runningTime")),
            ),
        ),
    )
}

/// The entries of the containers that have a name.
fn items(containers: &Vec<Json>) -> (r: Vec<Json>)
    ensures
        json_views(r@) == json_views(containers@).filter_map(|c: JsonView| item_of(c)),
{
    let mut list: Vec<Json> = Vec::new();
    let ghost all = json_views(containers@);
    let ghost f = |c: JsonView| item_of(c);
    let mut i: usize = 0;
    assert(all.take(0).filter_map(f) =~= json_views(list@));
    while i < containers.len()
        invariant
            i <= containers@.len(),
            all == json_views(containers@),
            f == (|c: JsonView| item_of(c)),
            json_views(list@) == all.take(i as int).filter_map(f),
        decreases containers@.len() - i,
    {
        proof {
            lemma_filter_map_push(all, f, i as int);
        }
        let ghost before = json_views(list@);
        let name = name(&containers[i]);
        if !name.as_str().is_empty() {
            let item = item(&containers[i], name.as_str());
            list.push(item);
            assert(json_views(list@) =~= before.push(item@));
        }
        i = i + 1;
    }
    assert(all.take(all.len() as int) =~= all);
    list
}

/// What the page shows of `containers` and of the selection in force, after a
/// visit that stored a selection or not.
pub fn dashboard(containers: &Vec<Json>, selection: &ContainerSelection, saving: bool) -> (r: Json)
    ensures
        r@ == page(json_views(containers@), selection@, saving),
{
    Json::Object(
        JsonObject::new().with(
            "notice",
            Json::text(
                if saving { "容器选择已保存。" } else { "已从 Docker Copilot 加载容器。" },
            ),
        ).with("items", Json::array(items(containers))).with(
            "form_options",
            Json::Object(
                JsonObject::new().with("update_containers", Json::array(options(containers))).with(
                    "auto_update_containers",
                    Json::array(options(containers)),
                ),
            ),
        ).with(
            "form_values",
            Json::Object(
                JsonObject::new().with(
                    "update_containers",
                    Json::text_array(selection.update_containers().list()),
                ).with(
                    "auto_update_containers",
                    Json::text_array(selection.auto_update_containers().list()),
                ),
            ),
        ),
    )
}

} // verus!
