//! The containers that the user chose to check and to update.
use vstd::prelude::*;

use crate::codec::{is_text_lists, json_read, json_written, parse_json, reads_as, render_json};
use crate::json::{
    as_items, json_views, member, opt_text, text_array_view, Json, JsonObject, JsonView,
};
use crate::lists::lemma_filter_map_push;
use crate::names::{distinct, lemma_distinct, lemma_distinct_already, NameSet};
use crate::settings::{setting, text_setting};
use crate::text::{lemma_trimmed_twice, pieces, split, trim, trimmed, views};

verus! {

/// The name in `s`: without surrounding white space, and not empty.
pub open spec fn kept_name(s: Seq<char>) -> Option<Seq<char>> {
    if trimmed(s).len() > 0 {
        Some(trimmed(s))
    } else {
        None
    }
}

/// The names in a list of texts, each once.
pub open spec fn kept_names(list: Seq<Seq<char>>) -> Seq<Seq<char>> {
    distinct(list.filter_map(|s: Seq<char>| kept_name(s)))
}

/// The texts among the values of a list.
pub open spec fn texts_among(items: Seq<JsonView>) -> Seq<Seq<char>> {
    items.filter_map(
        |item: JsonView|
            match item {
                JsonView::Text(s) => Some(s),
                _ => None,
            },
    )
}

/// Whether every name of a list is trimmed and not empty, and none occurs twice.
pub open spec fn tidy(list: Seq<Seq<char>>) -> bool {
    &&& list.no_duplicates()
    &&& forall|i: int| 0 <= i < list.len() ==> kept_name(#[trigger] list[i]) == Some(list[i])
}

/// The names in a comma-separated text.
pub open spec fn names_in(raw: Seq<char>) -> Seq<Seq<char>> {
    kept_names(pieces(raw, ','))
}

/// The names in the array under `key`; none where there is no such array.
pub open spec fn names_at(value: JsonView, key: Seq<char>) -> Seq<Seq<char>> {
    match as_items(member(value, key)) {
        Some(items) => kept_names(texts_among(items)),
        None => Seq::empty(),
    }
}

/// Names kept from a list of texts are tidy.
pub proof fn lemma_kept_names_tidy(list: Seq<Seq<char>>)
    ensures
        tidy(kept_names(list)),
{
    let f = |s: Seq<char>| kept_name(s);
    let kept = list.filter_map(f);
    lemma_distinct(kept);
    assert forall|i: int| 0 <= i < kept_names(list).len() implies kept_name(
        #[trigger] kept_names(list)[i],
    ) == Some(kept_names(list)[i]) by {
        let name = kept_names(list)[i];
        assert(distinct(kept).contains(name));
        assert(kept.contains(name));
        list.lemma_filter_map_contains(f, name);
        let source = choose|t: Seq<char>| #[trigger] list.contains(t) && f(t) == Some(name);
        lemma_trimmed_twice(source);
    }
}

/// A tidy list is kept as it is.
pub proof fn lemma_tidy_kept(list: Seq<Seq<char>>)
    requires
        tidy(list),
    ensures
        kept_names(list) == list,
{
    let f = |s: Seq<char>| kept_name(s);
    lemma_all_kept(list, f);
    lemma_distinct_already(list);
}

proof fn lemma_all_kept(list: Seq<Seq<char>>, f: spec_fn(Seq<char>) -> Option<Seq<char>>)
    requires
        forall|i: int| 0 <= i < list.len() ==> f(#[trigger] list[i]) == Some(list[i]),
    ensures
        list.filter_map(f) == list,
    decreases list.len(),
{
    if list.len() > 0 {
        let shorter = list.drop_last();
        assert forall|i: int| 0 <= i < shorter.len() implies f(#[trigger] shorter[i]) == Some(
            shorter[i],
        ) by {
            assert(shorter[i] == list[i]);
        }
        lemma_all_kept(shorter, f);
        assert(f(list[list.len() - 1]) == Some(list.last()));
        assert(shorter + seq![list.last()] =~= list);
    } else {
        assert(list =~= Seq::empty());
    }
}

proof fn lemma_texts_of_texts(list: Seq<Seq<char>>)
    ensures
        texts_among(text_array_view(list)->Array_0) == list,
    decreases list.len(),
{
    let items = text_array_view(list)->Array_0;
    if list.len() > 0 {
        let shorter = list.drop_last();
        lemma_texts_of_texts(shorter);
        assert(items.drop_last() =~= text_array_view(shorter)->Array_0);
        assert(items.last() == JsonView::Text(list.last()));
        assert(shorter + seq![list.last()] =~= list);
    } else {
        assert(items =~= Seq::empty());
        assert(list =~= Seq::empty());
    }
}

/// The set of the names in a list of texts.
fn collect_names(list: &Vec<String>) -> (r: NameSet)
    ensures
        r@ == kept_names(views(list@)),
{
    let mut set = NameSet::new();
    let ghost all = views(list@);
    let ghost f = |s: Seq<char>| kept_name(s);
    let mut i: usize = 0;
    assert(all.take(0).filter_map(f) =~= Seq::empty());
    while i < list.len()
        invariant
            i <= list@.len(),
            all == views(list@),
            f == (|s: Seq<char>| kept_name(s)),
            set@ == distinct(all.take(i as int).filter_map(f)),
        decreases list@.len() - i,
    {
        proof {
            lemma_filter_map_push(all, f, i as int);
        }
        let name = trim(list[i].as_str());
        if !name.is_empty() {
            let ghost kept = all.take(i as int).filter_map(f);
            assert(kept.push(name@).drop_last() =~= kept);
            set = set.with(name);
        }
        i = i + 1;
    }
    assert(all.take(all.len() as int) =~= all);
    set
}

/// The names in a comma-separated text.
pub fn names(raw: &str) -> (r: NameSet)
    ensures
        r@ == names_in(raw@),
{
    collect_names(&split(raw, ','))
}

/// The names in the array under `key`; none where there is no such array.
pub fn value_names(value: &Json, key: &str) -> (r: NameSet)
    ensures
        r@ == names_at(value@, key@),
{
    match value.get(key) {
        Some(field) => match field.as_array() {
            Some(items) => {
                let mut list: Vec<String> = Vec::new();
                let ghost all = json_views(items@);
                let ghost f = |item: JsonView|
                    match item {
                        JsonView::Text(s) => Some(s),
                        _ => None,
                    };
                let mut i: usize = 0;
                assert(all.take(0).filter_map(f) =~= Seq::empty());
                assert(views(list@) =~= Seq::empty());
                while i < items.len()
                    invariant
                        i <= items@.len(),
                        all == json_views(items@),
                        f == (|item: JsonView|
                            match item {
                                JsonView::Text(s) => Some(s),
                                _ => None,
                            }),
                        views(list@) == all.take(i as int).filter_map(f),
                    decreases items@.len() - i,
                {
                    proof {
                        lemma_filter_map_push(all, f, i as int);
                    }
                    let ghost before = views(list@);
                    match items[i].as_str() {
                        Some(s) => {
                            list.push(s.to_owned());
                            assert(views(list@) =~= before.push(s@));
                        },
                        None => {},
                    }
                    i = i + 1;
                }
                assert(all.take(all.len() as int) =~= all);
                collect_names(&list)
            },
            None => NameSet::new(),
        },
        None => NameSet::new(),
    }
}

/// The names of the array under `key` that are among `available`.
pub open spec fn available_names_at(
    payload: JsonView,
    key: Seq<char>,
    available: Seq<Seq<char>>,
) -> Seq<Seq<char>> {
    names_at(payload, key).filter(|name: Seq<char>| available.contains(name))
}

/// The names of the array under `key` that are among `available`.
pub fn payload_names(payload: &Json, key: &str, available: &NameSet) -> (r: NameSet)
    ensures
        r@ == available_names_at(payload@, key@, available@),
{
    let given = value_names(payload, key);
    let list = given.list();
    let ghost all = given@;
    let ghost p = |name: Seq<char>| available@.contains(name);
    let mut set = NameSet::new();
    let mut i: usize = 0;
    assert(all.take(0).filter(p) =~= Seq::empty()) by {
        reveal(Seq::filter);
    }
    while i < list.len()
        invariant
            i <= list@.len(),
            all == views(list@),
            all.no_duplicates(),
            p == (|name: Seq<char>| available@.contains(name)),
            set@ == all.take(i as int).filter(p),
        decreases list@.len() - i,
    {
        let ghost before = all.take(i as int);
        proof {
            reveal(Seq::filter);
            assert(all.take(i + 1).drop_last() =~= before);
            if before.filter(p).contains(all[i as int]) {
                before.lemma_filter_contains_rev(p, all[i as int]);
            }
        }
        if available.contains(list[i].as_str()) {
            set = set.with(list[i].as_str());
        }
        i = i + 1;
    }
    assert(all.take(all.len() as int) =~= all);
    set
}

/// The containers to check for updates and those to update automatically.
#[derive(Debug)]
pub struct ContainerSelection {
    update_containers: NameSet,
    auto_update_containers: NameSet,
}

/// The names of a selection.
#[verifier::ext_equal]
pub struct SelectionView {
    pub update_containers: Seq<Seq<char>>,
    pub auto_update_containers: Seq<Seq<char>>,
}

impl View for ContainerSelection {
    type V = SelectionView;

    closed spec fn view(&self) -> SelectionView {
        SelectionView {
            update_containers: self.update_containers@,
            auto_update_containers: self.auto_update_containers@,
        }
    }
}

/// The selection that the settings write.
pub open spec fn selection_in_settings(settings: Map<Seq<char>, JsonView>) -> SelectionView {
    SelectionView {
        update_containers: names_in(text_setting(settings, "update_containers"@, Seq::empty())),
        auto_update_containers: names_in(
            text_setting(settings, "auto_update_containers"@, Seq::empty()),
        ),
    }
}

/// The selection that a stored record holds.
pub open spec fn selection_in_record(record: JsonView) -> SelectionView {
    SelectionView {
        update_containers: names_at(record, "update_containers"@),
        auto_update_containers: names_at(record, "auto_update_containers"@),
    }
}

/// The selection in force: the stored one where it can be read, else the one
/// that the settings write.
pub open spec fn selection_in_force(
    settings: Map<Seq<char>, JsonView>,
    stored: Option<Seq<char>>,
) -> SelectionView {
    match stored {
        Some(raw) => match json_read(raw) {
            Ok(record) => selection_in_record(record),
            Err(_) => selection_in_settings(settings),
        },
        None => selection_in_settings(settings),
    }
}

/// The record of a selection.
pub open spec fn record_of(selection: SelectionView) -> JsonView {
    JsonView::Object(
        map![
            "update_containers"@ => text_array_view(selection.update_containers),
            "auto_update_containers"@ => text_array_view(selection.auto_update_containers),
        ],
    )
}

/// A tidy selection is what its record holds.
pub proof fn lemma_record_holds_selection(selection: SelectionView)
    requires
        tidy(selection.update_containers),
        tidy(selection.auto_update_containers),
    ensures
        selection_in_record(record_of(selection)) == selection,
{
    reveal_strlit("update_containers");
    reveal_strlit("auto_update_containers");
    lemma_texts_of_texts(selection.update_containers);
    lemma_texts_of_texts(selection.auto_update_containers);
    lemma_tidy_kept(selection.update_containers);
    lemma_tidy_kept(selection.auto_update_containers);
    assert("update_containers"@.len() != "auto_update_containers"@.len());
}

impl ContainerSelection {
    #[verifier::type_invariant]
    spec fn well_formed(self) -> bool {
        tidy(self.update_containers@) && tidy(self.auto_update_containers@)
    }

    /// The containers to check for updates; all where there is none.
    pub fn update_containers(&self) -> (r: &NameSet)
        ensures
            r@ == self@.update_containers,
            tidy(r@),
    {
        proof {
            use_type_invariant(self);
        }
        &self.update_containers
    }

    /// The containers to update automatically.
    pub fn auto_update_containers(&self) -> (r: &NameSet)
        ensures
            r@ == self@.auto_update_containers,
            tidy(r@),
    {
        proof {
            use_type_invariant(self);
        }
        &self.auto_update_containers
    }

    /// The selection that the stored record `value` holds.
    pub fn from_record(value: &Json) -> (r: ContainerSelection)
        ensures
            r@ == selection_in_record(value@),
    {
        let update_containers = value_names(value, "update_containers");
        let auto_update_containers = value_names(value, "auto_update_containers");
        proof {
            lemma_names_at_tidy(value@, "update_containers"@);
            lemma_names_at_tidy(value@, "auto_update_containers"@);
        }
        ContainerSelection { update_containers, auto_update_containers }
    }

    /// The selection that the settings write.
    pub fn from_settings(settings: &JsonObject) -> (r: ContainerSelection)
        ensures
            r@ == selection_in_settings(settings.members()),
    {
        let update_containers = names(setting(settings, "update_containers"));
        let auto_update_containers = names(setting(settings, "auto_update_containers"));
        proof {
            lemma_kept_names_tidy(
                pieces(text_setting(settings.members(), "update_containers"@, Seq::empty()), ','),
            );
            lemma_kept_names_tidy(
                pieces(
                    text_setting(settings.members(), "auto_update_containers"@, Seq::empty()),
                    ',',
                ),
            );
        }
        ContainerSelection { update_containers, auto_update_containers }
    }

    /// The selection that `payload` asks for, among the `available` containers.
    pub fn from_payload(payload: &Json, available: &NameSet) -> (r: ContainerSelection)
        ensures
            r@ == selection_in_payload(payload@, available@),
    {
        let update_containers = payload_names(payload, "update_containers", available);
        let auto_update_containers = payload_names(payload, "auto_update_containers", available);
        proof {
            lemma_available_names_tidy(payload@, "update_containers"@, available@);
            lemma_available_names_tidy(payload@, "auto_update_containers"@, available@);
        }
        ContainerSelection { update_containers, auto_update_containers }
    }
}

/// The selection that a payload asks for, among the `available` containers.
pub open spec fn selection_in_payload(
    payload: JsonView,
    available: Seq<Seq<char>>,
) -> SelectionView {
    SelectionView {
        update_containers: available_names_at(payload, "update_containers"@, available),
        auto_update_containers: available_names_at(payload, "auto_update_containers"@, available),
    }
}

proof fn lemma_names_at_tidy(value: JsonView, key: Seq<char>)
    ensures
        tidy(names_at(value, key)),
{
    match as_items(member(value, key)) {
        Some(items) => {
            lemma_kept_names_tidy(texts_among(items));
        },
        None => {},
    }
}

proof fn lemma_filter_no_duplicates(list: Seq<Seq<char>>, p: spec_fn(Seq<char>) -> bool)
    requires
        list.no_duplicates(),
    ensures
        list.filter(p).no_duplicates(),
    decreases list.len(),
{
    reveal(Seq::filter);
    if list.len() > 0 {
        let shorter = list.drop_last();
        lemma_filter_no_duplicates(shorter, p);
        if shorter.filter(p).contains(list.last()) {
            shorter.lemma_filter_contains_rev(p, list.last());
        }
    }
}

proof fn lemma_available_names_tidy(payload: JsonView, key: Seq<char>, available: Seq<Seq<char>>)
    ensures
        tidy(available_names_at(payload, key, available)),
{
    let given = names_at(payload, key);
    let p = |name: Seq<char>| available.contains(name);
    lemma_names_at_tidy(payload, key);
    lemma_filter_no_duplicates(given, p);
    assert forall|i: int| 0 <= i < given.filter(p).len() implies kept_name(
        #[trigger] given.filter(p)[i],
    ) == Some(given.filter(p)[i]) by {
        let name = given.filter(p)[i];
        assert(given.filter(p).contains(name));
        given.lemma_filter_contains_rev(p, name);
    }
}

/// The selection in force, from the settings and the stored record, where there
/// is one.
pub fn load_selection(settings: &JsonObject, stored: Option<&str>) -> (r: ContainerSelection)
    ensures
        r@ == selection_in_force(settings.members(), opt_text(stored)),
{
    match stored {
        Some(raw) => match parse_json(raw) {
            Ok(value) => ContainerSelection::from_record(&value),
            Err(_) => ContainerSelection::from_settings(settings),
        },
        None => ContainerSelection::from_settings(settings),
    }
}

/// The text that stores a selection. Whatever the settings, the selection in
/// force with this text stored is the selection itself.
pub fn save_selection(selection: &ContainerSelection) -> (r: String)
    ensures
        r@ == json_written(record_of(selection@)),
        reads_as(r@, record_of(selection@)),
        forall|settings: Map<Seq<char>, JsonView>| #[trigger]
            selection_in_force(settings, Some(r@)) == selection@,
{
    proof {
        use_type_invariant(selection);
        lemma_record_holds_selection(selection@);
    }
    let record = Json::Object(
        JsonObject::new().with(
            "update_containers",
            Json::text_array(selection.update_containers.list()),
        ).with(
            "auto_update_containers",
            Json::text_array(selection.auto_update_containers.list()),
        ),
    );
    assert(is_text_lists(record@));
    render_json(&record)
}

} // verus!
