//! Update checks: which containers have a newer image.
use vstd::prelude::*;

use super::response::{container_summary, has_update, name, name_of, summary_of, true_at};
use crate::json::{json_views, Json, JsonObject, JsonView};
use crate::lists::lemma_filter_map_push;
use crate::names::NameSet;
use crate::text::{decimal, decimal_u64, join, joined, views};

verus! {

/// Whether a container has an update that the user wants to hear of: an empty
/// choice means every container.
pub open spec fn to_report(container: JsonView, selected: Seq<Seq<char>>) -> bool {
    true_at(container, "haveUpdate"@) && (selected.len() == 0 || selected.contains(
        name_of(container),
    ))
}

/// What is reported of each container with an update, in order.
pub open spec fn reported(containers: Seq<JsonView>, selected: Seq<Seq<char>>) -> Seq<JsonView> {
    containers.filter_map(
        |c: JsonView|
            if to_report(c, selected) {
                Some(summary_of(c))
            } else {
                None
            },
    )
}

/// The name of each container with an update, in order.
pub open spec fn reported_names(containers: Seq<JsonView>, selected: Seq<Seq<char>>) -> Seq<
    Seq<char>,
> {
    containers.filter_map(
        |c: JsonView|
            if to_report(c, selected) {
                Some(name_of(c))
            } else {
                None
            },
    )
}

/// The result of an update check.
pub open spec fn check_result(containers: Seq<JsonView>, selected: Seq<Seq<char>>) -> JsonView {
    let updates = reported(containers, selected);
    let notice = if updates.len() == 0 {
        "没有发现可更新的容器。"@
    } else {
        "发现 "@ + decimal(updates.len()) + " 个可更新容器："@ + joined(
            reported_names(containers, selected),
            "、"@,
        ) + "。"@
    };
    JsonView::Object(
        map![
            "notice"@ => JsonView::Text(notice),
            "report"@ => JsonView::Object(
                map![
                    "checked"@ => JsonView::Int(containers.len() as int),
                    "updates"@ => JsonView::Array(updates),
                ],
            ),
        ],
    )
}

/// Checks which of `containers` have an update; `selected` restricts what is
/// reported, unless it is empty.
pub fn check_updates(containers: &Vec<Json>, selected: &NameSet) -> (r: Json)
    ensures
        r@ == check_result(json_views(containers@), selected@),
{
    let mut updates: Vec<Json> = Vec::new();
    let mut found: Vec<String> = Vec::new();
    let ghost all = json_views(containers@);
    let ghost f = |c: JsonView|
        if to_report(c, selected@) {
            Some(summary_of(c))
        } else {
            None
        };
    let ghost g = |c: JsonView|
        if to_report(c, selected@) {
            Some(name_of(c))
        } else {
            None
        };
    let mut i: usize = 0;
    proof {
        assert(json_views(updates@) =~= Seq::empty());
        assert(views(found@) =~= Seq::empty());
        assert(all.take(0).filter_map(f) =~= Seq::empty());
        assert(all.take(0).filter_map(g) =~= Seq::empty());
    }
    while i < containers.len()
        invariant
            i <= containers@.len(),
            all == json_views(containers@),
            f == (|c: JsonView|
                if to_report(c, selected@) {
                    Some(summary_of(c))
                } else {
                    None
                }),
            g == (|c: JsonView|
                if to_report(c, selected@) {
                    Some(name_of(c))
                } else {
                    None
                }),
            json_views(updates@) == all.take(i as int).filter_map(f),
            views(found@) == all.take(i as int).filter_map(g),
            updates@.len() <= i,
        decreases containers@.len() - i,
    {
        let container = &containers[i];
        proof {
            lemma_filter_map_push(all, f, i as int);
            lemma_filter_map_push(all, g, i as int);
        }
        let ghost before = json_views(updates@);
        let ghost before_found = views(found@);
        let name = name(container);
        if has_update(container) && (selected.is_empty() || selected.contains(name.as_str())) {
            let summary = container_summary(container);
            updates.push(summary);
            found.push(name);
            assert(json_views(updates@) =~= before.push(summary@));
            assert(views(found@) =~= before_found.push(name@));
        }
        i = i + 1;
    }
    assert(all.take(all.len() as int) =~= all);
    assert(json_views(updates@).len() == updates@.len());
    let notice = if updates.len() == 0 {
        "没有发现可更新的容器。".to_owned()
    } else {
        "发现 ".to_owned().concat(decimal_u64(updates.len() as u64).as_str()).concat(
            " 个可更新容器：",
        ).concat(join(&found, "、").as_str()).concat("。")
    };
    Json::Object(
        JsonObject::new().with("notice", Json::Text(notice)).with(
            "report",
            Json::Object(
                JsonObject::new().with("checked", Json::count(containers.len())).with(
                    "updates",
                    Json::array(updates),
                ),
            ),
        ),
    )
}

/// An empty choice means every container: each one with an update is reported,
/// in order.
pub proof fn law_empty_choice_checks_all(containers: Seq<JsonView>)
    ensures
        reported(containers, Seq::empty()) == containers.filter(
            |c: JsonView| true_at(c, "haveUpdate"@),
        ).map_values(|c: JsonView| summary_of(c)),
    decreases containers.len(),
{
    let newer = |c: JsonView| true_at(c, "haveUpdate"@);
    let summary = |c: JsonView| summary_of(c);
    reveal(Seq::filter);
    if containers.len() > 0 {
        let shorter = containers.drop_last();
        law_empty_choice_checks_all(shorter);
        assert(containers =~= shorter.push(containers.last()));
        assert(shorter.filter(newer).push(containers.last()).map_values(summary)
            =~= shorter.filter(newer).map_values(summary).push(summary(containers.last())));
    }
    assert(reported(containers, Seq::empty()) =~= containers.filter(newer).map_values(summary));
}

/// With a choice, only chosen containers are reported, and each one that has an
/// update is.
pub proof fn law_a_choice_restricts_the_report(
    containers: Seq<JsonView>,
    selected: Seq<Seq<char>>,
    name: Seq<char>,
)
    requires
        selected.len() > 0,
    ensures
        reported_names(containers, selected).contains(name) <==> selected.contains(name)
            && exists|c: JsonView| #[trigger]
                containers.contains(c) && true_at(c, "haveUpdate"@) && name_of(c) == name,
{
    let f = |c: JsonView|
        if to_report(c, selected) {
            Some(name_of(c))
        } else {
            None
        };
    if reported_names(containers, selected).contains(name) {
        containers.lemma_filter_map_contains(f, name);
        let c = choose|c: JsonView| #[trigger] containers.contains(c) && f(c) == Some(name);
        assert(containers.contains(c));
    }
    if selected.contains(name) && exists|c: JsonView| #[trigger]
        containers.contains(c) && true_at(c, "haveUpdate"@) && name_of(c) == name {
        let c = choose|c: JsonView| #[trigger]
            containers.contains(c) && true_at(c, "haveUpdate"@) && name_of(c) == name;
        lemma_reported(containers, selected, c);
    }
}

proof fn lemma_reported(containers: Seq<JsonView>, selected: Seq<Seq<char>>, c: JsonView)
    requires
        containers.contains(c),
        to_report(c, selected),
    ensures
        reported_names(containers, selected).contains(name_of(c)),
    decreases containers.len(),
{
    let shorter = containers.drop_last();
    let before = reported_names(shorter, selected);
    let all = reported_names(containers, selected);
    if containers.last() == c {
        assert(all =~= before.push(name_of(c)));
        assert(all.last() == name_of(c));
    } else {
        let i = choose|i: int| 0 <= i < containers.len() && containers[i] == c;
        assert(shorter[i] == c);
        lemma_reported(shorter, selected, c);
        let k = choose|k: int| 0 <= k < before.len() && before[k] == name_of(c);
        assert(all[k] == name_of(c));
    }
}

} // verus!
