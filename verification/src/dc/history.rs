//! The record of the latest runs.
use vstd::prelude::*;

use crate::clock::unix_time;
use crate::codec::{json_read, parse_json};
use crate::json::{
    as_int, as_items, duplicate_all, json_views, member, opt_text, opt_view, Json, JsonObject,
    JsonView,
};

verus! {

/// How many runs the record lists.
pub const MAX_RUNS: usize = 20;

/// The record in a text, where it can be read.
pub open spec fn record_in(raw: Option<Seq<char>>) -> Option<JsonView> {
    match raw {
        Some(raw) => match json_read(raw) {
            Ok(record) => Some(record),
            Err(_) => None,
        },
        None => None,
    }
}

/// The record in the stored text, where there is one and it can be read.
pub fn read_record(raw: Option<&str>) -> (r: Option<Json>)
    ensures
        match r {
            Some(record) => record_in(opt_text(raw)) == Some(record@),
            None => record_in(opt_text(raw)) is None,
        },
{
    match raw {
        Some(raw) => match parse_json(raw) {
            Ok(record) => Some(record),
            Err(_) => None,
        },
        None => None,
    }
}

/// The member `key` of the record before.
pub open spec fn earlier(record: Option<JsonView>, key: Seq<char>) -> Option<JsonView> {
    match record {
        Some(record) => member(record, key),
        None => None,
    }
}

/// The runs listed before, the latest first.
pub open spec fn earlier_runs(record: Option<JsonView>) -> Seq<JsonView> {
    match as_items(earlier(record, "items"@)) {
        Some(items) => items,
        None => Seq::empty(),
    }
}

/// The summary before: the members of an object; none where it is missing or
/// `null`.
pub open spec fn earlier_summary(record: Option<JsonView>) -> Map<Seq<char>, JsonView> {
    match earlier(record, "summary"@) {
        Some(JsonView::Object(members)) => members,
        _ => Map::empty(),
    }
}

/// How many runs there were before.
pub open spec fn run_count(record: Option<JsonView>) -> int {
    match as_int(
        member(JsonView::Object(earlier_summary(record)), "runs"@),
        0,
        u64::MAX as int,
    ) {
        Some(n) => n,
        None => 0,
    }
}

/// Whether a run can be added to a record: its summary, where there is one, can
/// take members, and the count of runs can grow.
pub open spec fn takes_run(record: Option<JsonView>) -> bool {
    &&& match earlier(record, "summary"@) {
        None => true,
        Some(JsonView::Null) => true,
        Some(JsonView::Object(_)) => true,
        Some(_) => false,
    }
    &&& run_count(record) < u64::MAX
}

/// What is recorded of a run.
pub open spec fn run_entry(
    action: Seq<char>,
    ok: bool,
    notice: Seq<char>,
    completed_at: int,
) -> JsonView {
    JsonView::Object(
        map![
            "action"@ => JsonView::Text(action),
            "ok"@ => JsonView::Bool(ok),
            "notice"@ => JsonView::Text(notice),
            "completed_at"@ => JsonView::Int(completed_at),
        ],
    )
}

/// The first `n` items of a list.
pub open spec fn first_items(items: Seq<JsonView>, n: int) -> Seq<JsonView> {
    if items.len() > n {
        items.take(n)
    } else {
        items
    }
}

/// The record after a run.
pub open spec fn record_after(
    record: Option<JsonView>,
    action: Seq<char>,
    ok: bool,
    notice: Seq<char>,
    completed_at: int,
    updated_at: int,
) -> JsonView {
    JsonView::Object(
        map![
            "updated_at"@ => JsonView::Int(updated_at),
            "summary"@ => JsonView::Object(
                earlier_summary(record).insert("action"@, JsonView::Text(action)).insert(
                    "ok"@,
                    JsonView::Bool(ok),
                ).insert("runs"@, JsonView::Int(run_count(record) + 1)),
            ),
            "items"@ => JsonView::Array(
                first_items(
                    seq![run_entry(action, ok, notice, completed_at)] + earlier_runs(record),
                    MAX_RUNS as int,
                ),
            ),
        ],
    )
}

/// The member `key` of an optional record.
fn field<'a>(record: Option<&'a Json>, key: &str) -> (r: Option<&'a Json>)
    ensures
        opt_view(r) == earlier(opt_view(record), key@),
{
    match record {
        Some(record) => record.get(key),
        None => None,
    }
}

/// The summary before.
fn summary_before(record: Option<&Json>) -> (r: JsonObject)
    ensures
        r.members() == earlier_summary(opt_view(record)),
{
    match field(record, "summary") {
        Some(Json::Object(members)) => members.duplicate(),
        _ => JsonObject::new(),
    }
}

/// How many runs the summary counts.
fn runs_in(summary: &JsonObject) -> (r: u64)
    ensures
        r == match as_int(
            member(JsonView::Object(summary.members()), "runs"@),
            0,
            u64::MAX as int,
        ) {
            Some(n) => n,
            None => 0,
        },
{
    match summary.get("runs") {
        Some(value) => match value.as_u64() {
            Some(n) => n,
            None => 0,
        },
        None => 0,
    }
}

/// Whether a run can be added to `record`.
pub fn can_take_run(record: Option<&Json>) -> (r: bool)
    ensures
        r == takes_run(opt_view(record)),
{
    let editable = match field(record, "summary") {
        None => true,
        Some(Json::Null) => true,
        Some(Json::Object(_)) => true,
        Some(_) => false,
    };
    editable && runs_in(&summary_before(record)) < 0xffff_ffff_ffff_ffff
}

/// The record after a run of `action` that ended with `notice` now.
pub fn save_last_run(record: Option<&Json>, action: &str, ok: bool, notice: &str) -> (r: Json)
    requires
        takes_run(opt_view(record)),
    ensures
        exists|completed_at: u64, updated_at: u64|
            r@ == #[trigger] record_after(
                opt_view(record),
                action@,
                ok,
                notice@,
                completed_at as int,
                updated_at as int,
            ),
{
    let completed_at: u64 = unix_time();
    let updated_at: u64 = unix_time();
    record_run(record, action, ok, notice, completed_at, updated_at)
}

/// The record after a run of `action` that ended with `notice`: the summary is
/// brought up to date and the run is listed first, before at most nineteen
/// earlier ones.
pub fn record_run(
    record: Option<&Json>,
    action: &str,
    ok: bool,
    notice: &str,
    completed_at: u64,
    updated_at: u64,
) -> (r: Json)
    requires
        takes_run(opt_view(record)),
    ensures
        r@ == record_after(
            opt_view(record),
            action@,
            ok,
            notice@,
            completed_at as int,
            updated_at as int,
        ),
{
    let summary = summary_before(record);
    let runs: u64 = runs_in(&summary) + 1;
    let summary = summary.with("action", Json::text(action)).with("ok", Json::Bool(ok)).with(
        "runs",
        Json::Unsigned(runs),
    );
    let mut items: Vec<Json> = match field(record, "items") {
        Some(value) => match value.as_array() {
            Some(items) => duplicate_all(items),
            None => Vec::new(),
        },
        None => Vec::new(),
    };
    assert(json_views(items@) =~= earlier_runs(opt_view(record)));
    let entry = Json::Object(
        JsonObject::new().with("action", Json::text(action)).with("ok", Json::Bool(ok)).with(
            "notice",
            Json::text(notice),
        ).with("completed_at", Json::Unsigned(completed_at)),
    );
    let ghost before = json_views(items@);
    items.insert(0, entry);
    assert(json_views(items@) =~= seq![entry@] + before);
    let ghost all = json_views(items@);
    items.truncate(MAX_RUNS);
    assert(json_views(items@) =~= first_items(all, MAX_RUNS as int));
    Json::Object(
        JsonObject::new().with("updated_at", Json::Unsigned(updated_at)).with(
            "summary",
            Json::Object(summary),
        ).with("items", Json::array(items)),
    )
}

/// The notice that is recorded of a run that failed.
pub open spec fn failed_with(error: Seq<char>) -> Seq<char> {
    "执行失败："@ + error
}

/// The notice that is recorded of a run that failed.
pub fn failure_notice(error: &str) -> (r: String)
    ensures
        r@ == failed_with(error@),
{
    "执行失败：".to_owned().concat(error)
}

/// A record counts each run once, lists the latest run first and at most twenty
/// runs, and takes the next run unless the count has reached its limit.
pub proof fn law_record_counts_and_lists_runs(
    record: Option<JsonView>,
    action: Seq<char>,
    ok: bool,
    notice: Seq<char>,
    completed_at: int,
    updated_at: int,
)
    requires
        takes_run(record),
    ensures
        ({
            let next = Some(record_after(record, action, ok, notice, completed_at, updated_at));
            &&& run_count(next) == run_count(record) + 1
            &&& earlier_runs(next).len() <= MAX_RUNS
            &&& earlier_runs(next)[0] == run_entry(action, ok, notice, completed_at)
            &&& forall|i: int|
                0 < i < earlier_runs(next).len() ==> #[trigger] earlier_runs(next)[i]
                    == earlier_runs(record)[i - 1]
            &&& earlier_runs(record).len() < MAX_RUNS ==> earlier_runs(next).len()
                == earlier_runs(record).len() + 1
            &&& takes_run(next) <==> run_count(record) + 1 < u64::MAX
        }),
{
    reveal_strlit("updated_at");
    reveal_strlit("summary");
    reveal_strlit("items");
    reveal_strlit("runs");
    assert("items"@.len() == 5 && "summary"@.len() == 7 && "updated_at"@.len() == 10);
}

} // verus!
