//! Promises about refreshes: which series are taken up, subscribed to, reminded of
//! and recorded.
use vstd::prelude::*;

use super::fields::{has_field, holds};
use super::text::{all_of, is_core, law_drop_trailing, law_trimmed_is_the_core};
use crate::douban::date::DateView;
use crate::douban::extract::{date_in_page, date_in_text};
use crate::douban::history::{
    blank_history, blank_report, result_of, HistoryView, RecordView, ReportView,
};
use crate::douban::media::{
    is_series, notification_query, page_address, request_address, resolve_query, shown_title,
    subscription_query, tmdb_air_date, MediaView,
};
use crate::douban::refresh::{
    after_notified, after_page, after_resolved, after_subscribed, after_time, first_step,
    history_to_begin_with, next_item, rules_in, step_after, step_through, to_remind, year_failure,
    CandidateView, RefreshEvent, RefreshStepView, RefreshView, Rules,
};
use crate::douban::rss::ItemView;
use crate::json::JsonView;
use crate::text::decimal_int;

verus! {

/// Whether `n` is what the settings ask for under `key`: their integer, but at least
/// `low`; `default` where they have none.
pub open spec fn asked_for(
    settings: Map<Seq<char>, JsonView>,
    key: Seq<char>,
    default: int,
    low: int,
    n: int,
) -> bool {
    if settings.contains_key(key) && settings[key] is Int && i64::MIN <= settings[key]->Int_0
        <= i64::MAX {
        &&& settings[key]->Int_0 >= low ==> n == settings[key]->Int_0
        &&& settings[key]->Int_0 < low ==> n == low
    } else {
        n == default
    }
}

/// A refresh goes by the settings: how many people must want to watch, 5000 unless
/// they say otherwise; how many days ahead is subscribed, 7; whether and how many
/// hours ahead the user is reminded, 24.
pub proof fn law_rules_are_those_of_the_settings(settings: Map<Seq<char>, JsonView>)
    ensures
        ({
            let rules = rules_in(settings);
            &&& asked_for(settings, "wish_count_threshold"@, 5000, 0, rules.threshold as int)
            &&& asked_for(settings, "advance_days"@, 7, 0, rules.advance_days as int)
            &&& asked_for(settings, "notify_hours"@, 24, 1, rules.notify_hours as int)
            &&& rules.notify <==> !(settings.contains_key("notify_before_air"@)
                && settings["notify_before_air"@] == JsonView::Bool(false))
        }),
{
}

/// The refresh at a step that does not end it.
pub open spec fn refresh_at(step: RefreshStepView) -> Option<RefreshView> {
    match step {
        RefreshStepView::Resolve { query, item, refresh } => Some(refresh),
        RefreshStepView::FetchPage { url, item, media, refresh } => Some(refresh),
        RefreshStepView::AskToday { candidate, refresh } => Some(refresh),
        RefreshStepView::Subscribe { query, candidate, refresh } => Some(refresh),
        RefreshStepView::AskCountdown { candidate, subscription, refresh } => Some(refresh),
        RefreshStepView::Notify { query, candidate, subscription, refresh } => Some(refresh),
        RefreshStepView::AskTime { candidate, subscription, reminder, refresh } => Some(refresh),
        RefreshStepView::Finish { history, report } => None,
    }
}

/// Whether the rules at a step are `rules`.
pub open spec fn goes_by(step: RefreshStepView, rules: Rules) -> bool {
    refresh_at(step) matches Some(refresh) ==> refresh.rules == rules
}

proof fn lemma_next_item_goes_by(refresh: RefreshView)
    ensures
        goes_by(next_item(refresh), refresh.rules),
    decreases refresh.items.len(),
{
    if refresh.items.len() > 0 && refresh.items[0].wish_count < refresh.rules.threshold {
        lemma_next_item_goes_by(
            (RefreshView { items: refresh.items.drop_first(), ..refresh }).with_skipped(),
        );
    }
}

proof fn lemma_step_goes_by(step: RefreshStepView, event: RefreshEvent, rules: Rules)
    requires
        goes_by(step, rules),
    ensures
        goes_by(step_after(step, event), rules),
{
    match (step, event) {
        (RefreshStepView::Resolve { query, item, refresh }, RefreshEvent::Resolved(outcome)) => {
            match outcome {
                Err(error) => {
                    lemma_next_item_goes_by(refresh.with_failure(item.title + ": "@ + error));
                },
                Ok(media) => {
                    lemma_next_item_goes_by(refresh.with_skipped());
                    lemma_next_item_goes_by(refresh.with_failure(year_failure(item, media)));
                },
            }
        },
        (
            RefreshStepView::Subscribe { query, candidate, refresh },
            RefreshEvent::Subscribed(Err(error)),
        ) => {
            lemma_next_item_goes_by(
                refresh.with_failure(candidate.title() + ": 创建订阅失败: "@ + error),
            );
        },
        (
            RefreshStepView::AskTime { candidate, subscription, reminder, refresh },
            RefreshEvent::Time(processed_at),
        ) => {
            lemma_next_item_goes_by(
                RefreshView {
                    history: refresh.history.with_record(
                        crate::douban::refresh::record_of(
                            candidate,
                            subscription,
                            reminder,
                            processed_at,
                        ),
                        candidate.air_text(Seq::empty()),
                    ),
                    ..refresh
                },
            );
        },
        _ => {},
    }
}

proof fn lemma_steps_go_by(step: RefreshStepView, events: Seq<RefreshEvent>, rules: Rules)
    requires
        goes_by(step, rules),
    ensures
        goes_by(step_through(step, events), rules),
    decreases events.len(),
{
    if events.len() > 0 {
        lemma_step_goes_by(step, events[0], rules);
        lemma_steps_go_by(step_after(step, events[0]), events.drop_first(), rules);
    }
}

/// A refresh keeps to the rules of its settings to the end.
pub proof fn law_rules_are_kept(
    settings: Map<Seq<char>, JsonView>,
    history: HistoryView,
    items: Seq<ItemView>,
    existing: Seq<Seq<char>>,
    events: Seq<RefreshEvent>,
)
    ensures
        goes_by(
            step_through(first_step(settings, history, items, existing), events),
            rules_in(settings),
        ),
{
    let start = RefreshView {
        rules: rules_in(settings),
        items,
        existing,
        history,
        report: blank_report(items.len() as int),
    };
    lemma_next_item_goes_by(start);
    lemma_steps_go_by(next_item(start), events, rules_in(settings));
}

/// Whether two texts and a date make the key of a reminder: the id as it stands, and
/// the date.
pub open spec fn reminder_of(candidate: CandidateView) -> Seq<char> {
    candidate.media.tmdb_id + ":"@ + match candidate.air_date {
        Some(date) => date.text(),
        None => Seq::empty(),
    }
}

/// Once today's date is told, a series is subscribed to exactly where it is not yet
/// and its air date lies between today and as many days ahead as the settings say.
/// Else the record will say that it exists, that its date is unknown or that it is
/// not yet time.
pub proof fn law_series_are_subscribed_to_in_their_window(
    settings: Map<Seq<char>, JsonView>,
    history: HistoryView,
    items: Seq<ItemView>,
    existing: Seq<Seq<char>>,
    events: Seq<RefreshEvent>,
    candidate: CandidateView,
    refresh: RefreshView,
    today: DateView,
    id: Seq<char>,
    days: int,
)
    requires
        step_through(first_step(settings, history, items, existing), events)
            == (RefreshStepView::AskToday { candidate, refresh }),
        is_core(candidate.media.tmdb_id, id),
        asked_for(settings, "advance_days"@, 7, 0, days),
    ensures
        ({
            let known = refresh.existing.contains("tv:"@ + id + ":1"@);
            let near = candidate.air_date matches Some(date) && 0 <= date.number()
                - today.number() <= days;
            let step = step_after(
                RefreshStepView::AskToday { candidate, refresh },
                RefreshEvent::Today(today),
            );
            &&& !known && near ==> step == (RefreshStepView::Subscribe {
                query: subscription_query(candidate.item, candidate.media),
                candidate,
                refresh,
            })
            &&& known ==> step == to_remind(refresh, candidate, "已存在"@)
            &&& !known && !near ==> step == to_remind(
                refresh,
                candidate,
                if candidate.air_date is None {
                    "日期未知"@
                } else {
                    "未到订阅窗口"@
                },
            )
        }),
{
    law_rules_are_kept(settings, history, items, existing, events);
    law_rules_are_those_of_the_settings(settings);
    lemma_candidate_key(candidate, id);
}

proof fn lemma_candidate_key(candidate: CandidateView, id: Seq<char>)
    requires
        is_core(candidate.media.tmdb_id, id),
    ensures
        candidate.key() == "tv:"@ + id + ":1"@,
{
    law_trimmed_is_the_core(candidate.media.tmdb_id, id);
    reveal_strlit(":");
    reveal_strlit(":1");
    assert(decimal_int(1) =~= seq!['1']);
    assert("tv:"@ + id + ":"@ + decimal_int(1) =~= "tv:"@ + id + ":1"@);
}

/// A reminder is thought of exactly where the settings want reminders, the air date is
/// known and none was sent for that series and date.
pub proof fn law_reminders_are_thought_of(
    refresh: RefreshView,
    candidate: CandidateView,
    subscription: Seq<char>,
)
    ensures
        refresh.rules.notify && candidate.air_date is Some && !refresh.history.notified.contains(
            reminder_of(candidate),
        ) ==> to_remind(refresh, candidate, subscription) == (RefreshStepView::AskCountdown {
            candidate,
            subscription,
            refresh,
        }),
        !(refresh.rules.notify && candidate.air_date is Some
            && !refresh.history.notified.contains(reminder_of(candidate))) ==> to_remind(
            refresh,
            candidate,
            subscription,
        ) == (RefreshStepView::AskTime { candidate, subscription, reminder: "未提醒"@, refresh }),
{
    assert(candidate.reminder_key() == reminder_of(candidate));
}

/// A reminder is sent exactly where the air date begins now or within the hours that
/// the settings say; it tells the title, the date, how many want to watch, whether the
/// series is subscribed to, and the link.
pub proof fn law_reminders_are_sent_in_time(
    settings: Map<Seq<char>, JsonView>,
    history: HistoryView,
    items: Seq<ItemView>,
    existing: Seq<Seq<char>>,
    events: Seq<RefreshEvent>,
    candidate: CandidateView,
    subscription: Seq<char>,
    refresh: RefreshView,
    seconds: Option<int>,
    id: Seq<char>,
    hours: int,
)
    requires
        step_through(first_step(settings, history, items, existing), events)
            == (RefreshStepView::AskCountdown { candidate, subscription, refresh }),
        is_core(candidate.media.tmdb_id, id),
        asked_for(settings, "notify_hours"@, 24, 1, hours),
    ensures
        ({
            let due = seconds matches Some(n) && 0 <= n && n <= hours * 60 * 60;
            let step = step_after(
                RefreshStepView::AskCountdown { candidate, subscription, refresh },
                RefreshEvent::Countdown(seconds),
            );
            let content = "名称："@ + shown_title(candidate.item, candidate.media) + "\n开播日期："@ + (
            match candidate.air_date {
                Some(date) => date.text(),
                None => "-"@,
            }) + "\n想看人数："@ + decimal_int(candidate.item.wish_count) + "\n订阅状态："@ + (
            if refresh.existing.contains("tv:"@ + id + ":1"@) {
                "已订阅"@
            } else {
                "未订阅"@
            }) + "\n豆瓣链接："@ + candidate.item.link;
            &&& due ==> step == (RefreshStepView::Notify {
                query: notification_query(
                    "豆瓣将映提醒"@,
                    content,
                    candidate.media.poster_path,
                ),
                candidate,
                subscription,
                refresh,
            })
            &&& !due ==> step == (RefreshStepView::AskTime {
                candidate,
                subscription,
                reminder: "未提醒"@,
                refresh,
            })
        }),
{
    law_rules_are_kept(settings, history, items, existing, events);
    law_rules_are_those_of_the_settings(settings);
    lemma_candidate_key(candidate, id);
    assert(hours * 60 * 60 == hours * 3600) by (nonlinear_arith);
}

/// Items are taken up one by one and in order: one that too few people want to watch
/// is passed over and counted, any other is counted and resolved; without an item the
/// refresh ends, counted as one run more, with the latest two thousand records.
pub proof fn law_items_are_taken_up_in_order(
    refresh: RefreshView,
    item: ItemView,
    rest: Seq<ItemView>,
)
    ensures
        ({
            let few = item.wish_count < refresh.rules.threshold;
            let step = next_item(RefreshView { items: seq![item] + rest, ..refresh });
            &&& few ==> step == next_item(
                RefreshView {
                    items: rest,
                    report: ReportView { skipped: refresh.report.skipped + 1, ..refresh.report },
                    ..refresh
                },
            )
            &&& !few ==> step == (RefreshStepView::Resolve {
                query: resolve_query(item),
                item,
                refresh: RefreshView {
                    items: rest,
                    report: ReportView {
                        considered: refresh.report.considered + 1,
                        ..refresh.report
                    },
                    ..refresh
                },
            })
        }),
        ({
            let all = refresh.history.records;
            let step = next_item(RefreshView { items: Seq::empty(), ..refresh });
            &&& step matches RefreshStepView::Finish { history, report }
            &&& report == refresh.report
            &&& history.runs == refresh.history.runs + 1
            &&& history.subscribed == refresh.history.subscribed
            &&& history.notifications == refresh.history.notifications
            &&& history.notified == refresh.history.notified
            &&& history.records.len() == if all.len() < 2000 {
                all.len()
            } else {
                2000
            }
            &&& forall|i: int|
                0 <= i < history.records.len() ==> #[trigger] history.records[i] == all[i]
        }),
{
    assert((seq![item] + rest).drop_first() =~= rest);
}

/// An item with a threshold of the settings: it is resolved exactly where at least
/// that many want to watch it.
pub proof fn law_first_item_is_resolved_if_wanted(
    settings: Map<Seq<char>, JsonView>,
    history: HistoryView,
    item: ItemView,
    rest: Seq<ItemView>,
    existing: Seq<Seq<char>>,
    threshold: int,
)
    requires
        asked_for(settings, "wish_count_threshold"@, 5000, 0, threshold),
    ensures
        item.wish_count >= threshold <==> (first_step(
            settings,
            history,
            seq![item] + rest,
            existing,
        ) matches RefreshStepView::Resolve { query, item: taken, refresh } && taken == item
            && refresh.items == rest && refresh.existing == existing && refresh.history == history
            && refresh.report.considered == 1 && refresh.report.skipped == 0
            && refresh.report.fetched == rest.len() + 1),
{
    law_rules_are_those_of_the_settings(settings);
    let start = RefreshView {
        rules: rules_in(settings),
        items: seq![item] + rest,
        existing,
        history,
        report: blank_report((seq![item] + rest).len() as int),
    };
    law_items_are_taken_up_in_order(start, item, rest);
    let skipped = RefreshView {
        items: rest,
        report: ReportView { skipped: start.report.skipped + 1, ..start.report },
        ..start
    };
    lemma_skips_only_grow(skipped);
}

proof fn lemma_skips_only_grow(refresh: RefreshView)
    ensures
        refresh_at(next_item(refresh)) matches Some(later) ==> later.report.skipped
            >= refresh.report.skipped,
    decreases refresh.items.len(),
{
    if refresh.items.len() > 0 && refresh.items[0].wish_count < refresh.rules.threshold {
        lemma_skips_only_grow(
            (RefreshView { items: refresh.items.drop_first(), ..refresh }).with_skipped(),
        );
    }
}

/// A resolved item is passed over where it is no series, and fails where feed and TMDB
/// tell different years; else its air date is looked for with TMDB, then in the
/// description, then on its page.
pub proof fn law_resolved_items_are_dated(
    refresh: RefreshView,
    item: ItemView,
    media: MediaView,
    error: Seq<char>,
)
    ensures
        ({
            let failed = RefreshView {
                report: ReportView {
                    failures: refresh.report.failures.push(item.title + ": "@ + error),
                    ..refresh.report
                },
                ..refresh
            };
            after_resolved(refresh, item, Err(error)) == next_item(failed)
        }),
        !is_series(media) ==> after_resolved(refresh, item, Ok(media)) == next_item(
            RefreshView {
                report: ReportView { skipped: refresh.report.skipped + 1, ..refresh.report },
                ..refresh
            },
        ),
        is_series(media) && item.year is Some && media.year is Some && item.year != media.year
            ==> after_resolved(refresh, item, Ok(media)) == next_item(
            RefreshView {
                report: ReportView {
                    failures: refresh.report.failures.push(
                        item.title + ": TMDB 年份不一致（RSS "@ + decimal_int(item.year->0) + "，TMDB "@
                            + decimal_int(media.year->0) + "）"@,
                    ),
                    ..refresh.report
                },
                ..refresh
            },
        ),
        is_series(media) && (item.year is None || media.year is None || item.year == media.year)
            ==> {
            let step = after_resolved(refresh, item, Ok(media));
            let told = if tmdb_air_date(media) is Some {
                tmdb_air_date(media)
            } else {
                date_in_text(item.description)
            };
            &&& told is Some ==> step == (RefreshStepView::AskToday {
                candidate: CandidateView { item, media, air_date: told },
                refresh,
            })
            &&& told is None && page_address(item.link) is Some ==> step == (
            RefreshStepView::FetchPage { url: page_address(item.link)->0, item, media, refresh })
            &&& told is None && page_address(item.link) is None ==> undated(
                refresh,
                CandidateView { item, media, air_date: None },
                step,
            )
        },
{
}

/// Whether `step` is what follows where the air date of a series stays unknown: no
/// subscription and no reminder, and the record will say whether it exists.
pub open spec fn undated(
    refresh: RefreshView,
    candidate: CandidateView,
    step: RefreshStepView,
) -> bool {
    step == (RefreshStepView::AskTime {
        candidate,
        subscription: if refresh.existing.contains(candidate.key()) {
            "已存在"@
        } else {
            "日期未知"@
        },
        reminder: "未提醒"@,
        refresh,
    })
}

/// A page that was fetched tells the air date, where there is one on it.
pub proof fn law_pages_tell_dates(
    refresh: RefreshView,
    item: ItemView,
    media: MediaView,
    html: Seq<char>,
)
    ensures
        date_in_page(html) is Some ==> after_page(refresh, item, media, Some(html)) == (
        RefreshStepView::AskToday {
            candidate: CandidateView { item, media, air_date: date_in_page(html) },
            refresh,
        }),
        date_in_page(html) is None ==> undated(
            refresh,
            CandidateView { item, media, air_date: None },
            after_page(refresh, item, media, Some(html)),
        ),
        undated(
            refresh,
            CandidateView { item, media, air_date: None },
            after_page(refresh, item, media, None),
        ),
{
}

/// A subscription that was made is counted and remembered, and noted as made; one that
/// failed is a failure of the refresh, and the next item is taken up.
pub proof fn law_subscriptions_are_noted(
    refresh: RefreshView,
    candidate: CandidateView,
    error: Seq<char>,
    id: Seq<char>,
)
    requires
        is_core(candidate.media.tmdb_id, id),
        !refresh.existing.contains("tv:"@ + id + ":1"@),
    ensures
        after_subscribed(refresh, candidate, Ok(())) == to_remind(
            RefreshView {
                existing: refresh.existing.push("tv:"@ + id + ":1"@),
                history: HistoryView {
                    subscribed: refresh.history.subscribed + 1,
                    ..refresh.history
                },
                report: ReportView {
                    subscribed: refresh.report.subscribed + 1,
                    ..refresh.report
                },
                ..refresh
            },
            candidate,
            "已创建"@,
        ),
        after_subscribed(refresh, candidate, Err(error)) == next_item(
            RefreshView {
                report: ReportView {
                    failures: refresh.report.failures.push(
                        shown_title(candidate.item, candidate.media) + ": 创建订阅失败: "@ + error,
                    ),
                    ..refresh.report
                },
                ..refresh
            },
        ),
{
    lemma_candidate_key(candidate, id);
}

/// A reminder that was sent is counted and remembered, and noted as sent.
pub proof fn law_sent_reminders_are_noted(
    refresh: RefreshView,
    candidate: CandidateView,
    subscription: Seq<char>,
)
    requires
        !refresh.history.notified.contains(reminder_of(candidate)),
    ensures
        after_notified(refresh, candidate, subscription) == (RefreshStepView::AskTime {
            candidate,
            subscription,
            reminder: "已发送"@,
            refresh: RefreshView {
                history: HistoryView {
                    notified: refresh.history.notified.push(reminder_of(candidate)),
                    notifications: refresh.history.notifications + 1,
                    ..refresh.history
                },
                report: ReportView {
                    notifications: refresh.report.notifications + 1,
                    ..refresh.report
                },
                ..refresh
            },
        }),
{
    assert(candidate.reminder_key() == reminder_of(candidate));
}

/// A series is recorded first, with its title, how many want to watch it, its air date
/// and what was done about it; records of the same title and date make room for it,
/// all others stay in order. Then the next item is taken up.
pub proof fn law_series_are_recorded(
    refresh: RefreshView,
    candidate: CandidateView,
    subscription: Seq<char>,
    reminder: Seq<char>,
    processed_at: Seq<char>,
)
    ensures
        ({
            let title = shown_title(candidate.item, candidate.media);
            let (shown, replaced) = match candidate.air_date {
                Some(date) => (date.text(), date.text()),
                None => ("未知"@, Seq::empty()),
            };
            let record = RecordView {
                title,
                wish_count: candidate.item.wish_count,
                air_date: shown,
                subscription,
                reminder,
                processed_at,
            };
            let others = refresh.history.records.filter(
                |r: RecordView| !(r.title == title && r.air_date == replaced),
            );
            after_time(refresh, candidate, subscription, reminder, processed_at) == next_item(
                RefreshView {
                    history: HistoryView { records: seq![record] + others, ..refresh.history },
                    ..refresh
                },
            )
        }),
{
    let title = shown_title(candidate.item, candidate.media);
    let replaced = candidate.air_text(Seq::empty());
    let p = |r: RecordView| !(r.title == title && r.air_date == replaced);
    let q = |r: RecordView| r.title != title || r.air_date != replaced;
    assert(p =~= q);
}

/// A refresh begins with nothing reported but how many items were fetched, and a
/// history begins with nothing at all.
pub proof fn law_nothing_is_done_to_begin_with(fetched: int)
    ensures
        ({
            let report = blank_report(fetched);
            &&& report.fetched == fetched
            &&& report.considered == 0 && report.skipped == 0
            &&& report.subscribed == 0 && report.notifications == 0
            &&& report.failures.len() == 0
        }),
        ({
            let history = blank_history();
            &&& history.runs == 0 && history.subscribed == 0 && history.notifications == 0
            &&& history.notified.len() == 0
            &&& history.records.len() == 0
        }),
{
}

/// The result of a refresh tells every count and every failure of its report; its
/// notice tells how many were fetched, subscribed to and reminded of.
pub proof fn law_refreshes_report(report: ReportView)
    requires
        report.fetched >= 0,
        report.subscribed >= 0,
        report.notifications >= 0,
    ensures
        ({
            let result = result_of(report);
            let told = result->Object_0["report"@];
            &&& holds(
                result,
                "notice"@,
                JsonView::Text(
                    "豆瓣将映刷新完成：获取 "@ + decimal_int(report.fetched) + "，新增订阅 "@ + decimal_int(
                        report.subscribed,
                    ) + "，发送提醒 "@ + decimal_int(report.notifications) + "。"@,
                ),
            )
            &&& has_field(result, "report"@)
            &&& holds(told, "fetched"@, JsonView::Int(report.fetched))
            &&& holds(told, "considered"@, JsonView::Int(report.considered))
            &&& holds(told, "subscribed"@, JsonView::Int(report.subscribed))
            &&& holds(told, "notifications"@, JsonView::Int(report.notifications))
            &&& holds(told, "skipped"@, JsonView::Int(report.skipped))
            &&& holds(
                told,
                "failures"@,
                JsonView::Array(report.failures.map_values(|s: Seq<char>| JsonView::Text(s))),
            )
        }),
{
    reveal_strlit("notice");
    reveal_strlit("report");
    assert("notice"@[0] != "report"@[0]);
    reveal_strlit("fetched");
    reveal_strlit("considered");
    reveal_strlit("subscribed");
    reveal_strlit("notifications");
    reveal_strlit("skipped");
    reveal_strlit("failures");
    assert("fetched"@.len() == 7 && "considered"@.len() == 10 && "subscribed"@.len() == 10
        && "notifications"@.len() == 13 && "skipped"@.len() == 7 && "failures"@.len() == 8);
    assert("fetched"@[0] != "skipped"@[0]);
    assert("considered"@[0] != "subscribed"@[0]);
}

/// A refresh begins with the stored history, and with none exactly where the settings
/// ask for it to be cleared.
pub proof fn law_history_to_begin_with(
    settings: Map<Seq<char>, JsonView>,
    stored: HistoryView,
)
    ensures
        ({
            let begun = history_to_begin_with(settings, stored);
            if settings.contains_key("clear"@) && settings["clear"@] == JsonView::Bool(true) {
                &&& begun.runs == 0
                &&& begun.subscribed == 0
                &&& begun.notifications == 0
                &&& begun.records.len() == 0
                &&& begun.notified.len() == 0
            } else {
                begun == stored
            }
        }),
{
}

/// A request to Mediary goes to its address, however many slashes end that, and the
/// path.
pub proof fn law_request_addresses(base: Seq<char>, slashes: Seq<char>, path: Seq<char>)
    requires
        all_of(slashes, |c: char| c == '/'),
        base.len() > 0 ==> base.last() != '/',
    ensures
        request_address(base + slashes, path) == base + path,
{
    law_drop_trailing(base, slashes, |c: char| c == '/');
}

} // verus!
