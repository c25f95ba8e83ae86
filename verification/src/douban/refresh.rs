//! A refresh: every item of the feed that enough people want to watch is resolved
//! to a series, subscribed to when it is about to air, and reminded of once.
//!
//! A refresh is a chain of steps. Each step names one request to make, or one
//! thing to find out, and holds what continues the refresh once that is done.
use vstd::prelude::*;

use super::date::{days_until, opt_date, opt_int, Date, DateView};
use super::extract::{date_in_page, date_in_text, extract_date, extract_douban_date};
use super::history::{
    blank_history, blank_report, law_adding_keeps_listed_once, listed_once, History, HistoryView,
    Record, RecordView, Report, ReportView,
};
use super::media::{
    create_subscription, is_series, is_tv, media_air_date, notification_query,
    notification_request, page_address, page_url, resolve_query, resolve_request, season_key,
    shown_title, subscription_key, subscription_query, title_for, tmdb_air_date, MediaView,
    ResolvedMedia,
};
use super::rss::{item_views, FeedItem, ItemView};
use crate::json::{opt_text, Json, JsonObject, JsonView};
use crate::names::{listed_with, NameSet};
use crate::settings::{bool_setting, int_setting, setting_bool, setting_i64};
use crate::text::{decimal_i64, decimal_int};

verus! {

/// What the settings ask for.
#[derive(Debug, Clone, Copy)]
pub struct Rules {
    /// How many people must want to watch a series.
    pub threshold: i64,
    /// How many days ahead a series is subscribed to.
    pub advance_days: i64,
    /// Whether the user is reminded at all.
    pub notify: bool,
    /// How many hours ahead the user is reminded.
    pub notify_hours: i64,
}

/// The number of a setting, and at least `low`.
pub open spec fn at_least(
    settings: Map<Seq<char>, JsonView>,
    key: Seq<char>,
    default: int,
    low: int,
) -> int {
    let n = int_setting(settings, key, default, i64::MIN as int, i64::MAX as int);
    if n < low {
        low
    } else {
        n
    }
}

/// What the settings ask for.
pub open spec fn rules_in(settings: Map<Seq<char>, JsonView>) -> Rules {
    Rules {
        threshold: at_least(settings, "wish_count_threshold"@, 5000, 0) as i64,
        advance_days: at_least(settings, "advance_days"@, 7, 0) as i64,
        notify: bool_setting(settings, "notify_before_air"@, true),
        notify_hours: at_least(settings, "notify_hours"@, 24, 1) as i64,
    }
}

/// The number of a setting, and at least `low`.
fn setting_at_least(settings: &JsonObject, key: &str, default: i64, low: i64) -> (r: i64)
    ensures
        r == at_least(settings.members(), key@, default as int, low as int),
{
    let n: i64 = setting_i64(settings, key, default);
    if n < low {
        low
    } else {
        n
    }
}

impl Rules {
    /// What the settings ask for.
    pub fn from_settings(settings: &JsonObject) -> (r: Rules)
        ensures
            r == rules_in(settings.members()),
            r.threshold >= 0,
            r.advance_days >= 0,
            r.notify_hours >= 1,
    {
        Rules {
            threshold: setting_at_least(settings, "wish_count_threshold", 5000, 0),
            advance_days: setting_at_least(settings, "advance_days", 7, 0),
            notify: setting_bool(settings, "notify_before_air", true),
            notify_hours: setting_at_least(settings, "notify_hours", 24, 1),
        }
    }
}

/// A refresh between steps.
#[derive(Debug)]
pub struct Refresh {
    pub rules: Rules,
    /// The items that are still to be dealt with.
    pub items: Vec<FeedItem>,
    /// The keys of the series that are subscribed to.
    pub existing: NameSet,
    pub history: History,
    pub report: Report,
}

#[verifier::ext_equal]
pub struct RefreshView {
    pub rules: Rules,
    pub items: Seq<ItemView>,
    pub existing: Seq<Seq<char>>,
    pub history: HistoryView,
    pub report: ReportView,
}

impl View for Refresh {
    type V = RefreshView;

    open spec fn view(&self) -> RefreshView {
        RefreshView {
            rules: self.rules,
            items: item_views(self.items@),
            existing: self.existing@,
            history: self.history@,
            report: self.report@,
        }
    }
}

impl RefreshView {
    /// Whether the counts can take one more item each, beyond those still to be
    /// dealt with.
    pub open spec fn has_room(self, skipped: int, subscribed: int, notifications: int) -> bool {
        let n = self.items.len() as int;
        &&& self.report.fetched <= usize::MAX
        &&& self.report.considered + n <= self.report.fetched
        &&& self.report.skipped + n + skipped <= self.report.fetched
        &&& self.report.subscribed + n + subscribed <= self.report.fetched
        &&& self.report.notifications + n + notifications <= self.report.fetched
        &&& self.history.runs < usize::MAX
    }

    /// This refresh with one more failure.
    pub open spec fn with_failure(self, failure: Seq<char>) -> RefreshView {
        RefreshView {
            report: ReportView { failures: self.report.failures.push(failure), ..self.report },
            ..self
        }
    }

    /// This refresh with one more item that was passed over.
    pub open spec fn with_skipped(self) -> RefreshView {
        RefreshView {
            report: ReportView { skipped: self.report.skipped + 1, ..self.report },
            ..self
        }
    }

    /// This refresh with one more item that was taken up.
    pub open spec fn with_considered(self) -> RefreshView {
        RefreshView {
            report: ReportView { considered: self.report.considered + 1, ..self.report },
            ..self
        }
    }

    /// This refresh with a new subscription under `key`.
    pub open spec fn with_subscription(self, key: Seq<char>) -> RefreshView {
        RefreshView {
            existing: listed_with(self.existing, key),
            history: self.history.with_subscription(),
            report: ReportView { subscribed: self.report.subscribed + 1, ..self.report },
            ..self
        }
    }

    /// This refresh with the reminder `key` sent.
    pub open spec fn with_reminder(self, key: Seq<char>) -> RefreshView {
        RefreshView {
            history: self.history.with_reminder(key),
            report: ReportView { notifications: self.report.notifications + 1, ..self.report },
            ..self
        }
    }
}

/// A feed item that was resolved to a series, and when that airs.
#[derive(Debug)]
pub struct Candidate {
    pub item: FeedItem,
    pub media: ResolvedMedia,
    pub air_date: Option<Date>,
}

#[verifier::ext_equal]
pub struct CandidateView {
    pub item: ItemView,
    pub media: MediaView,
    pub air_date: Option<DateView>,
}

impl View for Candidate {
    type V = CandidateView;

    open spec fn view(&self) -> CandidateView {
        CandidateView {
            item: self.item@,
            media: self.media@,
            air_date: opt_date(self.air_date),
        }
    }
}

impl CandidateView {
    /// The title that is shown.
    pub open spec fn title(self) -> Seq<char> {
        shown_title(self.item, self.media)
    }

    /// The key of its subscription.
    pub open spec fn key(self) -> Seq<char> {
        season_key(self.media.tmdb_id, 1)
    }

    /// The text of its air date, or `unknown` where that is not known.
    pub open spec fn air_text(self, unknown: Seq<char>) -> Seq<char> {
        match self.air_date {
            Some(date) => date.text(),
            None => unknown,
        }
    }

    /// The key of its reminder.
    pub open spec fn reminder_key(self) -> Seq<char> {
        self.media.tmdb_id + ":"@ + self.air_text(Seq::empty())
    }
}

/// What a refresh is to do next, and how it goes on.
#[derive(Debug)]
pub enum RefreshStep {
    /// Post `query` to `/tmdb/resolve`; go on with `resolved`.
    Resolve { query: Json, item: FeedItem, refresh: Refresh },
    /// Fetch the page at `url`; go on with `page_fetched`.
    FetchPage { url: String, item: FeedItem, media: ResolvedMedia, refresh: Refresh },
    /// Find out today's date; go on with `today_told`.
    AskToday { candidate: Candidate, refresh: Refresh },
    /// Post `query` to `/subscriptions`; go on with `subscribed`.
    Subscribe { query: Json, candidate: Candidate, refresh: Refresh },
    /// Find out how many seconds are left until the air date begins; go on with
    /// `countdown_told`.
    AskCountdown { candidate: Candidate, subscription: String, refresh: Refresh },
    /// Post `query` to `/plugin/notifications`; go on with `notified`.
    Notify { query: Json, candidate: Candidate, subscription: String, refresh: Refresh },
    /// Find out the time; go on with `time_told`.
    AskTime { candidate: Candidate, subscription: String, reminder: String, refresh: Refresh },
    /// The refresh is over: store the history and print the report.
    Finish { history: History, report: Report },
}

pub enum RefreshStepView {
    Resolve { query: JsonView, item: ItemView, refresh: RefreshView },
    FetchPage { url: Seq<char>, item: ItemView, media: MediaView, refresh: RefreshView },
    AskToday { candidate: CandidateView, refresh: RefreshView },
    Subscribe { query: JsonView, candidate: CandidateView, refresh: RefreshView },
    AskCountdown { candidate: CandidateView, subscription: Seq<char>, refresh: RefreshView },
    Notify {
        query: JsonView,
        candidate: CandidateView,
        subscription: Seq<char>,
        refresh: RefreshView,
    },
    AskTime {
        candidate: CandidateView,
        subscription: Seq<char>,
        reminder: Seq<char>,
        refresh: RefreshView,
    },
    Finish { history: HistoryView, report: ReportView },
}

impl View for RefreshStep {
    type V = RefreshStepView;

    open spec fn view(&self) -> RefreshStepView {
        match self {
            RefreshStep::Resolve { query, item, refresh } => RefreshStepView::Resolve {
                query: query@,
                item: item@,
                refresh: refresh@,
            },
            RefreshStep::FetchPage { url, item, media, refresh } => RefreshStepView::FetchPage {
                url: url@,
                item: item@,
                media: media@,
                refresh: refresh@,
            },
            RefreshStep::AskToday { candidate, refresh } => RefreshStepView::AskToday {
                candidate: candidate@,
                refresh: refresh@,
            },
            RefreshStep::Subscribe { query, candidate, refresh } => RefreshStepView::Subscribe {
                query: query@,
                candidate: candidate@,
                refresh: refresh@,
            },
            RefreshStep::AskCountdown { candidate, subscription, refresh } =>
            RefreshStepView::AskCountdown {
                candidate: candidate@,
                subscription: subscription@,
                refresh: refresh@,
            },
            RefreshStep::Notify { query, candidate, subscription, refresh } =>
            RefreshStepView::Notify {
                query: query@,
                candidate: candidate@,
                subscription: subscription@,
                refresh: refresh@,
            },
            RefreshStep::AskTime { candidate, subscription, reminder, refresh } =>
            RefreshStepView::AskTime {
                candidate: candidate@,
                subscription: subscription@,
                reminder: reminder@,
                refresh: refresh@,
            },
            RefreshStep::Finish { history, report } => RefreshStepView::Finish {
                history: history@,
                report: report@,
            },
        }
    }
}

/// The step with which a refresh goes on: items that too few people want to
/// watch are passed over, the next one is resolved, and the refresh ends where
/// none is left.
pub open spec fn next_item(refresh: RefreshView) -> RefreshStepView
    decreases refresh.items.len(),
{
    if refresh.items.len() == 0 {
        RefreshStepView::Finish { history: refresh.history.closed_run(), report: refresh.report }
    } else {
        let item = refresh.items[0];
        let rest = RefreshView { items: refresh.items.drop_first(), ..refresh };
        if item.wish_count < refresh.rules.threshold {
            next_item(rest.with_skipped())
        } else {
            RefreshStepView::Resolve {
                query: resolve_query(item),
                item,
                refresh: rest.with_considered(),
            }
        }
    }
}

/// The first step of a refresh.
pub open spec fn first_step(
    settings: Map<Seq<char>, JsonView>,
    history: HistoryView,
    items: Seq<ItemView>,
    existing: Seq<Seq<char>>,
) -> RefreshStepView {
    next_item(
        RefreshView {
            rules: rules_in(settings),
            items,
            existing,
            history,
            report: blank_report(items.len() as int),
        },
    )
}

/// Whether two years are told and differ.
pub open spec fn years_differ(a: Option<int>, b: Option<int>) -> bool {
    match (a, b) {
        (Some(a), Some(b)) => a != b,
        _ => false,
    }
}

/// The failure where the feed and TMDB tell different years.
pub open spec fn year_failure(item: ItemView, media: MediaView) -> Seq<char> {
    item.title + ": TMDB 年份不一致（RSS "@ + decimal_int(item.year->0) + "，TMDB "@ + decimal_int(
        media.year->0,
    ) + "）"@
}

/// The air date that can be told without the page: TMDB's, or else the one in the
/// feed's description.
pub open spec fn known_air_date(item: ItemView, media: MediaView) -> Option<DateView> {
    match tmdb_air_date(media) {
        Some(date) => Some(date),
        None => date_in_text(item.description),
    }
}

/// The step after the item was resolved, or not.
pub open spec fn after_resolved(
    refresh: RefreshView,
    item: ItemView,
    outcome: Result<MediaView, Seq<char>>,
) -> RefreshStepView {
    match outcome {
        Err(error) => next_item(refresh.with_failure(item.title + ": "@ + error)),
        Ok(media) => if !is_series(media) {
            next_item(refresh.with_skipped())
        } else if years_differ(item.year, media.year) {
            next_item(refresh.with_failure(year_failure(item, media)))
        } else {
            match (known_air_date(item, media), page_address(item.link)) {
                (None, Some(url)) => RefreshStepView::FetchPage { url, item, media, refresh },
                (air_date, _) => dated(refresh, CandidateView { item, media, air_date }),
            }
        },
    }
}

/// The step once all is known of the air date that can be.
pub open spec fn dated(refresh: RefreshView, candidate: CandidateView) -> RefreshStepView {
    if candidate.air_date is Some {
        RefreshStepView::AskToday { candidate, refresh }
    } else {
        decided(refresh, candidate, None)
    }
}

/// The date on a page, where the page was fetched.
pub open spec fn page_date(html: Option<Seq<char>>) -> Option<DateView> {
    match html {
        Some(html) => date_in_page(html),
        None => None,
    }
}

/// The step after the page was fetched, or not.
pub open spec fn after_page(
    refresh: RefreshView,
    item: ItemView,
    media: MediaView,
    html: Option<Seq<char>>,
) -> RefreshStepView {
    dated(refresh, CandidateView { item, media, air_date: page_date(html) })
}

/// Whether a series is to be subscribed to: it is not yet, and it airs within the
/// days ahead.
pub open spec fn to_subscribe(
    refresh: RefreshView,
    candidate: CandidateView,
    days: Option<int>,
) -> bool {
    &&& !refresh.existing.contains(candidate.key())
    &&& days matches Some(n) && 0 <= n <= refresh.rules.advance_days
}

/// What is noted of the subscription of a series that is not subscribed to now.
pub open spec fn standing(
    refresh: RefreshView,
    candidate: CandidateView,
    days: Option<int>,
) -> Seq<char> {
    if refresh.existing.contains(candidate.key()) {
        "已存在"@
    } else if days is None {
        "日期未知"@
    } else {
        "未到订阅窗口"@
    }
}

/// The step once it is known in how many days the series airs.
pub open spec fn decided(
    refresh: RefreshView,
    candidate: CandidateView,
    days: Option<int>,
) -> RefreshStepView {
    if to_subscribe(refresh, candidate, days) {
        RefreshStepView::Subscribe {
            query: subscription_query(candidate.item, candidate.media),
            candidate,
            refresh,
        }
    } else {
        to_remind(refresh, candidate, standing(refresh, candidate, days))
    }
}

/// The number of days from `today` to the air date.
pub open spec fn days_ahead(candidate: CandidateView, today: DateView) -> Option<int> {
    match candidate.air_date {
        Some(date) => Some(date.number() - today.number()),
        None => None,
    }
}

/// The step once today's date is known.
pub open spec fn after_today(
    refresh: RefreshView,
    candidate: CandidateView,
    today: DateView,
) -> RefreshStepView {
    decided(refresh, candidate, days_ahead(candidate, today))
}

/// The step after the series was subscribed to, or not.
pub open spec fn after_subscribed(
    refresh: RefreshView,
    candidate: CandidateView,
    outcome: Result<(), Seq<char>>,
) -> RefreshStepView {
    match outcome {
        Ok(_) => to_remind(refresh.with_subscription(candidate.key()), candidate, "已创建"@),
        Err(error) => next_item(
            refresh.with_failure(candidate.title() + ": 创建订阅失败: "@ + error),
        ),
    }
}

/// The step once the subscription is settled: a reminder is thought of where the
/// user wants one, none was sent and the air date is known.
pub open spec fn to_remind(
    refresh: RefreshView,
    candidate: CandidateView,
    subscription: Seq<char>,
) -> RefreshStepView {
    if refresh.rules.notify && !refresh.history.notified.contains(candidate.reminder_key())
        && candidate.air_date is Some {
        RefreshStepView::AskCountdown { candidate, subscription, refresh }
    } else {
        RefreshStepView::AskTime { candidate, subscription, reminder: "未提醒"@, refresh }
    }
}

/// Whether the air date begins within the hours ahead.
pub open spec fn due(seconds: Option<int>, hours: int) -> bool {
    seconds matches Some(n) && 0 <= n <= hours * 3600
}

/// Whether the air date begins within the hours ahead.
pub fn reminder_due(seconds: Option<i64>, hours: i64) -> (r: bool)
    ensures
        r == due(opt_int(seconds), hours as int),
{
    match seconds {
        Some(n) => 0 <= n && n as i128 <= hours as i128 * 3600,
        None => false,
    }
}

/// What a reminder says.
pub open spec fn reminder_text(refresh: RefreshView, candidate: CandidateView) -> Seq<char> {
    "名称："@ + candidate.title() + "\n开播日期："@ + candidate.air_text("-"@) + "\n想看人数："@
        + decimal_int(candidate.item.wish_count) + "\n订阅状态："@ + (if refresh.existing.contains(
        candidate.key(),
    ) {
        "已订阅"@
    } else {
        "未订阅"@
    }) + "\n豆瓣链接："@ + candidate.item.link
}

/// The step once it is known how many seconds are left.
pub open spec fn after_countdown(
    refresh: RefreshView,
    candidate: CandidateView,
    subscription: Seq<char>,
    seconds: Option<int>,
) -> RefreshStepView {
    if due(seconds, refresh.rules.notify_hours as int) {
        RefreshStepView::Notify {
            query: notification_query(
                "豆瓣将映提醒"@,
                reminder_text(refresh, candidate),
                candidate.media.poster_path,
            ),
            candidate,
            subscription,
            refresh,
        }
    } else {
        RefreshStepView::AskTime { candidate, subscription, reminder: "未提醒"@, refresh }
    }
}

/// The step after the reminder was sent.
pub open spec fn after_notified(
    refresh: RefreshView,
    candidate: CandidateView,
    subscription: Seq<char>,
) -> RefreshStepView {
    RefreshStepView::AskTime {
        candidate,
        subscription,
        reminder: "已发送"@,
        refresh: refresh.with_reminder(candidate.reminder_key()),
    }
}

/// What is recorded of a series.
pub open spec fn record_of(
    candidate: CandidateView,
    subscription: Seq<char>,
    reminder: Seq<char>,
    processed_at: Seq<char>,
) -> RecordView {
    RecordView {
        title: candidate.title(),
        wish_count: candidate.item.wish_count,
        air_date: candidate.air_text("未知"@),
        subscription,
        reminder,
        processed_at,
    }
}

/// The step once the time is known: the series is recorded, and the next item is
/// taken up.
pub open spec fn after_time(
    refresh: RefreshView,
    candidate: CandidateView,
    subscription: Seq<char>,
    reminder: Seq<char>,
    processed_at: Seq<char>,
) -> RefreshStepView {
    next_item(
        RefreshView {
            history: refresh.history.with_record(
                record_of(candidate, subscription, reminder, processed_at),
                candidate.air_text(Seq::empty()),
            ),
            ..refresh
        },
    )
}

/// Whether the counts of the refresh at a step have room for what may come.
pub open spec fn has_room(step: RefreshStepView) -> bool {
    match step {
        RefreshStepView::Resolve { query, item, refresh } => refresh.has_room(1, 1, 1),
        RefreshStepView::FetchPage { url, item, media, refresh } => refresh.has_room(1, 1, 1),
        RefreshStepView::AskToday { candidate, refresh } => refresh.has_room(0, 1, 1),
        RefreshStepView::Subscribe { query, candidate, refresh } => refresh.has_room(0, 1, 1),
        RefreshStepView::AskCountdown { candidate, subscription, refresh } => refresh.has_room(
            0,
            0,
            1,
        ),
        RefreshStepView::Notify { query, candidate, subscription, refresh } => refresh.has_room(
            0,
            0,
            1,
        ),
        RefreshStepView::AskTime { candidate, subscription, reminder, refresh } =>
        refresh.has_room(0, 0, 0),
        RefreshStepView::Finish { history, report } => true,
    }
}

proof fn lemma_next_item_has_room(refresh: RefreshView)
    requires
        refresh.has_room(0, 0, 0),
    ensures
        has_room(next_item(refresh)),
    decreases refresh.items.len(),
{
    if refresh.items.len() > 0 && refresh.items[0].wish_count < refresh.rules.threshold {
        lemma_next_item_has_room(
            (RefreshView { items: refresh.items.drop_first(), ..refresh }).with_skipped(),
        );
    }
}

impl Candidate {
    /// The title that is shown.
    fn title(&self) -> (r: String)
        ensures
            r@ == self@.title(),
    {
        title_for(&self.item, &self.media)
    }

    /// The key of its subscription.
    fn key(&self) -> (r: String)
        ensures
            r@ == self@.key(),
    {
        subscription_key(self.media.tmdb_id.as_str(), 1)
    }

    /// The text of its air date, or `unknown` where that is not known.
    fn air_text(&self, unknown: &str) -> (r: String)
        ensures
            r@ == self@.air_text(unknown@),
    {
        match &self.air_date {
            Some(date) => date.text(),
            None => unknown.to_owned(),
        }
    }

    /// The key of its reminder.
    fn reminder_key(&self) -> (r: String)
        ensures
            r@ == self@.reminder_key(),
    {
        proof {
            reveal_strlit("");
            assert(""@ =~= Seq::<char>::empty());
        }
        self.media.tmdb_id.clone().concat(":").concat(self.air_text("").as_str())
    }
}

/// The series of an outcome, or its error.
pub open spec fn outcome_view(outcome: Result<ResolvedMedia, String>) -> Result<
    MediaView,
    Seq<char>,
> {
    match outcome {
        Ok(media) => Ok(media@),
        Err(error) => Err(error@),
    }
}

/// The success of an outcome, or its error.
pub open spec fn done_view(outcome: Result<(), String>) -> Result<(), Seq<char>> {
    match outcome {
        Ok(_) => Ok(()),
        Err(error) => Err(error@),
    }
}

/// Whether `n` and `more` fit under `limit` together with `count`.
fn fits(count: usize, n: usize, more: usize, limit: usize) -> (r: bool)
    ensures
        r == (count + n + more <= limit),
{
    count <= limit && n <= limit - count && more <= limit - count - n
}

impl RefreshStep {
    /// Whether the counts at this step have room for what may come.
    pub fn has_room(&self) -> (r: bool)
        ensures
            r == has_room(self@),
    {
        match self {
            RefreshStep::Resolve { query, item, refresh } => refresh.has_room(1, 1, 1),
            RefreshStep::FetchPage { url, item, media, refresh } => refresh.has_room(1, 1, 1),
            RefreshStep::AskToday { candidate, refresh } => refresh.has_room(0, 1, 1),
            RefreshStep::Subscribe { query, candidate, refresh } => refresh.has_room(0, 1, 1),
            RefreshStep::AskCountdown { candidate, subscription, refresh } => refresh.has_room(
                0,
                0,
                1,
            ),
            RefreshStep::Notify { query, candidate, subscription, refresh } => refresh.has_room(
                0,
                0,
                1,
            ),
            RefreshStep::AskTime { candidate, subscription, reminder, refresh } => refresh.has_room(
                0,
                0,
                0,
            ),
            RefreshStep::Finish { history, report } => true,
        }
    }
}

impl Refresh {
    /// Whether the counts can take that many more, beyond the items still to be
    /// dealt with.
    fn has_room(&self, skipped: usize, subscribed: usize, notifications: usize) -> (r: bool)
        ensures
            r == self@.has_room(skipped as int, subscribed as int, notifications as int),
    {
        let n: usize = self.items.len();
        let limit: usize = self.report.fetched;
        fits(self.report.considered, n, 0, limit) && fits(self.report.skipped, n, skipped, limit)
            && fits(self.report.subscribed, n, subscribed, limit) && fits(
            self.report.notifications,
            n,
            notifications,
            limit,
        ) && self.history.runs < usize::MAX
    }

    /// This refresh with one more failure.
    fn with_failure(self, failure: String) -> (r: Refresh)
        ensures
            r@ == self@.with_failure(failure@),
    {
        let mut refresh = self;
        refresh.report.failures.push(failure);
        assert(refresh@.report.failures =~= self@.report.failures.push(failure@));
        assert(refresh@ =~= self@.with_failure(failure@));
        refresh
    }

    /// This refresh with one more item that was passed over.
    fn with_skipped(self) -> (r: Refresh)
        requires
            self.report.skipped < usize::MAX,
        ensures
            r@ == self@.with_skipped(),
    {
        let mut refresh = self;
        refresh.report.skipped = refresh.report.skipped + 1;
        refresh
    }

    /// The step with which the refresh goes on.
    fn next(self) -> (r: RefreshStep)
        requires
            self@.has_room(0, 0, 0),
        ensures
            r@ == next_item(self@),
            has_room(r@),
    {
        proof {
            lemma_next_item_has_room(self@);
        }
        let mut refresh = self;
        while refresh.items.len() > 0
            invariant
                refresh@.has_room(0, 0, 0),
                next_item(refresh@) == next_item(self@),
                has_room(next_item(self@)),
            decreases refresh.items@.len(),
        {
            let ghost before = refresh@;
            let item = refresh.items.remove(0);
            assert(refresh@ =~= (RefreshView { items: before.items.drop_first(), ..before }));
            if item.wish_count < refresh.rules.threshold {
                refresh = refresh.with_skipped();
            } else {
                refresh.report.considered = refresh.report.considered + 1;
                return RefreshStep::Resolve { query: resolve_request(&item), item, refresh };
            }
        }
        let Refresh { rules, items, existing, history, report } = refresh;
        RefreshStep::Finish { history: history.closed_run(), report }
    }

    /// Goes on after the item was resolved, or not.
    pub fn resolved(self, item: FeedItem, outcome: Result<ResolvedMedia, String>) -> (r:
        RefreshStep)
        requires
            self@.has_room(1, 1, 1),
        ensures
            r@ == after_resolved(self@, item@, outcome_view(outcome)),
            has_room(r@),
    {
        let media = match outcome {
            Ok(media) => media,
            Err(error) => {
                let failure = item.title.concat(": ").concat(error.as_str());
                return self.with_failure(failure).next();
            },
        };
        if !is_tv(&media) {
            return self.with_skipped().next();
        }
        if let (Some(feed_year), Some(resolved_year)) = (item.year, media.year) {
            if feed_year != resolved_year {
                let failure = item.title.concat(": TMDB 年份不一致（RSS ").concat(
                    decimal_i64(feed_year as i64).as_str(),
                ).concat("，TMDB ").concat(decimal_i64(resolved_year as i64).as_str()).concat("）");
                return self.with_failure(failure).next();
            }
        }
        let known = match media_air_date(&media) {
            Some(date) => Some(date),
            None => extract_date(item.description.as_str()),
        };
        if known.is_none() {
            if let Some(url) = page_url(item.link.as_str()) {
                return RefreshStep::FetchPage { url, item, media, refresh: self };
            }
        }
        self.dated(Candidate { item, media, air_date: known })
    }

    /// Goes on once all is known of the air date that can be.
    fn dated(self, candidate: Candidate) -> (r: RefreshStep)
        requires
            self@.has_room(0, 1, 1),
        ensures
            r@ == dated(self@, candidate@),
            has_room(r@),
    {
        if candidate.air_date.is_some() {
            RefreshStep::AskToday { candidate, refresh: self }
        } else {
            self.decided(candidate, None)
        }
    }

    /// Goes on after the page was fetched; without a page where it could not be.
    pub fn page_fetched(self, item: FeedItem, media: ResolvedMedia, html: Option<&str>) -> (r:
        RefreshStep)
        requires
            self@.has_room(1, 1, 1),
        ensures
            r@ == after_page(self@, item@, media@, opt_text(html)),
            has_room(r@),
    {
        let air_date = match html {
            Some(html) => extract_douban_date(html),
            None => None,
        };
        self.dated(Candidate { item, media, air_date })
    }

    /// Goes on once it is known in how many days the series airs.
    fn decided(self, candidate: Candidate, days: Option<i64>) -> (r: RefreshStep)
        requires
            self@.has_room(0, 1, 1),
        ensures
            r@ == decided(self@, candidate@, opt_int(days)),
            has_room(r@),
    {
        let key = candidate.key();
        let exists = self.existing.contains(key.as_str());
        let near = match days {
            Some(n) => 0 <= n && n <= self.rules.advance_days,
            None => false,
        };
        if !exists && near {
            return RefreshStep::Subscribe {
                query: create_subscription(&candidate.item, &candidate.media),
                candidate,
                refresh: self,
            };
        }
        let subscription = if exists {
            "已存在"
        } else if days.is_none() {
            "日期未知"
        } else {
            "未到订阅窗口"
        };
        self.to_remind(candidate, subscription.to_owned())
    }

    /// Goes on once today's date is known.
    pub fn today_told(self, candidate: Candidate, today: &Date) -> (r: RefreshStep)
        requires
            self@.has_room(0, 1, 1),
        ensures
            r@ == after_today(self@, candidate@, today@),
            has_room(r@),
    {
        let days = match &candidate.air_date {
            Some(date) => days_until_date(date, today),
            None => None,
        };
        self.decided(candidate, days)
    }

    /// Goes on after the series was subscribed to, or not.
    pub fn subscribed(self, candidate: Candidate, outcome: Result<(), String>) -> (r: RefreshStep)
        requires
            self@.has_room(0, 1, 1),
            outcome is Ok ==> self.history.subscribed < usize::MAX,
        ensures
            r@ == after_subscribed(self@, candidate@, done_view(outcome)),
            has_room(r@),
    {
        match outcome {
            Ok(_) => {
                let key = candidate.key();
                let Refresh { rules, items, existing, history, mut report } = self;
                report.subscribed = report.subscribed + 1;
                let refresh = Refresh {
                    rules,
                    items,
                    existing: existing.with(key.as_str()),
                    history: history.with_subscription(),
                    report,
                };
                assert(refresh@ =~= self@.with_subscription(candidate@.key()));
                refresh.to_remind(candidate, "已创建".to_owned())
            },
            Err(error) => {
                let failure = candidate.title().concat(": 创建订阅失败: ").concat(error.as_str());
                self.with_failure(failure).next()
            },
        }
    }

    /// Goes on once the subscription is settled.
    fn to_remind(self, candidate: Candidate, subscription: String) -> (r: RefreshStep)
        requires
            self@.has_room(0, 0, 1),
        ensures
            r@ == to_remind(self@, candidate@, subscription@),
            has_room(r@),
    {
        let key = candidate.reminder_key();
        if self.rules.notify && !self.history.notified.contains(key.as_str())
            && candidate.air_date.is_some() {
            RefreshStep::AskCountdown { candidate, subscription, refresh: self }
        } else {
            RefreshStep::AskTime {
                candidate,
                subscription,
                reminder: "未提醒".to_owned(),
                refresh: self,
            }
        }
    }

    /// What a reminder says.
    fn reminder_text(&self, candidate: &Candidate) -> (r: String)
        ensures
            r@ == reminder_text(self@, candidate@),
    {
        let state = if self.existing.contains(candidate.key().as_str()) {
            "已订阅"
        } else {
            "未订阅"
        };
        "名称：".to_owned().concat(candidate.title().as_str()).concat("\n开播日期：").concat(
            candidate.air_text("-").as_str(),
        ).concat("\n想看人数：").concat(decimal_i64(candidate.item.wish_count).as_str()).concat(
            "\n订阅状态：",
        ).concat(state).concat("\n豆瓣链接：").concat(candidate.item.link.as_str())
    }

    /// Goes on once it is known how many seconds are left until the air date
    /// begins; none where that cannot be told.
    pub fn countdown_told(
        self,
        candidate: Candidate,
        subscription: String,
        seconds: Option<i64>,
    ) -> (r: RefreshStep)
        requires
            self@.has_room(0, 0, 1),
        ensures
            r@ == after_countdown(self@, candidate@, subscription@, opt_int(seconds)),
            has_room(r@),
    {
        if reminder_due(seconds, self.rules.notify_hours) {
            let content = self.reminder_text(&candidate);
            let query = notification_request(
                "豆瓣将映提醒",
                content.as_str(),
                &candidate.media.poster_path,
            );
            RefreshStep::Notify { query, candidate, subscription, refresh: self }
        } else {
            RefreshStep::AskTime {
                candidate,
                subscription,
                reminder: "未提醒".to_owned(),
                refresh: self,
            }
        }
    }

    /// Goes on after the reminder was sent.
    pub fn notified(self, candidate: Candidate, subscription: String) -> (r: RefreshStep)
        requires
            self@.has_room(0, 0, 1),
            self.history.notifications < usize::MAX,
        ensures
            r@ == after_notified(self@, candidate@, subscription@),
            has_room(r@),
    {
        let key = candidate.reminder_key();
        let Refresh { rules, items, existing, history, mut report } = self;
        report.notifications = report.notifications + 1;
        let refresh = Refresh {
            rules,
            items,
            existing,
            history: history.with_reminder(key.as_str()),
            report,
        };
        assert(refresh@ =~= self@.with_reminder(candidate@.reminder_key()));
        RefreshStep::AskTime { candidate, subscription, reminder: "已发送".to_owned(), refresh }
    }

    /// Goes on once the time is known: the series is recorded.
    pub fn time_told(
        self,
        candidate: Candidate,
        subscription: String,
        reminder: String,
        processed_at: String,
    ) -> (r: RefreshStep)
        requires
            self@.has_room(0, 0, 0),
        ensures
            r@ == after_time(self@, candidate@, subscription@, reminder@, processed_at@),
            has_room(r@),
    {
        proof {
            reveal_strlit("");
            assert(""@ =~= Seq::<char>::empty());
        }
        let record = Record {
            title: candidate.title(),
            wish_count: candidate.item.wish_count,
            air_date: candidate.air_text("未知"),
            subscription,
            reminder,
            processed_at,
        };
        let replaces = candidate.air_text("");
        let Refresh { rules, items, existing, history, report } = self;
        let refresh = Refresh {
            rules,
            items,
            existing,
            history: history.with_record(record, replaces.as_str()),
            report,
        };
        refresh.next()
    }
}

/// The number of days from `today` to `date`, by way of the date's text.
fn days_until_date(date: &Date, today: &Date) -> (r: Option<i64>)
    ensures
        opt_int(r) == Some(date@.number() - today@.number()),
{
    days_until(date.text().as_str(), today)
}

/// The first step of a refresh of `items` under `settings`, with the history so
/// far and the keys of the series that are subscribed to.
pub fn refresh(
    settings: &JsonObject,
    history: History,
    items: Vec<FeedItem>,
    existing: NameSet,
) -> (r: RefreshStep)
    requires
        history.runs < usize::MAX,
    ensures
        r@ == first_step(settings.members(), history@, item_views(items@), existing@),
        has_room(r@),
{
    let report = Report::new(items.len());
    let refresh = Refresh {
        rules: Rules::from_settings(settings),
        items,
        existing,
        history,
        report,
    };
    refresh.next()
}

/// The history that a refresh begins with: the stored one, unless the settings
/// ask for it to be cleared.
pub open spec fn history_to_begin_with(
    settings: Map<Seq<char>, JsonView>,
    stored: HistoryView,
) -> HistoryView {
    if bool_setting(settings, "clear"@, false) {
        blank_history()
    } else {
        stored
    }
}

/// The history that a refresh begins with.
pub fn starting_history(settings: &JsonObject, stored: History) -> (r: History)
    ensures
        r@ == history_to_begin_with(settings.members(), stored@),
{
    if setting_bool(settings, "clear", false) {
        History::new()
    } else {
        stored
    }
}

/// What a refresh is told at a step.
pub enum RefreshEvent {
    Resolved(Result<MediaView, Seq<char>>),
    Page(Option<Seq<char>>),
    Today(DateView),
    Subscribed(Result<(), Seq<char>>),
    Countdown(Option<int>),
    Notified,
    Time(Seq<char>),
}

/// The step after `step`, once a refresh is told `event`; the same step where the
/// event is not what the step waits for.
pub open spec fn step_after(step: RefreshStepView, event: RefreshEvent) -> RefreshStepView {
    match (step, event) {
        (
            RefreshStepView::Resolve { query, item, refresh },
            RefreshEvent::Resolved(outcome),
        ) => after_resolved(refresh, item, outcome),
        (
            RefreshStepView::FetchPage { url, item, media, refresh },
            RefreshEvent::Page(html),
        ) => after_page(refresh, item, media, html),
        (
            RefreshStepView::AskToday { candidate, refresh },
            RefreshEvent::Today(today),
        ) => after_today(refresh, candidate, today),
        (
            RefreshStepView::Subscribe { query, candidate, refresh },
            RefreshEvent::Subscribed(outcome),
        ) => after_subscribed(refresh, candidate, outcome),
        (
            RefreshStepView::AskCountdown { candidate, subscription, refresh },
            RefreshEvent::Countdown(seconds),
        ) => after_countdown(refresh, candidate, subscription, seconds),
        (
            RefreshStepView::Notify { query, candidate, subscription, refresh },
            RefreshEvent::Notified,
        ) => after_notified(refresh, candidate, subscription),
        (
            RefreshStepView::AskTime { candidate, subscription, reminder, refresh },
            RefreshEvent::Time(processed_at),
        ) => after_time(refresh, candidate, subscription, reminder, processed_at),
        _ => step,
    }
}

/// The step that a refresh comes to after a list of events.
pub open spec fn step_through(step: RefreshStepView, events: Seq<RefreshEvent>) -> RefreshStepView
    decreases events.len(),
{
    if events.len() == 0 {
        step
    } else {
        step_through(step_after(step, events[0]), events.drop_first())
    }
}

/// The keys of the series that are subscribed to at a step; those of a refresh
/// that is over no longer matter.
pub open spec fn keys_at(step: RefreshStepView) -> Option<Seq<Seq<char>>> {
    match step {
        RefreshStepView::Resolve { query, item, refresh } => Some(refresh.existing),
        RefreshStepView::FetchPage { url, item, media, refresh } => Some(refresh.existing),
        RefreshStepView::AskToday { candidate, refresh } => Some(refresh.existing),
        RefreshStepView::Subscribe { query, candidate, refresh } => Some(refresh.existing),
        RefreshStepView::AskCountdown { candidate, subscription, refresh } => Some(
            refresh.existing,
        ),
        RefreshStepView::Notify { query, candidate, subscription, refresh } => Some(
            refresh.existing,
        ),
        RefreshStepView::AskTime { candidate, subscription, reminder, refresh } => Some(
            refresh.existing,
        ),
        RefreshStepView::Finish { history, report } => None,
    }
}

/// The history at a step.
pub open spec fn history_at(step: RefreshStepView) -> HistoryView {
    match step {
        RefreshStepView::Resolve { query, item, refresh } => refresh.history,
        RefreshStepView::FetchPage { url, item, media, refresh } => refresh.history,
        RefreshStepView::AskToday { candidate, refresh } => refresh.history,
        RefreshStepView::Subscribe { query, candidate, refresh } => refresh.history,
        RefreshStepView::AskCountdown { candidate, subscription, refresh } => refresh.history,
        RefreshStepView::Notify { query, candidate, subscription, refresh } => refresh.history,
        RefreshStepView::AskTime { candidate, subscription, reminder, refresh } => refresh.history,
        RefreshStepView::Finish { history, report } => history,
    }
}

/// Whether a series was taken up rightly: enough people want to watch it, TMDB
/// calls it a series, and the years do not differ.
pub open spec fn rightly_taken(rules: Rules, item: ItemView, media: MediaView) -> bool {
    item.wish_count >= rules.threshold && is_series(media) && !years_differ(item.year, media.year)
}

/// Whether a step is right: a subscription is made only to a series that was
/// taken up rightly and is not subscribed to, and a reminder is sent only of such
/// a series with a known air date, where the user wants one and none was sent.
pub open spec fn is_right(step: RefreshStepView) -> bool {
    match step {
        RefreshStepView::Resolve { query, item, refresh } => item.wish_count
            >= refresh.rules.threshold,
        RefreshStepView::FetchPage { url, item, media, refresh } => rightly_taken(
            refresh.rules,
            item,
            media,
        ) && known_air_date(item, media) is None,
        RefreshStepView::AskToday { candidate, refresh } => rightly_taken(
            refresh.rules,
            candidate.item,
            candidate.media,
        ) && candidate.air_date is Some,
        RefreshStepView::Subscribe { query, candidate, refresh } => {
            &&& rightly_taken(refresh.rules, candidate.item, candidate.media)
            &&& candidate.air_date is Some
            &&& !refresh.existing.contains(candidate.key())
            &&& query == subscription_query(candidate.item, candidate.media)
        },
        RefreshStepView::AskCountdown { candidate, subscription, refresh } => {
            &&& rightly_taken(refresh.rules, candidate.item, candidate.media)
            &&& refresh.rules.notify
            &&& candidate.air_date is Some
            &&& !refresh.history.notified.contains(candidate.reminder_key())
        },
        RefreshStepView::Notify { query, candidate, subscription, refresh } => {
            &&& rightly_taken(refresh.rules, candidate.item, candidate.media)
            &&& refresh.rules.notify
            &&& candidate.air_date is Some
            &&& !refresh.history.notified.contains(candidate.reminder_key())
            &&& query == notification_query(
                "豆瓣将映提醒"@,
                reminder_text(refresh, candidate),
                candidate.media.poster_path,
            )
        },
        RefreshStepView::AskTime { candidate, subscription, reminder, refresh } => rightly_taken(
            refresh.rules,
            candidate.item,
            candidate.media,
        ),
        RefreshStepView::Finish { history, report } => true,
    }
}

/// Whether every name of `a` is in `b`.
pub open spec fn kept_in(a: Seq<Seq<char>>, b: Seq<Seq<char>>) -> bool {
    forall|name: Seq<char>| #[trigger] a.contains(name) ==> b.contains(name)
}

/// Whether `later` forgets nothing of `earlier`: neither a subscription nor a
/// reminder that was sent.
pub open spec fn forgets_nothing(earlier: RefreshStepView, later: RefreshStepView) -> bool {
    &&& kept_in(history_at(earlier).notified, history_at(later).notified)
    &&& match (keys_at(earlier), keys_at(later)) {
        (Some(a), Some(b)) => kept_in(a, b),
        (None, Some(_)) => false,
        _ => true,
    }
}

proof fn lemma_listed_with_keeps(list: Seq<Seq<char>>, name: Seq<char>)
    ensures
        kept_in(list, listed_with(list, name)),
        listed_with(list, name).contains(name),
{
    if !list.contains(name) {
        assert forall|n: Seq<char>| #[trigger] list.contains(n) implies list.push(name).contains(
            n,
        ) by {
            let i = choose|i: int| 0 <= i < list.len() && list[i] == n;
            assert(list.push(name)[i] == n);
        }
        assert(list.push(name).last() == name);
    }
}

proof fn lemma_next_item(refresh: RefreshView)
    ensures
        is_right(next_item(refresh)),
        kept_in(refresh.history.notified, history_at(next_item(refresh)).notified),
        keys_at(next_item(refresh)) matches Some(keys) ==> keys == refresh.existing,
    decreases refresh.items.len(),
{
    if refresh.items.len() > 0 && refresh.items[0].wish_count < refresh.rules.threshold {
        lemma_next_item(
            (RefreshView { items: refresh.items.drop_first(), ..refresh }).with_skipped(),
        );
    }
}

/// The first step of a refresh is right.
pub proof fn law_first_step_is_right(
    settings: Map<Seq<char>, JsonView>,
    history: HistoryView,
    items: Seq<ItemView>,
    existing: Seq<Seq<char>>,
)
    ensures
        is_right(first_step(settings, history, items, existing)),
{
    lemma_next_item(
        RefreshView {
            rules: rules_in(settings),
            items,
            existing,
            history,
            report: blank_report(items.len() as int),
        },
    );
}

/// Whatever a refresh is told at a right step, the step after it is right, and
/// neither a subscription nor a reminder is forgotten.
pub proof fn law_every_step_is_right(step: RefreshStepView, event: RefreshEvent)
    requires
        is_right(step),
    ensures
        is_right(step_after(step, event)),
        forgets_nothing(step, step_after(step, event)),
{
    match (step, event) {
        (RefreshStepView::Resolve { query, item, refresh }, RefreshEvent::Resolved(outcome)) => {
            match outcome {
                Err(error) => {
                    lemma_next_item(refresh.with_failure(item.title + ": "@ + error));
                },
                Ok(media) => {
                    lemma_next_item(refresh.with_skipped());
                    lemma_next_item(refresh.with_failure(year_failure(item, media)));
                },
            }
        },
        (
            RefreshStepView::Subscribe { query, candidate, refresh },
            RefreshEvent::Subscribed(outcome),
        ) => {
            lemma_listed_with_keeps(refresh.existing, candidate.key());
            match outcome {
                Ok(_) => {},
                Err(error) => {
                    lemma_next_item(
                        refresh.with_failure(candidate.title() + ": 创建订阅失败: "@ + error),
                    );
                },
            }
        },
        (
            RefreshStepView::Notify { query, candidate, subscription, refresh },
            RefreshEvent::Notified,
        ) => {
            lemma_listed_with_keeps(refresh.history.notified, candidate.reminder_key());
        },
        (
            RefreshStepView::AskTime { candidate, subscription, reminder, refresh },
            RefreshEvent::Time(processed_at),
        ) => {
            lemma_next_item(
                RefreshView {
                    history: refresh.history.with_record(
                        record_of(candidate, subscription, reminder, processed_at),
                        candidate.air_text(Seq::empty()),
                    ),
                    ..refresh
                },
            );
        },
        _ => {},
    }
}

proof fn lemma_nothing_forgotten(step: RefreshStepView, events: Seq<RefreshEvent>)
    requires
        is_right(step),
    ensures
        is_right(step_through(step, events)),
        forgets_nothing(step, step_through(step, events)),
    decreases events.len(),
{
    if events.len() > 0 {
        let next = step_after(step, events[0]);
        law_every_step_is_right(step, events[0]);
        lemma_nothing_forgotten(next, events.drop_first());
    }
}

/// No series is subscribed to twice: once a subscription was made, whatever a
/// refresh is told, it makes none under the same key again.
pub proof fn law_no_second_subscription(
    query: JsonView,
    candidate: CandidateView,
    refresh: RefreshView,
    events: Seq<RefreshEvent>,
)
    requires
        is_right(RefreshStepView::Subscribe { query, candidate, refresh }),
    ensures
        ({
            let made = step_after(
                RefreshStepView::Subscribe { query, candidate, refresh },
                RefreshEvent::Subscribed(Ok(())),
            );
            step_through(made, events) matches RefreshStepView::Subscribe {
                query: _,
                candidate: other,
                refresh: _,
            } ==> other.key() != candidate.key()
        }),
{
    let step = RefreshStepView::Subscribe { query, candidate, refresh };
    let made = step_after(step, RefreshEvent::Subscribed(Ok(())));
    law_every_step_is_right(step, RefreshEvent::Subscribed(Ok(())));
    lemma_listed_with_keeps(refresh.existing, candidate.key());
    lemma_nothing_forgotten(made, events);
    assert(keys_at(made)->0.contains(candidate.key()));
}

/// No reminder is sent twice: once one was sent, whatever a refresh is told, it
/// sends none under the same key again, and the history that it ends with still
/// knows of it.
pub proof fn law_no_second_reminder(
    query: JsonView,
    candidate: CandidateView,
    subscription: Seq<char>,
    refresh: RefreshView,
    events: Seq<RefreshEvent>,
)
    requires
        is_right(RefreshStepView::Notify { query, candidate, subscription, refresh }),
    ensures
        ({
            let sent = step_after(
                RefreshStepView::Notify { query, candidate, subscription, refresh },
                RefreshEvent::Notified,
            );
            &&& step_through(sent, events) matches RefreshStepView::Notify {
                query: _,
                candidate: other,
                subscription: _,
                refresh: _,
            } ==> other.reminder_key() != candidate.reminder_key()
            &&& history_at(step_through(sent, events)).notified.contains(candidate.reminder_key())
        }),
{
    let step = RefreshStepView::Notify { query, candidate, subscription, refresh };
    let sent = step_after(step, RefreshEvent::Notified);
    law_every_step_is_right(step, RefreshEvent::Notified);
    lemma_listed_with_keeps(refresh.history.notified, candidate.reminder_key());
    lemma_nothing_forgotten(sent, events);
    assert(history_at(sent).notified.contains(candidate.reminder_key()));
}

/// A subscription is made only to a series that airs today or within the days
/// ahead.
pub proof fn law_subscribes_only_ahead_of_time(
    refresh: RefreshView,
    candidate: CandidateView,
    today: DateView,
)
    requires
        after_today(refresh, candidate, today) is Subscribe,
    ensures
        candidate.air_date matches Some(date) && 0 <= date.number() - today.number()
            <= refresh.rules.advance_days,
{
}

/// A reminder is sent only before the air date begins, and only within the hours
/// ahead.
pub proof fn law_reminds_only_before_airing(
    refresh: RefreshView,
    candidate: CandidateView,
    subscription: Seq<char>,
    seconds: Option<int>,
)
    requires
        after_countdown(refresh, candidate, subscription, seconds) is Notify,
    ensures
        seconds matches Some(n) && 0 <= n <= refresh.rules.notify_hours * 3600,
{
}

/// The air date is TMDB's where that is known, else the one in the feed's
/// description, and only else the one on the page.
pub proof fn law_air_date_comes_from_the_best_source(
    refresh: RefreshView,
    item: ItemView,
    media: MediaView,
)
    ensures
        tmdb_air_date(media) is Some ==> known_air_date(item, media) == tmdb_air_date(media),
        tmdb_air_date(media) is None ==> known_air_date(item, media) == date_in_text(
            item.description,
        ),
        is_series(media) && !years_differ(item.year, media.year) && known_air_date(item, media)
            is Some ==> after_resolved(refresh, item, Ok(media)) == (RefreshStepView::AskToday {
            candidate: CandidateView { item, media, air_date: known_air_date(item, media) },
            refresh,
        }),
{
}

/// A history that a refresh ends with lists no more series than are kept.
pub proof fn law_history_is_bounded(refresh: RefreshView)
    ensures
        next_item(refresh) matches RefreshStepView::Finish { history, report } ==> {
            &&& history.records.len() <= super::history::MAX_RECORDS
            &&& history.runs == refresh.history.runs + 1
        },
    decreases refresh.items.len(),
{
    if refresh.items.len() > 0 && refresh.items[0].wish_count < refresh.rules.threshold {
        law_history_is_bounded(
            (RefreshView { items: refresh.items.drop_first(), ..refresh }).with_skipped(),
        );
    }
}

/// How many of the items enough people want to watch.
pub open spec fn wanted(items: Seq<ItemView>, threshold: int) -> int
    decreases items.len(),
{
    if items.len() == 0 {
        0
    } else if items[0].wish_count < threshold {
        wanted(items.drop_first(), threshold)
    } else {
        1 + wanted(items.drop_first(), threshold)
    }
}

/// How many items a refresh will have taken up when it ends.
pub open spec fn to_consider(refresh: RefreshView) -> int {
    refresh.report.considered + wanted(refresh.items, refresh.rules.threshold as int)
}

/// How many items will have been taken up when the refresh at a step ends.
pub open spec fn considered_in_the_end(step: RefreshStepView) -> int {
    match step {
        RefreshStepView::Resolve { query, item, refresh } => to_consider(refresh),
        RefreshStepView::FetchPage { url, item, media, refresh } => to_consider(refresh),
        RefreshStepView::AskToday { candidate, refresh } => to_consider(refresh),
        RefreshStepView::Subscribe { query, candidate, refresh } => to_consider(refresh),
        RefreshStepView::AskCountdown { candidate, subscription, refresh } => to_consider(refresh),
        RefreshStepView::Notify { query, candidate, subscription, refresh } => to_consider(refresh),
        RefreshStepView::AskTime { candidate, subscription, reminder, refresh } => to_consider(
            refresh,
        ),
        RefreshStepView::Finish { history, report } => report.considered,
    }
}

proof fn lemma_next_item_considers(refresh: RefreshView)
    ensures
        considered_in_the_end(next_item(refresh)) == to_consider(refresh),
    decreases refresh.items.len(),
{
    if refresh.items.len() > 0 && refresh.items[0].wish_count < refresh.rules.threshold {
        lemma_next_item_considers(
            (RefreshView { items: refresh.items.drop_first(), ..refresh }).with_skipped(),
        );
    }
}

proof fn lemma_step_considers(step: RefreshStepView, event: RefreshEvent)
    ensures
        considered_in_the_end(step_after(step, event)) == considered_in_the_end(step),
{
    match (step, event) {
        (RefreshStepView::Resolve { query, item, refresh }, RefreshEvent::Resolved(outcome)) => {
            match outcome {
                Err(error) => {
                    lemma_next_item_considers(refresh.with_failure(item.title + ": "@ + error));
                },
                Ok(media) => {
                    lemma_next_item_considers(refresh.with_skipped());
                    lemma_next_item_considers(refresh.with_failure(year_failure(item, media)));
                },
            }
        },
        (
            RefreshStepView::Subscribe { query, candidate, refresh },
            RefreshEvent::Subscribed(Err(error)),
        ) => {
            lemma_next_item_considers(
                refresh.with_failure(candidate.title() + ": 创建订阅失败: "@ + error),
            );
        },
        (
            RefreshStepView::AskTime { candidate, subscription, reminder, refresh },
            RefreshEvent::Time(processed_at),
        ) => {
            lemma_next_item_considers(
                RefreshView {
                    history: refresh.history.with_record(
                        record_of(candidate, subscription, reminder, processed_at),
                        candidate.air_text(Seq::empty()),
                    ),
                    ..refresh
                },
            );
        },
        _ => {},
    }
}

proof fn lemma_steps_consider(step: RefreshStepView, events: Seq<RefreshEvent>)
    ensures
        considered_in_the_end(step_through(step, events)) == considered_in_the_end(step),
    decreases events.len(),
{
    if events.len() > 0 {
        lemma_step_considers(step, events[0]);
        lemma_steps_consider(step_after(step, events[0]), events.drop_first());
    }
}

/// Whatever a refresh is told, when it ends it has taken up exactly the items
/// that enough people want to watch.
pub proof fn law_exactly_the_wanted_items_are_considered(
    settings: Map<Seq<char>, JsonView>,
    history: HistoryView,
    items: Seq<ItemView>,
    existing: Seq<Seq<char>>,
    events: Seq<RefreshEvent>,
)
    ensures
        step_through(first_step(settings, history, items, existing), events) matches
            RefreshStepView::Finish { history: _, report } ==> report.considered == wanted(
            items,
            rules_in(settings).threshold as int,
        ),
{
    let start = RefreshView {
        rules: rules_in(settings),
        items,
        existing,
        history,
        report: blank_report(items.len() as int),
    };
    lemma_next_item_considers(start);
    lemma_steps_consider(next_item(start), events);
}

/// The report at a step.
pub open spec fn report_at(step: RefreshStepView) -> ReportView {
    match step {
        RefreshStepView::Resolve { query, item, refresh } => refresh.report,
        RefreshStepView::FetchPage { url, item, media, refresh } => refresh.report,
        RefreshStepView::AskToday { candidate, refresh } => refresh.report,
        RefreshStepView::Subscribe { query, candidate, refresh } => refresh.report,
        RefreshStepView::AskCountdown { candidate, subscription, refresh } => refresh.report,
        RefreshStepView::Notify { query, candidate, subscription, refresh } => refresh.report,
        RefreshStepView::AskTime { candidate, subscription, reminder, refresh } => refresh.report,
        RefreshStepView::Finish { history, report } => report,
    }
}

/// Whether the step `later` agrees with an earlier history and report: the report
/// counts what was added to the history, and a history that lists each series
/// once still does.
pub open spec fn agrees(
    history: HistoryView,
    report: ReportView,
    later: RefreshStepView,
) -> bool {
    let (h, r) = (history_at(later), report_at(later));
    &&& h.subscribed - history.subscribed == r.subscribed - report.subscribed
    &&& h.notifications - history.notifications == r.notifications - report.notifications
    &&& r.fetched == report.fetched
    &&& listed_once(history.records) ==> listed_once(h.records)
}

proof fn lemma_next_item_agrees(refresh: RefreshView)
    ensures
        agrees(refresh.history, refresh.report, next_item(refresh)),
    decreases refresh.items.len(),
{
    if refresh.items.len() == 0 {
        let all = refresh.history.records;
        let kept = refresh.history.closed_run().records;
        assert(forall|i: int| 0 <= i < kept.len() ==> kept[i] == all[i]);
    } else if refresh.items[0].wish_count < refresh.rules.threshold {
        lemma_next_item_agrees(
            (RefreshView { items: refresh.items.drop_first(), ..refresh }).with_skipped(),
        );
    }
}

proof fn lemma_step_agrees(step: RefreshStepView, event: RefreshEvent)
    ensures
        agrees(history_at(step), report_at(step), step_after(step, event)),
{
    match (step, event) {
        (RefreshStepView::Resolve { query, item, refresh }, RefreshEvent::Resolved(outcome)) => {
            match outcome {
                Err(error) => {
                    lemma_next_item_agrees(refresh.with_failure(item.title + ": "@ + error));
                },
                Ok(media) => {
                    lemma_next_item_agrees(refresh.with_skipped());
                    lemma_next_item_agrees(refresh.with_failure(year_failure(item, media)));
                },
            }
        },
        (
            RefreshStepView::Subscribe { query, candidate, refresh },
            RefreshEvent::Subscribed(Err(error)),
        ) => {
            lemma_next_item_agrees(
                refresh.with_failure(candidate.title() + ": 创建订阅失败: "@ + error),
            );
        },
        (
            RefreshStepView::AskTime { candidate, subscription, reminder, refresh },
            RefreshEvent::Time(processed_at),
        ) => {
            let record = record_of(candidate, subscription, reminder, processed_at);
            let replaces = candidate.air_text(Seq::empty());
            if listed_once(refresh.history.records) {
                law_adding_keeps_listed_once(refresh.history, record, replaces);
            }
            lemma_next_item_agrees(
                RefreshView { history: refresh.history.with_record(record, replaces), ..refresh },
            );
        },
        _ => {},
    }
}

proof fn lemma_steps_agree(step: RefreshStepView, events: Seq<RefreshEvent>)
    ensures
        agrees(history_at(step), report_at(step), step_through(step, events)),
    decreases events.len(),
{
    if events.len() > 0 {
        lemma_step_agrees(step, events[0]);
        lemma_steps_agree(step_after(step, events[0]), events.drop_first());
    }
}

/// Whatever a refresh is told, the report counts the subscriptions and the
/// reminders that it added to the history, and a history that listed each series
/// with a known air date once still does.
pub proof fn law_report_and_history_agree(
    settings: Map<Seq<char>, JsonView>,
    history: HistoryView,
    items: Seq<ItemView>,
    existing: Seq<Seq<char>>,
    events: Seq<RefreshEvent>,
)
    ensures
        ({
            let last = step_through(first_step(settings, history, items, existing), events);
            &&& history_at(last).subscribed == history.subscribed + report_at(last).subscribed
            &&& history_at(last).notifications == history.notifications + report_at(
                last,
            ).notifications
            &&& report_at(last).fetched == items.len()
            &&& listed_once(history.records) ==> listed_once(history_at(last).records)
        }),
{
    let start = RefreshView {
        rules: rules_in(settings),
        items,
        existing,
        history,
        report: blank_report(items.len() as int),
    };
    lemma_next_item_agrees(start);
    lemma_steps_agree(next_item(start), events);
}

/// Whatever a refresh is told, it makes no subscription that exists already, and
/// sends no reminder that the history says was sent.
pub proof fn law_nothing_is_repeated(
    settings: Map<Seq<char>, JsonView>,
    history: HistoryView,
    items: Seq<ItemView>,
    existing: Seq<Seq<char>>,
    events: Seq<RefreshEvent>,
)
    ensures
        match step_through(first_step(settings, history, items, existing), events) {
            RefreshStepView::Subscribe { query, candidate, refresh } => !existing.contains(
                candidate.key(),
            ),
            RefreshStepView::Notify { query, candidate, subscription, refresh } =>
            !history.notified.contains(candidate.reminder_key()),
            _ => true,
        },
{
    let start = RefreshView {
        rules: rules_in(settings),
        items,
        existing,
        history,
        report: blank_report(items.len() as int),
    };
    lemma_next_item(start);
    lemma_nothing_forgotten(next_item(start), events);
}

/// Whether an event records a series.
pub open spec fn records(step: RefreshStepView, event: RefreshEvent) -> int {
    if step is AskTime && event is Time {
        1
    } else {
        0
    }
}

/// How many series a list of events records.
pub open spec fn recordings(step: RefreshStepView, events: Seq<RefreshEvent>) -> int
    decreases events.len(),
{
    if events.len() == 0 {
        0
    } else {
        records(step, events[0]) + recordings(step_after(step, events[0]), events.drop_first())
    }
}

/// How many items are still to be dealt with at a step, the one in hand included.
pub open spec fn items_left(step: RefreshStepView) -> nat {
    match step {
        RefreshStepView::Resolve { query, item, refresh } => refresh.items.len() + 1,
        RefreshStepView::FetchPage { url, item, media, refresh } => refresh.items.len() + 1,
        RefreshStepView::AskToday { candidate, refresh } => refresh.items.len() + 1,
        RefreshStepView::Subscribe { query, candidate, refresh } => refresh.items.len() + 1,
        RefreshStepView::AskCountdown { candidate, subscription, refresh } => refresh.items.len()
            + 1,
        RefreshStepView::Notify { query, candidate, subscription, refresh } => refresh.items.len()
            + 1,
        RefreshStepView::AskTime { candidate, subscription, reminder, refresh } =>
        refresh.items.len() + 1,
        RefreshStepView::Finish { history, report } => 0,
    }
}

/// How many items of a report were passed over or failed.
pub open spec fn set_aside(report: ReportView) -> int {
    report.skipped + report.failures.len()
}

/// How many items are set aside or left at a step: all but the recorded ones.
pub open spec fn unrecorded(step: RefreshStepView) -> int {
    set_aside(report_at(step)) + items_left(step)
}

/// The subscriptions at a step, without that of an item in hand that is settled
/// and will be recorded.
pub open spec fn earlier_subscriptions(step: RefreshStepView) -> int {
    report_at(step).subscribed - if step is AskCountdown || step is Notify || step is AskTime {
        1int
    } else {
        0int
    }
}

/// The reminders at a step, without that of an item in hand that will be recorded.
pub open spec fn earlier_reminders(step: RefreshStepView) -> int {
    report_at(step).notifications - if step is AskTime {
        1int
    } else {
        0int
    }
}

proof fn lemma_next_item_tallies(refresh: RefreshView)
    ensures
        unrecorded(next_item(refresh)) == set_aside(refresh.report) + refresh.items.len(),
        earlier_subscriptions(next_item(refresh)) == refresh.report.subscribed,
        earlier_reminders(next_item(refresh)) == refresh.report.notifications,
    decreases refresh.items.len(),
{
    if refresh.items.len() > 0 && refresh.items[0].wish_count < refresh.rules.threshold {
        lemma_next_item_tallies(
            (RefreshView { items: refresh.items.drop_first(), ..refresh }).with_skipped(),
        );
    }
}

proof fn lemma_step_tallies(step: RefreshStepView, event: RefreshEvent)
    ensures
        unrecorded(step_after(step, event)) == unrecorded(step) - records(step, event),
        earlier_subscriptions(step_after(step, event)) <= earlier_subscriptions(step) + records(
            step,
            event,
        ),
        earlier_reminders(step_after(step, event)) <= earlier_reminders(step) + records(
            step,
            event,
        ),
{
    match (step, event) {
        (RefreshStepView::Resolve { query, item, refresh }, RefreshEvent::Resolved(outcome)) => {
            match outcome {
                Err(error) => {
                    lemma_next_item_tallies(refresh.with_failure(item.title + ": "@ + error));
                },
                Ok(media) => {
                    lemma_next_item_tallies(refresh.with_skipped());
                    lemma_next_item_tallies(refresh.with_failure(year_failure(item, media)));
                },
            }
        },
        (
            RefreshStepView::Subscribe { query, candidate, refresh },
            RefreshEvent::Subscribed(Err(error)),
        ) => {
            lemma_next_item_tallies(
                refresh.with_failure(candidate.title() + ": 创建订阅失败: "@ + error),
            );
        },
        (
            RefreshStepView::AskTime { candidate, subscription, reminder, refresh },
            RefreshEvent::Time(processed_at),
        ) => {
            lemma_next_item_tallies(
                RefreshView {
                    history: refresh.history.with_record(
                        record_of(candidate, subscription, reminder, processed_at),
                        candidate.air_text(Seq::empty()),
                    ),
                    ..refresh
                },
            );
        },
        _ => {},
    }
}

proof fn lemma_steps_tally(step: RefreshStepView, events: Seq<RefreshEvent>)
    ensures
        ({
            let last = step_through(step, events);
            let n = recordings(step, events);
            &&& unrecorded(last) == unrecorded(step) - n
            &&& earlier_subscriptions(last) <= earlier_subscriptions(step) + n
            &&& earlier_reminders(last) <= earlier_reminders(step) + n
        }),
    decreases events.len(),
{
    if events.len() > 0 {
        lemma_step_tallies(step, events[0]);
        lemma_steps_tally(step_after(step, events[0]), events.drop_first());
    }
}

/// Whatever a refresh is told, when it ends each item that was fetched was passed
/// over, has failed or was recorded, and it made no more subscriptions and sent no
/// more reminders than it recorded series.
pub proof fn law_every_item_is_dealt_with(
    settings: Map<Seq<char>, JsonView>,
    history: HistoryView,
    items: Seq<ItemView>,
    existing: Seq<Seq<char>>,
    events: Seq<RefreshEvent>,
)
    ensures
        ({
            let first = first_step(settings, history, items, existing);
            let recorded = recordings(first, events);
            step_through(first, events) matches RefreshStepView::Finish { history: _, report } ==> {
                &&& report.fetched == items.len()
                &&& report.fetched == report.skipped + report.failures.len() + recorded
                &&& report.subscribed <= recorded
                &&& report.notifications <= recorded
            }
        }),
{
    let start = RefreshView {
        rules: rules_in(settings),
        items,
        existing,
        history,
        report: blank_report(items.len() as int),
    };
    lemma_next_item_tallies(start);
    lemma_steps_tally(next_item(start), events);
    law_report_and_history_agree(settings, history, items, existing, events);
}

} // verus!
