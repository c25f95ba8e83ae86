//! What the helper remembers from run to run, and what one run did.
use vstd::prelude::*;

use crate::json::{Json, JsonObject, JsonView};
use crate::names::{listed_with, NameSet};
use crate::text::{decimal, decimal_u64, same, views};

verus! {

/// How many series the history lists.
pub const MAX_RECORDS: usize = 2_000;

/// What was done about a series.
#[derive(Debug)]
pub struct Record {
    pub title: String,
    pub wish_count: i64,
    pub air_date: String,
    pub subscription: String,
    pub reminder: String,
    pub processed_at: String,
}

#[verifier::ext_equal]
pub struct RecordView {
    pub title: Seq<char>,
    pub wish_count: int,
    pub air_date: Seq<char>,
    pub subscription: Seq<char>,
    pub reminder: Seq<char>,
    pub processed_at: Seq<char>,
}

impl View for Record {
    type V = RecordView;

    open spec fn view(&self) -> RecordView {
        RecordView {
            title: self.title@,
            wish_count: self.wish_count as int,
            air_date: self.air_date@,
            subscription: self.subscription@,
            reminder: self.reminder@,
            processed_at: self.processed_at@,
        }
    }
}

/// What each record of a list says.
pub open spec fn record_views(records: Seq<Record>) -> Seq<RecordView> {
    records.map_values(|r: Record| r@)
}

/// What is remembered from run to run: counts, the series that were dealt with,
/// the latest first, and the reminders that were sent.
#[derive(Debug)]
pub struct History {
    pub runs: usize,
    pub subscribed: usize,
    pub notifications: usize,
    pub records: Vec<Record>,
    pub notified: NameSet,
}

#[verifier::ext_equal]
pub struct HistoryView {
    pub runs: int,
    pub subscribed: int,
    pub notifications: int,
    pub records: Seq<RecordView>,
    pub notified: Seq<Seq<char>>,
}

impl View for History {
    type V = HistoryView;

    open spec fn view(&self) -> HistoryView {
        HistoryView {
            runs: self.runs as int,
            subscribed: self.subscribed as int,
            notifications: self.notifications as int,
            records: record_views(self.records@),
            notified: self.notified@,
        }
    }
}

/// A history of nothing.
pub open spec fn blank_history() -> HistoryView {
    HistoryView {
        runs: 0,
        subscribed: 0,
        notifications: 0,
        records: Seq::empty(),
        notified: Seq::empty(),
    }
}

/// The records that stay when one with this title and air date is added.
pub open spec fn other_records(
    records: Seq<RecordView>,
    title: Seq<char>,
    air_date: Seq<char>,
) -> Seq<RecordView> {
    records.filter(|r: RecordView| r.title != title || r.air_date != air_date)
}

impl HistoryView {
    /// This history with one more subscription.
    pub open spec fn with_subscription(self) -> HistoryView {
        HistoryView { subscribed: self.subscribed + 1, ..self }
    }

    /// This history with the reminder `key` sent.
    pub open spec fn with_reminder(self, key: Seq<char>) -> HistoryView {
        HistoryView {
            notified: listed_with(self.notified, key),
            notifications: self.notifications + 1,
            ..self
        }
    }

    /// This history with `record` first, in place of those that have its title
    /// and the air date `replaces`.
    pub open spec fn with_record(self, record: RecordView, replaces: Seq<char>) -> HistoryView {
        HistoryView {
            records: seq![record] + other_records(self.records, record.title, replaces),
            ..self
        }
    }

    /// This history after a run: counted, and cut to the number of records that
    /// are kept.
    pub open spec fn closed_run(self) -> HistoryView {
        HistoryView {
            runs: self.runs + 1,
            records: if self.records.len() > MAX_RECORDS {
                self.records.take(MAX_RECORDS as int)
            } else {
                self.records
            },
            ..self
        }
    }
}

impl History {
    /// A history of nothing.
    pub fn new() -> (r: History)
        ensures
            r@ == blank_history(),
    {
        let r = History {
            runs: 0,
            subscribed: 0,
            notifications: 0,
            records: Vec::new(),
            notified: NameSet::new(),
        };
        assert(r@ =~= blank_history());
        r
    }

    /// This history with one more subscription.
    pub fn with_subscription(self) -> (r: History)
        requires
            self.subscribed < usize::MAX,
        ensures
            r@ == self@.with_subscription(),
    {
        let mut history = self;
        history.subscribed = history.subscribed + 1;
        history
    }

    /// This history with the reminder `key` sent.
    pub fn with_reminder(self, key: &str) -> (r: History)
        requires
            self.notifications < usize::MAX,
        ensures
            r@ == self@.with_reminder(key@),
    {
        let mut history = self;
        history.notified = history.notified.with(key);
        history.notifications = history.notifications + 1;
        history
    }

    /// This history with `record` first, in place of those that have its title
    /// and the air date `replaces`.
    pub fn with_record(self, record: Record, replaces: &str) -> (r: History)
        ensures
            r@ == self@.with_record(record@, replaces@),
    {
        let History { runs, subscribed, notifications, records, notified } = self;
        let ghost all = record_views(records@);
        let ghost p = |r: RecordView| r.title != record@.title || r.air_date != replaces@;
        let mut kept: Vec<Record> = Vec::new();
        kept.push(record);
        proof {
            reveal(Seq::filter);
            assert(all.take(0).filter(p) =~= Seq::empty());
            assert(record_views(kept@) =~= seq![record@] + all.take(0).filter(p));
        }
        for old in it: records
            invariant
                it.seq() == records@,
                all == record_views(records@),
                p == (|r: RecordView| r.title != record@.title || r.air_date != replaces@),
                record_views(kept@) == seq![record@] + all.take(it.index() as int).filter(p),
                kept@.len() > 0,
                kept@[0] == record,
        {
            let ghost k = it.index() as int;
            let ghost before = record_views(kept@);
            proof {
                reveal(Seq::filter);
                assert(all.take(k + 1).drop_last() =~= all.take(k));
                assert(all[k] == old@);
            }
            if !same(old.title.as_str(), kept[0].title.as_str()) || !same(
                old.air_date.as_str(),
                replaces,
            ) {
                kept.push(old);
                assert(record_views(kept@) =~= before.push(old@));
                assert(before.push(old@) =~= seq![record@] + all.take(k).filter(p).push(old@));
            }
        }
        assert(all.take(all.len() as int) =~= all);
        History { runs, subscribed, notifications, records: kept, notified }
    }

    /// This history after a run.
    pub fn closed_run(self) -> (r: History)
        requires
            self.runs < usize::MAX,
        ensures
            r@ == self@.closed_run(),
    {
        let mut history = self;
        let ghost all = history@.records;
        history.runs = history.runs + 1;
        if history.records.len() > MAX_RECORDS {
            history.records.truncate(MAX_RECORDS);
            assert(history@.records =~= all.take(MAX_RECORDS as int));
        }
        assert(history@ =~= self@.closed_run());
        history
    }
}

/// What one run did.
#[derive(Debug)]
pub struct Report {
    pub fetched: usize,
    pub considered: usize,
    pub subscribed: usize,
    pub notifications: usize,
    pub skipped: usize,
    pub failures: Vec<String>,
}

#[verifier::ext_equal]
pub struct ReportView {
    pub fetched: int,
    pub considered: int,
    pub subscribed: int,
    pub notifications: int,
    pub skipped: int,
    pub failures: Seq<Seq<char>>,
}

impl View for Report {
    type V = ReportView;

    open spec fn view(&self) -> ReportView {
        ReportView {
            fetched: self.fetched as int,
            considered: self.considered as int,
            subscribed: self.subscribed as int,
            notifications: self.notifications as int,
            skipped: self.skipped as int,
            failures: views(self.failures@),
        }
    }
}

/// The report of a run that has only fetched its items.
pub open spec fn blank_report(fetched: int) -> ReportView {
    ReportView {
        fetched,
        considered: 0,
        subscribed: 0,
        notifications: 0,
        skipped: 0,
        failures: Seq::empty(),
    }
}

/// The notice of a run.
pub open spec fn notice_of(report: ReportView) -> Seq<char> {
    "豆瓣将映刷新完成：获取 "@ + decimal(report.fetched as nat) + "，新增订阅 "@ + decimal(
        report.subscribed as nat,
    ) + "，发送提醒 "@ + decimal(report.notifications as nat) + "。"@
}

/// The result of a run.
pub open spec fn result_of(report: ReportView) -> JsonView {
    JsonView::Object(
        map![
            "notice"@ => JsonView::Text(notice_of(report)),
            "report"@ => JsonView::Object(
                map![
                    "fetched"@ => JsonView::Int(report.fetched),
                    "considered"@ => JsonView::Int(report.considered),
                    "subscribed"@ => JsonView::Int(report.subscribed),
                    "notifications"@ => JsonView::Int(report.notifications),
                    "skipped"@ => JsonView::Int(report.skipped),
                    "failures"@ => crate::json::text_array_view(report.failures),
                ],
            ),
        ],
    )
}

impl Report {
    /// The report of a run that has only fetched its items.
    pub fn new(fetched: usize) -> (r: Report)
        ensures
            r@ == blank_report(fetched as int),
    {
        let r = Report {
            fetched,
            considered: 0,
            subscribed: 0,
            notifications: 0,
            skipped: 0,
            failures: Vec::new(),
        };
        assert(r@ =~= blank_report(fetched as int));
        r
    }

    /// The result of the run.
    pub fn result(&self) -> (r: Json)
        ensures
            r@ == result_of(self@),
    {
        let notice = "豆瓣将映刷新完成：获取 ".to_owned().concat(
            decimal_u64(self.fetched as u64).as_str(),
        ).concat("，新增订阅 ").concat(decimal_u64(self.subscribed as u64).as_str()).concat(
            "，发送提醒 ",
        ).concat(decimal_u64(self.notifications as u64).as_str()).concat("。");
        Json::Object(
            JsonObject::new().with("notice", Json::Text(notice)).with(
                "report",
                Json::Object(
                    JsonObject::new().with("fetched", Json::count(self.fetched)).with(
                        "considered",
                        Json::count(self.considered),
                    ).with("subscribed", Json::count(self.subscribed)).with(
                        "notifications",
                        Json::count(self.notifications),
                    ).with("skipped", Json::count(self.skipped)).with(
                        "failures",
                        Json::text_array(&self.failures),
                    ),
                ),
            ),
        )
    }
}

/// Whether two records are of the same series and the same air date.
pub open spec fn same_airing(a: RecordView, b: RecordView) -> bool {
    a.title == b.title && a.air_date == b.air_date
}

/// A series with a known air date is listed once: its record comes first, and no
/// other has its title and its air date.
pub proof fn law_dated_series_is_listed_once(history: HistoryView, record: RecordView)
    ensures
        ({
            let records = history.with_record(record, record.air_date).records;
            &&& records.len() > 0
            &&& records[0] == record
            &&& forall|i: int|
                0 < i < records.len() ==> !same_airing(#[trigger] records[i], record)
        }),
{
    let records = history.with_record(record, record.air_date).records;
    let p = |r: RecordView| r.title != record.title || r.air_date != record.air_date;
    assert forall|i: int| 0 < i < records.len() implies !same_airing(
        #[trigger] records[i],
        record,
    ) by {
        history.records.lemma_filter_pred(p, i - 1);
    }
}

/// Whether no two records are of the same series and the same air date, where
/// that is known.
pub open spec fn listed_once(records: Seq<RecordView>) -> bool {
    forall|i: int, j: int|
        0 <= i < j < records.len() && same_airing(#[trigger] records[i], #[trigger] records[j])
            ==> records[j].air_date == "未知"@
}

proof fn lemma_filter_listed_once(records: Seq<RecordView>, p: spec_fn(RecordView) -> bool)
    requires
        listed_once(records),
    ensures
        listed_once(records.filter(p)),
    decreases records.len(),
{
    reveal(Seq::filter);
    if records.len() > 0 {
        let shorter = records.drop_last();
        lemma_filter_listed_once(shorter, p);
        let kept = records.filter(p);
        assert forall|i: int, j: int|
            0 <= i < j < kept.len() && same_airing(#[trigger] kept[i], #[trigger] kept[j])
                implies kept[j].air_date == "未知"@ by {
            let before = shorter.filter(p);
            assert(kept[i] == before[i]);
            if j < before.len() {
                assert(kept[j] == before[j]);
            } else {
                assert(before.contains(before[i]));
                shorter.lemma_filter_contains_rev(p, before[i]);
                let k = choose|k: int| 0 <= k < shorter.len() && shorter[k] == before[i];
                assert(records[k] == before[i]);
            }
        }
    }
}

/// A record that replaces those of its air date, or whose air date is not known,
/// leaves every series listed once.
pub proof fn law_adding_keeps_listed_once(
    history: HistoryView,
    record: RecordView,
    replaces: Seq<char>,
)
    requires
        listed_once(history.records),
        record.air_date == replaces || record.air_date == "未知"@,
    ensures
        listed_once(history.with_record(record, replaces).records),
{
    let p = |r: RecordView| r.title != record.title || r.air_date != replaces;
    let kept = history.records.filter(p);
    let records = history.with_record(record, replaces).records;
    lemma_filter_listed_once(history.records, p);
    assert forall|i: int, j: int|
        0 <= i < j < records.len() && same_airing(#[trigger] records[i], #[trigger] records[j])
            implies records[j].air_date == "未知"@ by {
        assert(records[j] == kept[j - 1]);
        history.records.lemma_filter_pred(p, j - 1);
        if i > 0 {
            assert(records[i] == kept[i - 1]);
        }
    }
}

} // verus!
