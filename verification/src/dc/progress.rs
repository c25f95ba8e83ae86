//! Following an update task: the reply is asked for again and again until the
//! task succeeds or the attempts are used up.
use vstd::prelude::*;

use super::response::{code_is, has_code, message, message_of};
use crate::json::{Json, JsonObject, JsonView};
use crate::settings::{int_setting, setting_u64};
use crate::text::same;

verus! {

/// `n`, moved between `low` and `high`.
pub open spec fn clamped(n: int, low: int, high: int) -> int {
    if n < low {
        low
    } else if n > high {
        high
    } else {
        n
    }
}

/// `n`, moved between `low` and `high`.
fn clamp(n: u64, low: u64, high: u64) -> (r: u64)
    requires
        low <= high,
    ensures
        r == clamped(n as int, low as int, high as int),
{
    if n < low {
        low
    } else if n > high {
        high
    } else {
        n
    }
}

/// How often a task is asked for, and how many seconds apart.
#[derive(Debug, Clone, Copy)]
pub struct Pace {
    pub attempts: u64,
    pub interval: u64,
}

/// The pace that the settings ask for.
pub open spec fn pace_in(settings: Map<Seq<char>, JsonView>) -> Pace {
    Pace {
        attempts: clamped(
            int_setting(settings, "progress_attempts"@, 6, 0, u64::MAX as int),
            1,
            100,
        ) as u64,
        interval: clamped(
            int_setting(settings, "progress_interval_seconds"@, 10, 0, u64::MAX as int),
            1,
            300,
        ) as u64,
    }
}

impl Pace {
    /// One to a hundred attempts, one second to five minutes apart.
    pub open spec fn moderate(self) -> bool {
        1 <= self.attempts <= 100 && 1 <= self.interval <= 300
    }

    /// The pace that the settings ask for.
    pub fn from_settings(settings: &JsonObject) -> (r: Pace)
        ensures
            r == pace_in(settings.members()),
            r.moderate(),
    {
        Pace {
            attempts: clamp(setting_u64(settings, "progress_attempts", 6), 1, 100),
            interval: clamp(setting_u64(settings, "progress_interval_seconds", 10), 1, 300),
        }
    }
}

/// A task that is being followed: how often it was asked for, and the last that
/// was heard of it.
#[derive(Debug)]
pub struct Tracker {
    pub pace: Pace,
    pub asked: u64,
    pub latest: String,
}

/// What a tracker knows.
#[verifier::ext_equal]
pub struct TrackerView {
    pub pace: Pace,
    pub asked: int,
    pub latest: Seq<char>,
}

impl View for Tracker {
    type V = TrackerView;

    open spec fn view(&self) -> TrackerView {
        TrackerView { pace: self.pace, asked: self.asked as int, latest: self.latest@ }
    }
}

/// A tracker that has not asked yet.
pub open spec fn fresh_tracker(pace: Pace) -> TrackerView {
    TrackerView { pace, asked: 0, latest: "等待更新进度"@ }
}

/// Whether a reply says that the update succeeded.
pub open spec fn says_done(reply: JsonView) -> bool {
    code_is(reply, 200) && message_of(reply) == "更新成功"@
}

/// The last that was heard, after a reply.
pub open spec fn heard(latest: Seq<char>, reply: JsonView) -> Seq<char> {
    if code_is(reply, 200) {
        message_of(reply)
    } else {
        latest
    }
}

impl TrackerView {
    /// Whether the task may be asked for once more.
    pub open spec fn in_progress(self) -> bool {
        self.pace.moderate() && 0 <= self.asked < self.pace.attempts
    }

    /// This tracker after a reply.
    pub open spec fn after(self, reply: JsonView) -> TrackerView {
        TrackerView { pace: self.pace, asked: self.asked + 1, latest: heard(self.latest, reply) }
    }

    /// Whether the reply is the last one that is asked for.
    pub open spec fn ends_with(self, reply: JsonView) -> bool {
        says_done(reply) || self.asked + 1 >= self.pace.attempts
    }
}

/// What to do after a reply: wait and ask again, or report.
#[derive(Debug)]
pub enum TrackStep {
    Wait(Tracker),
    Done(String),
}

impl Tracker {
    /// A tracker that has not asked yet.
    pub fn new(pace: Pace) -> (r: Tracker)
        ensures
            r@ == fresh_tracker(pace),
    {
        Tracker { pace, asked: 0, latest: "等待更新进度".to_owned() }
    }

    /// Whether the task may be asked for once more.
    pub fn may_ask(&self) -> (r: bool)
        ensures
            r == self@.in_progress(),
    {
        1 <= self.pace.attempts && self.pace.attempts <= 100 && 1 <= self.pace.interval
            && self.pace.interval <= 300 && self.asked < self.pace.attempts
    }

    /// Takes a reply into account.
    pub fn observe(self, reply: &Json) -> (r: TrackStep)
        requires
            self@.in_progress(),
        ensures
            match r {
                TrackStep::Done(text) => self@.ends_with(reply@) && text@ == self@.after(
                    reply@,
                ).latest,
                TrackStep::Wait(next) => !self@.ends_with(reply@) && next@ == self@.after(reply@)
                    && next@.in_progress(),
            },
    {
        let mut latest = self.latest;
        if has_code(reply, 200) {
            latest = message(reply);
            if same(latest.as_str(), "更新成功") {
                return TrackStep::Done(latest);
            }
        }
        let asked: u64 = self.asked + 1;
        if asked < self.pace.attempts {
            TrackStep::Wait(Tracker { pace: self.pace, asked, latest })
        } else {
            TrackStep::Done(latest)
        }
    }
}

/// What following a task reports, given the replies to come; none where the
/// replies run out before the end.
pub open spec fn followed(tracker: TrackerView, replies: Seq<JsonView>) -> Option<Seq<char>>
    decreases replies.len(),
{
    if replies.len() == 0 {
        None
    } else if tracker.ends_with(replies[0]) {
        Some(tracker.after(replies[0]).latest)
    } else {
        followed(tracker.after(replies[0]), replies.drop_first())
    }
}

/// The last that was heard, after a list of replies.
pub open spec fn last_heard(latest: Seq<char>, replies: Seq<JsonView>) -> Seq<char>
    decreases replies.len(),
{
    if replies.len() == 0 {
        latest
    } else {
        last_heard(heard(latest, replies[0]), replies.drop_first())
    }
}

/// Following a task asks at most as often as the pace allows, stops at the first
/// reply of success, and reports the last message that came with the code of
/// success.
pub proof fn law_following_ends(tracker: TrackerView, replies: Seq<JsonView>)
    requires
        tracker.in_progress(),
        replies.len() >= tracker.pace.attempts - tracker.asked,
    ensures
        exists|n: int|
            #![trigger replies.take(n)]
            {
                &&& 1 <= n <= tracker.pace.attempts - tracker.asked
                &&& forall|i: int| 0 <= i < n - 1 ==> !says_done(#[trigger] replies[i])
                &&& n < tracker.pace.attempts - tracker.asked ==> says_done(replies[n - 1])
                &&& followed(tracker, replies) == Some(
                    last_heard(tracker.latest, replies.take(n)),
                )
            },
    decreases replies.len(),
{
    let first = replies[0];
    if tracker.ends_with(first) {
        assert(replies.take(1).drop_first() =~= Seq::empty());
        assert(last_heard(tracker.latest, replies.take(1)) == heard(tracker.latest, first)) by {
            reveal_with_fuel(last_heard, 2);
        }
    } else {
        let rest = replies.drop_first();
        let next = tracker.after(first);
        law_following_ends(next, rest);
        let m = choose|m: int|
            #![trigger rest.take(m)]
            {
                &&& 1 <= m <= next.pace.attempts - next.asked
                &&& forall|i: int| 0 <= i < m - 1 ==> !says_done(#[trigger] rest[i])
                &&& m < next.pace.attempts - next.asked ==> says_done(rest[m - 1])
                &&& followed(next, rest) == Some(last_heard(next.latest, rest.take(m)))
            };
        let n = m + 1;
        assert(replies.take(n).drop_first() =~= rest.take(m));
        assert(replies.take(n)[0] == first);
        assert forall|i: int| 0 <= i < n - 1 implies !says_done(#[trigger] replies[i]) by {
            if i > 0 {
                assert(rest[i - 1] == replies[i]);
            }
        }
        assert(rest[m - 1] == replies[n - 1]);
    }
}

} // verus!
