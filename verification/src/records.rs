//! Activity records and what a participant's history says: counts, distances,
//! the days covered and the streaks on them.

use vstd::prelude::*;
use crate::activity::Activity;

verus! {

/// A participant's identifier: the 128-bit value of their UUID.
pub type UserId = u128;

/// One logged activity. A participant has at most one record per day.
#[derive(Clone, Copy, Debug, PartialEq, Eq, Structural)]
pub struct ActivityRecord {
    pub user: UserId,
    /// The day of the challenge, counted from zero.
    pub event_id: i32,
    pub activity: Activity,
    /// Thousandths of a point.
    pub score: u32,
    /// Metres.
    pub distance: u64,
}

/// The records of `all` that belong to `user`, in their order.
pub open spec fn records_of(all: Seq<ActivityRecord>, user: UserId) -> Seq<ActivityRecord> {
    all.filter(|r: ActivityRecord| r.user == user)
}

/// Some record of the history is on `day`.
pub open spec fn has_record_on(history: Seq<ActivityRecord>, day: int) -> bool {
    exists|i: int| 0 <= i < history.len() && (#[trigger] history[i]).event_id == day
}

/// Some record of the history logs `activity` on `day`.
pub open spec fn logged_on(history: Seq<ActivityRecord>, day: int, activity: Activity) -> bool {
    exists|i: int|
        0 <= i < history.len() && (#[trigger] history[i]).event_id == day && history[i].activity
            == activity
}

/// Some record of the history logs `activity`.
pub open spec fn logged(history: Seq<ActivityRecord>, activity: Activity) -> bool {
    exists|i: int| 0 <= i < history.len() && (#[trigger] history[i]).activity == activity
}

/// No two records of the history are on the same day.
pub open spec fn distinct_days(history: Seq<ActivityRecord>) -> bool {
    forall|i: int, j: int|
        0 <= i < j < history.len() ==> (#[trigger] history[i]).event_id != (
        #[trigger] history[j]).event_id
}

/// How many records of the history log `activity`.
pub open spec fn activity_count(history: Seq<ActivityRecord>, activity: Activity) -> nat {
    history.filter(|r: ActivityRecord| r.activity == activity).len()
}

/// How many of the four activity types the history logs at least once.
pub open spec fn distinct_activity_types(history: Seq<ActivityRecord>) -> nat {
    let one = |activity: Activity| if logged(history, activity) { 1nat } else { 0nat };
    one(Activity::BIKE) + one(Activity::RUN) + one(Activity::WALK) + one(Activity::SKI)
}

/// The metres of `activity` that the history adds up to.
pub open spec fn total_distance(history: Seq<ActivityRecord>, activity: Activity) -> nat
    decreases history.len(),
{
    if history.len() == 0 {
        0
    } else {
        let last = history.last();
        total_distance(history.drop_last(), activity) + if last.activity == activity {
            last.distance as nat
        } else {
            0
        }
    }
}

/// The score that the history adds up to, in thousandths of a point.
pub open spec fn total_score(history: Seq<ActivityRecord>) -> nat
    decreases history.len(),
{
    if history.len() == 0 {
        0
    } else {
        total_score(history.drop_last()) + history.last().score as nat
    }
}

/// `activity` is logged on each of the `length` days from `first` on.
pub open spec fn window_logged(
    history: Seq<ActivityRecord>,
    activity: Activity,
    first: int,
    length: int,
) -> bool {
    forall|day: int| first <= day < first + length ==> #[trigger] logged_on(history, day, activity)
}

/// The history holds `length` days in a row, without a gap, on which
/// `activity` is logged. Every history has a streak of no days.
pub open spec fn has_streak(history: Seq<ActivityRecord>, activity: Activity, length: int) -> bool {
    exists|first: int| #[trigger] window_logged(history, activity, first, length)
}

/// The history has a record on every day from day zero to `last_day`.
pub open spec fn full_calendar(history: Seq<ActivityRecord>, last_day: int) -> bool {
    forall|day: int| 0 <= day <= last_day ==> #[trigger] has_record_on(history, day)
}

/// How many records of the history are on `day`.
pub open spec fn records_on(history: Seq<ActivityRecord>, day: int) -> nat {
    history.filter(|r: ActivityRecord| r.event_id == day).len()
}

/// A history has a record on a day exactly if it counts at least one there.
pub proof fn lemma_recorded_days_are_counted(history: Seq<ActivityRecord>, day: int)
    ensures
        has_record_on(history, day) <==> records_on(history, day) >= 1,
{
    let on_day = |r: ActivityRecord| r.event_id == day;
    let picked = history.filter(on_day);
    if has_record_on(history, day) {
        let i = choose|i: int| 0 <= i < history.len() && (#[trigger] history[i]).event_id == day;
        assert(on_day(history[i]));
        history.lemma_filter_contains(on_day, i);
    }
    if picked.len() >= 1 {
        history.lemma_filter_pred(on_day, 0);
        assert(picked.contains(picked[0]));
        history.lemma_filter_contains_rev(on_day, picked[0]);
        let i = choose|i: int| 0 <= i < history.len() && history[i] == picked[0];
        assert(history[i].event_id == day);
    }
}

/// A history whose records are on different days counts at most one record
/// on any day.
pub proof fn lemma_distinct_days_count_once(history: Seq<ActivityRecord>, day: int)
    requires
        distinct_days(history),
    ensures
        records_on(history, day) <= 1,
    decreases history.len(),
{
    let on_day = |r: ActivityRecord| r.event_id == day;
    if history.len() == 0 {
        history.lemma_filter_len(on_day);
    } else {
        let rest = history.drop_last();
        let last = history.last();
        assert(distinct_days(rest)) by {
            assert forall|i: int, j: int| 0 <= i < j < rest.len() implies (
            #[trigger] rest[i]).event_id != (#[trigger] rest[j]).event_id by {
                assert(rest[i] == history[i] && rest[j] == history[j]);
            }
        }
        lemma_distinct_days_count_once(rest, day);
        assert(history =~= rest.push(last));
        Seq::lemma_filter_push(rest, last, on_day);
        if last.event_id == day {
            lemma_recorded_days_are_counted(rest, day);
            if has_record_on(rest, day) {
                let i = choose|i: int| 0 <= i < rest.len() && (#[trigger] rest[i]).event_id == day;
                assert(history[i].event_id == history[history.len() - 1].event_id);
            }
        }
    }
}

} // verus!
