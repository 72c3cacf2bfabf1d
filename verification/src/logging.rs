//! The rules of logging an activity.

use vstd::prelude::*;
use crate::activity::ActivityInfo;
use crate::calendar::{day_of, started, Event, LAST_DAY};
use crate::error::Error;
use crate::records::{ActivityRecord, UserId};
use crate::scoring::score_of;
use crate::tables::recorded;

verus! {

/// Why logging on `day` for `user`, `now` whole days after the start, is
/// refused, if it is: the first of the checks that fails.
pub open spec fn log_error(
    events: Seq<Event>,
    records: Seq<ActivityRecord>,
    now: int,
    user: UserId,
    day: int,
) -> Option<Error> {
    if day < 0 || day > LAST_DAY {
        Some(Error::InvalidDay)
    } else if !started(now) {
        Some(Error::ChallengeNotStarted)
    } else if day > day_of(now) {
        Some(Error::FutureDay)
    } else if recorded(records, user, day) {
        Some(Error::DuplicateEntry)
    } else if day >= events.len() {
        Some(Error::EventNotFound)
    } else {
        None
    }
}

/// The logged distance: what is below zero counts as zero.
pub open spec fn covered(value: i64) -> nat {
    if value < 0 {
        0
    } else {
        value as nat
    }
}

/// The record that logging makes: the distance held at zero or above, scored
/// against the day's target, at half the score where the day has passed.
pub open spec fn logged_record(
    events: Seq<Event>,
    now: int,
    user: UserId,
    day: int,
    info: ActivityInfo,
) -> ActivityRecord {
    ActivityRecord {
        user,
        event_id: day as i32,
        activity: info.activity,
        score: score_of(
            covered(info.value),
            info.activity,
            events[day].distance as int,
            day == day_of(now),
        ) as u32,
        distance: covered(info.value) as u64,
    }
}

} // verus!
