//! The repository's tables: what they hold and when they are valid.

use vstd::prelude::*;
use crate::activity::ActivityInfo;
use crate::calendar::{numbered_by_day, Event, LAST_DAY};
use crate::records::{distinct_days, has_record_on, records_of, ActivityRecord, UserId};
use crate::scoring::MAX_SCORE;

verus! {

/// A participant.
#[derive(Debug, PartialEq, Eq)]
pub struct User {
    pub id: UserId,
    pub username: String,
    pub pass: String,
}

/// A participant's session: the key stands for the participant.
#[derive(Clone, Copy, Debug, PartialEq, Eq, Structural)]
pub struct Session {
    pub id: UserId,
    pub key: u128,
}

/// What a participant logged on a day.
#[derive(Clone, Copy, Debug, PartialEq, Eq, Structural)]
pub struct LoggedActivityInfo {
    pub day: i32,
    pub info: ActivityInfo,
}

/// Every day of the calendar stands at its index and has a target above
/// zero.
pub open spec fn valid_calendar(events: Seq<Event>) -> bool {
    &&& numbered_by_day(events)
    &&& forall|i: int| 0 <= i < events.len() ==> (#[trigger] events[i]).distance > 0
}

/// A record is on a day of the challenge, scores at most ten points, and
/// holds a distance that a participant can have sent.
pub open spec fn valid_record(record: ActivityRecord) -> bool {
    &&& 0 <= record.event_id <= LAST_DAY
    &&& record.score <= MAX_SCORE
    &&& record.distance <= i64::MAX
}

/// The first element of `s` that matches stands at `i`.
pub open spec fn is_first<T>(s: Seq<T>, matches: spec_fn(T) -> bool, i: int) -> bool {
    &&& 0 <= i < s.len()
    &&& matches(s[i])
    &&& forall|j: int| 0 <= j < i ==> !matches(#[trigger] s[j])
}

/// No element of `s` matches.
pub open spec fn none_matches<T>(s: Seq<T>, matches: spec_fn(T) -> bool) -> bool {
    forall|j: int| 0 <= j < s.len() ==> !matches(#[trigger] s[j])
}

/// Picks the participant with an identifier.
pub open spec fn with_id(id: UserId) -> spec_fn(User) -> bool {
    |u: User| u.id == id
}

/// Picks the participants with a name.
pub open spec fn with_name(username: Seq<char>) -> spec_fn(User) -> bool {
    |u: User| u.username@ == username
}

/// Picks the participants with a name and a password.
pub open spec fn with_login(username: Seq<char>, pass: Seq<char>) -> spec_fn(User) -> bool {
    |u: User| u.username@ == username && u.pass@ == pass
}

/// Picks the sessions of a participant.
pub open spec fn session_of(user: UserId) -> spec_fn(Session) -> bool {
    |s: Session| s.id == user
}

/// Picks the sessions with a key.
pub open spec fn with_key(key: u128) -> spec_fn(Session) -> bool {
    |s: Session| s.key == key
}

/// The tables are `before` with one more participant, who has the given
/// name and password.
pub open spec fn registered(
    before: Seq<User>,
    after: Seq<User>,
    username: Seq<char>,
    pass: Seq<char>,
) -> bool {
    &&& after.len() == before.len() + 1
    &&& after.drop_last() == before
    &&& after.last().username@ == username
    &&& after.last().pass@ == pass
}

/// Some record belongs to `user` and is on `day`.
pub open spec fn recorded(records: Seq<ActivityRecord>, user: UserId, day: int) -> bool {
    exists|i: int|
        0 <= i < records.len() && (#[trigger] records[i]).user == user && records[i].event_id
            == day
}

/// No participant has two records on one day.
pub open spec fn one_record_per_day(records: Seq<ActivityRecord>) -> bool {
    forall|i: int, j: int|
        0 <= i < j < records.len() ==> !((#[trigger] records[i]).user == (
        #[trigger] records[j]).user && records[i].event_id == records[j].event_id)
}

/// The tables make up a repository.
pub open spec fn valid_tables(events: Seq<Event>, records: Seq<ActivityRecord>) -> bool {
    &&& valid_calendar(events)
    &&& one_record_per_day(records)
    &&& forall|i: int| 0 <= i < records.len() ==> valid_record(#[trigger] records[i])
}

/// What a record shows in a participant's log.
pub open spec fn logged_info(record: ActivityRecord) -> LoggedActivityInfo {
    LoggedActivityInfo {
        day: record.event_id,
        info: ActivityInfo { activity: record.activity, value: record.distance as i64 },
    }
}

/// Where no participant has two records on one day, the records of one
/// participant are on different days.
pub proof fn lemma_history_has_distinct_days(all: Seq<ActivityRecord>, user: UserId)
    requires
        one_record_per_day(all),
    ensures
        distinct_days(records_of(all, user)),
    decreases all.len(),
{
    let own = |r: ActivityRecord| r.user == user;
    if all.len() == 0 {
        all.lemma_filter_len(own);
    } else {
        let rest = all.drop_last();
        let last = all.last();
        assert(one_record_per_day(rest)) by {
            assert forall|i: int, j: int| 0 <= i < j < rest.len() implies !((
            #[trigger] rest[i]).user == (#[trigger] rest[j]).user && rest[i].event_id
                == rest[j].event_id) by {
                assert(rest[i] == all[i] && rest[j] == all[j]);
            }
        }
        lemma_history_has_distinct_days(rest, user);
        assert(all =~= rest.push(last));
        Seq::lemma_filter_push(rest, last, own);
        if last.user == user {
            let before = rest.filter(own);
            let history = before.push(last);
            assert forall|i: int, j: int| 0 <= i < j < history.len() implies (
            #[trigger] history[i]).event_id != (#[trigger] history[j]).event_id by {
                if j == before.len() {
                    rest.lemma_filter_pred(own, i);
                    assert(before.contains(before[i]));
                    rest.lemma_filter_contains_rev(own, before[i]);
                    let p = choose|p: int| 0 <= p < rest.len() && rest[p] == before[i];
                    assert(all[p] == before[i]);
                    assert(all[all.len() - 1] == last);
                } else {
                    assert(before[i] == history[i] && before[j] == history[j]);
                }
            }
        }
    }
}

/// A participant has a record on a day exactly if their own records hold
/// one on that day.
pub proof fn lemma_recorded_in_history(all: Seq<ActivityRecord>, user: UserId, day: int)
    ensures
        recorded(all, user, day) <==> has_record_on(records_of(all, user), day),
{
    let own = |r: ActivityRecord| r.user == user;
    let history = all.filter(own);
    if recorded(all, user, day) {
        let i = choose|i: int|
            0 <= i < all.len() && (#[trigger] all[i]).user == user && all[i].event_id == day;
        assert(own(all[i]));
        all.lemma_filter_contains(own, i);
        let k = choose|k: int| 0 <= k < history.len() && history[k] == all[i];
        assert(history[k].event_id == day);
    }
    if has_record_on(history, day) {
        let k = choose|k: int| 0 <= k < history.len() && (#[trigger] history[k]).event_id == day;
        all.lemma_filter_pred(own, k);
        assert(history.contains(history[k]));
        all.lemma_filter_contains_rev(own, history[k]);
        let i = choose|i: int| 0 <= i < all.len() && all[i] == history[k];
        assert(all[i].user == user && all[i].event_id == day);
    }
}

/// A record of one participant leaves the records of every other as they are.
pub proof fn lemma_other_histories_untouched(
    all: Seq<ActivityRecord>,
    record: ActivityRecord,
    user: UserId,
)
    requires
        record.user != user,
    ensures
        records_of(all.push(record), user) == records_of(all, user),
{
    Seq::lemma_filter_push(all, record, |r: ActivityRecord| r.user == user);
}

} // verus!
