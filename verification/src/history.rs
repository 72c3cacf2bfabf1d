//! The forward pass over a participant's history: entries per activity and
//! the longest streak of each.

use vstd::prelude::*;
use crate::activity::Activity;
use crate::records::{
    activity_count, distinct_days, has_streak, logged_on, window_logged, ActivityRecord,
};

verus! {

/// One number for each activity type.
#[derive(Clone, Copy, Debug, PartialEq, Eq, Structural)]
pub struct ActivityTally {
    pub bike: usize,
    pub run: usize,
    pub walk: usize,
    pub ski: usize,
}

impl ActivityTally {
    /// The number kept for `activity`.
    pub open spec fn of(self, activity: Activity) -> usize {
        match activity {
            Activity::BIKE => self.bike,
            Activity::RUN => self.run,
            Activity::WALK => self.walk,
            Activity::SKI => self.ski,
        }
    }

    /// A tally of zeros.
    pub fn new() -> (tally: ActivityTally)
        ensures
            forall|a: Activity| tally.of(a) == 0,
    {
        ActivityTally { bike: 0, run: 0, walk: 0, ski: 0 }
    }

    /// The number kept for `activity`.
    pub fn get(&self, activity: Activity) -> (n: usize)
        ensures
            n == self.of(activity),
    {
        match activity {
            Activity::BIKE => self.bike,
            Activity::RUN => self.run,
            Activity::WALK => self.walk,
            Activity::SKI => self.ski,
        }
    }

    /// Keeps `n` for `activity`, and the other numbers as they are.
    pub fn set(&mut self, activity: Activity, n: usize)
        ensures
            final(self).of(activity) == n,
            forall|a: Activity| a != activity ==> final(self).of(a) == old(self).of(a),
    {
        match activity {
            Activity::BIKE => { self.bike = n; },
            Activity::RUN => { self.run = n; },
            Activity::WALK => { self.walk = n; },
            Activity::SKI => { self.ski = n; },
        }
    }
}

/// Entries per activity and the longest streak of each.
#[derive(Clone, Copy, Debug, PartialEq, Eq, Structural)]
pub struct HistoryStats {
    pub counts: ActivityTally,
    pub streaks: ActivityTally,
}

/// The days never go down from one record to the next.
spec fn ordered_by_day(s: Seq<ActivityRecord>) -> bool {
    forall|i: int, j: int|
        0 <= i < j < s.len() ==> (#[trigger] s[i]).event_id <= (#[trigger] s[j]).event_id
}

/// The days go up from each record to the next.
spec fn increasing_days(s: Seq<ActivityRecord>) -> bool {
    forall|i: int, j: int|
        0 <= i < j < s.len() ==> (#[trigger] s[i]).event_id < (#[trigger] s[j]).event_id
}

/// The length of the run of consecutive days with one activity that ends at
/// the record at `i`: one more than the run before it where the record before
/// it logs the same activity on the day before, and one where it does not.
spec fn run_ending_at(s: Seq<ActivityRecord>, i: int) -> nat
    decreases i,
{
    if i <= 0 {
        1
    } else if s[i - 1].activity == s[i].activity && s[i - 1].event_id + 1 == s[i].event_id {
        run_ending_at(s, i - 1) + 1
    } else {
        1
    }
}

/// The longest run that ends at one of the first `upto` records and logs
/// `activity`; zero where none of them does.
spec fn longest_run(s: Seq<ActivityRecord>, activity: Activity, upto: int) -> nat
    decreases upto,
{
    if upto <= 0 {
        0
    } else if s[upto - 1].activity == activity && run_ending_at(s, upto - 1) > longest_run(
        s,
        activity,
        upto - 1,
    ) {
        run_ending_at(s, upto - 1)
    } else {
        longest_run(s, activity, upto - 1)
    }
}

proof fn lemma_count_insert(s: Seq<ActivityRecord>, at: int, x: ActivityRecord, a: Activity)
    requires
        0 <= at <= s.len(),
    ensures
        activity_count(s.insert(at, x), a) == activity_count(s, a) + if x.activity == a {
            1nat
        } else {
            0nat
        },
{
    let pred = |r: ActivityRecord| r.activity == a;
    let front = s.take(at);
    let back = s.skip(at);
    assert(s =~= front + back);
    assert(s.insert(at, x) =~= front.push(x) + back);
    Seq::filter_distributes_over_add(front, back, pred);
    Seq::filter_distributes_over_add(front.push(x), back, pred);
    Seq::lemma_filter_push(front, x, pred);
}

/// Orders the records by day; records of one day keep their order.
fn sort_by_day(history: &Vec<ActivityRecord>) -> (sorted: Vec<ActivityRecord>)
    ensures
        ordered_by_day(sorted@),
        sorted@.to_multiset() == history@.to_multiset(),
        forall|a: Activity| activity_count(sorted@, a) == activity_count(history@, a),
{
    let mut sorted: Vec<ActivityRecord> = Vec::new();
    let mut i: usize = 0;
    assert(history@.take(0) =~= Seq::<ActivityRecord>::empty());
    while i < history.len()
        invariant
            i <= history@.len(),
            ordered_by_day(sorted@),
            sorted@.to_multiset() == history@.take(i as int).to_multiset(),
            forall|a: Activity|
                activity_count(sorted@, a) == activity_count(history@.take(i as int), a),
        decreases history@.len() - i,
    {
        let x = history[i];
        let mut at: usize = sorted.len();
        while at > 0 && sorted[at - 1].event_id > x.event_id
            invariant
                at <= sorted@.len(),
                forall|k: int|
                    at <= k < sorted@.len() ==> (#[trigger] sorted@[k]).event_id > x.event_id,
            decreases at,
        {
            at = at - 1;
        }
        proof {
            let before = sorted@;
            let after = before.insert(at as int, x);
            vstd::seq_lib::to_multiset_insert(before, at as int, x);
            assert(history@.take(i + 1) =~= history@.take(i as int).push(x));
            vstd::seq_lib::to_multiset_build(history@.take(i as int), x);
            assert forall|a: Activity|
                activity_count(after, a) == activity_count(history@.take(i + 1), a) by {
                lemma_count_insert(before, at as int, x, a);
                Seq::lemma_filter_push(
                    history@.take(i as int),
                    x,
                    |r: ActivityRecord| r.activity == a,
                );
            }
            assert(ordered_by_day(after)) by {
                assert forall|p: int, q: int| 0 <= p < q < after.len() implies (
                #[trigger] after[p]).event_id <= (#[trigger] after[q]).event_id by {
                    let bp = if p < at { p } else { p - 1 };
                    let bq = if q < at { q } else { q - 1 };
                    if p != at && q != at {
                        assert(after[p] == before[bp]);
                        assert(after[q] == before[bq]);
                    } else if p == at {
                        assert(after[q] == before[bq]);
                    } else {
                        assert(after[p] == before[bp]);
                        if at > 0 {
                            assert(before[at - 1].event_id <= x.event_id);
                        }
                    }
                }
            }
        }
        sorted.insert(at, x);
        i = i + 1;
    }
    assert(history@.take(history@.len() as int) =~= history@);
    sorted
}

proof fn lemma_run_bounds(s: Seq<ActivityRecord>, i: int)
    requires
        0 <= i < s.len(),
    ensures
        1 <= run_ending_at(s, i) <= i + 1,
    decreases i,
{
    if i > 0 {
        lemma_run_bounds(s, i - 1);
    }
}

/// The days of a run are all logged: the run that ends at `i` covers the
/// days up to that of `i`.
proof fn lemma_run_is_window(s: Seq<ActivityRecord>, i: int)
    requires
        0 <= i < s.len(),
    ensures
        window_logged(
            s,
            s[i].activity,
            s[i].event_id - run_ending_at(s, i) + 1,
            run_ending_at(s, i) as int,
        ),
    decreases i,
{
    let a = s[i].activity;
    let n = run_ending_at(s, i) as int;
    let first = s[i].event_id - n + 1;
    if i > 0 && s[i - 1].activity == a && s[i - 1].event_id + 1 == s[i].event_id {
        lemma_run_is_window(s, i - 1);
        assert forall|day: int| first <= day < first + n implies #[trigger] logged_on(
            s,
            day,
            a,
        ) by {
            if day == s[i].event_id {
                assert(s[i].event_id == day && s[i].activity == a);
            } else {
                assert(window_logged(s, a, first, n - 1));
            }
        }
    } else {
        assert forall|day: int| first <= day < first + n implies #[trigger] logged_on(
            s,
            day,
            a,
        ) by {
            assert(s[i].event_id == day && s[i].activity == a);
        }
    }
}

/// Where the days go up and a window of `length` days that ends on the day of
/// `i` is all logged with the activity of `i`, the run that ends at `i` is at
/// least that long.
proof fn lemma_window_is_run(s: Seq<ActivityRecord>, first: int, length: int, i: int)
    requires
        increasing_days(s),
        0 <= i < s.len(),
        length >= 1,
        s[i].event_id == first + length - 1,
        window_logged(s, s[i].activity, first, length),
    ensures
        run_ending_at(s, i) >= length,
    decreases length,
{
    let a = s[i].activity;
    if length > 1 {
        let day = s[i].event_id - 1;
        assert(logged_on(s, day, a));
        let j = choose|j: int|
            0 <= j < s.len() && (#[trigger] s[j]).event_id == day && s[j].activity == a;
        if j > i {
            assert(s[i].event_id < s[j].event_id);
        }
        assert(j < i);
        if j < i - 1 {
            assert(s[j].event_id < s[i - 1].event_id);
            assert(s[i - 1].event_id < s[i].event_id);
        }
        assert(j == i - 1);
        assert(window_logged(s, a, first, length - 1));
        lemma_window_is_run(s, first, length - 1, i - 1);
    }
}

/// No run that logs `a` among the first `upto` records is longer than the
/// longest run.
proof fn lemma_longest_run_is_upper_bound(s: Seq<ActivityRecord>, a: Activity, upto: int, j: int)
    requires
        0 <= j < upto <= s.len(),
        s[j].activity == a,
    ensures
        run_ending_at(s, j) <= longest_run(s, a, upto),
    decreases upto,
{
    if j < upto - 1 {
        lemma_longest_run_is_upper_bound(s, a, upto - 1, j);
    }
}

/// The longest run, where it is not zero, is the run of some record that
/// logs `a`.
proof fn lemma_longest_run_is_reached(s: Seq<ActivityRecord>, a: Activity, upto: int) -> (j: int)
    requires
        0 <= upto <= s.len(),
        longest_run(s, a, upto) > 0,
    ensures
        0 <= j < upto,
        s[j].activity == a,
        run_ending_at(s, j) == longest_run(s, a, upto),
    decreases upto,
{
    if longest_run(s, a, upto) == longest_run(s, a, upto - 1) {
        lemma_longest_run_is_reached(s, a, upto - 1)
    } else {
        upto - 1
    }
}

/// Where the days go up, the history has a streak of a length exactly when
/// the longest run is at least that long.
proof fn lemma_streak_is_longest_run(s: Seq<ActivityRecord>, a: Activity, length: int)
    requires
        increasing_days(s),
    ensures
        has_streak(s, a, length) <==> length <= longest_run(s, a, s.len() as int),
{
    let longest = longest_run(s, a, s.len() as int);
    if length <= 0 {
        assert(window_logged(s, a, 0, length));
    } else {
        if has_streak(s, a, length) {
            let first = choose|first: int| #[trigger] window_logged(s, a, first, length);
            let day = first + length - 1;
            assert(logged_on(s, day, a));
            let i = choose|i: int|
                0 <= i < s.len() && (#[trigger] s[i]).event_id == day && s[i].activity == a;
            lemma_window_is_run(s, first, length, i);
            lemma_longest_run_is_upper_bound(s, a, s.len() as int, i);
        }
        if length <= longest {
            let j = lemma_longest_run_is_reached(s, a, s.len() as int);
            lemma_run_is_window(s, j);
            let first = s[j].event_id - length + 1;
            assert(window_logged(s, a, s[j].event_id - longest + 1, longest as int));
            assert(window_logged(s, a, first, length));
        }
    }
}

/// Two histories with the same records log the same activities on the same
/// days, so they have the same streaks.
proof fn lemma_same_records_same_streaks(h: Seq<ActivityRecord>, s: Seq<ActivityRecord>)
    requires
        h.to_multiset() == s.to_multiset(),
    ensures
        forall|day: int, a: Activity| logged_on(h, day, a) <==> logged_on(s, day, a),
        forall|a: Activity, length: int| has_streak(h, a, length) <==> has_streak(s, a, length),
        distinct_days(h) ==> distinct_days(s),
{
    assert forall|x: ActivityRecord| h.contains(x) <==> s.contains(x) by {
        vstd::seq_lib::to_multiset_contains(h, x);
        vstd::seq_lib::to_multiset_contains(s, x);
    }
    assert forall|day: int, a: Activity| logged_on(h, day, a) <==> logged_on(s, day, a) by {
        if logged_on(h, day, a) {
            let i = choose|i: int|
                0 <= i < h.len() && (#[trigger] h[i]).event_id == day && h[i].activity == a;
            assert(h.contains(h[i]));
            let j = choose|j: int| 0 <= j < s.len() && s[j] == h[i];
            assert(s[j].event_id == day && s[j].activity == a);
        }
        if logged_on(s, day, a) {
            let i = choose|i: int|
                0 <= i < s.len() && (#[trigger] s[i]).event_id == day && s[i].activity == a;
            assert(s.contains(s[i]));
            let j = choose|j: int| 0 <= j < h.len() && h[j] == s[i];
            assert(h[j].event_id == day && h[j].activity == a);
        }
    }
    assert forall|a: Activity, length: int| has_streak(h, a, length) <==> has_streak(
        s,
        a,
        length,
    ) by {
        if has_streak(h, a, length) {
            let first = choose|first: int| #[trigger] window_logged(h, a, first, length);
            assert(window_logged(s, a, first, length));
        }
        if has_streak(s, a, length) {
            let first = choose|first: int| #[trigger] window_logged(s, a, first, length);
            assert(window_logged(h, a, first, length));
        }
    }
    if distinct_days(h) {
        assert(h.no_duplicates());
        h.lemma_multiset_has_no_duplicates();
        s.lemma_multiset_has_no_duplicates_conv();
        assert forall|i: int, j: int| 0 <= i < j < s.len() implies (#[trigger] s[i]).event_id != (
        #[trigger] s[j]).event_id by {
            assert(s.contains(s[i]));
            assert(s.contains(s[j]));
            let p = choose|p: int| 0 <= p < h.len() && h[p] == s[i];
            let q = choose|q: int| 0 <= q < h.len() && h[q] == s[j];
            assert(s[i] != s[j]);
            if p < q {
                assert(h[p].event_id != h[q].event_id);
            } else {
                assert(h[q].event_id != h[p].event_id);
            }
        }
    }
}

/// Tells whether no two records of the history are on the same day.
pub fn days_are_distinct(history: &Vec<ActivityRecord>) -> (distinct: bool)
    ensures
        distinct == distinct_days(history@),
{
    let sorted = sort_by_day(history);
    let mut i: usize = 1;
    while i < sorted.len()
        invariant
            1 <= i,
            ordered_by_day(sorted@),
            sorted@.to_multiset() == history@.to_multiset(),
            forall|k: int| 1 <= k < i && k < sorted@.len() ==> (#[trigger] sorted@[k - 1]).event_id
                < sorted@[k].event_id,
        decreases sorted@.len() - i,
    {
        if sorted[i - 1].event_id == sorted[i].event_id {
            proof {
                if distinct_days(history@) {
                    lemma_same_records_same_streaks(history@, sorted@);
                    assert(sorted@[i - 1].event_id != sorted@[i as int].event_id);
                }
            }
            return false;
        }
        i = i + 1;
    }
    proof {
        assert(increasing_days(sorted@)) by {
            assert forall|a: int, b: int| 0 <= a < b < sorted@.len() implies (
            #[trigger] sorted@[a]).event_id < (#[trigger] sorted@[b]).event_id by {
                assert(sorted@[b - 1].event_id < sorted@[b].event_id);
                if a < b - 1 {
                    assert(sorted@[a].event_id <= sorted@[b - 1].event_id);
                }
            }
        }
        assert(distinct_days(sorted@));
        lemma_same_records_same_streaks(sorted@, history@);
    }
    true
}

/// The forward pass: counts the entries of each activity and finds the
/// longest streak of each.
pub fn history_stats(history: &Vec<ActivityRecord>) -> (stats: HistoryStats)
    requires
        distinct_days(history@),
    ensures
        forall|a: Activity| stats.counts.of(a) == activity_count(history@, a),
        forall|a: Activity, length: int|
            has_streak(history@, a, length) <==> length <= stats.streaks.of(a),
{
    let sorted = sort_by_day(history);
    proof {
        lemma_same_records_same_streaks(history@, sorted@);
        assert(increasing_days(sorted@));
    }
    let mut counts = ActivityTally::new();
    let mut streaks = ActivityTally::new();
    let mut streak_count: usize = 1;
    let mut i: usize = 0;
    assert(sorted@.take(0) =~= Seq::<ActivityRecord>::empty());
    while i < sorted.len()
        invariant
            i <= sorted@.len(),
            forall|a: Activity| counts.of(a) == activity_count(sorted@.take(i as int), a),
            forall|a: Activity| streaks.of(a) == longest_run(sorted@, a, i as int),
            i > 0 ==> streak_count == run_ending_at(sorted@, i - 1),
            i == 0 ==> streak_count == 1,
        decreases sorted@.len() - i,
    {
        let record = sorted[i];
        proof {
            assert(sorted@.take(i + 1) =~= sorted@.take(i as int).push(record));
            assert forall|a: Activity|
                activity_count(sorted@.take(i + 1), a) == activity_count(sorted@.take(i as int), a)
                    + if record.activity == a {
                    1nat
                } else {
                    0nat
                } by {
                Seq::lemma_filter_push(
                    sorted@.take(i as int),
                    record,
                    |r: ActivityRecord| r.activity == a,
                );
            }
            Seq::lemma_filter_len(
                sorted@.take(i + 1),
                |r: ActivityRecord| r.activity == record.activity,
            );
            lemma_run_bounds(sorted@, i as int);
        }
        let count = counts.get(record.activity);
        counts.set(record.activity, count + 1);
        if i > 0 {
            let yesterday = sorted[i - 1];
            streak_count = if yesterday.activity == record.activity && yesterday.event_id as i64
                + 1 == record.event_id as i64 {
                streak_count + 1
            } else {
                1
            };
        }
        let streak = streaks.get(record.activity);
        if streak_count > streak {
            streaks.set(record.activity, streak_count);
        }
        i = i + 1;
    }
    proof {
        assert(sorted@.take(sorted@.len() as int) =~= sorted@);
        assert forall|a: Activity, length: int|
            has_streak(history@, a, length) <==> length <= streaks.of(a) by {
            lemma_streak_is_longest_run(sorted@, a, length);
        }
    }
    HistoryStats { counts, streaks }
}

} // verus!
