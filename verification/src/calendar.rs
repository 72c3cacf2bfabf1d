//! The challenge calendar: its days, the target of each, and which day it is.

use vstd::prelude::*;
use rand::seq::SliceRandom;

verus! {

/// The year of day zero.
pub const START_YEAR: i32 = 2021;

/// The month of day zero.
pub const START_MONTH: u32 = 12;

/// The day of the month of day zero.
pub const START_DAY: u32 = 1;

/// The last day of the challenge; the first is day zero.
pub const LAST_DAY: i32 = 23;

/// How many days the challenge has.
pub const DAYS: usize = 24;

/// One day of the challenge and its target.
#[derive(Clone, Copy, Debug, PartialEq, Eq, Structural)]
pub struct Event {
    /// The day, counted from zero.
    pub id: i32,
    /// The day's target, in kilometres.
    pub distance: i32,
}

/// The challenge has started once no negative number of whole days has
/// passed since its first day.
pub open spec fn started(days_since_start: int) -> bool {
    days_since_start >= 0
}

/// The day of the challenge after `days_since_start` whole days: that number,
/// held within the challenge's days.
pub open spec fn day_of(days_since_start: int) -> int {
    if days_since_start < 0 {
        0
    } else if days_since_start > LAST_DAY {
        LAST_DAY as int
    } else {
        days_since_start
    }
}

/// Tells whether the challenge has started, so many whole days after its
/// first day.
pub fn has_started(days_since_start: i64) -> (yes: bool)
    ensures
        yes == started(days_since_start as int),
{
    days_since_start >= 0
}

/// The day of the challenge, so many whole days after its first day.
pub fn current_day(days_since_start: i64) -> (day: i32)
    ensures
        day == day_of(days_since_start as int),
        0 <= day <= LAST_DAY,
{
    if days_since_start < 0 {
        0
    } else if days_since_start > LAST_DAY as i64 {
        LAST_DAY
    } else {
        days_since_start as i32
    }
}

/// Calls chrono's `NaiveDate::from_ymd_opt` and `and_hms_opt` for midnight
/// of the given date, then `Local::now`, `naive_local`,
/// `signed_duration_since` and `num_days`: the whole days from that midnight
/// to the present local time, negative before it, rounded towards zero.
/// The result changes with the clock, so nothing is claimed of the number.
/// Claimed, from chrono's documentation of `from_ymd_opt`: a day that every
/// month has, in a year within chrono's range, is a date, so that the result
/// is not `None`. Chrono stops the program where the system clock is set
/// before 1970.
#[verifier::external_body]
fn whole_days_since(year: i32, month: u32, day: u32) -> (days: Option<i64>)
    ensures
        -262_000 <= year <= 262_000 && 1 <= month <= 12 && 1 <= day <= 28 ==> days is Some,
{
    let start = chrono::NaiveDate::from_ymd_opt(year, month, day)?.and_hms_opt(0, 0, 0)?;
    Some(chrono::offset::Local::now().naive_local().signed_duration_since(start).num_days())
}

/// The whole days that have passed since the challenge's first day, by the
/// local clock; negative before it.
pub fn days_since_start() -> i64 {
    whole_days_since(START_YEAR, START_MONTH, START_DAY).unwrap()
}

/// The day of the challenge that it is now, by the local clock.
pub fn today() -> (day: i32)
    ensures
        0 <= day <= LAST_DAY,
{
    current_day(days_since_start())
}

/// So many days with one target.
#[derive(Clone, Copy, Debug, PartialEq, Eq, Structural)]
pub struct DistanceBucket {
    /// The target, in kilometres.
    pub distance: i32,
    pub days: usize,
}

/// The targets that the buckets hold, bucket after bucket.
pub open spec fn bucket_targets(buckets: Seq<DistanceBucket>) -> Seq<i32>
    decreases buckets.len(),
{
    if buckets.len() == 0 {
        Seq::empty()
    } else {
        let last = buckets.last();
        bucket_targets(buckets.drop_last()) + Seq::new(last.days as nat, |i: int| last.distance)
    }
}

/// The challenge's own distribution of targets: four days of 3 km, five of
/// 4 km, six of 5 km, five of 6 km and four of 7 km.
pub open spec fn challenge_buckets() -> Seq<DistanceBucket> {
    seq![
        DistanceBucket { distance: 3, days: 4 },
        DistanceBucket { distance: 4, days: 5 },
        DistanceBucket { distance: 5, days: 6 },
        DistanceBucket { distance: 6, days: 5 },
        DistanceBucket { distance: 7, days: 4 },
    ]
}

/// The targets of the events, day by day.
pub open spec fn targets_of(events: Seq<Event>) -> Seq<i32> {
    events.map_values(|e: Event| e.distance)
}

/// Each event stands at the index of its day.
pub open spec fn numbered_by_day(events: Seq<Event>) -> bool {
    forall|i: int| 0 <= i < events.len() ==> (#[trigger] events[i]).id == i
}

/// The challenge's own distribution of targets.
pub fn default_buckets() -> (buckets: Vec<DistanceBucket>)
    ensures
        buckets@ == challenge_buckets(),
{
    let mut buckets: Vec<DistanceBucket> = Vec::new();
    buckets.push(DistanceBucket { distance: 3, days: 4 });
    buckets.push(DistanceBucket { distance: 4, days: 5 });
    buckets.push(DistanceBucket { distance: 5, days: 6 });
    buckets.push(DistanceBucket { distance: 6, days: 5 });
    buckets.push(DistanceBucket { distance: 7, days: 4 });
    buckets
}

/// Lays the buckets out as one list of targets, bucket after bucket.
pub fn spread_buckets(buckets: &Vec<DistanceBucket>) -> (targets: Vec<i32>)
    ensures
        targets@ == bucket_targets(buckets@),
{
    let mut targets: Vec<i32> = Vec::new();
    let mut b: usize = 0;
    assert(buckets@.take(0) =~= Seq::<DistanceBucket>::empty());
    while b < buckets.len()
        invariant
            b <= buckets@.len(),
            targets@ == bucket_targets(buckets@.take(b as int)),
        decreases buckets@.len() - b,
    {
        let bucket = buckets[b];
        let ghost before = targets@;
        let mut n: usize = 0;
        while n < bucket.days
            invariant
                n <= bucket.days,
                targets@ == before + Seq::new(n as nat, |i: int| bucket.distance),
            decreases bucket.days - n,
        {
            targets.push(bucket.distance);
            n = n + 1;
        }
        proof {
            assert(buckets@.take(b + 1).drop_last() =~= buckets@.take(b as int));
            assert(buckets@.take(b + 1).last() == bucket);
        }
        b = b + 1;
    }
    assert(buckets@.take(buckets@.len() as int) =~= buckets@);
    targets
}

/// Calls rand's `SliceRandom::shuffle` on the targets with `thread_rng()`.
/// The order that comes out is random, so nothing is claimed of it. Claimed,
/// from the method's source, which only swaps elements of the slice: the
/// targets after the call are those before it, each as often as before.
/// Rand stops the program where the system gives it no random seed.
#[verifier::external_body]
fn shuffle_targets(targets: &mut Vec<i32>)
    ensures
        final(targets)@.to_multiset() == old(targets)@.to_multiset(),
{
    targets.shuffle(&mut rand::thread_rng());
}

/// Gives the targets to the days in their order: the first to day zero.
pub fn assign_days(targets: &Vec<i32>) -> (events: Vec<Event>)
    requires
        targets@.len() <= i32::MAX,
    ensures
        events@.len() == targets@.len(),
        numbered_by_day(events@),
        targets_of(events@) == targets@,
{
    let mut events: Vec<Event> = Vec::new();
    let mut day: usize = 0;
    while day < targets.len()
        invariant
            day <= targets@.len() <= i32::MAX,
            events@.len() == day,
            numbered_by_day(events@),
            targets_of(events@) == targets@.take(day as int),
        decreases targets@.len() - day,
    {
        events.push(Event { id: day as i32, distance: targets[day] });
        day = day + 1;
    }
    assert(targets@.take(targets@.len() as int) =~= targets@);
    events
}

/// Draws a calendar: the targets of the buckets, in random order, one per
/// day from day zero on.
pub fn generate_events(buckets: &Vec<DistanceBucket>) -> (events: Vec<Event>)
    requires
        bucket_targets(buckets@).len() <= i32::MAX,
    ensures
        events@.len() == bucket_targets(buckets@).len(),
        numbered_by_day(events@),
        targets_of(events@).to_multiset() == bucket_targets(buckets@).to_multiset(),
{
    let mut targets = spread_buckets(buckets);
    shuffle_targets(&mut targets);
    proof {
        vstd::seq_lib::to_multiset_len(targets@);
        vstd::seq_lib::to_multiset_len(bucket_targets(buckets@));
    }
    assign_days(&targets)
}

/// The buckets make up a calendar: every target is above zero, and the days
/// are no more than a calendar can number.
pub open spec fn valid_buckets(buckets: Seq<DistanceBucket>) -> bool {
    &&& forall|i: int| 0 <= i < buckets.len() ==> (#[trigger] buckets[i]).distance > 0
    &&& bucket_targets(buckets).len() <= i32::MAX
}

proof fn lemma_targets_grow(buckets: Seq<DistanceBucket>, upto: int)
    requires
        0 <= upto <= buckets.len(),
    ensures
        bucket_targets(buckets.take(upto)).len() <= bucket_targets(buckets).len(),
    decreases buckets.len() - upto,
{
    if upto < buckets.len() {
        lemma_targets_grow(buckets, upto + 1);
        assert(buckets.take(upto + 1).drop_last() =~= buckets.take(upto));
    } else {
        assert(buckets.take(upto) =~= buckets);
    }
}

/// Buckets with targets above zero hold only targets above zero.
pub proof fn lemma_targets_above_zero(buckets: Seq<DistanceBucket>)
    requires
        forall|i: int| 0 <= i < buckets.len() ==> (#[trigger] buckets[i]).distance > 0,
    ensures
        forall|k: int|
            0 <= k < bucket_targets(buckets).len() ==> #[trigger] bucket_targets(buckets)[k] > 0,
    decreases buckets.len(),
{
    if buckets.len() > 0 {
        let rest = buckets.drop_last();
        assert forall|i: int| 0 <= i < rest.len() implies (#[trigger] rest[i]).distance > 0 by {
            assert(rest[i] == buckets[i]);
        }
        lemma_targets_above_zero(rest);
        let last = buckets.last();
        let front = bucket_targets(rest);
        let back = Seq::new(last.days as nat, |i: int| last.distance);
        assert(buckets[buckets.len() - 1].distance > 0);
        assert forall|k: int| 0 <= k < (front + back).len() implies #[trigger] (front + back)[k]
            > 0 by {
            if k < front.len() {
                assert((front + back)[k] == front[k]);
            } else {
                assert((front + back)[k] == back[k - front.len()]);
            }
        }
    }
}

/// Tells whether the buckets make up a calendar.
pub fn buckets_are_valid(buckets: &Vec<DistanceBucket>) -> (valid: bool)
    ensures
        valid == valid_buckets(buckets@),
{
    let mut days: usize = 0;
    let mut b: usize = 0;
    assert(buckets@.take(0) =~= Seq::<DistanceBucket>::empty());
    while b < buckets.len()
        invariant
            b <= buckets@.len(),
            days == bucket_targets(buckets@.take(b as int)).len(),
            days <= i32::MAX,
            forall|i: int| 0 <= i < b ==> (#[trigger] buckets@[i]).distance > 0,
        decreases buckets@.len() - b,
    {
        let bucket = buckets[b];
        proof {
            assert(buckets@.take(b + 1).drop_last() =~= buckets@.take(b as int));
            assert(buckets@.take(b + 1).last() == bucket);
            lemma_targets_grow(buckets@, b + 1);
        }
        if bucket.distance <= 0 {
            return false;
        }
        if bucket.days > i32::MAX as usize - days {
            return false;
        }
        days = days + bucket.days;
        b = b + 1;
    }
    assert(buckets@.take(buckets@.len() as int) =~= buckets@);
    true
}

/// The challenge's own buckets make up a calendar of as many days as the
/// challenge has.
pub proof fn lemma_challenge_targets()
    ensures
        bucket_targets(challenge_buckets()).len() == DAYS,
        valid_buckets(challenge_buckets()),
{
    let b = challenge_buckets();
    assert(b.take(0) =~= Seq::<DistanceBucket>::empty());
    assert(bucket_targets(b.take(0)).len() == 0);
    assert(b.take(1).drop_last() =~= b.take(0));
    assert(b.take(2).drop_last() =~= b.take(1));
    assert(b.take(3).drop_last() =~= b.take(2));
    assert(b.take(4).drop_last() =~= b.take(3));
    assert(b.take(5).drop_last() =~= b.take(4));
    assert(b.take(5) =~= b);
    assert(bucket_targets(b.take(1)).len() == 4);
    assert(bucket_targets(b.take(2)).len() == 9);
    assert(bucket_targets(b.take(3)).len() == 15);
    assert(bucket_targets(b.take(4)).len() == 20);
    assert(bucket_targets(b.take(5)).len() == 24);
}

} // verus!
