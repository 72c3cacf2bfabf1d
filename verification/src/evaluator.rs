//! Which badges a participant has unlocked.

use vstd::prelude::*;
use crate::achievements::{
    catalog, get_achievements, AchievementData, AchievementDefinition, AchievementRank,
    AchievementType,
};
use crate::activity::Activity;
use crate::calendar::LAST_DAY;
use crate::history::{history_stats, HistoryStats};
use crate::leaderboard::LeaderboardDetail;
use crate::records::{
    activity_count, distinct_activity_types, distinct_days, full_calendar, has_record_on,
    has_streak, lemma_distinct_days_count_once, lemma_recorded_days_are_counted, logged,
    records_on, total_distance, ActivityRecord,
};

verus! {

/// One badge and whether the participant has it.
#[derive(Debug, PartialEq, Eq)]
pub struct Achievement {
    pub title: String,
    pub description: String,
    pub unlocked: bool,
    pub rank: AchievementRank,
}

/// Every badge of a catalog, in the catalog's order, with the number of
/// badges and of those unlocked.
#[derive(Debug, PartialEq, Eq)]
pub struct Achievements {
    pub total: i32,
    pub unlocked: i32,
    pub achievements: Vec<Achievement>,
}

/// Whether a history meets a rule, given the metres of each activity that
/// count for the distance rules.
pub open spec fn rule_unlocked(
    rule: AchievementType,
    history: Seq<ActivityRecord>,
    metres: spec_fn(Activity) -> nat,
) -> bool {
    match rule {
        AchievementType::UnlockType(types) => distinct_activity_types(history) >= types,
        AchievementType::Streak(times, activity) => has_streak(history, activity, times as int),
        AchievementType::Distance(distance, activity) => metres(activity) >= distance,
        AchievementType::ActivityCount(times, activity) => activity_count(history, activity)
            >= times,
        AchievementType::AtDate(day) => has_record_on(history, day as int),
        AchievementType::FullCalender() => full_calendar(history, LAST_DAY as int),
    }
}

/// The metres of each activity that a history adds up to.
pub open spec fn history_distances(history: Seq<ActivityRecord>) -> spec_fn(Activity) -> nat {
    |a: Activity| total_distance(history, a)
}

/// Whether a history meets a rule, by what the history itself adds up to.
pub open spec fn unlocks(rule: AchievementType, history: Seq<ActivityRecord>) -> bool {
    rule_unlocked(rule, history, history_distances(history))
}

/// The badge is the catalog's entry, unlocked exactly if the history meets
/// its rule.
pub open spec fn badge_of(
    badge: Achievement,
    entry: AchievementDefinition,
    history: Seq<ActivityRecord>,
    metres: spec_fn(Activity) -> nat,
) -> bool {
    &&& badge.title@ == entry.title
    &&& badge.description@ == entry.description
    &&& badge.rank == entry.rank
    &&& badge.unlocked == rule_unlocked(entry.rule, history, metres)
}

/// How many of the badges are unlocked.
pub open spec fn unlocked_among(badges: Seq<Achievement>) -> nat {
    badges.filter(|b: Achievement| b.unlocked).len()
}

/// The badges are those of `entries`, in order, each unlocked exactly if the
/// history meets its rule, and the two numbers count them.
pub open spec fn evaluates(
    result: Achievements,
    entries: Seq<AchievementDefinition>,
    history: Seq<ActivityRecord>,
    metres: spec_fn(Activity) -> nat,
) -> bool {
    &&& result.total == entries.len()
    &&& result.achievements@.len() == entries.len()
    &&& forall|i: int|
        0 <= i < entries.len() ==> badge_of(
            #[trigger] result.achievements@[i],
            entries[i],
            history,
            metres,
        )
    &&& result.unlocked == unlocked_among(result.achievements@)
}

/// The badge for two activity types is unlocked exactly by a history that
/// logs two different activities, however often each.
pub proof fn lemma_two_types_unlock(
    history: Seq<ActivityRecord>,
    metres: spec_fn(Activity) -> nat,
)
    ensures
        rule_unlocked(AchievementType::UnlockType(2), history, metres) <==> exists|
            a: Activity,
            b: Activity,
        |
            a != b && #[trigger] logged(history, a) && #[trigger] logged(history, b),
{
    let bike = logged(history, Activity::BIKE);
    let run = logged(history, Activity::RUN);
    let walk = logged(history, Activity::WALK);
    let ski = logged(history, Activity::SKI);
    if rule_unlocked(AchievementType::UnlockType(2), history, metres) {
        if bike && run {
            assert(Activity::BIKE != Activity::RUN && logged(history, Activity::BIKE) && logged(
                history,
                Activity::RUN,
            ));
        } else if bike && walk {
            assert(Activity::BIKE != Activity::WALK && logged(history, Activity::BIKE) && logged(
                history,
                Activity::WALK,
            ));
        } else if bike && ski {
            assert(Activity::BIKE != Activity::SKI && logged(history, Activity::BIKE) && logged(
                history,
                Activity::SKI,
            ));
        } else if run && walk {
            assert(Activity::RUN != Activity::WALK && logged(history, Activity::RUN) && logged(
                history,
                Activity::WALK,
            ));
        } else if run && ski {
            assert(Activity::RUN != Activity::SKI && logged(history, Activity::RUN) && logged(
                history,
                Activity::SKI,
            ));
        } else {
            assert(Activity::WALK != Activity::SKI && logged(history, Activity::WALK) && logged(
                history,
                Activity::SKI,
            ));
        }
    }
}

/// Where no two records are on one day, the badge for the full calendar is
/// unlocked exactly by a history with one record on each day of the
/// challenge.
pub proof fn lemma_full_calendar_is_one_record_each_day(
    history: Seq<ActivityRecord>,
    metres: spec_fn(Activity) -> nat,
)
    requires
        distinct_days(history),
    ensures
        rule_unlocked(AchievementType::FullCalender(), history, metres) <==> forall|day: int|
            0 <= day <= LAST_DAY ==> #[trigger] records_on(history, day) == 1,
{
    assert forall|day: int|
        #![trigger has_record_on(history, day)]
        #![trigger records_on(history, day)]
        has_record_on(history, day) <==> records_on(history, day) == 1 by {
        lemma_recorded_days_are_counted(history, day);
        lemma_distinct_days_count_once(history, day);
    }
}

proof fn lemma_logged_is_counted(history: Seq<ActivityRecord>, a: Activity)
    ensures
        logged(history, a) <==> activity_count(history, a) >= 1,
{
    let pred = |r: ActivityRecord| r.activity == a;
    let picked = history.filter(pred);
    if logged(history, a) {
        let i = choose|i: int| 0 <= i < history.len() && (#[trigger] history[i]).activity == a;
        assert(pred(history[i]));
        history.lemma_filter_contains(pred, i);
    }
    if picked.len() >= 1 {
        history.lemma_filter_pred(pred, 0);
        assert(picked.contains(picked[0]));
        history.lemma_filter_contains_rev(pred, picked[0]);
        let i = choose|i: int| 0 <= i < history.len() && history[i] == picked[0];
        assert(history[i].activity == a);
    }
}

fn has_record_on_day(history: &Vec<ActivityRecord>, day: i32) -> (found: bool)
    ensures
        found == has_record_on(history@, day as int),
{
    let mut i: usize = 0;
    while i < history.len()
        invariant
            i <= history@.len(),
            forall|k: int| 0 <= k < i ==> (#[trigger] history@[k]).event_id != day,
        decreases history@.len() - i,
    {
        if history[i].event_id == day {
            return true;
        }
        i = i + 1;
    }
    false
}

fn covers_calendar(history: &Vec<ActivityRecord>) -> (full: bool)
    ensures
        full == full_calendar(history@, LAST_DAY as int),
{
    let mut day: i32 = 0;
    while day <= LAST_DAY
        invariant
            0 <= day <= LAST_DAY + 1,
            forall|d: int| 0 <= d < day ==> #[trigger] has_record_on(history@, d),
        decreases LAST_DAY + 1 - day,
    {
        if !has_record_on_day(history, day) {
            return false;
        }
        day = day + 1;
    }
    true
}

fn count_logged_types(history: &Vec<ActivityRecord>, stats: &HistoryStats) -> (types: usize)
    requires
        forall|a: Activity| stats.counts.of(a) == activity_count(history@, a),
    ensures
        types == distinct_activity_types(history@),
{
    proof {
        lemma_logged_is_counted(history@, Activity::BIKE);
        lemma_logged_is_counted(history@, Activity::RUN);
        lemma_logged_is_counted(history@, Activity::WALK);
        lemma_logged_is_counted(history@, Activity::SKI);
    }
    let mut types: usize = 0;
    if stats.counts.bike >= 1 {
        types = types + 1;
    }
    if stats.counts.run >= 1 {
        types = types + 1;
    }
    if stats.counts.walk >= 1 {
        types = types + 1;
    }
    if stats.counts.ski >= 1 {
        types = types + 1;
    }
    types
}

/// Applies one rule to a history, given its counts and streaks and the
/// distances it adds up to.
fn apply_rule(
    rule: AchievementType,
    history: &Vec<ActivityRecord>,
    stats: &HistoryStats,
    totals: &LeaderboardDetail,
) -> (unlocked: bool)
    requires
        forall|a: Activity| stats.counts.of(a) == activity_count(history@, a),
        forall|a: Activity, length: int|
            has_streak(history@, a, length) <==> length <= stats.streaks.of(a),
    ensures
        unlocked == rule_unlocked(rule, history@, totals.distances()),
{
    match rule {
        AchievementType::Streak(times, activity) => {
            let streak = stats.streaks.get(activity);
            times <= 0 || times as usize <= streak
        },
        AchievementType::UnlockType(types) => count_logged_types(history, stats) >= types,
        AchievementType::ActivityCount(times, activity) => {
            let count = stats.counts.get(activity);
            times <= 0 || times as usize <= count
        },
        AchievementType::Distance(distance, activity) => totals.distance(activity)
            >= distance as u128,
        AchievementType::AtDate(day) => has_record_on_day(history, day),
        AchievementType::FullCalender() => covers_calendar(history),
    }
}

/// Evaluates every entry of a catalog against a participant's history and
/// the distances it adds up to.
pub fn evaluate_catalog(
    entries: &Vec<AchievementData>,
    history: &Vec<ActivityRecord>,
    totals: &LeaderboardDetail,
) -> (result: Achievements)
    requires
        distinct_days(history@),
        entries@.len() <= i32::MAX,
    ensures
        evaluates(
            result,
            entries@.map_values(|e: AchievementData| e@),
            history@,
            totals.distances(),
        ),
{
    let stats = history_stats(history);
    let mut result = Achievements {
        total: entries.len() as i32,
        unlocked: 0,
        achievements: Vec::new(),
    };
    let ghost defs = entries@.map_values(|e: AchievementData| e@);
    let mut i: usize = 0;
    while i < entries.len()
        invariant
            i <= entries@.len() <= i32::MAX,
            defs == entries@.map_values(|e: AchievementData| e@),
            forall|a: Activity| stats.counts.of(a) == activity_count(history@, a),
            forall|a: Activity, length: int|
                has_streak(history@, a, length) <==> length <= stats.streaks.of(a),
            result.total == entries@.len(),
            result.achievements@.len() == i,
            forall|k: int|
                0 <= k < i ==> badge_of(
                    #[trigger] result.achievements@[k],
                    defs[k],
                    history@,
                    totals.distances(),
                ),
            result.unlocked == unlocked_among(result.achievements@),
            result.unlocked <= i,
        decreases entries@.len() - i,
    {
        let entry = &entries[i];
        let unlocked = apply_rule(entry.achievement_type, history, &stats, totals);
        let badge = Achievement {
            title: entry.title.clone(),
            description: entry.description.clone(),
            unlocked,
            rank: entry.rank,
        };
        proof {
            Seq::lemma_filter_push(result.achievements@, badge, |b: Achievement| b.unlocked);
        }
        if unlocked {
            result.unlocked = result.unlocked + 1;
        }
        result.achievements.push(badge);
        i = i + 1;
    }
    result
}

/// Evaluates the challenge's catalog against a participant's history and the
/// distances it adds up to.
pub fn evaluate_achievements(history: &Vec<ActivityRecord>, totals: &LeaderboardDetail) -> (result:
    Achievements)
    requires
        distinct_days(history@),
    ensures
        evaluates(result, catalog(), history@, totals.distances()),
{
    let entries = get_achievements();
    assert(entries@.map_values(|e: AchievementData| e@) =~= catalog());
    evaluate_catalog(&entries, history, totals)
}

} // verus!
