//! Per-participant totals and the leaderboard they make up.

use vstd::prelude::*;
use crate::achievements::{AchievementDefinition, AchievementRank};
use crate::activity::Activity;
use crate::evaluator::{badge_of, unlocks, Achievement, Achievements};
use crate::records::{total_distance, total_score, ActivityRecord};

verus! {

/// One line of the leaderboard: a participant's score, the metres of each
/// activity, and how many badges of each rank they have unlocked.
#[derive(Debug, PartialEq, Eq)]
pub struct LeaderboardDetail {
    pub username: String,
    /// Thousandths of a point.
    pub points: u128,
    pub bike_dst: u128,
    pub walk_dst: u128,
    pub run_dst: u128,
    pub ski_dst: u128,
    pub bronze_achievements: i32,
    pub silver_achievements: i32,
    pub gold_achievements: i32,
    pub diamond_achievements: i32,
}

/// The leaderboard: its lines in the order in which the participants
/// registered.
#[derive(Debug, PartialEq, Eq)]
pub struct LeaderBoardInfo {
    pub total_entries: usize,
    pub start_of_range: usize,
    pub details: Vec<LeaderboardDetail>,
}

impl LeaderboardDetail {
    /// The metres of `activity` on this line.
    pub open spec fn distance_of(self, activity: Activity) -> u128 {
        match activity {
            Activity::BIKE => self.bike_dst,
            Activity::RUN => self.run_dst,
            Activity::WALK => self.walk_dst,
            Activity::SKI => self.ski_dst,
        }
    }

    /// The metres of each activity on this line.
    pub open spec fn distances(self) -> spec_fn(Activity) -> nat {
        |a: Activity| self.distance_of(a) as nat
    }

    /// The line carries the sums of `history`: its score and the metres of
    /// each activity.
    pub open spec fn sums_up(self, history: Seq<ActivityRecord>) -> bool {
        &&& self.points == total_score(history)
        &&& forall|a: Activity| self.distance_of(a) == total_distance(history, a)
    }

    /// The badges of `rank` counted on this line.
    pub open spec fn badges_of(self, rank: AchievementRank) -> i32 {
        match rank {
            AchievementRank::Bronze => self.bronze_achievements,
            AchievementRank::Silver => self.silver_achievements,
            AchievementRank::Gold => self.gold_achievements,
            AchievementRank::Diamond => self.diamond_achievements,
        }
    }

    /// The two lines have the same name, score and distances.
    pub open spec fn same_totals(self, other: LeaderboardDetail) -> bool {
        &&& self.username@ == other.username@
        &&& self.points == other.points
        &&& forall|a: Activity| self.distance_of(a) == other.distance_of(a)
    }

    /// The line counts no badge.
    pub open spec fn no_badges(self) -> bool {
        &&& self.bronze_achievements == 0
        &&& self.silver_achievements == 0
        &&& self.gold_achievements == 0
        &&& self.diamond_achievements == 0
    }

    /// The metres of `activity` on this line.
    pub fn distance(&self, activity: Activity) -> (metres: u128)
        ensures
            metres == self.distance_of(activity),
    {
        match activity {
            Activity::BIKE => self.bike_dst,
            Activity::RUN => self.run_dst,
            Activity::WALK => self.walk_dst,
            Activity::SKI => self.ski_dst,
        }
    }
}

proof fn lemma_totals_bounded(history: Seq<ActivityRecord>, a: Activity)
    ensures
        total_distance(history, a) <= history.len() * 0xffff_ffff_ffff_ffff,
        total_score(history) <= history.len() * 0xffff_ffff,
    decreases history.len(),
{
    if history.len() > 0 {
        lemma_totals_bounded(history.drop_last(), a);
    }
}

/// Sums a participant's records: the score and the metres of each activity.
/// The line counts no badge yet.
pub fn distances_and_score(username: String, history: &Vec<ActivityRecord>) -> (details:
    LeaderboardDetail)
    ensures
        details.username@ == username@,
        details.sums_up(history@),
        details.no_badges(),
{
    let mut details = LeaderboardDetail {
        username,
        points: 0,
        bike_dst: 0,
        walk_dst: 0,
        run_dst: 0,
        ski_dst: 0,
        bronze_achievements: 0,
        silver_achievements: 0,
        gold_achievements: 0,
        diamond_achievements: 0,
    };
    let mut i: usize = 0;
    assert(history@.take(0) =~= Seq::<ActivityRecord>::empty());
    while i < history.len()
        invariant
            i <= history@.len(),
            details.username@ == username@,
            details.sums_up(history@.take(i as int)),
            details.no_badges(),
        decreases history@.len() - i,
    {
        let record = history[i];
        proof {
            assert(history@.take(i + 1).drop_last() =~= history@.take(i as int));
            assert(history@.take(i + 1).last() == record);
            lemma_totals_bounded(history@.take(i as int), Activity::BIKE);
            lemma_totals_bounded(history@.take(i as int), Activity::RUN);
            lemma_totals_bounded(history@.take(i as int), Activity::WALK);
            lemma_totals_bounded(history@.take(i as int), Activity::SKI);
            assert(i * 0xffff_ffff_ffff_ffff + 0xffff_ffff_ffff_ffff <= u128::MAX) by (
                nonlinear_arith)
                requires
                    0 <= i <= 0xffff_ffff_ffff_ffff,
            ;
            assert(i * 0xffff_ffff + 0xffff_ffff <= u128::MAX) by (nonlinear_arith)
                requires
                    0 <= i <= 0xffff_ffff_ffff_ffff,
            ;
        }
        match record.activity {
            Activity::BIKE => { details.bike_dst = details.bike_dst + record.distance as u128; },
            Activity::RUN => { details.run_dst = details.run_dst + record.distance as u128; },
            Activity::WALK => { details.walk_dst = details.walk_dst + record.distance as u128; },
            Activity::SKI => { details.ski_dst = details.ski_dst + record.distance as u128; },
        }
        details.points = details.points + record.score as u128;
        i = i + 1;
    }
    assert(history@.take(history@.len() as int) =~= history@);
    details
}

/// How many of the badges are unlocked and of `rank`.
pub open spec fn unlocked_of_rank(badges: Seq<Achievement>, rank: AchievementRank) -> nat {
    badges.filter(|b: Achievement| b.unlocked && b.rank == rank).len()
}

/// How many entries of `rank` the history unlocks.
pub open spec fn unlocked_entries(
    entries: Seq<AchievementDefinition>,
    history: Seq<ActivityRecord>,
    rank: AchievementRank,
) -> nat {
    entries.filter(|e: AchievementDefinition| e.rank == rank && unlocks(e.rule, history)).len()
}

/// Badges that evaluate a catalog against a history count, rank by rank, the
/// entries that the history unlocks.
pub proof fn lemma_badges_count_entries(
    badges: Seq<Achievement>,
    entries: Seq<AchievementDefinition>,
    history: Seq<ActivityRecord>,
    metres: spec_fn(Activity) -> nat,
    rank: AchievementRank,
)
    requires
        badges.len() == entries.len(),
        forall|i: int|
            0 <= i < entries.len() ==> badge_of(#[trigger] badges[i], entries[i], history, metres),
        forall|a: Activity| metres(a) == total_distance(history, a),
    ensures
        unlocked_of_rank(badges, rank) == unlocked_entries(entries, history, rank),
    decreases badges.len(),
{
    let picked = |b: Achievement| b.unlocked && b.rank == rank;
    let wanted = |e: AchievementDefinition| e.rank == rank && unlocks(e.rule, history);
    if badges.len() == 0 {
        assert(badges =~= Seq::<Achievement>::empty());
        assert(entries =~= Seq::<AchievementDefinition>::empty());
        Seq::<Achievement>::empty().lemma_filter_len(picked);
        Seq::<AchievementDefinition>::empty().lemma_filter_len(wanted);
    } else {
        let b = badges.drop_last();
        let e = entries.drop_last();
        assert forall|i: int| 0 <= i < e.len() implies badge_of(
            #[trigger] b[i],
            e[i],
            history,
            metres,
        ) by {
            assert(badge_of(badges[i], entries[i], history, metres));
        }
        lemma_badges_count_entries(b, e, history, metres, rank);
        assert(badges =~= b.push(badges.last()));
        assert(entries =~= e.push(entries.last()));
        Seq::lemma_filter_push(b, badges.last(), picked);
        Seq::lemma_filter_push(e, entries.last(), wanted);
        assert(badge_of(badges[badges.len() - 1], entries[entries.len() - 1], history, metres));
    }
}

/// One more badge adds one to the count of its rank if it is unlocked, and
/// nothing to the others.
proof fn lemma_next_badge(badges: Seq<Achievement>, i: int, rank: AchievementRank)
    requires
        0 <= i < badges.len(),
    ensures
        unlocked_of_rank(badges.take(i + 1), rank) == unlocked_of_rank(badges.take(i), rank)
            + if badges[i].unlocked && badges[i].rank == rank {
            1nat
        } else {
            0nat
        },
        unlocked_of_rank(badges.take(i + 1), rank) <= i + 1,
{
    let picked = |b: Achievement| b.unlocked && b.rank == rank;
    assert(badges.take(i + 1) =~= badges.take(i).push(badges[i]));
    Seq::lemma_filter_push(badges.take(i), badges[i], picked);
    badges.take(i + 1).lemma_filter_len(picked);
}

/// Counts the unlocked badges of each rank onto a line.
pub fn count_badges(entry: LeaderboardDetail, achievements: &Achievements) -> (line:
    LeaderboardDetail)
    requires
        achievements.achievements@.len() <= i32::MAX,
    ensures
        line.same_totals(entry),
        forall|rank: AchievementRank|
            line.badges_of(rank) == unlocked_of_rank(achievements.achievements@, rank),
{
    let mut line = entry;
    line.bronze_achievements = 0;
    line.silver_achievements = 0;
    line.gold_achievements = 0;
    line.diamond_achievements = 0;
    let badges = &achievements.achievements;
    let mut i: usize = 0;
    proof {
        assert(badges@.take(0) =~= Seq::<Achievement>::empty());
        assert forall|rank: AchievementRank| #[trigger]
            unlocked_of_rank(badges@.take(0), rank) == 0 by {
            badges@.take(0).lemma_filter_len(|b: Achievement| b.unlocked && b.rank == rank);
        }
    }
    while i < badges.len()
        invariant
            i <= badges@.len() <= i32::MAX,
            line.same_totals(entry),
            line.bronze_achievements == unlocked_of_rank(
                badges@.take(i as int),
                AchievementRank::Bronze,
            ),
            line.silver_achievements == unlocked_of_rank(
                badges@.take(i as int),
                AchievementRank::Silver,
            ),
            line.gold_achievements == unlocked_of_rank(
                badges@.take(i as int),
                AchievementRank::Gold,
            ),
            line.diamond_achievements == unlocked_of_rank(
                badges@.take(i as int),
                AchievementRank::Diamond,
            ),
        decreases badges@.len() - i,
    {
        let badge = &badges[i];
        proof {
            lemma_next_badge(badges@, i as int, AchievementRank::Bronze);
            lemma_next_badge(badges@, i as int, AchievementRank::Silver);
            lemma_next_badge(badges@, i as int, AchievementRank::Gold);
            lemma_next_badge(badges@, i as int, AchievementRank::Diamond);
        }
        if badge.unlocked {
            match badge.rank {
                AchievementRank::Bronze => {
                    line.bronze_achievements = line.bronze_achievements + 1;
                },
                AchievementRank::Silver => {
                    line.silver_achievements = line.silver_achievements + 1;
                },
                AchievementRank::Gold => {
                    line.gold_achievements = line.gold_achievements + 1;
                },
                AchievementRank::Diamond => {
                    line.diamond_achievements = line.diamond_achievements + 1;
                },
            }
        }
        i = i + 1;
    }
    assert(badges@.take(badges@.len() as int) =~= badges@);
    line
}

} // verus!
