//! The score of one logged activity.

use vstd::prelude::*;
use crate::activity::{multiplier, multiplier_of, Activity};

verus! {

/// The cap on a score, in thousandths of a point: ten points.
pub const MAX_SCORE: u32 = 10_000;

/// Ten points per target reached, before the cap: the logged metres over the
/// activity's multiplier and the target's kilometres, in thousandths of a
/// point, rounded down.
pub open spec fn raw_score(distance: nat, activity: Activity, target: int) -> int {
    (10 * (distance as int)) / (multiplier_of(activity) * target)
}

/// The raw score, capped at ten points.
pub open spec fn capped_score(distance: nat, activity: Activity, target: int) -> int {
    if raw_score(distance, activity, target) > MAX_SCORE {
        MAX_SCORE as int
    } else {
        raw_score(distance, activity, target)
    }
}

/// The score of an entry: the capped score when it is logged on its own day,
/// half of it when it is logged later.
pub open spec fn score_of(distance: nat, activity: Activity, target: int, on_time: bool) -> int {
    if on_time {
        capped_score(distance, activity, target)
    } else {
        capped_score(distance, activity, target) / 2
    }
}

/// Computes the score of `distance` metres of `activity` against a target of
/// `target` kilometres.
pub fn compute_score(distance: u64, activity: Activity, target: i32, on_time: bool) -> (score: u32)
    requires
        target > 0,
    ensures
        score == score_of(distance as nat, activity, target as int, on_time),
        score <= MAX_SCORE,
{
    let m: i32 = multiplier(activity);
    let numerator: u128 = 10 * (distance as u128);
    assert(0 < (m as int) * (target as int) <= 3 * 0x7fff_ffff) by (nonlinear_arith)
        requires
            1 <= m <= 3,
            0 < target <= 0x7fff_ffff,
    ;
    let denominator: u128 = (m as u128) * (target as u128);
    let raw: u128 = numerator / denominator;
    let capped: u32 = if raw > 10_000 {
        MAX_SCORE
    } else {
        raw as u32
    };
    if on_time {
        capped
    } else {
        capped / 2
    }
}

/// A score never leaves the range from zero to ten points, however large the
/// distance, and a longer distance never scores less.
pub proof fn lemma_score_bounded_and_monotone(
    activity: Activity,
    shorter: nat,
    longer: nat,
    target: int,
    on_time: bool,
)
    requires
        target > 0,
        shorter <= longer,
    ensures
        0 <= score_of(shorter, activity, target, on_time) <= MAX_SCORE,
        0 <= score_of(longer, activity, target, on_time) <= MAX_SCORE,
        score_of(shorter, activity, target, on_time) <= score_of(longer, activity, target, on_time),
{
    let d = multiplier_of(activity) * target;
    assert(d > 0) by (nonlinear_arith)
        requires
            d == multiplier_of(activity) * target,
            multiplier_of(activity) >= 1,
            target > 0,
    ;
    vstd::arithmetic::div_mod::lemma_div_is_ordered(10 * (shorter as int), 10 * (longer as int), d);
    vstd::arithmetic::div_mod::lemma_div_pos_is_pos(10 * (shorter as int), d);
    vstd::arithmetic::div_mod::lemma_div_pos_is_pos(10 * (longer as int), d);
}

} // verus!
