use fitness_challenge::activity::{
    get_daily_available, multiplier, Activity, ActivityInfo, METRES_PER_KM,
};
use fitness_challenge::scoring::{compute_score, MAX_SCORE};

#[test]
fn multipliers_follow_the_table() {
    assert_eq!(multiplier(Activity::BIKE), 3);
    assert_eq!(multiplier(Activity::SKI), 2);
    assert_eq!(multiplier(Activity::RUN), 1);
    assert_eq!(multiplier(Activity::WALK), 1);
}

#[test]
fn activities_are_listed_in_order() {
    assert_eq!(
        Activity::all(),
        vec![Activity::BIKE, Activity::RUN, Activity::WALK, Activity::SKI]
    );
}

#[test]
fn daily_options_scale_the_target() {
    assert_eq!(METRES_PER_KM, 1000);
    assert_eq!(
        get_daily_available(5),
        vec![
            ActivityInfo { activity: Activity::BIKE, value: 15_000 },
            ActivityInfo { activity: Activity::RUN, value: 5_000 },
            ActivityInfo { activity: Activity::WALK, value: 5_000 },
            ActivityInfo { activity: Activity::SKI, value: 10_000 },
        ]
    );
}

#[test]
fn daily_options_of_the_largest_target_fit() {
    let options = get_daily_available(i32::MAX);
    assert_eq!(options[0].value, 3 * 1000 * (i32::MAX as i64));
}

#[test]
fn reaching_the_target_scores_ten_points() {
    assert_eq!(compute_score(21_000, Activity::RUN, 21, true), 10_000);
    assert_eq!(compute_score(15_000, Activity::BIKE, 5, true), 10_000);
    assert_eq!(compute_score(10_000, Activity::SKI, 5, true), 10_000);
    assert_eq!(compute_score(5_000, Activity::WALK, 5, true), 10_000);
}

#[test]
fn part_of_the_target_scores_in_proportion() {
    assert_eq!(compute_score(2_500, Activity::RUN, 5, true), 5_000);
    assert_eq!(compute_score(1_500, Activity::BIKE, 5, true), 1_000);
    assert_eq!(compute_score(1_000, Activity::SKI, 3, true), 1_666);
    assert_eq!(compute_score(1, Activity::RUN, 7, true), 1);
    assert_eq!(compute_score(0, Activity::RUN, 7, true), 0);
}

#[test]
fn late_entries_score_half() {
    assert_eq!(compute_score(21_000, Activity::RUN, 21, false), 5_000);
    assert_eq!(compute_score(1_500, Activity::BIKE, 5, false), 500);
    assert_eq!(compute_score(1_000, Activity::SKI, 3, false), 833);
}

#[test]
fn score_is_capped_however_long_the_distance() {
    assert_eq!(MAX_SCORE, 10_000);
    assert_eq!(compute_score(u64::MAX, Activity::RUN, 1, true), 10_000);
    assert_eq!(compute_score(u64::MAX, Activity::BIKE, i32::MAX, false), 5_000);
    assert_eq!(compute_score(1_000_000, Activity::WALK, 3, true), 10_000);
}

#[test]
fn score_never_goes_down_with_distance() {
    let activities = [Activity::BIKE, Activity::RUN, Activity::WALK, Activity::SKI];
    for activity in activities {
        for target in [1, 3, 4, 5, 6, 7, 21] {
            for on_time in [true, false] {
                let mut last = 0;
                let mut distance = 0;
                while distance <= 70_000 {
                    let score = compute_score(distance, activity, target, on_time);
                    assert!(score >= last);
                    assert!(score <= MAX_SCORE);
                    last = score;
                    distance += 250;
                }
            }
        }
    }
}
