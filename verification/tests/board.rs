use fitness_challenge::activity::{Activity, ActivityInfo};
use fitness_challenge::calendar::assign_days;
use fitness_challenge::db::Db;
use fitness_challenge::error::Error;
use fitness_challenge::evaluator::Achievements;

const ANN: u128 = 0xa;
const BOB: u128 = 0xb;

fn challenge() -> Db {
    let mut targets = vec![5; 24];
    targets[10] = 21;
    let events = assign_days(&targets);
    let mut db = Db::from_tables(events, Vec::new(), Vec::new(), Vec::new()).unwrap();
    db.add_user_with_id(ANN, "ann", "pw-ann").unwrap();
    db.add_user_with_id(BOB, "bob", "pw-bob").unwrap();
    db
}

fn info(activity: Activity, value: i64) -> ActivityInfo {
    ActivityInfo { activity, value }
}

fn unlocked(result: &Achievements, title: &str) -> bool {
    let found: Vec<_> = result.achievements.iter().filter(|a| a.title == title).collect();
    assert_eq!(found.len(), 1);
    found[0].unlocked
}

#[test]
fn a_half_marathon_on_its_day() {
    let mut db = challenge();
    assert!(!unlocked(&db.get_acheivements(ANN), "Half marathon"));
    let record = db.add_activity_at(10, ANN, 10, info(Activity::RUN, 21_000)).unwrap();
    assert_eq!(record.score, 10_000);
    let result = db.get_acheivements(ANN);
    assert!(unlocked(&result, "Half marathon"));
    assert!(unlocked(&result, "Game on"));
    assert!(unlocked(&result, "Run forrest run"));
    assert!(!unlocked(&result, "Marathon"));
    assert_eq!(result.unlocked, 3);
    assert_eq!(result.total, 38);
    assert!(!unlocked(&db.get_acheivements(BOB), "Half marathon"));
}

#[test]
fn a_half_marathon_in_parts() {
    let mut db = challenge();
    db.add_activity_at(10, ANN, 9, info(Activity::RUN, 10_500)).unwrap();
    db.add_activity_at(10, ANN, 8, info(Activity::RUN, 10_499)).unwrap();
    assert!(!unlocked(&db.get_acheivements(ANN), "Half marathon"));
    db.add_activity_at(10, ANN, 10, info(Activity::RUN, 1)).unwrap();
    let result = db.get_acheivements(ANN);
    assert!(unlocked(&result, "Half marathon"));
    assert!(unlocked(&result, "Run x3"));
    assert!(unlocked(&result, "Keep on running"));
}

#[test]
fn two_participants_have_lines_of_their_own() {
    let mut db = challenge();
    db.add_activity_at(3, ANN, 3, info(Activity::RUN, 5_000)).unwrap();
    db.add_activity_at(4, BOB, 4, info(Activity::BIKE, 30_000)).unwrap();
    db.add_activity_at(5, ANN, 4, info(Activity::WALK, 2_500)).unwrap();
    db.add_activity_at(5, BOB, 5, info(Activity::SKI, 1_000)).unwrap();
    db.add_activity_at(5, BOB, 3, info(Activity::BIKE, 3_000)).unwrap();
    let board = db.get_leaderboard();
    assert_eq!(board.total_entries, 2);
    assert_eq!(board.start_of_range, 0);
    assert_eq!(board.details.len(), 2);
    let ann = &board.details[0];
    assert_eq!(ann.username, "ann");
    assert_eq!(ann.points, 10_000 + 2_500);
    assert_eq!(ann.run_dst, 5_000);
    assert_eq!(ann.walk_dst, 2_500);
    assert_eq!(ann.bike_dst, 0);
    assert_eq!(ann.ski_dst, 0);
    assert_eq!(ann.bronze_achievements, 3);
    assert_eq!(ann.silver_achievements, 1);
    assert_eq!(ann.gold_achievements, 0);
    assert_eq!(ann.diamond_achievements, 0);
    let bob = &board.details[1];
    assert_eq!(bob.username, "bob");
    assert_eq!(bob.points, 10_000 + 1_000 + 1_000);
    assert_eq!(bob.bike_dst, 33_000);
    assert_eq!(bob.ski_dst, 1_000);
    assert_eq!(bob.run_dst, 0);
    assert_eq!(bob.walk_dst, 0);
    assert_eq!(bob.bronze_achievements, 3);
    assert_eq!(bob.silver_achievements, 1);
    assert_eq!(bob.gold_achievements, 0);
    assert_eq!(bob.diamond_achievements, 0);
}

#[test]
fn the_board_lists_participants_without_records() {
    let db = challenge();
    let board = db.get_leaderboard();
    assert_eq!(board.total_entries, 2);
    for line in board.details.iter() {
        assert_eq!(line.points, 0);
        assert_eq!(line.bronze_achievements, 0);
    }
    assert_eq!(Db::new().get_leaderboard().total_entries, 0);
}

#[test]
fn a_line_needs_a_participant() {
    let mut db = challenge();
    db.add_activity_at(3, 0xc, 3, info(Activity::RUN, 5_000)).unwrap();
    assert_eq!(db.get_user_leaderboard_entry(0xc), Err(Error::UserNotFound));
    assert_eq!(db.get_user_leaderboard_distances_and_score(0xc), Err(Error::UserNotFound));
    let line = db.get_user_leaderboard_distances_and_score(ANN).unwrap();
    assert_eq!(line.username, "ann");
    assert_eq!(line.points, 0);
    let line = db.get_user_leaderboard_entry(BOB).unwrap();
    assert_eq!(line.username, "bob");
    assert_eq!(db.get_leaderboard().total_entries, 2);
}

#[test]
fn a_line_without_badges_carries_the_sums() {
    let mut db = challenge();
    db.add_activity_at(3, ANN, 3, info(Activity::RUN, 5_000)).unwrap();
    db.add_activity_at(3, ANN, 2, info(Activity::RUN, 5_000)).unwrap();
    let line = db.get_user_leaderboard_distances_and_score(ANN).unwrap();
    assert_eq!(line.points, 15_000);
    assert_eq!(line.run_dst, 10_000);
    assert_eq!(line.bronze_achievements, 0);
    let line = db.get_user_leaderboard_entry(ANN).unwrap();
    assert_eq!(line.points, 15_000);
    assert_eq!(line.bronze_achievements, 2);
}
