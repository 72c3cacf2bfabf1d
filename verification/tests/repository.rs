use fitness_challenge::activity::{get_daily_available, Activity, ActivityInfo};
use fitness_challenge::calendar::{
    assign_days, buckets_are_valid, current_day, days_since_start, default_buckets,
    generate_events, has_started, spread_buckets, today, DistanceBucket, Event, DAYS, LAST_DAY,
};
use fitness_challenge::db::Db;
use fitness_challenge::error::Error;
use fitness_challenge::records::ActivityRecord;
use fitness_challenge::tables::{LoggedActivityInfo, Session, User};

const ANN: u128 = 0x1111_0000_0000_4000_8000_0000_0000_0001;
const BOB: u128 = 0x2222_0000_0000_4000_8000_0000_0000_0002;

fn calendar(targets: &[i32]) -> Vec<Event> {
    assign_days(&targets.to_vec())
}

fn full_calendar() -> Vec<Event> {
    let mut targets = vec![5; 24];
    targets[10] = 21;
    calendar(&targets)
}

fn challenge() -> Db {
    let mut db = Db::from_tables(full_calendar(), Vec::new(), Vec::new(), Vec::new()).unwrap();
    db.add_user_with_id(ANN, "ann", "pw-ann").unwrap();
    db.add_user_with_id(BOB, "bob", "pw-bob").unwrap();
    db
}

fn run(value: i64) -> ActivityInfo {
    ActivityInfo { activity: Activity::RUN, value }
}

#[test]
fn the_clock_is_held_within_the_challenge() {
    assert!(!has_started(-1));
    assert!(has_started(0));
    assert_eq!(current_day(i64::MIN), 0);
    assert_eq!(current_day(-1), 0);
    assert_eq!(current_day(0), 0);
    assert_eq!(current_day(7), 7);
    assert_eq!(current_day(23), 23);
    assert_eq!(current_day(24), 23);
    assert_eq!(current_day(i64::MAX), 23);
    assert_eq!(LAST_DAY, 23);
    assert_eq!(DAYS, 24);
}

#[test]
fn today_is_the_day_of_the_clock() {
    let before = days_since_start();
    let day = today();
    let after = days_since_start();
    assert!((0..=LAST_DAY).contains(&day));
    assert!(current_day(before) <= day && day <= current_day(after));
}

#[test]
fn buckets_are_laid_out_one_after_the_other() {
    let buckets = vec![
        DistanceBucket { distance: 9, days: 2 },
        DistanceBucket { distance: 1, days: 0 },
        DistanceBucket { distance: 4, days: 3 },
    ];
    assert_eq!(spread_buckets(&buckets), vec![9, 9, 4, 4, 4]);
    let challenge = spread_buckets(&default_buckets());
    assert_eq!(
        challenge,
        vec![3, 3, 3, 3, 4, 4, 4, 4, 4, 5, 5, 5, 5, 5, 5, 6, 6, 6, 6, 6, 7, 7, 7, 7]
    );
}

#[test]
fn days_get_their_targets_in_order() {
    let events = assign_days(&vec![4, 8, 15]);
    assert_eq!(
        events,
        vec![
            Event { id: 0, distance: 4 },
            Event { id: 1, distance: 8 },
            Event { id: 2, distance: 15 },
        ]
    );
    assert_eq!(assign_days(&Vec::new()), Vec::new());
}

#[test]
fn a_drawn_calendar_holds_the_targets_of_its_buckets() {
    let events = generate_events(&default_buckets());
    assert_eq!(events.len(), 24);
    let mut targets = Vec::new();
    for (day, event) in events.iter().enumerate() {
        assert_eq!(event.id as usize, day);
        targets.push(event.distance);
    }
    targets.sort();
    assert_eq!(targets, spread_buckets(&default_buckets()));
}

#[test]
fn a_drawn_calendar_is_shuffled() {
    let laid_out = spread_buckets(&default_buckets());
    let mut moved = false;
    for _ in 0..4 {
        let events = generate_events(&default_buckets());
        let targets: Vec<i32> = events.iter().map(|e| e.distance).collect();
        if targets != laid_out {
            moved = true;
        }
    }
    assert!(moved);
}

#[test]
fn init_draws_the_calendar_once() {
    let mut db = Db::new();
    assert!(db.event_rows().is_empty());
    db.init();
    let first: Vec<Event> = db.event_rows().clone();
    assert_eq!(first.len(), 24);
    for (day, event) in first.iter().enumerate() {
        assert_eq!(event.id as usize, day);
        assert!((3..=7).contains(&event.distance));
    }
    assert_eq!(first.iter().filter(|e| e.distance == 5).count(), 6);
    assert_eq!(first.iter().filter(|e| e.distance == 3).count(), 4);
    db.init();
    assert_eq!(db.event_rows(), &first);
}

#[test]
fn buckets_need_targets_above_zero() {
    assert!(buckets_are_valid(&default_buckets()));
    assert!(buckets_are_valid(&Vec::new()));
    assert!(buckets_are_valid(&vec![DistanceBucket { distance: 1, days: i32::MAX as usize }]));
    assert!(!buckets_are_valid(&vec![DistanceBucket { distance: 0, days: 3 }]));
    assert!(!buckets_are_valid(&vec![
        DistanceBucket { distance: 4, days: 3 },
        DistanceBucket { distance: -4, days: 0 },
    ]));
    assert!(!buckets_are_valid(&vec![
        DistanceBucket { distance: 4, days: i32::MAX as usize },
        DistanceBucket { distance: 4, days: 1 },
    ]));
    assert!(!buckets_are_valid(&vec![
        DistanceBucket { distance: 4, days: usize::MAX },
        DistanceBucket { distance: 4, days: usize::MAX },
    ]));
}

#[test]
fn a_calendar_is_drawn_from_buckets_of_ones_own() {
    let buckets = vec![
        DistanceBucket { distance: 21, days: 1 },
        DistanceBucket { distance: 2, days: 3 },
    ];
    let mut db = Db::new();
    assert_eq!(db.initialize_if_empty(&buckets), Ok(()));
    let mut targets: Vec<i32> = db.event_rows().iter().map(|e| e.distance).collect();
    assert_eq!(db.event_rows().iter().map(|e| e.id).collect::<Vec<i32>>(), vec![0, 1, 2, 3]);
    targets.sort();
    assert_eq!(targets, vec![2, 2, 2, 21]);
    let drawn: Vec<Event> = db.event_rows().clone();
    assert_eq!(db.initialize_if_empty(&default_buckets()), Ok(()));
    assert_eq!(db.event_rows(), &drawn);
    let bad = vec![DistanceBucket { distance: 0, days: 1 }];
    assert_eq!(db.initialize_if_empty(&bad), Ok(()));
    assert_eq!(db.event_rows(), &drawn);
}

#[test]
fn no_calendar_is_drawn_from_buckets_that_are_not_valid() {
    let mut db = Db::new();
    let bad = vec![DistanceBucket { distance: 0, days: 1 }];
    assert_eq!(db.initialize_if_empty(&bad), Err(Error::InvalidBuckets));
    assert!(db.event_rows().is_empty());
    assert_eq!(db.initialize_if_empty(&Vec::new()), Ok(()));
    assert!(db.event_rows().is_empty());
}

#[test]
fn init_keeps_a_calendar_that_is_there() {
    let mut db = Db::from_tables(calendar(&[9, 9]), Vec::new(), Vec::new(), Vec::new()).unwrap();
    db.init();
    assert_eq!(db.event_rows(), &calendar(&[9, 9]));
}

#[test]
fn a_day_has_its_target() {
    let db = challenge();
    assert_eq!(db.get_daily_event(0), Ok(Event { id: 0, distance: 5 }));
    assert_eq!(db.get_daily_event(10), Ok(Event { id: 10, distance: 21 }));
    assert_eq!(db.get_daily_event(23), Ok(Event { id: 23, distance: 5 }));
    assert_eq!(db.get_daily_event(24), Err(Error::EventNotFound));
    assert_eq!(db.get_daily_event(-1), Err(Error::EventNotFound));
    assert_eq!(Db::new().get_daily_event(0), Err(Error::EventNotFound));
}

#[test]
fn logging_on_the_day_scores_in_full() {
    let mut db = challenge();
    let record = db.add_activity_at(10, ANN, 10, run(21_000)).unwrap();
    assert_eq!(
        record,
        ActivityRecord {
            user: ANN,
            event_id: 10,
            activity: Activity::RUN,
            score: 10_000,
            distance: 21_000,
        }
    );
    assert_eq!(db.record_rows(), &vec![record]);
}

#[test]
fn logging_a_past_day_scores_half() {
    let mut db = challenge();
    let record = db.add_activity_at(12, ANN, 10, run(21_000)).unwrap();
    assert_eq!(record.score, 5_000);
    let bike = ActivityInfo { activity: Activity::BIKE, value: 3_000 };
    let record = db.add_activity_at(12, ANN, 3, bike).unwrap();
    assert_eq!(record.score, 1_000);
    assert_eq!(record.distance, 3_000);
    let record = db.add_activity_at(12, ANN, 12, bike).unwrap();
    assert_eq!(record.score, 2_000);
    assert_eq!(db.record_rows().len(), 3);
}

#[test]
fn a_distance_below_zero_counts_as_zero() {
    let mut db = challenge();
    let record = db.add_activity_at(4, ANN, 4, run(-750)).unwrap();
    assert_eq!(record.distance, 0);
    assert_eq!(record.score, 0);
    let record = db.add_activity_at(4, BOB, 4, run(i64::MIN)).unwrap();
    assert_eq!(record.distance, 0);
}

#[test]
fn an_implausible_distance_still_scores_ten() {
    let mut db = challenge();
    let record = db.add_activity_at(4, ANN, 4, run(i64::MAX)).unwrap();
    assert_eq!(record.score, 10_000);
    assert_eq!(record.distance, i64::MAX as u64);
}

#[test]
fn a_day_outside_the_challenge_is_invalid() {
    let mut db = challenge();
    assert_eq!(db.add_activity_at(5, ANN, -1, run(1_000)), Err(Error::InvalidDay));
    assert_eq!(db.add_activity_at(5, ANN, 24, run(1_000)), Err(Error::InvalidDay));
    assert_eq!(db.add_activity_at(-3, ANN, 24, run(1_000)), Err(Error::InvalidDay));
    assert_eq!(db.add_activity_at(500, ANN, i32::MAX, run(1_000)), Err(Error::InvalidDay));
    assert!(db.record_rows().is_empty());
}

#[test]
fn nothing_is_logged_before_the_start() {
    let mut db = challenge();
    assert_eq!(db.add_activity_at(-1, ANN, 0, run(1_000)), Err(Error::ChallengeNotStarted));
    assert_eq!(db.add_activity_at(-1, ANN, 5, run(1_000)), Err(Error::ChallengeNotStarted));
    assert!(db.record_rows().is_empty());
}

#[test]
fn a_future_day_is_refused_and_not_stored() {
    let mut db = challenge();
    assert_eq!(db.add_activity_at(4, ANN, 5, run(1_000)), Err(Error::FutureDay));
    assert_eq!(db.add_activity_at(0, ANN, 23, run(1_000)), Err(Error::FutureDay));
    assert_eq!(db.add_activity_at(22, BOB, 23, run(1_000)), Err(Error::FutureDay));
    assert!(db.record_rows().is_empty());
    assert!(db.add_activity_at(23, BOB, 23, run(1_000)).is_ok());
    assert!(db.add_activity_at(4_000, ANN, 23, run(1_000)).is_ok());
}

#[test]
fn a_second_entry_on_a_day_is_a_duplicate() {
    let mut db = challenge();
    let first = db.add_activity_at(6, ANN, 6, run(2_000)).unwrap();
    let walk = ActivityInfo { activity: Activity::WALK, value: 9_000 };
    assert_eq!(db.add_activity_at(6, ANN, 6, walk), Err(Error::DuplicateEntry));
    assert_eq!(db.add_activity_at(9, ANN, 6, run(2_000)), Err(Error::DuplicateEntry));
    assert_eq!(db.record_rows(), &vec![first]);
    assert_eq!(db.user_activities(ANN), vec![first]);
    assert!(db.add_activity_at(6, BOB, 6, walk).is_ok());
    assert!(db.add_activity_at(6, ANN, 5, walk).is_ok());
    assert_eq!(db.record_rows().len(), 3);
}

#[test]
fn a_day_without_a_target_cannot_be_logged() {
    let mut db = Db::from_tables(calendar(&[5, 5]), Vec::new(), Vec::new(), Vec::new()).unwrap();
    assert!(db.add_activity_at(3, ANN, 1, run(1_000)).is_ok());
    assert_eq!(db.add_activity_at(3, ANN, 2, run(1_000)), Err(Error::EventNotFound));
    assert_eq!(db.record_rows().len(), 1);
    let mut empty = Db::new();
    assert_eq!(empty.add_activity_at(0, ANN, 0, run(1_000)), Err(Error::EventNotFound));
}

#[test]
fn logging_by_the_clock_follows_the_same_rules() {
    let mut db = challenge();
    let now = days_since_start();
    let outcome = db.add_activity(ANN, 0, run(5_000));
    if has_started(now) {
        let record = outcome.unwrap();
        assert_eq!(record.distance, 5_000);
        assert_eq!(record.score, if current_day(now) == 0 { 10_000 } else { 5_000 });
        assert_eq!(db.add_activity(ANN, 0, run(5_000)), Err(Error::DuplicateEntry));
    } else {
        assert_eq!(outcome, Err(Error::ChallengeNotStarted));
    }
    assert_eq!(db.add_activity(ANN, 24, run(5_000)), Err(Error::InvalidDay));
}

#[test]
fn the_options_run_up_to_the_present_day() {
    let db = challenge();
    let before = db.get_available_activities_at(-1);
    assert_eq!(before.len(), 1);
    assert!(before[0].is_empty());
    let first = db.get_available_activities_at(0);
    assert_eq!(first, vec![get_daily_available(5)]);
    let eleven = db.get_available_activities_at(10);
    assert_eq!(eleven.len(), 11);
    assert_eq!(eleven[10], get_daily_available(21));
    assert_eq!(eleven[9], get_daily_available(5));
    assert_eq!(db.get_available_activities_at(23).len(), 24);
    assert_eq!(db.get_available_activities_at(1_000).len(), 24);
    let short = Db::from_tables(calendar(&[3, 4]), Vec::new(), Vec::new(), Vec::new()).unwrap();
    assert_eq!(
        short.get_available_activities_at(9),
        vec![get_daily_available(3), get_daily_available(4)]
    );
    assert!(Db::new().get_available_activities_at(9).is_empty());
}

#[test]
fn the_options_by_the_clock_are_those_of_the_clock() {
    let db = challenge();
    let now = days_since_start();
    assert_eq!(db.get_available_activities(), db.get_available_activities_at(now));
}

#[test]
fn the_log_shows_what_was_logged() {
    let mut db = challenge();
    db.add_activity_at(3, ANN, 3, run(2_500)).unwrap();
    db.add_activity_at(3, BOB, 3, run(100)).unwrap();
    db.add_activity_at(3, ANN, 1, ActivityInfo { activity: Activity::SKI, value: -5 }).unwrap();
    assert_eq!(
        db.get_logged_activities(ANN),
        vec![
            LoggedActivityInfo { day: 3, info: run(2_500) },
            LoggedActivityInfo {
                day: 1,
                info: ActivityInfo { activity: Activity::SKI, value: 0 },
            },
        ]
    );
    assert_eq!(db.get_logged_activities(BOB).len(), 1);
    assert!(db.get_logged_activities(77).is_empty());
}

#[test]
fn stored_tables_are_checked() {
    let record = |user: u128, day: i32| ActivityRecord {
        user,
        event_id: day,
        activity: Activity::RUN,
        score: 10_000,
        distance: 5,
    };
    let load = |events: Vec<Event>, records: Vec<ActivityRecord>| {
        Db::from_tables(events, Vec::new(), Vec::new(), records).map(|db| db.record_rows().len())
    };
    assert_eq!(load(full_calendar(), vec![record(ANN, 1), record(BOB, 1), record(ANN, 2)]), Ok(3));
    assert_eq!(load(Vec::new(), Vec::new()), Ok(0));
    assert_eq!(
        load(full_calendar(), vec![record(ANN, 1), record(BOB, 1), record(ANN, 1)]),
        Err(Error::InvalidTables)
    );
    assert_eq!(load(full_calendar(), vec![record(ANN, 24)]), Err(Error::InvalidTables));
    assert_eq!(load(full_calendar(), vec![record(ANN, -1)]), Err(Error::InvalidTables));
    let mut high = record(ANN, 0);
    high.score = 10_001;
    assert_eq!(load(full_calendar(), vec![high]), Err(Error::InvalidTables));
    let mut far = record(ANN, 0);
    far.distance = u64::MAX;
    assert_eq!(load(full_calendar(), vec![far]), Err(Error::InvalidTables));
    assert_eq!(
        load(vec![Event { id: 1, distance: 5 }], Vec::new()),
        Err(Error::InvalidTables)
    );
    assert_eq!(
        load(vec![Event { id: 0, distance: 0 }], Vec::new()),
        Err(Error::InvalidTables)
    );
    assert_eq!(
        load(vec![Event { id: 0, distance: 5 }, Event { id: 1, distance: -2 }], Vec::new()),
        Err(Error::InvalidTables)
    );
}

#[test]
fn stored_tables_come_back_as_they_were() {
    let users = vec![User { id: ANN, username: String::from("ann"), pass: String::from("pw") }];
    let sessions = vec![Session { id: ANN, key: 99 }];
    let records = vec![ActivityRecord {
        user: ANN,
        event_id: 2,
        activity: Activity::WALK,
        score: 4_000,
        distance: 2_000,
    }];
    let db = Db::from_tables(full_calendar(), users, sessions, records.clone()).unwrap();
    assert_eq!(db.event_rows(), &full_calendar());
    assert_eq!(db.user_rows().len(), 1);
    assert_eq!(db.user_rows()[0].username, "ann");
    assert_eq!(db.session_rows(), &vec![Session { id: ANN, key: 99 }]);
    assert_eq!(db.record_rows(), &records);
    assert_eq!(db.get_user_from_session(99), Ok(ANN));
}

#[test]
fn errors_say_what_went_wrong() {
    assert_eq!(Error::InvalidDay.message(), "Bad input day");
    assert_eq!(Error::ChallengeNotStarted.message(), "The challenge has not started");
    assert_eq!(Error::FutureDay.message(), "Can not set activities in the future");
    assert_eq!(Error::DuplicateEntry.message(), "Already registered");
    assert_eq!(Error::EventNotFound.message(), "No event on that day");
    assert_eq!(Error::UserNotFound.message(), "Could not find user");
    assert_eq!(Error::UserAlreadyRegistered.message(), "User already registered");
    assert_eq!(Error::WrongPassword.message(), "User pass incorrect");
    assert_eq!(Error::SessionMissing.message(), "Session is missing");
    assert_eq!(Error::InvalidTables.message(), "The stored tables are not valid");
    assert_eq!(Error::InvalidBuckets.message(), "The distance buckets are not valid");
}
