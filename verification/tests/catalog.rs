use fitness_challenge::achievements::{get_achievements, AchievementRank, AchievementType};
use fitness_challenge::activity::Activity;

#[test]
fn catalog_keeps_its_order() {
    let list = get_achievements();
    assert_eq!(list.len(), 38);
    assert_eq!(list[0].title, "Game on");
    assert_eq!(list[0].description, "Register one activity");
    assert_eq!(list[0].rank, AchievementRank::Bronze);
    assert_eq!(list[0].achievement_type, AchievementType::UnlockType(1));
    assert_eq!(list[1].achievement_type, AchievementType::UnlockType(2));
    assert_eq!(list[2].achievement_type, AchievementType::UnlockType(4));
    assert_eq!(list[6].title, "Moon walker");
    assert_eq!(list[6].achievement_type, AchievementType::ActivityCount(10, Activity::WALK));
    assert_eq!(list[19].title, "Half marathon");
    assert_eq!(list[19].rank, AchievementRank::Silver);
    assert_eq!(list[19].achievement_type, AchievementType::Distance(21_000, Activity::RUN));
    assert_eq!(list[23].achievement_type, AchievementType::Distance(90_000, Activity::SKI));
    assert_eq!(list[24].title, "Run x3");
    assert_eq!(list[24].achievement_type, AchievementType::Streak(3, Activity::RUN));
    assert_eq!(list[36].title, "Active every day");
    assert_eq!(list[36].achievement_type, AchievementType::FullCalender());
    assert_eq!(list[37].title, "Ho Ho Ho");
    assert_eq!(list[37].description, "Register an activety on Christmas eve");
    assert_eq!(list[37].achievement_type, AchievementType::AtDate(23));
}

#[test]
fn catalog_has_badges_of_every_rank() {
    let list = get_achievements();
    let count = |rank: AchievementRank| list.iter().filter(|a| a.rank == rank).count();
    assert_eq!(count(AchievementRank::Bronze), 5);
    assert_eq!(count(AchievementRank::Silver), 11);
    assert_eq!(count(AchievementRank::Gold), 10);
    assert_eq!(count(AchievementRank::Diamond), 12);
}
