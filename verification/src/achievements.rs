//! The achievement catalog: every badge of the challenge, with its rank and
//! the rule that unlocks it.

use vstd::prelude::*;
use crate::activity::Activity;

verus! {

/// How much a badge is worth.
#[derive(Clone, Copy, Debug, PartialEq, Eq, Hash, Structural)]
pub enum AchievementRank {
    Bronze,
    Silver,
    Gold,
    Diamond,
}

/// The rule that unlocks a badge.
#[derive(Clone, Copy, Debug, PartialEq, Eq, Structural)]
pub enum AchievementType {
    /// At least this many different activity types logged.
    UnlockType(usize),
    /// This many days in a row, without a gap, on which the activity was
    /// logged.
    Streak(i32, Activity),
    /// At least this many metres of the activity in total.
    Distance(u64, Activity),
    /// At least this many entries of the activity.
    ActivityCount(i32, Activity),
    /// An entry on this day.
    AtDate(i32),
    /// An entry on every day of the challenge.
    FullCalender(),
}

/// One badge of the catalog.
#[derive(Debug)]
pub struct AchievementData {
    pub title: String,
    pub description: String,
    pub rank: AchievementRank,
    pub achievement_type: AchievementType,
}

/// What a catalog entry says, with its texts as character sequences.
pub struct AchievementDefinition {
    pub title: Seq<char>,
    pub description: Seq<char>,
    pub rank: AchievementRank,
    pub rule: AchievementType,
}

impl View for AchievementData {
    type V = AchievementDefinition;

    open spec fn view(&self) -> AchievementDefinition {
        AchievementDefinition {
            title: self.title@,
            description: self.description@,
            rank: self.rank,
            rule: self.achievement_type,
        }
    }
}

/// The definition with the given texts, rank and rule.
pub open spec fn definition(
    title: &str,
    description: &str,
    rank: AchievementRank,
    rule: AchievementType,
) -> AchievementDefinition {
    AchievementDefinition { title: title@, description: description@, rank, rule }
}

/// The catalog, in the order in which badges are numbered and displayed.
pub open spec fn catalog() -> Seq<AchievementDefinition> {
    seq![
        definition(
            "Game on",
            "Register one activity",
            AchievementRank::Bronze,
            AchievementType::UnlockType(1),
        ),
        definition(
            "Alternative training",
            "Register two different activity types",
            AchievementRank::Silver,
            AchievementType::UnlockType(2),
        ),
        definition(
            "Multisport master",
            "Register all different activity types",
            AchievementRank::Gold,
            AchievementType::UnlockType(4),
        ),
        definition(
            "Walk of life",
            "Register one walk activity",
            AchievementRank::Bronze,
            AchievementType::ActivityCount(1, Activity::WALK),
        ),
        definition(
            "Keep on walking",
            "Register three walk activities",
            AchievementRank::Silver,
            AchievementType::ActivityCount(3, Activity::WALK),
        ),
        definition(
            "Walk this way",
            "Register six walk activities",
            AchievementRank::Gold,
            AchievementType::ActivityCount(6, Activity::WALK),
        ),
        definition(
            "Moon walker",
            "Register ten walk activities",
            AchievementRank::Diamond,
            AchievementType::ActivityCount(10, Activity::WALK),
        ),
        definition(
            "Run forrest run",
            "Register one run activity",
            AchievementRank::Bronze,
            AchievementType::ActivityCount(1, Activity::RUN),
        ),
        definition(
            "Keep on running",
            "Register three run activities",
            AchievementRank::Silver,
            AchievementType::ActivityCount(3, Activity::RUN),
        ),
        definition(
            "Run to the hills",
            "Register six run activities",
            AchievementRank::Gold,
            AchievementType::ActivityCount(6, Activity::RUN),
        ),
        definition(
            "No one can stop you",
            "Register ten run activities",
            AchievementRank::Diamond,
            AchievementType::ActivityCount(10, Activity::RUN),
        ),
        definition(
            "I want to ride my bicycle",
            "Register one bike activity",
            AchievementRank::Bronze,
            AchievementType::ActivityCount(1, Activity::BIKE),
        ),
        definition(
            "Saddle sore",
            "Register three bike activities",
            AchievementRank::Silver,
            AchievementType::ActivityCount(3, Activity::BIKE),
        ),
        definition(
            "It's leg day",
            "Register six bike activities",
            AchievementRank::Gold,
            AchievementType::ActivityCount(6, Activity::BIKE),
        ),
        definition(
            "The pain cave is my home",
            "Register ten bike activities",
            AchievementRank::Diamond,
            AchievementType::ActivityCount(10, Activity::BIKE),
        ),
        definition(
            "Let it snow",
            "Register one ski activity",
            AchievementRank::Bronze,
            AchievementType::ActivityCount(1, Activity::SKI),
        ),
        definition(
            "Double pole is the shit",
            "Register three ski activities",
            AchievementRank::Silver,
            AchievementType::ActivityCount(3, Activity::SKI),
        ),
        definition(
            "Need more wax",
            "Register six ski activities",
            AchievementRank::Gold,
            AchievementType::ActivityCount(6, Activity::SKI),
        ),
        definition(
            "Swix blue extra for breakfast",
            "Register ten ski activities",
            AchievementRank::Diamond,
            AchievementType::ActivityCount(10, Activity::SKI),
        ),
        definition(
            "Half marathon",
            "Register 21k running",
            AchievementRank::Silver,
            AchievementType::Distance(21_000, Activity::RUN),
        ),
        definition(
            "Marathon",
            "Register 42k running",
            AchievementRank::Gold,
            AchievementType::Distance(42_000, Activity::RUN),
        ),
        definition(
            "Century ride",
            "Register 100k cycle",
            AchievementRank::Silver,
            AchievementType::Distance(100_000, Activity::BIKE),
        ),
        definition(
            "VR315",
            "Register 315k cycle",
            AchievementRank::Diamond,
            AchievementType::Distance(315_000, Activity::BIKE),
        ),
        definition(
            "Vasaloppet",
            "Register 90k skiing",
            AchievementRank::Diamond,
            AchievementType::Distance(90_000, Activity::SKI),
        ),
        definition(
            "Run x3",
            "Three running days in a row",
            AchievementRank::Silver,
            AchievementType::Streak(3, Activity::RUN),
        ),
        definition(
            "Run x5",
            "Five running days in a row",
            AchievementRank::Gold,
            AchievementType::Streak(5, Activity::RUN),
        ),
        definition(
            "Run x7",
            "Seven running days in a row",
            AchievementRank::Diamond,
            AchievementType::Streak(7, Activity::RUN),
        ),
        definition(
            "Bike x3",
            "Three biking days in a row",
            AchievementRank::Silver,
            AchievementType::Streak(3, Activity::BIKE),
        ),
        definition(
            "Bike x5",
            "Five biking days in a row",
            AchievementRank::Gold,
            AchievementType::Streak(5, Activity::BIKE),
        ),
        definition(
            "Bike x7",
            "Seven biking days in a row",
            AchievementRank::Diamond,
            AchievementType::Streak(7, Activity::BIKE),
        ),
        definition(
            "Walk x3",
            "Three walking days in a row",
            AchievementRank::Silver,
            AchievementType::Streak(3, Activity::WALK),
        ),
        definition(
            "Walk x5",
            "Five walking days in a row",
            AchievementRank::Gold,
            AchievementType::Streak(5, Activity::WALK),
        ),
        definition(
            "Walk x7",
            "Seven walking days in a row",
            AchievementRank::Diamond,
            AchievementType::Streak(7, Activity::WALK),
        ),
        definition(
            "Ski x3",
            "Three skiing days in a row",
            AchievementRank::Silver,
            AchievementType::Streak(3, Activity::SKI),
        ),
        definition(
            "Ski x5",
            "Five skiing days in a row",
            AchievementRank::Gold,
            AchievementType::Streak(5, Activity::SKI),
        ),
        definition(
            "Ski x7",
            "Seven skiing days in a row",
            AchievementRank::Diamond,
            AchievementType::Streak(7, Activity::SKI),
        ),
        definition(
            "Active every day",
            "Register an activety every day",
            AchievementRank::Diamond,
            AchievementType::FullCalender(),
        ),
        definition(
            "Ho Ho Ho",
            "Register an activety on Christmas eve",
            AchievementRank::Diamond,
            AchievementType::AtDate(23),
        ),
    ]
}

fn achievement(
    title: &str,
    description: &str,
    rank: AchievementRank,
    rule: AchievementType,
) -> (data: AchievementData)
    ensures
        data@ == definition(title, description, rank, rule),
{
    AchievementData {
        title: title.to_string(),
        description: description.to_string(),
        rank,
        achievement_type: rule,
    }
}

/// Builds the catalog.
pub fn get_achievements() -> (list: Vec<AchievementData>)
    ensures
        list@.len() == catalog().len(),
        forall|i: int| 0 <= i < list@.len() ==> (#[trigger] list@[i])@ == catalog()[i],
{
    let mut list: Vec<AchievementData> = Vec::new();
    list.push(
        achievement(
            "Game on",
            "Register one activity",
            AchievementRank::Bronze,
            AchievementType::UnlockType(1),
        ),
    );
    list.push(
        achievement(
            "Alternative training",
            "Register two different activity types",
            AchievementRank::Silver,
            AchievementType::UnlockType(2),
        ),
    );
    list.push(
        achievement(
            "Multisport master",
            "Register all different activity types",
            AchievementRank::Gold,
            AchievementType::UnlockType(4),
        ),
    );
    list.push(
        achievement(
            "Walk of life",
            "Register one walk activity",
            AchievementRank::Bronze,
            AchievementType::ActivityCount(1, Activity::WALK),
        ),
    );
    list.push(
        achievement(
            "Keep on walking",
            "Register three walk activities",
            AchievementRank::Silver,
            AchievementType::ActivityCount(3, Activity::WALK),
        ),
    );
    list.push(
        achievement(
            "Walk this way",
            "Register six walk activities",
            AchievementRank::Gold,
            AchievementType::ActivityCount(6, Activity::WALK),
        ),
    );
    list.push(
        achievement(
            "Moon walker",
            "Register ten walk activities",
            AchievementRank::Diamond,
            AchievementType::ActivityCount(10, Activity::WALK),
        ),
    );
    list.push(
        achievement(
            "Run forrest run",
            "Register one run activity",
            AchievementRank::Bronze,
            AchievementType::ActivityCount(1, Activity::RUN),
        ),
    );
    list.push(
        achievement(
            "Keep on running",
            "Register three run activities",
            AchievementRank::Silver,
            AchievementType::ActivityCount(3, Activity::RUN),
        ),
    );
    list.push(
        achievement(
            "Run to the hills",
            "Register six run activities",
            AchievementRank::Gold,
            AchievementType::ActivityCount(6, Activity::RUN),
        ),
    );
    list.push(
        achievement(
            "No one can stop you",
            "Register ten run activities",
            AchievementRank::Diamond,
            AchievementType::ActivityCount(10, Activity::RUN),
        ),
    );
    list.push(
        achievement(
            "I want to ride my bicycle",
            "Register one bike activity",
            AchievementRank::Bronze,
            AchievementType::ActivityCount(1, Activity::BIKE),
        ),
    );
    list.push(
        achievement(
            "Saddle sore",
            "Register three bike activities",
            AchievementRank::Silver,
            AchievementType::ActivityCount(3, Activity::BIKE),
        ),
    );
    list.push(
        achievement(
            "It's leg day",
            "Register six bike activities",
            AchievementRank::Gold,
            AchievementType::ActivityCount(6, Activity::BIKE),
        ),
    );
    list.push(
        achievement(
            "The pain cave is my home",
            "Register ten bike activities",
            AchievementRank::Diamond,
            AchievementType::ActivityCount(10, Activity::BIKE),
        ),
    );
    list.push(
        achievement(
            "Let it snow",
            "Register one ski activity",
            AchievementRank::Bronze,
            AchievementType::ActivityCount(1, Activity::SKI),
        ),
    );
    list.push(
        achievement(
            "Double pole is the shit",
            "Register three ski activities",
            AchievementRank::Silver,
            AchievementType::ActivityCount(3, Activity::SKI),
        ),
    );
    list.push(
        achievement(
            "Need more wax",
            "Register six ski activities",
            AchievementRank::Gold,
            AchievementType::ActivityCount(6, Activity::SKI),
        ),
    );
    list.push(
        achievement(
            "Swix blue extra for breakfast",
            "Register ten ski activities",
            AchievementRank::Diamond,
            AchievementType::ActivityCount(10, Activity::SKI),
        ),
    );
    list.push(
        achievement(
            "Half marathon",
            "Register 21k running",
            AchievementRank::Silver,
            AchievementType::Distance(21_000, Activity::RUN),
        ),
    );
    list.push(
        achievement(
            "Marathon",
            "Register 42k running",
            AchievementRank::Gold,
            AchievementType::Distance(42_000, Activity::RUN),
        ),
    );
    list.push(
        achievement(
            "Century ride",
            "Register 100k cycle",
            AchievementRank::Silver,
            AchievementType::Distance(100_000, Activity::BIKE),
        ),
    );
    list.push(
        achievement(
            "VR315",
            "Register 315k cycle",
            AchievementRank::Diamond,
            AchievementType::Distance(315_000, Activity::BIKE),
        ),
    );
    list.push(
        achievement(
            "Vasaloppet",
            "Register 90k skiing",
            AchievementRank::Diamond,
            AchievementType::Distance(90_000, Activity::SKI),
        ),
    );
    list.push(
        achievement(
            "Run x3",
            "Three running days in a row",
            AchievementRank::Silver,
            AchievementType::Streak(3, Activity::RUN),
        ),
    );
    list.push(
        achievement(
            "Run x5",
            "Five running days in a row",
            AchievementRank::Gold,
            AchievementType::Streak(5, Activity::RUN),
        ),
    );
    list.push(
        achievement(
            "Run x7",
            "Seven running days in a row",
            AchievementRank::Diamond,
            AchievementType::Streak(7, Activity::RUN),
        ),
    );
    list.push(
        achievement(
            "Bike x3",
            "Three biking days in a row",
            AchievementRank::Silver,
            AchievementType::Streak(3, Activity::BIKE),
        ),
    );
    list.push(
        achievement(
            "Bike x5",
            "Five biking days in a row",
            AchievementRank::Gold,
            AchievementType::Streak(5, Activity::BIKE),
        ),
    );
    list.push(
        achievement(
            "Bike x7",
            "Seven biking days in a row",
            AchievementRank::Diamond,
            AchievementType::Streak(7, Activity::BIKE),
        ),
    );
    list.push(
        achievement(
            "Walk x3",
            "Three walking days in a row",
            AchievementRank::Silver,
            AchievementType::Streak(3, Activity::WALK),
        ),
    );
    list.push(
        achievement(
            "Walk x5",
            "Five walking days in a row",
            AchievementRank::Gold,
            AchievementType::Streak(5, Activity::WALK),
        ),
    );
    list.push(
        achievement(
            "Walk x7",
            "Seven walking days in a row",
            AchievementRank::Diamond,
            AchievementType::Streak(7, Activity::WALK),
        ),
    );
    list.push(
        achievement(
            "Ski x3",
            "Three skiing days in a row",
            AchievementRank::Silver,
            AchievementType::Streak(3, Activity::SKI),
        ),
    );
    list.push(
        achievement(
            "Ski x5",
            "Five skiing days in a row",
            AchievementRank::Gold,
            AchievementType::Streak(5, Activity::SKI),
        ),
    );
    list.push(
        achievement(
            "Ski x7",
            "Seven skiing days in a row",
            AchievementRank::Diamond,
            AchievementType::Streak(7, Activity::SKI),
        ),
    );
    list.push(
        achievement(
            "Active every day",
            "Register an activety every day",
            AchievementRank::Diamond,
            AchievementType::FullCalender(),
        ),
    );
    list.push(
        achievement(
            "Ho Ho Ho",
            "Register an activety on Christmas eve",
            AchievementRank::Diamond,
            AchievementType::AtDate(23),
        ),
    );
    list
}

} // verus!
