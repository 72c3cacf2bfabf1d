//! Activity types and their effort multipliers.

use vstd::prelude::*;

verus! {

/// Metres in one kilometre: targets are set in kilometres, distances are
/// logged in metres.
pub const METRES_PER_KM: i64 = 1000;

/// The kinds of exercise a participant can log.
#[derive(Clone, Copy, Debug, PartialEq, Eq, Hash, Structural)]
pub enum Activity {
    BIKE,
    RUN,
    WALK,
    SKI,
}

/// A distance together with the activity it belongs to.
#[derive(Clone, Copy, Debug, PartialEq, Eq, Structural)]
pub struct ActivityInfo {
    pub activity: Activity,
    /// Metres. A participant may send any number; what is below zero counts
    /// as zero.
    pub value: i64,
}

/// How many kilometres of an activity count as one kilometre of effort.
pub open spec fn multiplier_of(act: Activity) -> int {
    match act {
        Activity::BIKE => 3,
        Activity::RUN => 1,
        Activity::SKI => 2,
        Activity::WALK => 1,
    }
}

/// Every activity, in the order in which a day's options are listed.
pub open spec fn all_activities() -> Seq<Activity> {
    seq![Activity::BIKE, Activity::RUN, Activity::WALK, Activity::SKI]
}

/// The target of one activity on a day whose base target is `dist`
/// kilometres: the base target scaled by the activity's multiplier, in metres.
pub open spec fn scaled_target(dist: int, act: Activity) -> int {
    dist * multiplier_of(act) * 1000
}

/// The effort multiplier of an activity.
pub fn multiplier(act: Activity) -> (m: i32)
    ensures
        m == multiplier_of(act),
{
    match act {
        Activity::BIKE => 3,
        Activity::RUN => 1,
        Activity::SKI => 2,
        Activity::WALK => 1,
    }
}

impl Activity {
    /// Every activity, in declaration order.
    pub fn all() -> (list: Vec<Activity>)
        ensures
            list@ == all_activities(),
    {
        let mut list: Vec<Activity> = Vec::new();
        list.push(Activity::BIKE);
        list.push(Activity::RUN);
        list.push(Activity::WALK);
        list.push(Activity::SKI);
        list
    }
}

/// The options of a day whose base target is `dist` kilometres: one entry per
/// activity, each with its scaled target.
pub open spec fn day_options(dist: int) -> Seq<ActivityInfo> {
    Seq::new(
        all_activities().len(),
        |i: int|
            ActivityInfo {
                activity: all_activities()[i],
                value: scaled_target(dist, all_activities()[i]) as i64,
            },
    )
}

/// Lists the options of a day whose base target is `dist` kilometres.
pub fn get_daily_available(dist: i32) -> (options: Vec<ActivityInfo>)
    requires
        dist > 0,
    ensures
        options@ == day_options(dist as int),
{
    let activities = Activity::all();
    let mut options: Vec<ActivityInfo> = Vec::new();
    let mut i: usize = 0;
    while i < activities.len()
        invariant
            dist > 0,
            activities@ == all_activities(),
            i <= activities@.len(),
            options@ == day_options(dist as int).take(i as int),
        decreases activities@.len() - i,
    {
        let activity = activities[i];
        let m: i32 = multiplier(activity);
        assert(0 < (dist as int) * (m as int) <= 3 * 0x7fff_ffff) by (nonlinear_arith)
            requires
                1 <= m <= 3,
                0 < dist <= 0x7fff_ffff,
        ;
        let value: i64 = (dist as i64) * (m as i64) * METRES_PER_KM;
        options.push(ActivityInfo { activity, value });
        assert(options@ =~= day_options(dist as int).take(i + 1));
        i = i + 1;
    }
    assert(day_options(dist as int).take(activities@.len() as int) =~= day_options(dist as int));
    options
}

} // verus!
