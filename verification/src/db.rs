//! The record repository: the calendar, the participants, their sessions and
//! their records, and the operations of the challenge on them.

use vstd::prelude::*;
use crate::achievements::{catalog, AchievementRank};
use crate::activity::{day_options, get_daily_available, Activity, ActivityInfo};
use crate::calendar::{
    bucket_targets, buckets_are_valid, challenge_buckets, current_day, day_of, days_since_start,
    default_buckets, generate_events, has_started, lemma_challenge_targets,
    lemma_targets_above_zero, started, targets_of, valid_buckets, DistanceBucket, Event, DAYS,
    LAST_DAY,
};
use crate::error::Error;
use crate::evaluator::{evaluate_achievements, evaluates, history_distances, Achievements};
use crate::leaderboard::{
    count_badges, distances_and_score, lemma_badges_count_entries, unlocked_entries,
    LeaderBoardInfo, LeaderboardDetail,
};
use crate::logging::{covered, log_error, logged_record};
use crate::records::{
    lemma_distinct_days_count_once, lemma_recorded_days_are_counted, records_of, records_on,
    total_distance, ActivityRecord, UserId,
};
use crate::scoring::{compute_score, lemma_score_bounded_and_monotone, MAX_SCORE};
use crate::tables::{
    is_first, lemma_history_has_distinct_days, lemma_recorded_in_history, logged_info,
    none_matches, one_record_per_day, recorded, registered, session_of, valid_calendar,
    valid_record, valid_tables, with_id, with_key, with_login, with_name, LoggedActivityInfo,
    Session, User,
};

verus! {

/// The repository.
pub struct Db {
    events: Vec<Event>,
    users: Vec<User>,
    sessions: Vec<Session>,
    records: Vec<ActivityRecord>,
}

/// Calls uuid's `Uuid::new_v4` and `as_u128`: the 128 bits of a random
/// identifier. The value is random, so nothing is claimed of it. Uuid stops
/// the program where the system gives it no random bytes.
#[verifier::external_body]
fn fresh_id() -> u128 {
    uuid::Uuid::new_v4().as_u128()
}

impl Db {
    /// The calendar, day by day.
    pub closed spec fn events(&self) -> Seq<Event> {
        self.events@
    }

    /// The participants, in the order in which they registered.
    pub closed spec fn users(&self) -> Seq<User> {
        self.users@
    }

    /// The sessions, in the order in which they were opened.
    pub closed spec fn sessions(&self) -> Seq<Session> {
        self.sessions@
    }

    /// The records, in the order in which they were logged.
    pub closed spec fn records(&self) -> Seq<ActivityRecord> {
        self.records@
    }

    /// The repository's tables are valid.
    pub open spec fn wf(&self) -> bool {
        valid_tables(self.events(), self.records())
    }

    /// The line is that of the participant `user`: it carries the name of the
    /// first participant with that identifier, the sums of the participant's
    /// records, and for each rank the catalog entries that they unlock.
    pub open spec fn line_of(&self, line: LeaderboardDetail, user: UserId) -> bool {
        let history = records_of(self.records(), user);
        &&& exists|i: int|
            #[trigger] is_first(self.users(), with_id(user), i) && self.users()[i].username@
                == line.username@
        &&& line.sums_up(history)
        &&& forall|rank: AchievementRank|
            line.badges_of(rank) == unlocked_entries(catalog(), history, rank)
    }

    /// Logging left everything but the records as it was, refused with the
    /// first check that failed and then left the records too, or else added
    /// the one record that it returned.
    pub open spec fn logs(
        pre: Db,
        post: Db,
        now: int,
        user: UserId,
        day: int,
        info: ActivityInfo,
        result: Result<ActivityRecord, Error>,
    ) -> bool {
        &&& post.events() == pre.events()
        &&& post.users() == pre.users()
        &&& post.sessions() == pre.sessions()
        &&& match log_error(pre.events(), pre.records(), now, user, day) {
            Some(e) => result == Err::<ActivityRecord, Error>(e) && post.records() == pre.records(),
            None => {
                let record = logged_record(pre.events(), now, user, day, info);
                result == Ok::<ActivityRecord, Error>(record) && post.records()
                    == pre.records().push(record)
            },
        }
    }

    /// An empty repository.
    pub fn new() -> (db: Db)
        ensures
            db.wf(),
            db.events().len() == 0,
            db.users().len() == 0,
            db.sessions().len() == 0,
            db.records().len() == 0,
    {
        Db { events: Vec::new(), users: Vec::new(), sessions: Vec::new(), records: Vec::new() }
    }

    /// The calendar, day by day.
    pub fn event_rows(&self) -> (rows: &Vec<Event>)
        ensures
            rows@ == self.events(),
    {
        &self.events
    }

    /// The participants, in the order in which they registered.
    pub fn user_rows(&self) -> (rows: &Vec<User>)
        ensures
            rows@ == self.users(),
    {
        &self.users
    }

    /// The sessions, in the order in which they were opened.
    pub fn session_rows(&self) -> (rows: &Vec<Session>)
        ensures
            rows@ == self.sessions(),
    {
        &self.sessions
    }

    /// The records, in the order in which they were logged.
    pub fn record_rows(&self) -> (rows: &Vec<ActivityRecord>)
        ensures
            rows@ == self.records(),
    {
        &self.records
    }

    /// Makes a repository of stored tables, if they are valid.
    pub fn from_tables(
        events: Vec<Event>,
        users: Vec<User>,
        sessions: Vec<Session>,
        records: Vec<ActivityRecord>,
    ) -> (result: Result<Db, Error>)
        ensures
            match result {
                Ok(db) => {
                    &&& valid_tables(events@, records@)
                    &&& db.wf()
                    &&& db.events() == events@
                    &&& db.users() == users@
                    &&& db.sessions() == sessions@
                    &&& db.records() == records@
                },
                Err(e) => e == Error::InvalidTables && !valid_tables(events@, records@),
            },
    {
        let mut d: usize = 0;
        while d < events.len()
            invariant
                d <= events@.len(),
                valid_calendar(events@.take(d as int)),
            decreases events@.len() - d,
        {
            if d > i32::MAX as usize || events[d].id != d as i32 || events[d].distance <= 0 {
                assert(!valid_calendar(events@)) by {
                    if valid_calendar(events@) {
                        assert(events@[d as int].id == d && events@[d as int].distance > 0);
                    }
                }
                return Err(Error::InvalidTables);
            }
            d = d + 1;
        }
        assert(events@.take(events@.len() as int) =~= events@);
        let mut j: usize = 0;
        while j < records.len()
            invariant
                j <= records@.len(),
                one_record_per_day(records@.take(j as int)),
                forall|k: int| 0 <= k < j ==> valid_record(#[trigger] records@[k]),
            decreases records@.len() - j,
        {
            let record = records[j];
            if record.event_id < 0 || record.event_id > LAST_DAY || record.score > MAX_SCORE
                || record.distance > i64::MAX as u64 {
                assert(!valid_record(records@[j as int]));
                return Err(Error::InvalidTables);
            }
            let mut i: usize = 0;
            while i < j
                invariant
                    i <= j < records@.len(),
                    record == records@[j as int],
                    forall|k: int|
                        0 <= k < i ==> !((#[trigger] records@[k]).user == record.user
                            && records@[k].event_id == record.event_id),
                decreases j - i,
            {
                if records[i].user == record.user && records[i].event_id == record.event_id {
                    assert(!one_record_per_day(records@)) by {
                        if one_record_per_day(records@) {
                            assert(!(records@[i as int].user == records@[j as int].user
                                && records@[i as int].event_id == records@[j as int].event_id));
                        }
                    }
                    return Err(Error::InvalidTables);
                }
                i = i + 1;
            }
            assert(one_record_per_day(records@.take(j + 1))) by {
                let next = records@.take(j + 1);
                assert forall|a: int, b: int| 0 <= a < b < next.len() implies !((
                #[trigger] next[a]).user == (#[trigger] next[b]).user && next[a].event_id
                    == next[b].event_id) by {
                    if b < j {
                        assert(records@.take(j as int)[a] == next[a]);
                        assert(records@.take(j as int)[b] == next[b]);
                    }
                }
            }
            j = j + 1;
        }
        assert(records@.take(records@.len() as int) =~= records@);
        Ok(Db { events, users, sessions, records })
    }

    /// The calendar was kept where there was one; else it was drawn from the
    /// buckets, one target per day, or left empty where the buckets are not
    /// valid. Nothing else changed.
    pub open spec fn draws(pre: Db, post: Db, buckets: Seq<DistanceBucket>, drawn: bool) -> bool {
        &&& post.users() == pre.users()
        &&& post.sessions() == pre.sessions()
        &&& post.records() == pre.records()
        &&& if pre.events().len() > 0 {
            drawn && post.events() == pre.events()
        } else if valid_buckets(buckets) {
            &&& drawn
            &&& post.events().len() == bucket_targets(buckets).len()
            &&& targets_of(post.events()).to_multiset() == bucket_targets(buckets).to_multiset()
        } else {
            !drawn && post.events() == pre.events()
        }
    }

    /// Draws the calendar from the buckets, unless the repository has one:
    /// their targets in random order, one per day.
    pub fn initialize_if_empty(&mut self, buckets: &Vec<DistanceBucket>) -> (result: Result<
        (),
        Error,
    >)
        requires
            old(self).wf(),
        ensures
            final(self).wf(),
            Db::draws(*old(self), *final(self), buckets@, result is Ok),
            result is Err ==> result == Err::<(), Error>(Error::InvalidBuckets),
    {
        if self.events.len() > 0 {
            return Ok(());
        }
        if !buckets_are_valid(buckets) {
            return Err(Error::InvalidBuckets);
        }
        let events = generate_events(buckets);
        proof {
            let targets = bucket_targets(buckets@);
            lemma_targets_above_zero(buckets@);
            assert forall|i: int| 0 <= i < events@.len() implies (#[trigger] events@[i]).distance
                > 0 by {
                let t = targets_of(events@)[i];
                assert(targets_of(events@).contains(t));
                vstd::seq_lib::to_multiset_contains(targets_of(events@), t);
                vstd::seq_lib::to_multiset_contains(targets, t);
                let k = choose|k: int| 0 <= k < targets.len() && targets[k] == t;
                assert(targets[k] > 0);
            }
        }
        self.events = events;
        Ok(())
    }

    /// Draws the challenge's calendar, unless the repository has one: the
    /// challenge's targets in random order, one for each of its days.
    pub fn init(&mut self)
        requires
            old(self).wf(),
        ensures
            final(self).wf(),
            Db::draws(*old(self), *final(self), challenge_buckets(), true),
            old(self).events().len() == 0 ==> final(self).events().len() == DAYS,
    {
        let buckets = default_buckets();
        proof {
            lemma_challenge_targets();
        }
        let _ = self.initialize_if_empty(&buckets);
    }

    /// Registers a participant under a fresh identifier, unless the name is
    /// taken.
    pub fn add_user(&mut self, username: &str, pass: &str) -> (result: Result<(), Error>)
        requires
            old(self).wf(),
        ensures
            final(self).wf(),
            final(self).events() == old(self).events(),
            final(self).sessions() == old(self).sessions(),
            final(self).records() == old(self).records(),
            match result {
                Ok(_) => {
                    &&& none_matches(old(self).users(), with_name(username@))
                    &&& registered(old(self).users(), final(self).users(), username@, pass@)
                },
                Err(e) => {
                    &&& e == Error::UserAlreadyRegistered
                    &&& !none_matches(old(self).users(), with_name(username@))
                    &&& final(self).users() == old(self).users()
                },
            },
    {
        if self.name_taken(username) {
            return Err(Error::UserAlreadyRegistered);
        }
        let id = fresh_id();
        self.add_user_with_id(id, username, pass)
    }

    /// Registers a participant under the given identifier, unless the name
    /// is taken.
    pub fn add_user_with_id(&mut self, id: UserId, username: &str, pass: &str) -> (result: Result<
        (),
        Error,
    >)
        requires
            old(self).wf(),
        ensures
            final(self).wf(),
            final(self).events() == old(self).events(),
            final(self).sessions() == old(self).sessions(),
            final(self).records() == old(self).records(),
            match result {
                Ok(_) => {
                    &&& none_matches(old(self).users(), with_name(username@))
                    &&& registered(old(self).users(), final(self).users(), username@, pass@)
                    &&& final(self).users().last().id == id
                },
                Err(e) => {
                    &&& e == Error::UserAlreadyRegistered
                    &&& !none_matches(old(self).users(), with_name(username@))
                    &&& final(self).users() == old(self).users()
                },
            },
    {
        if self.name_taken(username) {
            return Err(Error::UserAlreadyRegistered);
        }
        let user = User { id, username: username.to_string(), pass: pass.to_string() };
        self.users.push(user);
        assert(self.users@.drop_last() =~= old(self).users@);
        Ok(())
    }

    fn name_taken(&self, username: &str) -> (taken: bool)
        ensures
            taken == !none_matches(self.users(), with_name(username@)),
    {
        let name = username.to_string();
        let mut i: usize = 0;
        while i < self.users.len()
            invariant
                i <= self.users@.len(),
                name@ == username@,
                forall|k: int| 0 <= k < i ==> !with_name(username@)(#[trigger] self.users@[k]),
            decreases self.users@.len() - i,
        {
            if self.users[i].username == name {
                assert(with_name(username@)(self.users@[i as int]));
                return true;
            }
            i = i + 1;
        }
        false
    }

    /// The identifier of the participant with a name and a password: of the
    /// first, where several have them.
    pub fn get_user_id(&self, username: &str, pass: &str) -> (result: Result<UserId, Error>)
        ensures
            match result {
                Ok(id) => exists|i: int|
                    #[trigger] is_first(self.users(), with_login(username@, pass@), i)
                        && self.users()[i].id == id,
                Err(e) => e == Error::WrongPassword && none_matches(
                    self.users(),
                    with_login(username@, pass@),
                ),
            },
    {
        let name = username.to_string();
        let word = pass.to_string();
        let mut i: usize = 0;
        while i < self.users.len()
            invariant
                i <= self.users@.len(),
                name@ == username@,
                word@ == pass@,
                forall|k: int|
                    0 <= k < i ==> !with_login(username@, pass@)(#[trigger] self.users@[k]),
            decreases self.users@.len() - i,
        {
            if self.users[i].username == name && self.users[i].pass == word {
                assert(is_first(self.users(), with_login(username@, pass@), i as int));
                return Ok(self.users[i].id);
            }
            i = i + 1;
        }
        Err(Error::WrongPassword)
    }

    /// The name of the participant with an identifier: of the first, where
    /// several have it.
    pub fn get_user_name(&self, id: UserId) -> (result: Result<String, Error>)
        ensures
            match result {
                Ok(name) => exists|i: int|
                    #[trigger] is_first(self.users(), with_id(id), i) && self.users()[i].username@
                        == name@,
                Err(e) => e == Error::UserNotFound && none_matches(self.users(), with_id(id)),
            },
    {
        let mut i: usize = 0;
        while i < self.users.len()
            invariant
                i <= self.users@.len(),
                forall|k: int| 0 <= k < i ==> !with_id(id)(#[trigger] self.users@[k]),
            decreases self.users@.len() - i,
        {
            if self.users[i].id == id {
                assert(is_first(self.users(), with_id(id), i as int));
                return Ok(self.users[i].username.clone());
            }
            i = i + 1;
        }
        Err(Error::UserNotFound)
    }

    fn find_session(&self, user: UserId) -> (found: Option<u128>)
        ensures
            match found {
                Some(key) => exists|i: int|
                    #[trigger] is_first(self.sessions(), session_of(user), i)
                        && self.sessions()[i].key == key,
                None => none_matches(self.sessions(), session_of(user)),
            },
    {
        let mut i: usize = 0;
        while i < self.sessions.len()
            invariant
                i <= self.sessions@.len(),
                forall|k: int| 0 <= k < i ==> !session_of(user)(#[trigger] self.sessions@[k]),
            decreases self.sessions@.len() - i,
        {
            if self.sessions[i].id == user {
                assert(is_first(self.sessions(), session_of(user), i as int));
                return Some(self.sessions[i].key);
            }
            i = i + 1;
        }
        None
    }

    /// The outcome of asking for the key of a participant's session, where
    /// `fresh` is the key of a session that is opened: the key of the first
    /// session of the participant, with the sessions left as they were; where
    /// there is none, a new session with the fresh key if `create_if_missing`
    /// says so, and a refusal if not.
    pub open spec fn hands_out(
        before: Seq<Session>,
        after: Seq<Session>,
        user: UserId,
        create_if_missing: bool,
        fresh: u128,
        result: Result<u128, Error>,
    ) -> bool {
        if none_matches(before, session_of(user)) {
            if create_if_missing {
                result == Ok::<u128, Error>(fresh) && after == before.push(
                    Session { id: user, key: fresh },
                )
            } else {
                result == Err::<u128, Error>(Error::SessionMissing) && after == before
            }
        } else {
            &&& after == before
            &&& exists|i: int|
                #[trigger] is_first(before, session_of(user), i) && result == Ok::<u128, Error>(
                    before[i].key,
                )
        }
    }

    /// The key of a participant's session: of the first, where there are
    /// several. Where there is none, a session with the key `fresh` is opened
    /// if `create_if_missing` says so.
    pub fn get_session_key_with(
        &mut self,
        user: UserId,
        create_if_missing: bool,
        fresh: u128,
    ) -> (result: Result<u128, Error>)
        requires
            old(self).wf(),
        ensures
            final(self).wf(),
            final(self).events() == old(self).events(),
            final(self).users() == old(self).users(),
            final(self).records() == old(self).records(),
            Db::hands_out(
                old(self).sessions(),
                final(self).sessions(),
                user,
                create_if_missing,
                fresh,
                result,
            ),
    {
        match self.find_session(user) {
            Some(key) => Ok(key),
            None => {
                if create_if_missing {
                    self.sessions.push(Session { id: user, key: fresh });
                    Ok(fresh)
                } else {
                    Err(Error::SessionMissing)
                }
            },
        }
    }

    /// The key of a participant's session: of the first, where there are
    /// several. Where there is none, a session with a fresh key is opened if
    /// `create_if_missing` says so.
    pub fn get_session_key(&mut self, user: UserId, create_if_missing: bool) -> (result: Result<
        u128,
        Error,
    >)
        requires
            old(self).wf(),
        ensures
            final(self).wf(),
            final(self).events() == old(self).events(),
            final(self).users() == old(self).users(),
            final(self).records() == old(self).records(),
            exists|fresh: u128| #[trigger]
                Db::hands_out(
                    old(self).sessions(),
                    final(self).sessions(),
                    user,
                    create_if_missing,
                    fresh,
                    result,
                ),
    {
        match self.find_session(user) {
            Some(key) => {
                assert(Db::hands_out(
                    old(self).sessions(),
                    self.sessions(),
                    user,
                    create_if_missing,
                    0,
                    Ok::<u128, Error>(key),
                ));
                Ok(key)
            },
            None => {
                let fresh = if create_if_missing {
                    fresh_id()
                } else {
                    0
                };
                self.get_session_key_with(user, create_if_missing, fresh)
            },
        }
    }

    /// The participant that a session key stands for: that of the first
    /// session with the key.
    pub fn get_user_from_session(&self, key: u128) -> (result: Result<UserId, Error>)
        ensures
            match result {
                Ok(id) => exists|i: int|
                    #[trigger] is_first(self.sessions(), with_key(key), i) && self.sessions()[i].id
                        == id,
                Err(e) => e == Error::UserNotFound && none_matches(self.sessions(), with_key(key)),
            },
    {
        let mut i: usize = 0;
        while i < self.sessions.len()
            invariant
                i <= self.sessions@.len(),
                forall|k: int| 0 <= k < i ==> !with_key(key)(#[trigger] self.sessions@[k]),
            decreases self.sessions@.len() - i,
        {
            if self.sessions[i].key == key {
                assert(is_first(self.sessions(), with_key(key), i as int));
                return Ok(self.sessions[i].id);
            }
            i = i + 1;
        }
        Err(Error::UserNotFound)
    }

    /// The target of a day.
    pub fn get_daily_event(&self, day: i32) -> (result: Result<Event, Error>)
        requires
            self.wf(),
        ensures
            match result {
                Ok(event) => 0 <= day < self.events().len() && event == self.events()[day as int],
                Err(e) => e == Error::EventNotFound && !(0 <= day < self.events().len()),
            },
    {
        if day < 0 || day as usize >= self.events.len() {
            return Err(Error::EventNotFound);
        }
        Ok(self.events[day as usize])
    }

    fn has_record(&self, user: UserId, day: i32) -> (found: bool)
        ensures
            found == recorded(self.records(), user, day as int),
    {
        let mut i: usize = 0;
        while i < self.records.len()
            invariant
                i <= self.records@.len(),
                forall|k: int|
                    0 <= k < i ==> !((#[trigger] self.records@[k]).user == user
                        && self.records@[k].event_id == day),
            decreases self.records@.len() - i,
        {
            if self.records[i].user == user && self.records[i].event_id == day {
                return true;
            }
            i = i + 1;
        }
        false
    }

    /// Logs an activity for `user` on `day`, `days_since_start` whole days
    /// after the challenge's first day.
    pub fn add_activity_at(
        &mut self,
        days_since_start: i64,
        user: UserId,
        day: i32,
        info: ActivityInfo,
    ) -> (result: Result<ActivityRecord, Error>)
        requires
            old(self).wf(),
        ensures
            final(self).wf(),
            Db::logs(
                *old(self),
                *final(self),
                days_since_start as int,
                user,
                day as int,
                info,
                result,
            ),
    {
        if day < 0 || day > LAST_DAY {
            return Err(Error::InvalidDay);
        }
        if !has_started(days_since_start) {
            return Err(Error::ChallengeNotStarted);
        }
        let now = current_day(days_since_start);
        if day > now {
            return Err(Error::FutureDay);
        }
        if self.has_record(user, day) {
            return Err(Error::DuplicateEntry);
        }
        let event_of_the_day = match self.get_daily_event(day) {
            Ok(event) => event,
            Err(e) => {
                return Err(e);
            },
        };
        let covered_dist: u64 = if info.value < 0 {
            0
        } else {
            info.value as u64
        };
        let score = compute_score(
            covered_dist,
            info.activity,
            event_of_the_day.distance,
            day == now,
        );
        let record = ActivityRecord {
            user,
            event_id: day,
            activity: info.activity,
            score,
            distance: covered_dist,
        };
        self.records.push(record);
        Ok(record)
    }

    /// The records of a participant, in the order in which they were logged.
    pub fn user_activities(&self, user: UserId) -> (activities: Vec<ActivityRecord>)
        ensures
            activities@ == records_of(self.records(), user),
    {
        let mut activities: Vec<ActivityRecord> = Vec::new();
        let mut i: usize = 0;
        proof {
            assert(self.records@.take(0) =~= Seq::<ActivityRecord>::empty());
            self.records@.take(0).lemma_filter_len(|r: ActivityRecord| r.user == user);
        }
        while i < self.records.len()
            invariant
                i <= self.records@.len(),
                activities@ == records_of(self.records@.take(i as int), user),
            decreases self.records@.len() - i,
        {
            let record = self.records[i];
            proof {
                assert(self.records@.take(i + 1) =~= self.records@.take(i as int).push(record));
                Seq::lemma_filter_push(
                    self.records@.take(i as int),
                    record,
                    |r: ActivityRecord| r.user == user,
                );
            }
            if record.user == user {
                activities.push(record);
            }
            i = i + 1;
        }
        assert(self.records@.take(self.records@.len() as int) =~= self.records@);
        activities
    }

    /// What a participant has logged, entry by entry.
    pub fn get_logged_activities(&self, user: UserId) -> (activities: Vec<LoggedActivityInfo>)
        requires
            self.wf(),
        ensures
            activities@.len() == records_of(self.records(), user).len(),
            forall|i: int|
                0 <= i < activities@.len() ==> #[trigger] activities@[i] == logged_info(
                    records_of(self.records(), user)[i],
                ),
    {
        let db_activities = self.user_activities(user);
        let mut activities: Vec<LoggedActivityInfo> = Vec::new();
        let mut i: usize = 0;
        while i < db_activities.len()
            invariant
                i <= db_activities@.len(),
                self.wf(),
                db_activities@ == records_of(self.records(), user),
                activities@.len() == i,
                forall|k: int|
                    0 <= k < i ==> #[trigger] activities@[k] == logged_info(db_activities@[k]),
            decreases db_activities@.len() - i,
        {
            let a = db_activities[i];
            proof {
                assert(db_activities@.contains(a));
                self.records().lemma_filter_contains_rev(|r: ActivityRecord| r.user == user, a);
                let p = choose|p: int| 0 <= p < self.records().len() && self.records()[p] == a;
                assert(valid_record(self.records()[p]));
            }
            activities.push(
                LoggedActivityInfo {
                    day: a.event_id,
                    info: ActivityInfo { activity: a.activity, value: a.distance as i64 },
                },
            );
            i = i + 1;
        }
        activities
    }

    /// The lists are the options of each day up to the present one, `now`
    /// whole days after the challenge's first day: one list per day of the
    /// calendar, from day zero on. Before the start there is one list, and
    /// it is empty.
    pub open spec fn options_at(&self, now: int, days: Seq<Vec<ActivityInfo>>) -> bool {
        if !started(now) {
            days.len() == 1 && days[0]@.len() == 0
        } else {
            &&& days.len() == if self.events().len() <= day_of(now) {
                self.events().len() as int
            } else {
                day_of(now) + 1
            }
            &&& forall|i: int|
                0 <= i < days.len() ==> (#[trigger] days[i])@ == day_options(
                    self.events()[i].distance as int,
                )
        }
    }

    /// The options of each day up to the present one, `days_since_start`
    /// whole days after the challenge's first day.
    pub fn get_available_activities_at(&self, days_since_start: i64) -> (days: Vec<
        Vec<ActivityInfo>,
    >)
        requires
            self.wf(),
        ensures
            self.options_at(days_since_start as int, days@),
    {
        let mut days: Vec<Vec<ActivityInfo>> = Vec::new();
        if !has_started(days_since_start) {
            days.push(Vec::new());
            return days;
        }
        let today = current_day(days_since_start);
        let mut i: usize = 0;
        while i < self.events.len() && self.events[i].id <= today
            invariant
                self.wf(),
                today == day_of(days_since_start as int),
                i <= self.events@.len(),
                i <= today + 1,
                days@.len() == i,
                forall|k: int|
                    0 <= k < i ==> (#[trigger] days@[k])@ == day_options(
                        self.events()[k].distance as int,
                    ),
            decreases self.events@.len() - i,
        {
            assert(self.events()[i as int].id == i);
            assert(self.events()[i as int].distance > 0);
            days.push(get_daily_available(self.events[i].distance));
            i = i + 1;
        }
        assert(i < self.events@.len() ==> self.events()[i as int].id == i);
        days
    }

    /// The options of each day up to the present one, by the local clock.
    pub fn get_available_activities(&self) -> (days: Vec<Vec<ActivityInfo>>)
        requires
            self.wf(),
        ensures
            exists|now: int| #[trigger] self.options_at(now, days@),
    {
        self.get_available_activities_at(days_since_start())
    }

    /// Evaluates the catalog for a participant: each badge, in the catalog's
    /// order, unlocked exactly if the participant's records meet its rule.
    pub fn get_acheivements(&self, user: UserId) -> (result: Achievements)
        requires
            self.wf(),
        ensures
            evaluates(
                result,
                catalog(),
                records_of(self.records(), user),
                history_distances(records_of(self.records(), user)),
            ),
    {
        let activities = self.user_activities(user);
        let totals = distances_and_score(String::new(), &activities);
        proof {
            lemma_history_has_distinct_days(self.records(), user);
        }
        let result = evaluate_achievements(&activities, &totals);
        proof {
            assert forall|a: Activity| #[trigger]
                totals.distance_of(a) == total_distance(activities@, a) by {}
        }
        result
    }

    /// The leaderboard line of a participant, without badges: the name, the
    /// score and the distances.
    pub fn get_user_leaderboard_distances_and_score(&self, user: UserId) -> (result: Result<
        LeaderboardDetail,
        Error,
    >)
        ensures
            match result {
                Ok(line) => {
                    &&& exists|i: int|
                        #[trigger] is_first(self.users(), with_id(user), i)
                            && self.users()[i].username@ == line.username@
                    &&& line.sums_up(records_of(self.records(), user))
                    &&& line.no_badges()
                },
                Err(e) => e == Error::UserNotFound && none_matches(self.users(), with_id(user)),
            },
    {
        let username = match self.get_user_name(user) {
            Ok(name) => name,
            Err(e) => {
                return Err(e);
            },
        };
        let activities = self.user_activities(user);
        Ok(distances_and_score(username, &activities))
    }

    /// The leaderboard line of a participant.
    pub fn get_user_leaderboard_entry(&self, user: UserId) -> (result: Result<
        LeaderboardDetail,
        Error,
    >)
        requires
            self.wf(),
        ensures
            match result {
                Ok(line) => self.line_of(line, user),
                Err(e) => e == Error::UserNotFound && none_matches(self.users(), with_id(user)),
            },
    {
        let entry = match self.get_user_leaderboard_distances_and_score(user) {
            Ok(entry) => entry,
            Err(e) => {
                return Err(e);
            },
        };
        let achievements = self.get_acheivements(user);
        let line = count_badges(entry, &achievements);
        proof {
            let history = records_of(self.records(), user);
            assert forall|rank: AchievementRank|
                line.badges_of(rank) == unlocked_entries(catalog(), history, rank) by {
                lemma_badges_count_entries(
                    achievements.achievements@,
                    catalog(),
                    history,
                    history_distances(history),
                    rank,
                );
            }
            let i = choose|i: int|
                #[trigger] is_first(self.users(), with_id(user), i) && self.users()[i].username@
                    == entry.username@;
            assert(is_first(self.users(), with_id(user), i) && self.users()[i].username@
                == line.username@);
        }
        Ok(line)
    }

    /// The leaderboard: one line per participant, in the order in which they
    /// registered.
    pub fn get_leaderboard(&self) -> (board: LeaderBoardInfo)
        requires
            self.wf(),
        ensures
            board.total_entries == self.users().len(),
            board.start_of_range == 0,
            board.details@.len() == self.users().len(),
            forall|i: int|
                0 <= i < self.users().len() ==> self.line_of(
                    #[trigger] board.details@[i],
                    self.users()[i].id,
                ),
    {
        let mut details: Vec<LeaderboardDetail> = Vec::new();
        let mut i: usize = 0;
        while i < self.users.len()
            invariant
                self.wf(),
                i <= self.users@.len(),
                details@.len() == i,
                forall|k: int|
                    0 <= k < i ==> self.line_of(#[trigger] details@[k], self.users()[k].id),
            decreases self.users@.len() - i,
        {
            let id = self.users[i].id;
            match self.get_user_leaderboard_entry(id) {
                Ok(line) => {
                    details.push(line);
                },
                Err(_) => {
                    proof {
                        assert(with_id(id)(self.users()[i as int]));
                        assert(false);
                    }
                },
            }
            i = i + 1;
        }
        LeaderBoardInfo { total_entries: details.len(), start_of_range: 0, details }
    }

    /// Logs an activity for `user` on `day`, at the present local time.
    pub fn add_activity(&mut self, user: UserId, day: i32, info: ActivityInfo) -> (result: Result<
        ActivityRecord,
        Error,
    >)
        requires
            old(self).wf(),
        ensures
            final(self).wf(),
            exists|now: int| #[trigger]
                Db::logs(*old(self), *final(self), now, user, day as int, info, result),
    {
        let now = days_since_start();
        self.add_activity_at(now, user, day, info)
    }
}

/// Logging keeps the tables valid: no participant ever has two records on
/// one day, and no record scores more than ten points.
pub proof fn lemma_logging_keeps_tables_valid(
    pre: Db,
    post: Db,
    now: int,
    user: UserId,
    day: int,
    info: ActivityInfo,
    result: Result<ActivityRecord, Error>,
)
    requires
        pre.wf(),
        Db::logs(pre, post, now, user, day, info, result),
    ensures
        post.wf(),
{
    if result is Ok {
        let record = logged_record(pre.events(), now, user, day, info);
        let before = pre.records();
        let after = post.records();
        assert(pre.events()[day].distance > 0);
        lemma_score_bounded_and_monotone(
            info.activity,
            covered(info.value),
            covered(info.value),
            pre.events()[day].distance as int,
            day == day_of(now),
        );
        assert forall|i: int| 0 <= i < after.len() implies valid_record(#[trigger] after[i]) by {
            if i < before.len() {
                assert(after[i] == before[i]);
            }
        }
        assert forall|i: int, j: int| 0 <= i < j < after.len() implies !((
        #[trigger] after[i]).user == (#[trigger] after[j]).user && after[i].event_id
            == after[j].event_id) by {
            assert(after[i] == before[i]);
            if j < before.len() {
                assert(after[j] == before[j]);
            }
        }
    }
}

/// A day that has not come yet cannot be logged: on a day of the challenge,
/// once the challenge has started, the attempt is refused as a future day and
/// leaves the records as they were.
pub proof fn lemma_future_day_is_refused(
    pre: Db,
    post: Db,
    now: int,
    user: UserId,
    day: int,
    info: ActivityInfo,
    result: Result<ActivityRecord, Error>,
)
    requires
        Db::logs(pre, post, now, user, day, info, result),
        0 <= day <= LAST_DAY,
        started(now),
        day > day_of(now),
    ensures
        result == Err::<ActivityRecord, Error>(Error::FutureDay),
        post.records() == pre.records(),
{
}

/// Logging twice for one participant and day: where the first attempt
/// succeeds, a later one is refused as a duplicate and leaves the records as
/// they were, with exactly one record of the participant on that day.
pub proof fn lemma_second_log_is_duplicate(
    pre: Db,
    mid: Db,
    post: Db,
    first_now: int,
    second_now: int,
    user: UserId,
    day: int,
    first: ActivityInfo,
    second: ActivityInfo,
    first_result: Result<ActivityRecord, Error>,
    second_result: Result<ActivityRecord, Error>,
)
    requires
        pre.wf(),
        Db::logs(pre, mid, first_now, user, day, first, first_result),
        first_result is Ok,
        first_now <= second_now,
        Db::logs(mid, post, second_now, user, day, second, second_result),
    ensures
        second_result == Err::<ActivityRecord, Error>(Error::DuplicateEntry),
        post.records() == mid.records(),
        records_on(records_of(post.records(), user), day) == 1,
{
    let record = logged_record(pre.events(), first_now, user, day, first);
    let records = mid.records();
    assert(records[records.len() - 1] == record);
    assert(recorded(records, user, day));
    lemma_logging_keeps_tables_valid(pre, mid, first_now, user, day, first, first_result);
    lemma_history_has_distinct_days(records, user);
    lemma_recorded_in_history(records, user, day);
    lemma_recorded_days_are_counted(records_of(records, user), day);
    lemma_distinct_days_count_once(records_of(records, user), day);
}

} // verus!
