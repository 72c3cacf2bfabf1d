//! What can go wrong.

use vstd::prelude::*;

verus! {

/// Why an operation was refused.
#[derive(Clone, Copy, Debug, PartialEq, Eq, Structural)]
pub enum Error {
    /// The day is not a day of the challenge.
    InvalidDay,
    /// The challenge has not started yet.
    ChallengeNotStarted,
    /// The day has not come yet.
    FutureDay,
    /// The participant already has a record on that day.
    DuplicateEntry,
    /// The calendar has no target for the day.
    EventNotFound,
    /// No participant has that identifier, or no session has that key.
    UserNotFound,
    /// The name is taken.
    UserAlreadyRegistered,
    /// No participant has that name with that password.
    WrongPassword,
    /// The participant has no session.
    SessionMissing,
    /// The tables do not make up a repository.
    InvalidTables,
    /// The buckets do not make up a calendar.
    InvalidBuckets,
}

impl Error {
    /// What to tell the caller.
    pub open spec fn text(self) -> Seq<char> {
        match self {
            Error::InvalidDay => "Bad input day"@,
            Error::ChallengeNotStarted => "The challenge has not started"@,
            Error::FutureDay => "Can not set activities in the future"@,
            Error::DuplicateEntry => "Already registered"@,
            Error::EventNotFound => "No event on that day"@,
            Error::UserNotFound => "Could not find user"@,
            Error::UserAlreadyRegistered => "User already registered"@,
            Error::WrongPassword => "User pass incorrect"@,
            Error::SessionMissing => "Session is missing"@,
            Error::InvalidTables => "The stored tables are not valid"@,
            Error::InvalidBuckets => "The distance buckets are not valid"@,
        }
    }

    /// The text to tell the caller.
    pub fn message(&self) -> (text: String)
        ensures
            text@ == self.text(),
    {
        match self {
            Error::InvalidDay => "Bad input day".to_string(),
            Error::ChallengeNotStarted => "The challenge has not started".to_string(),
            Error::FutureDay => "Can not set activities in the future".to_string(),
            Error::DuplicateEntry => "Already registered".to_string(),
            Error::EventNotFound => "No event on that day".to_string(),
            Error::UserNotFound => "Could not find user".to_string(),
            Error::UserAlreadyRegistered => "User already registered".to_string(),
            Error::WrongPassword => "User pass incorrect".to_string(),
            Error::SessionMissing => "Session is missing".to_string(),
            Error::InvalidTables => "The stored tables are not valid".to_string(),
            Error::InvalidBuckets => "The distance buckets are not valid".to_string(),
        }
    }
}

} // verus!
