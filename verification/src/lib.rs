//! A daily fitness-challenge tracker: participants log a distance for one
//! activity per day against that day's target, earn a score for each entry,
//! and unlock badges from their counts, distances and day-over-day streaks.
//!
//! Distances are whole metres and scores are thousandths of a point, so that
//! every rule of the challenge is exact integer arithmetic.
//!
//! - [`activity`], [`calendar`], [`scoring`]: the activity types, the days
//!   with their targets, and the score of one entry.
//! - [`records`], [`history`]: what a participant's records say, and the
//!   forward pass that counts entries and finds streaks.
//! - [`achievements`], [`evaluator`]: the catalog of badges and which of them
//!   a history unlocks.
//! - [`leaderboard`]: the totals of each participant.
//! - [`tables`], [`logging`], [`db`]: the repository and the operations on it.
//! - [`routes`], [`error`]: which operation a request asks for, and why one is
//!   refused.

pub mod achievements;
pub mod activity;
pub mod calendar;
pub mod db;
pub mod error;
pub mod evaluator;
pub mod history;
pub mod leaderboard;
pub mod logging;
pub mod records;
pub mod routes;
pub mod scoring;
pub mod tables;
