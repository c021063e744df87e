//! The schedule records as the league's API describes them.

use vstd::prelude::*;

verus! {

/// A whole `getSchedule` answer.
#[derive(Debug, Clone)]
pub struct CompleteMatchData {
    pub data: Data,
}

#[derive(Debug, Clone)]
pub struct Data {
    pub schedule: Schedule,
}

/// One page of the schedule and the cursors around it.
#[derive(Debug, Clone)]
pub struct Schedule {
    pub pages: Pages,
    pub events: Vec<MatchData>,
}

/// Cursors to the older and newer pages; never followed.
#[derive(Debug, Clone)]
pub struct Pages {
    pub older: String,
    pub newer: String,
}

/// One scheduled contest of the league.
#[derive(Debug, Clone)]
pub struct MatchData {
    /// RFC 3339 timestamp, as received.
    pub start_time: String,
    /// Lifecycle label, such as "completed", "unstarted" or "inProgress".
    pub state: String,
    pub match_type: String,
    /// Grouping label, such as "Groups" or "Playoffs".
    pub block_name: String,
    pub league: League,
    /// The series itself; absent for placeholder and bye entries.
    pub match_data: Option<Match>,
}

#[derive(Debug, Clone)]
pub struct League {
    pub name: String,
    pub slug: String,
}

/// The game series played within a scheduled match.
#[derive(Debug, Clone)]
pub struct Match {
    pub id: String,
    /// Team A at index 0, team B at index 1.
    pub teams: Vec<Team>,
    pub flags: Vec<String>,
    pub strategy: Strategy,
}

#[derive(Debug, Clone)]
pub struct Team {
    pub name: String,
    pub code: String,
    pub image: String,
    pub result: Option<Result>,
    /// Tournament record before this match.
    pub record: Option<Record>,
}

/// The outcome of a played match for one team.
#[derive(Debug, Clone)]
pub struct Result {
    pub game_wins: u32,
    pub outcome: Option<String>,
}

#[derive(Debug, Clone, Copy)]
pub struct Record {
    pub wins: u8,
    pub losses: u8,
}

/// The series format: `count` games, taken as that many hours of air time.
#[derive(Debug, Clone)]
pub struct Strategy {
    pub match_type: String,
    pub count: u8,
}

/// Why a calendar event could not be built for a match.
#[derive(Debug, Clone, Copy, PartialEq, Eq, Structural)]
pub enum CoreError {
    /// `start_time` is not an RFC 3339 timestamp.
    InvalidTimestamp,
    /// The match has no contest, so neither its duration nor its teams are known.
    MissingContestData,
    /// The contest lists fewer than two teams.
    MalformedContest,
}

} // verus!
