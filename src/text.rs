//! Titles and descriptions derived from a contest's teams.

use vstd::prelude::*;

use crate::matches::{CoreError, Match, MatchData, Record, Team};

verus! {

/// The decimal digit for `d < 10`.
pub open spec fn digit_char(d: nat) -> char {
    if d == 0 { '0' } else if d == 1 { '1' } else if d == 2 { '2' } else if d == 3 { '3' }
    else if d == 4 { '4' } else if d == 5 { '5' } else if d == 6 { '6' } else if d == 7 { '7' }
    else if d == 8 { '8' } else { '9' }
}

/// `n` in decimal, without leading zeros.
pub open spec fn decimal(n: nat) -> Seq<char>
    decreases n,
{
    if n < 10 {
        seq![digit_char(n)]
    } else {
        decimal(n / 10) + seq![digit_char(n % 10)]
    }
}

/// `(wins-losses)`.
pub open spec fn record_text(r: Record) -> Seq<char> {
    seq!['('] + decimal(r.wins as nat) + seq!['-'] + decimal(r.losses as nat) + seq![')']
}

/// `name record`, the record being empty when the team has none.
pub open spec fn team_text(t: Team) -> Seq<char> {
    t.name@ + seq![' '] + match t.record {
        Some(r) => record_text(r),
        None => Seq::empty(),
    }
}

/// `codeA vs codeB`.
pub open spec fn summary_text(c: Match) -> Seq<char> {
    c.teams@[0].code@ + seq![' ', 'v', 's', ' '] + c.teams@[1].code@
}

/// `teamA | teamB`, each team as `team_text` gives it.
pub open spec fn description_text(c: Match) -> Seq<char> {
    team_text(c.teams@[0]) + seq![' ', '|', ' '] + team_text(c.teams@[1])
}

/// A contest is well formed when it names at least two teams.
pub open spec fn has_two_teams(c: Match) -> bool {
    c.teams@.len() >= 2
}

/// The title of a contest, or why it has none.
pub open spec fn contest_summary(c: Match) -> core::result::Result<Seq<char>, CoreError> {
    if has_two_teams(c) { Ok(summary_text(c)) } else { Err(CoreError::MalformedContest) }
}

/// The description of a contest, or why it has none.
pub open spec fn contest_description(c: Match) -> core::result::Result<Seq<char>, CoreError> {
    if has_two_teams(c) { Ok(description_text(c)) } else { Err(CoreError::MalformedContest) }
}

/// A text result seen through the characters of its text.
pub open spec fn text_view(r: core::result::Result<String, CoreError>) -> core::result::Result<Seq<char>, CoreError> {
    match r {
        Ok(s) => Ok(s@),
        Err(e) => Err(e),
    }
}

/// The title of a match, or why it has none.
pub open spec fn match_summary(m: MatchData) -> core::result::Result<Seq<char>, CoreError> {
    match m.match_data {
        None => Err(CoreError::MissingContestData),
        Some(c) => contest_summary(c),
    }
}

/// The description of a match, or why it has none.
pub open spec fn match_description(m: MatchData) -> core::result::Result<Seq<char>, CoreError> {
    match m.match_data {
        None => Err(CoreError::MissingContestData),
        Some(c) => contest_description(c),
    }
}

fn append_digit(s: &mut String, d: u8)
    requires
        d < 10,
    ensures
        final(s)@ == old(s)@ + seq![digit_char(d as nat)],
{
    proof {
        reveal_strlit("0");
        reveal_strlit("1");
        reveal_strlit("2");
        reveal_strlit("3");
        reveal_strlit("4");
        reveal_strlit("5");
        reveal_strlit("6");
        reveal_strlit("7");
        reveal_strlit("8");
        reveal_strlit("9");
    }
    match d {
        0 => s.append("0"),
        1 => s.append("1"),
        2 => s.append("2"),
        3 => s.append("3"),
        4 => s.append("4"),
        5 => s.append("5"),
        6 => s.append("6"),
        7 => s.append("7"),
        8 => s.append("8"),
        _ => s.append("9"),
    }
}

/// Appends `n` in decimal.
pub fn append_decimal(s: &mut String, n: u8)
    ensures
        final(s)@ == old(s)@ + decimal(n as nat),
    decreases n,
{
    if n < 10 {
        append_digit(s, n);
    } else {
        append_decimal(s, n / 10);
        append_digit(s, n % 10);
        assert(final(s)@ =~= old(s)@ + decimal(n as nat));
    }
}

impl Record {
    /// The record as `(wins-losses)`.
    pub fn to_text(&self) -> (r: String)
        ensures
            r@ == record_text(*self),
    {
        let mut s = String::new();
        proof {
            reveal_strlit("(");
            reveal_strlit("-");
            reveal_strlit(")");
        }
        s.append("(");
        append_decimal(&mut s, self.wins);
        s.append("-");
        append_decimal(&mut s, self.losses);
        s.append(")");
        assert(s@ =~= record_text(*self));
        s
    }
}

impl Team {
    /// The team as `name record`; an absent record leaves the text after the space empty.
    pub fn display(&self) -> (r: String)
        ensures
            r@ == team_text(*self),
    {
        let mut s = self.name.clone();
        proof {
            reveal_strlit(" ");
        }
        s.append(" ");
        match &self.record {
            Some(rec) => {
                let t = rec.to_text();
                s.append(t.as_str());
            },
            None => {},
        }
        assert(s@ =~= team_text(*self));
        s
    }
}

impl Match {
    /// `codeA vs codeB`; fails on a contest with fewer than two teams.
    pub fn summary(&self) -> (r: core::result::Result<String, CoreError>)
        ensures
            text_view(r) == contest_summary(*self),
    {
        if self.teams.len() < 2 {
            return Err(CoreError::MalformedContest);
        }
        let mut s = self.teams[0].code.clone();
        proof {
            reveal_strlit(" vs ");
        }
        s.append(" vs ");
        s.append(self.teams[1].code.as_str());
        assert(s@ =~= summary_text(*self));
        Ok(s)
    }

    /// `teamA | teamB`; fails on a contest with fewer than two teams.
    pub fn description(&self) -> (r: core::result::Result<String, CoreError>)
        ensures
            text_view(r) == contest_description(*self),
    {
        if self.teams.len() < 2 {
            return Err(CoreError::MalformedContest);
        }
        let mut s = self.teams[0].display();
        proof {
            reveal_strlit(" | ");
        }
        s.append(" | ");
        let b = self.teams[1].display();
        s.append(b.as_str());
        assert(s@ =~= description_text(*self));
        Ok(s)
    }
}

impl MatchData {
    /// The event title; fails without a contest or with fewer than two teams.
    pub fn summary(&self) -> (r: core::result::Result<String, CoreError>)
        ensures
            text_view(r) == match_summary(*self),
    {
        match &self.match_data {
            None => Err(CoreError::MissingContestData),
            Some(c) => c.summary(),
        }
    }

    /// The event description; fails without a contest or with fewer than two teams.
    pub fn description(&self) -> (r: core::result::Result<String, CoreError>)
        ensures
            text_view(r) == match_description(*self),
    {
        match &self.match_data {
            None => Err(CoreError::MissingContestData),
            Some(c) => c.description(),
        }
    }
}

} // verus!
