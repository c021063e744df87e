//! Instants, local wall-clock times and the time-zone rules that relate them.

use vstd::prelude::*;

use crate::matches::{CoreError, MatchData};

verus! {

/// Seconds in an hour.
pub const SECONDS_PER_HOUR: i64 = 3600;

/// An instant: seconds since 1970-01-01T00:00:00Z and the nanoseconds after them
/// (a leap second shows as nanoseconds from 1_000_000_000 up).
#[derive(Debug, Clone, Copy, PartialEq, Eq, Structural)]
pub struct Instant {
    pub secs: i64,
    pub nanos: u32,
}

/// A wall-clock date and time without an offset, counted as the seconds since
/// 1970-01-01T00:00:00 on that clock, and the nanoseconds after them.
#[derive(Debug, Clone, Copy, PartialEq, Eq, Structural)]
pub struct LocalDateTime {
    pub secs: i64,
    pub nanos: u32,
}

/// What chrono's RFC 3339 parser makes of a text: the instant as (seconds, nanoseconds).
pub uninterp spec fn rfc3339_instant(s: Seq<char>) -> Option<(i64, u32)>;

/// A parsed instant lies within the years that chrono represents (-262143 to 262142), so its
/// seconds stay inside ten trillion either way; a leap second can take the nanoseconds past
/// one billion, never to two.
pub open spec fn instant_in_range(secs: int, nanos: int) -> bool {
    -10_000_000_000_000 < secs < 10_000_000_000_000 && nanos < 2_000_000_000
}

/// Relies on chrono's `DateTime::parse_from_rfc3339`, read back through `timestamp` and
/// `timestamp_subsec_nanos`: the result is a function of the text, and a parsed value lies
/// between chrono's smallest and largest dates, with fewer than two billion nanoseconds.
#[verifier::external_body]
fn parse_rfc3339(s: &str) -> (r: Option<(i64, u32)>)
    ensures
        r == rfc3339_instant(s@),
        r matches Some(p) ==> instant_in_range(p.0 as int, p.1 as int),
{
    chrono::DateTime::parse_from_rfc3339(s).ok().map(|d| (d.timestamp(), d.timestamp_subsec_nanos()))
}

/// The instant a text names in RFC 3339, if it is one (chrono's values all lie in range).
pub open spec fn parsed_instant(s: Seq<char>) -> Option<Instant> {
    match rfc3339_instant(s) {
        Some(p) => if instant_in_range(p.0 as int, p.1 as int) {
            Some(Instant { secs: p.0, nanos: p.1 })
        } else {
            None
        },
        None => None,
    }
}

/// Parses an RFC 3339 timestamp.
pub fn parse_instant(s: &str) -> (r: Option<Instant>)
    ensures
        r == parsed_instant(s@),
        r matches Some(i) ==> instant_in_range(i.secs as int, i.nanos as int),
{
    match parse_rfc3339(s) {
        Some(p) => Some(Instant { secs: p.0, nanos: p.1 }),
        None => None,
    }
}

/// `a` comes strictly before `b`.
pub open spec fn instant_before(a: Instant, b: Instant) -> bool {
    a.secs < b.secs || (a.secs == b.secs && a.nanos < b.nanos)
}

/// Whether `a` comes strictly before `b`.
pub fn is_before(a: Instant, b: Instant) -> (r: bool)
    ensures
        r == instant_before(a, b),
{
    a.secs < b.secs || (a.secs == b.secs && a.nanos < b.nanos)
}

/// An offset of a zone: seconds east of UTC, less than a day either way.
pub open spec fn valid_offset(o: int) -> bool {
    -86_400 < o < 86_400
}

/// From `at` (seconds since the epoch, UTC) on, the zone's clocks run `offset` seconds
/// ahead of UTC.
#[derive(Debug, Clone, Copy, PartialEq, Eq, Structural)]
pub struct Transition {
    pub at: i64,
    pub offset: i32,
}

/// The rules of a time zone: the offset before any transition, then the transitions in
/// the order in which they take effect.
#[derive(Debug, Clone)]
pub struct TimeZoneRules {
    pub initial: i32,
    pub transitions: Vec<Transition>,
}

/// The offset in force at `t` under `initial` and the transitions `ts`: that of the last
/// transition listed whose `at` is not after `t`, else `initial`.
pub open spec fn offset_in(initial: i32, ts: Seq<Transition>, t: int) -> int
    decreases ts.len(),
{
    if ts.len() == 0 {
        initial as int
    } else if ts.last().at <= t {
        ts.last().offset as int
    } else {
        offset_in(initial, ts.drop_last(), t)
    }
}

impl TimeZoneRules {
    /// Every offset is less than a day.
    pub open spec fn wf(&self) -> bool {
        &&& valid_offset(self.initial as int)
        &&& forall|i: int| 0 <= i < self.transitions@.len() ==> valid_offset(#[trigger] self.transitions@[i].offset as int)
    }

    /// The offset in force at the instant `t` seconds after the epoch.
    pub open spec fn offset_at(&self, t: int) -> int {
        offset_in(self.initial, self.transitions@, t)
    }

    /// A zone whose offset never changes; `None` for an offset of a day or more.
    pub fn fixed(offset: i32) -> (r: Option<TimeZoneRules>)
        ensures
            valid_offset(offset as int) <==> r is Some,
            r matches Some(z) ==> z.wf() && z.initial == offset && z.transitions@.len() == 0,
    {
        if -86_400 < offset && offset < 86_400 {
            Some(TimeZoneRules { initial: offset, transitions: Vec::new() })
        } else {
            None
        }
    }

    /// Adds a transition after the listed ones; refused (`false`, rules unchanged) for an
    /// offset of a day or more.
    pub fn add_transition(&mut self, at: i64, offset: i32) -> (added: bool)
        requires
            old(self).wf(),
        ensures
            final(self).wf(),
            added == valid_offset(offset as int),
            added ==> final(self).initial == old(self).initial
                && final(self).transitions@ == old(self).transitions@.push(Transition { at, offset }),
            !added ==> *final(self) == *old(self),
    {
        if -86_400 < offset && offset < 86_400 {
            self.transitions.push(Transition { at, offset });
            true
        } else {
            false
        }
    }

    /// The offset in force at the instant `t` seconds after the epoch.
    pub fn offset_at_secs(&self, t: i64) -> (r: i32)
        requires
            self.wf(),
        ensures
            r as int == self.offset_at(t as int),
            valid_offset(r as int),
    {
        let mut i: usize = self.transitions.len();
        assert(self.transitions@.subrange(0, i as int) =~= self.transitions@);
        while i > 0
            invariant
                self.wf(),
                i <= self.transitions@.len(),
                self.offset_at(t as int) == offset_in(self.initial, self.transitions@.subrange(0, i as int), t as int),
            decreases i,
        {
            let tr = self.transitions[i - 1];
            let ghost ts = self.transitions@.subrange(0, i as int);
            assert(ts.last() == tr);
            if tr.at <= t {
                return tr.offset;
            }
            assert(ts.drop_last() =~= self.transitions@.subrange(0, i - 1));
            i = i - 1;
        }
        self.initial
    }
}

/// Relies on chrono's `Local` zone (`DateTime::from_timestamp`, `DateTime::with_timezone`,
/// `FixedOffset::local_minus_utc`): the machine's offset at the instant `secs` seconds after
/// the epoch, `None` outside chrono's dates. Which offset comes depends on the machine; a
/// `FixedOffset` is always less than a day.
#[verifier::external_body]
pub(crate) fn system_offset_at(secs: i64) -> (r: Option<i32>)
    ensures
        r matches Some(o) ==> valid_offset(o as int),
{
    chrono::DateTime::from_timestamp(secs, 0).map(|d| d.with_timezone(&chrono::Local).offset().local_minus_utc())
}

/// The wall-clock time that an instant shows at an offset.
pub open spec fn local_at(i: Instant, offset: int) -> LocalDateTime {
    LocalDateTime { secs: (i.secs + offset) as i64, nanos: i.nanos }
}

/// The same wall-clock time `hours` later.
pub open spec fn hours_after(t: LocalDateTime, hours: int) -> LocalDateTime {
    LocalDateTime { secs: (t.secs + hours * 3600) as i64, nanos: t.nanos }
}

/// The local start of a match whose clock runs `offset` seconds ahead of UTC at its start.
pub open spec fn start_at(m: MatchData, offset: int) -> core::result::Result<LocalDateTime, CoreError> {
    match parsed_instant(m.start_time@) {
        None => Err(CoreError::InvalidTimestamp),
        Some(i) => Ok(local_at(i, offset)),
    }
}

/// The local end of such a match: its start plus one hour per game of the series.
pub open spec fn end_at(m: MatchData, offset: int) -> core::result::Result<LocalDateTime, CoreError> {
    match parsed_instant(m.start_time@) {
        None => Err(CoreError::InvalidTimestamp),
        Some(i) => match m.match_data {
            None => Err(CoreError::MissingContestData),
            Some(c) => Ok(hours_after(local_at(i, offset), c.strategy.count as int)),
        },
    }
}

/// The offset that `zone` gives at the start of `m`; nought where the start is no timestamp.
pub open spec fn offset_for(m: MatchData, zone: TimeZoneRules) -> int {
    match parsed_instant(m.start_time@) {
        Some(i) => zone.offset_at(i.secs as int),
        None => 0,
    }
}

/// The local start and end of a match whose clock runs `offset` seconds ahead of UTC at
/// its start.
pub fn window_at(m: &MatchData, offset: i32) -> (r: core::result::Result<(LocalDateTime, LocalDateTime), CoreError>)
    requires
        valid_offset(offset as int),
    ensures
        match r {
            Ok(w) => start_at(*m, offset as int) == Ok::<LocalDateTime, CoreError>(w.0)
                && end_at(*m, offset as int) == Ok::<LocalDateTime, CoreError>(w.1),
            Err(e) => end_at(*m, offset as int) == Err::<LocalDateTime, CoreError>(e),
        },
{
    let i = match parse_instant(m.start_time.as_str()) {
        Some(i) => i,
        None => return Err(CoreError::InvalidTimestamp),
    };
    let count = match &m.match_data {
        Some(c) => c.strategy.count,
        None => return Err(CoreError::MissingContestData),
    };
    Ok(window_from_instant(i, offset, count))
}

/// The local start and end of a series of `count` games that starts at `i`, on a clock
/// running `offset` seconds ahead of UTC: the end lies `count` hours after the start.
pub fn window_from_instant(i: Instant, offset: i32, count: u8) -> (r: (LocalDateTime, LocalDateTime))
    requires
        instant_in_range(i.secs as int, i.nanos as int),
        valid_offset(offset as int),
    ensures
        r.0 == local_at(i, offset as int),
        r.1 == hours_after(r.0, count as int),
        r.0.secs == i.secs + offset,
        r.1.secs == r.0.secs + count * 3600,
        r.0.nanos == i.nanos && r.1.nanos == i.nanos,
{
    let start = LocalDateTime { secs: i.secs + offset as i64, nanos: i.nanos };
    let end = LocalDateTime { secs: start.secs + count as i64 * SECONDS_PER_HOUR, nanos: start.nanos };
    (start, end)
}

impl MatchData {
    /// The local start of the match under `zone`, at the offset in force at that instant.
    pub fn start_timestamp(&self, zone: &TimeZoneRules) -> (r: core::result::Result<LocalDateTime, CoreError>)
        requires
            zone.wf(),
        ensures
            r == start_at(*self, offset_for(*self, *zone)),
    {
        match parse_instant(self.start_time.as_str()) {
            Some(i) => {
                let offset = zone.offset_at_secs(i.secs);
                Ok(LocalDateTime { secs: i.secs + offset as i64, nanos: i.nanos })
            },
            None => Err(CoreError::InvalidTimestamp),
        }
    }

    /// The local end of the match under `zone`: its local start plus `strategy.count` hours.
    pub fn end_timestamp(&self, zone: &TimeZoneRules) -> (r: core::result::Result<LocalDateTime, CoreError>)
        requires
            zone.wf(),
        ensures
            r == end_at(*self, offset_for(*self, *zone)),
    {
        let offset = match parse_instant(self.start_time.as_str()) {
            Some(i) => zone.offset_at_secs(i.secs),
            None => return Err(CoreError::InvalidTimestamp),
        };
        match window_at(self, offset) {
            Ok(w) => Ok(w.1),
            Err(e) => Err(e),
        }
    }
}

} // verus!
