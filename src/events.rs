//! The pipeline from schedule entries to calendar events: selection, assembly and ordering.

use vstd::prelude::*;

use crate::matches::{CoreError, MatchData};
use crate::text::{description_text, has_two_teams, summary_text};
use crate::time::{
    hours_after, is_before, local_at, offset_for, parse_instant, parsed_instant, instant_before,
    system_offset_at, valid_offset, window_at, Instant, LocalDateTime, TimeZoneRules,
};

verus! {

/// The lifecycle label of a match that has been played.
pub open spec fn completed_label() -> Seq<char> {
    seq!['c', 'o', 'm', 'p', 'l', 'e', 't', 'e', 'd']
}

/// The grouping label of the matches that are calendared.
pub open spec fn groups_label() -> Seq<char> {
    seq!['G', 'r', 'o', 'u', 'p', 's']
}

/// A match is calendared when it is not completed and belongs to the group stage.
pub open spec fn selected(m: MatchData) -> bool {
    m.state@ != completed_label() && m.block_name@ == groups_label()
}

/// Whether the match is to be calendared: not completed, and in the "Groups" block.
pub fn keep(m: &MatchData) -> (r: bool)
    ensures
        r == selected(*m),
{
    let completed = String::from_str("completed");
    let groups = String::from_str("Groups");
    proof {
        reveal_strlit("completed");
        reveal_strlit("Groups");
        assert(completed@ =~= completed_label());
        assert(groups@ =~= groups_label());
    }
    let done = m.state == completed;
    let grouped = m.block_name == groups;
    !done && grouped
}

/// A calendar entry: local start and end, title and description.
#[derive(Debug, Clone)]
pub struct CalendarEvent {
    pub start: LocalDateTime,
    pub end: LocalDateTime,
    pub summary: String,
    pub description: String,
}

pub struct CalendarEventView {
    pub start: LocalDateTime,
    pub end: LocalDateTime,
    pub summary: Seq<char>,
    pub description: Seq<char>,
}

impl View for CalendarEvent {
    type V = CalendarEventView;

    open spec fn view(&self) -> CalendarEventView {
        CalendarEventView {
            start: self.start,
            end: self.end,
            summary: self.summary@,
            description: self.description@,
        }
    }
}

/// The event for `m` whose clock runs `offset` seconds ahead of UTC at its start, or the
/// first reason it has none: an unreadable start, then a missing contest, then too few teams.
pub open spec fn event_at(m: MatchData, offset: int) -> core::result::Result<CalendarEventView, CoreError> {
    match parsed_instant(m.start_time@) {
        None => Err(CoreError::InvalidTimestamp),
        Some(i) => match m.match_data {
            None => Err(CoreError::MissingContestData),
            Some(c) => if !has_two_teams(c) {
                Err(CoreError::MalformedContest)
            } else {
                Ok(CalendarEventView {
                    start: local_at(i, offset),
                    end: hours_after(local_at(i, offset), c.strategy.count as int),
                    summary: summary_text(c),
                    description: description_text(c),
                })
            },
        },
    }
}

/// An assembly result seen through the event's view.
pub open spec fn event_view(r: core::result::Result<CalendarEvent, CoreError>) -> core::result::Result<CalendarEventView, CoreError> {
    match r {
        Ok(e) => Ok(e@),
        Err(e) => Err(e),
    }
}

/// Builds the event of `m` at a known offset.
pub fn assemble_at(m: &MatchData, offset: i32) -> (r: core::result::Result<CalendarEvent, CoreError>)
    requires
        valid_offset(offset as int),
    ensures
        event_view(r) == event_at(*m, offset as int),
{
    let w = match window_at(m, offset) {
        Ok(w) => w,
        Err(e) => return Err(e),
    };
    let summary = match m.summary() {
        Ok(s) => s,
        Err(e) => return Err(e),
    };
    let description = match m.description() {
        Ok(s) => s,
        Err(e) => return Err(e),
    };
    let ev = CalendarEvent { start: w.0, end: w.1, summary, description };
    assert(event_view(Ok(ev)) == event_at(*m, offset as int));
    Ok(ev)
}

/// Builds the event of `m` in the zone `zone`, at the offset in force at the match's start.
pub fn assemble(m: &MatchData, zone: &TimeZoneRules) -> (r: core::result::Result<CalendarEvent, CoreError>)
    requires
        zone.wf(),
    ensures
        event_view(r) == event_at(*m, offset_for(*m, *zone)),
{
    let offset = match parse_instant(m.start_time.as_str()) {
        Some(i) => zone.offset_at_secs(i.secs),
        None => 0,
    };
    assemble_at(m, offset)
}

/// A match that was selected but yielded no event, by its index in the input.
#[derive(Debug, Clone, Copy, PartialEq, Eq, Structural)]
pub struct Failure {
    pub source: usize,
    pub error: CoreError,
}

/// What a run yields: the events in calendar order, the index of the match behind each
/// event, and the selected matches that yielded none, in input order.
#[derive(Debug, Clone)]
pub struct RunOutcome {
    pub events: Vec<CalendarEvent>,
    pub sources: Vec<usize>,
    pub failures: Vec<Failure>,
}

pub struct RunOutcomeView {
    pub events: Seq<CalendarEventView>,
    pub sources: Seq<usize>,
    pub failures: Seq<Failure>,
}

impl View for RunOutcome {
    type V = RunOutcomeView;

    open spec fn view(&self) -> RunOutcomeView {
        RunOutcomeView {
            events: self.events@.map_values(|e: CalendarEvent| e@),
            sources: self.sources@,
            failures: self.failures@,
        }
    }
}

/// Match `a` of `ms` goes before match `b`: it starts at an earlier instant, or at the same
/// instant and comes first in the input. Only matches with a readable start are ordered.
pub open spec fn precedes(ms: Seq<MatchData>, a: int, b: int) -> bool {
    match (parsed_instant(ms[a].start_time@), parsed_instant(ms[b].start_time@)) {
        (Some(x), Some(y)) => instant_before(x, y) || (x == y && a < b),
        _ => false,
    }
}

/// `out` is the run over `ms` in which match `k` is read at offset `offsets[k]`, each offset
/// less than a day:
/// - each event is that of a selected match, and the events run in the order of `precedes`;
/// - each failure is that of a selected match, in input order;
/// - every selected match has its event or its failure.
pub open spec fn is_run_output(ms: Seq<MatchData>, offsets: Seq<int>, out: RunOutcomeView) -> bool {
    &&& offsets.len() == ms.len()
    &&& forall|k: int| 0 <= k < offsets.len() ==> valid_offset(#[trigger] offsets[k])
    &&& out.events.len() == out.sources.len()
    &&& forall|i: int| 0 <= i < out.sources.len() ==> {
        let k = #[trigger] out.sources[i] as int;
        &&& 0 <= k < ms.len()
        &&& selected(ms[k])
        &&& event_at(ms[k], offsets[k]) == Ok::<CalendarEventView, CoreError>(out.events[i])
    }
    &&& forall|i: int, j: int| 0 <= i < j < out.sources.len()
        ==> precedes(ms, #[trigger] out.sources[i] as int, #[trigger] out.sources[j] as int)
    &&& forall|f: int| 0 <= f < out.failures.len() ==> {
        let k = #[trigger] out.failures[f].source as int;
        &&& 0 <= k < ms.len()
        &&& selected(ms[k])
        &&& event_at(ms[k], offsets[k]) == Err::<CalendarEventView, CoreError>(out.failures[f].error)
    }
    &&& forall|f: int, g: int| 0 <= f < g < out.failures.len()
        ==> (#[trigger] out.failures[f]).source < (#[trigger] out.failures[g]).source
    &&& forall|k: int| 0 <= k < ms.len() && #[trigger] selected(ms[k]) ==> match event_at(ms[k], offsets[k]) {
        Ok(_) => out.sources.contains(k as usize),
        Err(e) => out.failures.contains(Failure { source: k as usize, error: e }),
    }
}

/// The offsets that `zone` gives at the starts of `ms`.
pub open spec fn zone_offsets(ms: Seq<MatchData>, zone: TimeZoneRules) -> Seq<int> {
    Seq::new(ms.len(), |k: int| offset_for(ms[k], zone))
}

/// Selects, assembles and orders the matches, reading match `k` at offset `offsets[k]`.
pub fn run_at_offsets(ms: &Vec<MatchData>, offsets: &Vec<i32>) -> (r: RunOutcome)
    requires
        offsets@.len() == ms@.len(),
        forall|k: int| 0 <= k < offsets@.len() ==> valid_offset(#[trigger] offsets@[k] as int),
    ensures
        is_run_output(ms@, offsets@.map_values(|o: i32| o as int), r@),
{
    let ghost offs = offsets@.map_values(|o: i32| o as int);
    let mut events: Vec<CalendarEvent> = Vec::new();
    let mut sources: Vec<usize> = Vec::new();
    let mut keys: Vec<Instant> = Vec::new();
    let mut failures: Vec<Failure> = Vec::new();
    let mut k: usize = 0;
    while k < ms.len()
        invariant
            offsets@.len() == ms@.len(),
            forall|j: int| 0 <= j < offsets@.len() ==> valid_offset(#[trigger] offsets@[j] as int),
            offs == offsets@.map_values(|o: i32| o as int),
            k <= ms@.len(),
            events@.len() == sources@.len(),
            keys@.len() == sources@.len(),
            forall|i: int| 0 <= i < sources@.len() ==> {
                let s = #[trigger] sources@[i] as int;
                &&& 0 <= s < k
                &&& selected(ms@[s])
                &&& event_at(ms@[s], offs[s]) == Ok::<CalendarEventView, CoreError>(events@[i]@)
                &&& parsed_instant(ms@[s].start_time@) == Some(keys@[i])
            },
            forall|i: int, j: int| 0 <= i < j < sources@.len()
                ==> precedes(ms@, #[trigger] sources@[i] as int, #[trigger] sources@[j] as int),
            forall|f: int| 0 <= f < failures@.len() ==> {
                let s = #[trigger] failures@[f].source as int;
                &&& 0 <= s < k
                &&& selected(ms@[s])
                &&& event_at(ms@[s], offs[s]) == Err::<CalendarEventView, CoreError>(failures@[f].error)
            },
            forall|f: int, g: int| 0 <= f < g < failures@.len()
                ==> (#[trigger] failures@[f]).source < (#[trigger] failures@[g]).source,
            forall|j: int| 0 <= j < k && #[trigger] selected(ms@[j]) ==> match event_at(ms@[j], offs[j]) {
                Ok(_) => sources@.contains(j as usize),
                Err(e) => failures@.contains(Failure { source: j as usize, error: e }),
            },
        decreases ms@.len() - k,
    {
        let m = &ms[k];
        if keep(m) {
            match assemble_at(m, offsets[k]) {
                Err(e) => {
                    let ghost old_failures = failures@;
                    failures.push(Failure { source: k, error: e });
                    proof {
                        assert(failures@[old_failures.len() as int] == Failure { source: k, error: e });
                        assert forall|j: int| 0 <= j < k + 1 && #[trigger] selected(ms@[j]) implies match event_at(ms@[j], offs[j]) {
                            Ok(_) => sources@.contains(j as usize),
                            Err(e2) => failures@.contains(Failure { source: j as usize, error: e2 }),
                        } by {
                            if j < k {
                                if let Err(e2) = event_at(ms@[j], offs[j]) {
                                    let f = choose|f: int| 0 <= f < old_failures.len() && old_failures[f] == Failure { source: j as usize, error: e2 };
                                    assert(failures@[f] == old_failures[f]);
                                }
                            }
                        }
                    }
                },
                Ok(ev) => {
                    let key = match parse_instant(m.start_time.as_str()) {
                        Some(i) => i,
                        None => {
                            assert(false);
                            Instant { secs: 0, nanos: 0 }
                        },
                    };
                    let mut p: usize = 0;
                    while p < keys.len() && !is_before(key, keys[p])
                        invariant
                            p <= keys@.len(),
                            forall|q: int| 0 <= q < p ==> !instant_before(key, #[trigger] keys@[q]),
                        decreases keys@.len() - p,
                    {
                        p = p + 1;
                    }
                    let ghost old_sources = sources@;
                    let ghost old_events = events@;
                    let ghost old_keys = keys@;
                    events.insert(p, ev);
                    sources.insert(p, k);
                    keys.insert(p, key);
                    proof {
                        lemma_insert_keeps_order(ms@, old_sources, old_keys, p as int, k, key);
                        assert forall|i: int| 0 <= i < sources@.len() implies {
                            let s = #[trigger] sources@[i] as int;
                            &&& 0 <= s < k + 1
                            &&& selected(ms@[s])
                            &&& event_at(ms@[s], offs[s]) == Ok::<CalendarEventView, CoreError>(events@[i]@)
                            &&& parsed_instant(ms@[s].start_time@) == Some(keys@[i])
                        } by {
                            if i < p {
                                assert(sources@[i] == old_sources[i]);
                                assert(events@[i] == old_events[i]);
                                assert(keys@[i] == old_keys[i]);
                            } else if i > p {
                                assert(sources@[i] == old_sources[i - 1]);
                                assert(events@[i] == old_events[i - 1]);
                                assert(keys@[i] == old_keys[i - 1]);
                            }
                        }
                        assert forall|j: int| 0 <= j < k + 1 && #[trigger] selected(ms@[j]) implies match event_at(ms@[j], offs[j]) {
                            Ok(_) => sources@.contains(j as usize),
                            Err(e2) => failures@.contains(Failure { source: j as usize, error: e2 }),
                        } by {
                            if j == k {
                                assert(sources@[p as int] == k);
                            } else if let Ok(_) = event_at(ms@[j], offs[j]) {
                                let i = choose|i: int| 0 <= i < old_sources.len() && old_sources[i] == j as usize;
                                if i < p {
                                    assert(sources@[i] == old_sources[i]);
                                } else {
                                    assert(sources@[i + 1] == old_sources[i]);
                                }
                            }
                        }
                    }
                },
            }
        }
        k = k + 1;
    }
    let r = RunOutcome { events, sources, failures };
    proof {
        assert forall|k: int| 0 <= k < offs.len() implies valid_offset(#[trigger] offs[k]) by {
            assert(valid_offset(offsets@[k] as int));
        }
        assert forall|i: int| 0 <= i < r@.events.len() implies r@.events[i] == events@[i]@ by {}
    }
    r
}

/// Selects, assembles and orders the matches, each at the offset that `zone` gives at its start.
pub fn run(ms: &Vec<MatchData>, zone: &TimeZoneRules) -> (r: RunOutcome)
    requires
        zone.wf(),
    ensures
        is_run_output(ms@, zone_offsets(ms@, *zone), r@),
{
    let mut offsets: Vec<i32> = Vec::new();
    let mut k: usize = 0;
    while k < ms.len()
        invariant
            zone.wf(),
            k <= ms@.len(),
            offsets@.len() == k,
            forall|j: int| 0 <= j < k ==> valid_offset(#[trigger] offsets@[j] as int)
                && offsets@[j] as int == offset_for(ms@[j], *zone),
        decreases ms@.len() - k,
    {
        let o = match parse_instant(ms[k].start_time.as_str()) {
            Some(i) => zone.offset_at_secs(i.secs),
            None => 0,
        };
        offsets.push(o);
        k = k + 1;
    }
    assert(offsets@.map_values(|o: i32| o as int) =~= zone_offsets(ms@, *zone));
    run_at_offsets(ms, &offsets)
}

/// Selects, assembles and orders the matches, each at the offset that this machine's time
/// zone gives at its start. Which offsets those are depends on the machine; the run is the
/// one at those offsets.
pub fn run_in_system_zone(ms: &Vec<MatchData>) -> (r: RunOutcome)
    ensures
        exists|offsets: Seq<int>| is_run_output(ms@, offsets, r@),
{
    let mut offsets: Vec<i32> = Vec::new();
    let mut k: usize = 0;
    while k < ms.len()
        invariant
            k <= ms@.len(),
            offsets@.len() == k,
            forall|j: int| 0 <= j < k ==> valid_offset(#[trigger] offsets@[j] as int),
        decreases ms@.len() - k,
    {
        let o = match parse_instant(ms[k].start_time.as_str()) {
            Some(i) => match system_offset_at(i.secs) {
                Some(o) => o,
                None => 0,
            },
            None => 0,
        };
        offsets.push(o);
        k = k + 1;
    }
    run_at_offsets(ms, &offsets)
}

/// Inserting match `k` at `p`, after every listed key that does not come after its own and
/// before the first that does, keeps the listed matches in the order of `precedes`.
proof fn lemma_insert_keeps_order(ms: Seq<MatchData>, sources: Seq<usize>, keys: Seq<Instant>, p: int, k: usize, key: Instant)
    requires
        0 <= p <= sources.len(),
        keys.len() == sources.len(),
        k < ms.len(),
        parsed_instant(ms[k as int].start_time@) == Some(key),
        forall|i: int| 0 <= i < sources.len() ==> {
            let s = #[trigger] sources[i] as int;
            &&& 0 <= s < k
            &&& parsed_instant(ms[s].start_time@) == Some(keys[i])
        },
        forall|i: int, j: int| 0 <= i < j < sources.len()
            ==> precedes(ms, #[trigger] sources[i] as int, #[trigger] sources[j] as int),
        forall|q: int| 0 <= q < p ==> !instant_before(key, #[trigger] keys[q]),
        p < keys.len() ==> instant_before(key, keys[p]),
    ensures
        forall|i: int, j: int| 0 <= i < j < sources.len() + 1
            ==> precedes(ms, #[trigger] sources.insert(p, k)[i] as int, #[trigger] sources.insert(p, k)[j] as int),
{
    let t = sources.insert(p, k);
    assert forall|i: int, j: int| 0 <= i < j < sources.len() + 1 implies precedes(ms, #[trigger] t[i] as int, #[trigger] t[j] as int) by {
        if i != p {
            let ii = if i < p { i } else { i - 1 };
            assert(t[i] == sources[ii]);
            assert(parsed_instant(ms[sources[ii] as int].start_time@) == Some(keys[ii]));
        }
        if j != p {
            let jj = if j < p { j } else { j - 1 };
            assert(t[j] == sources[jj]);
            assert(parsed_instant(ms[sources[jj] as int].start_time@) == Some(keys[jj]));
        }
        if p < sources.len() {
            assert(parsed_instant(ms[sources[p] as int].start_time@) == Some(keys[p]));
        }
        if j < p {
            assert(t[i] == sources[i] && t[j] == sources[j]);
        } else if j == p {
            assert(t[i] == sources[i]);
            assert(!instant_before(key, keys[i]));
        } else if i > p {
            assert(t[i] == sources[i - 1] && t[j] == sources[j - 1]);
        } else if i == p {
            assert(t[j] == sources[j - 1]);
            if j - 1 > p {
                assert(precedes(ms, sources[p] as int, sources[j - 1] as int));
            }
        } else {
            assert(t[i] == sources[i] && t[j] == sources[j - 1]);
        }
    }
}

} // verus!
