//! Properties of every run, proved from the run's contract.

use vstd::prelude::*;

use crate::events::{completed_label, event_at, groups_label, is_run_output, precedes, selected, Failure, RunOutcomeView};
use crate::matches::{CoreError, MatchData};
use crate::time::{instant_before, parsed_instant};

verus! {

/// A completed match never yields an event.
pub proof fn lemma_completed_excluded(ms: Seq<MatchData>, offsets: Seq<int>, out: RunOutcomeView, k: int)
    requires
        is_run_output(ms, offsets, out),
        0 <= k < ms.len(),
        ms[k].state@ == completed_label(),
    ensures
        forall|i: int| 0 <= i < out.sources.len() ==> #[trigger] out.sources[i] as int != k,
{
    assert forall|i: int| 0 <= i < out.sources.len() implies #[trigger] out.sources[i] as int != k by {
        if out.sources[i] as int == k {
            assert(selected(ms[k]));
        }
    }
}

/// A match outside the "Groups" block never yields an event, whatever its state.
pub proof fn lemma_other_blocks_excluded(ms: Seq<MatchData>, offsets: Seq<int>, out: RunOutcomeView, k: int)
    requires
        is_run_output(ms, offsets, out),
        0 <= k < ms.len(),
        ms[k].block_name@ != groups_label(),
    ensures
        forall|i: int| 0 <= i < out.sources.len() ==> #[trigger] out.sources[i] as int != k,
{
    assert forall|i: int| 0 <= i < out.sources.len() implies #[trigger] out.sources[i] as int != k by {
        if out.sources[i] as int == k {
            assert(selected(ms[k]));
        }
    }
}

/// Of two events, the one whose match starts at the earlier instant comes first.
pub proof fn lemma_chronological(ms: Seq<MatchData>, offsets: Seq<int>, out: RunOutcomeView, i: int, j: int)
    requires
        is_run_output(ms, offsets, out),
        0 <= i < out.sources.len(),
        0 <= j < out.sources.len(),
        parsed_instant(ms[out.sources[i] as int].start_time@) matches Some(a)
            && parsed_instant(ms[out.sources[j] as int].start_time@) matches Some(b)
            && instant_before(a, b),
    ensures
        i < j,
{
    if j < i {
        assert(precedes(ms, out.sources[j] as int, out.sources[i] as int));
    } else if i == j {
    }
}

/// Every event lasts exactly as many hours as its contest has games.
pub proof fn lemma_duration(ms: Seq<MatchData>, offsets: Seq<int>, out: RunOutcomeView, i: int)
    requires
        is_run_output(ms, offsets, out),
        0 <= i < out.sources.len(),
    ensures
        ms[out.sources[i] as int].match_data matches Some(c)
            && out.events[i].end.secs == out.events[i].start.secs + c.strategy.count * 3600
            && out.events[i].end.nanos == out.events[i].start.nanos,
{
    let k = out.sources[i] as int;
    assert(event_at(ms[k], offsets[k]) == Ok::<_, CoreError>(out.events[i]));
}

/// Two sequences ordered strictly by the same irreflexive, asymmetric relation, with the same
/// elements, are equal.
proof fn lemma_sorted_unique<T>(s1: Seq<T>, s2: Seq<T>, lt: spec_fn(T, T) -> bool)
    requires
        forall|x: T| !#[trigger] lt(x, x),
        forall|x: T, y: T| #[trigger] lt(x, y) ==> !lt(y, x),
        forall|i: int, j: int| 0 <= i < j < s1.len() ==> lt(#[trigger] s1[i], #[trigger] s1[j]),
        forall|i: int, j: int| 0 <= i < j < s2.len() ==> lt(#[trigger] s2[i], #[trigger] s2[j]),
        forall|x: T| s1.contains(x) <==> s2.contains(x),
    ensures
        s1 == s2,
    decreases s1.len(),
{
    if s1.len() == 0 {
        if s2.len() > 0 {
            assert(s2.contains(s2[0]));
        }
        assert(s1 =~= s2);
    } else {
        assert(s1.contains(s1[0]));
        let j = choose|j: int| 0 <= j < s2.len() && s2[j] == s1[0];
        assert(s2.contains(s2[0]));
        let i = choose|i: int| 0 <= i < s1.len() && s1[i] == s2[0];
        if j > 0 {
            assert(lt(s2[0], s2[j]));
            if i > 0 {
                assert(lt(s1[0], s1[i]));
            }
        }
        assert(s1[0] == s2[0]);
        let t1 = s1.drop_first();
        let t2 = s2.drop_first();
        assert forall|x: T| t1.contains(x) <==> t2.contains(x) by {
            if t1.contains(x) {
                let a = choose|a: int| 0 <= a < t1.len() && t1[a] == x;
                assert(lt(s1[0], s1[a + 1]));
                assert(s1.contains(x));
                let b = choose|b: int| 0 <= b < s2.len() && s2[b] == x;
                if b == 0 {
                    assert(false);
                }
                assert(t2[b - 1] == x);
            }
            if t2.contains(x) {
                let a = choose|a: int| 0 <= a < t2.len() && t2[a] == x;
                assert(lt(s2[0], s2[a + 1]));
                assert(s2.contains(x));
                let b = choose|b: int| 0 <= b < s1.len() && s1[b] == x;
                if b == 0 {
                    assert(false);
                }
                assert(t1[b - 1] == x);
            }
        }
        assert forall|i: int, j: int| 0 <= i < j < t1.len() implies lt(#[trigger] t1[i], #[trigger] t1[j]) by {
            assert(lt(s1[i + 1], s1[j + 1]));
        }
        assert forall|i: int, j: int| 0 <= i < j < t2.len() implies lt(#[trigger] t2[i], #[trigger] t2[j]) by {
            assert(lt(s2[i + 1], s2[j + 1]));
        }
        lemma_sorted_unique(t1, t2, lt);
        assert(s1 =~= seq![s1[0]] + t1);
        assert(s2 =~= seq![s2[0]] + t2);
    }
}

/// Two runs over the same matches at the same offsets (the same local zone) give the same
/// events, in the same order, and the same failures.
pub proof fn lemma_run_deterministic(ms: Seq<MatchData>, offsets: Seq<int>, o1: RunOutcomeView, o2: RunOutcomeView)
    requires
        is_run_output(ms, offsets, o1),
        is_run_output(ms, offsets, o2),
    ensures
        o1.sources == o2.sources,
        o1.events == o2.events,
        o1.failures == o2.failures,
{
    let lt = |a: usize, b: usize| precedes(ms, a as int, b as int);
    assert forall|x: usize| o1.sources.contains(x) <==> o2.sources.contains(x) by {
        if o1.sources.contains(x) {
            let i = choose|i: int| 0 <= i < o1.sources.len() && o1.sources[i] == x;
            assert(selected(ms[x as int]));
        }
        if o2.sources.contains(x) {
            let i = choose|i: int| 0 <= i < o2.sources.len() && o2.sources[i] == x;
            assert(selected(ms[x as int]));
        }
    }
    assert forall|i: int, j: int| 0 <= i < j < o1.sources.len() implies lt(#[trigger] o1.sources[i], #[trigger] o1.sources[j]) by {
        assert(precedes(ms, o1.sources[i] as int, o1.sources[j] as int));
    }
    assert forall|i: int, j: int| 0 <= i < j < o2.sources.len() implies lt(#[trigger] o2.sources[i], #[trigger] o2.sources[j]) by {
        assert(precedes(ms, o2.sources[i] as int, o2.sources[j] as int));
    }
    lemma_sorted_unique(o1.sources, o2.sources, lt);
    assert forall|i: int| 0 <= i < o1.events.len() implies o1.events[i] == o2.events[i] by {
        assert(o1.sources[i] == o2.sources[i]);
    }
    assert(o1.events =~= o2.events);
    let flt = |a: Failure, b: Failure| a.source < b.source;
    assert forall|x: Failure| o1.failures.contains(x) <==> o2.failures.contains(x) by {
        if o1.failures.contains(x) {
            let f = choose|f: int| 0 <= f < o1.failures.len() && o1.failures[f] == x;
            assert(selected(ms[x.source as int]));
        }
        if o2.failures.contains(x) {
            let f = choose|f: int| 0 <= f < o2.failures.len() && o2.failures[f] == x;
            assert(selected(ms[x.source as int]));
        }
    }
    assert forall|i: int, j: int| 0 <= i < j < o1.failures.len() implies flt(#[trigger] o1.failures[i], #[trigger] o1.failures[j]) by {}
    assert forall|i: int, j: int| 0 <= i < j < o2.failures.len() implies flt(#[trigger] o2.failures[i], #[trigger] o2.failures[j]) by {}
    lemma_sorted_unique(o1.failures, o2.failures, flt);
}

/// A selected match whose contest has fewer than two teams is reported as malformed, and
/// every other selected match that can be calendared still has its event.
pub proof fn lemma_malformed_isolated(ms: Seq<MatchData>, offsets: Seq<int>, out: RunOutcomeView, k: int)
    requires
        is_run_output(ms, offsets, out),
        0 <= k < ms.len(),
        selected(ms[k]),
        parsed_instant(ms[k].start_time@) is Some,
        ms[k].match_data matches Some(c) && c.teams@.len() < 2,
    ensures
        out.failures.contains(Failure { source: k as usize, error: CoreError::MalformedContest }),
        forall|j: int| 0 <= j < ms.len() && #[trigger] selected(ms[j]) && event_at(ms[j], offsets[j]) is Ok
            ==> out.sources.contains(j as usize),
{
    assert(event_at(ms[k], offsets[k]) == Err::<crate::events::CalendarEventView, CoreError>(CoreError::MalformedContest));
}

} // verus!
