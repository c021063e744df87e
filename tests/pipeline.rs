use lol_schedule::events::{assemble, keep, run, run_in_system_zone, CalendarEvent, Failure, RunOutcome};
use lol_schedule::leagues::{find_league_by_name, LeagueData};
use lol_schedule::matches::{CoreError, League, Match, MatchData, Record, Strategy, Team};
use lol_schedule::time::{parse_instant, Instant, LocalDateTime, TimeZoneRules};

fn team(name: &str, code: &str, record: Option<(u8, u8)>) -> Team {
    Team {
        name: name.to_string(),
        code: code.to_string(),
        image: String::new(),
        result: None,
        record: record.map(|(wins, losses)| Record { wins, losses }),
    }
}

fn contest(teams: Vec<Team>, count: u8) -> Match {
    Match {
        id: "1".to_string(),
        teams,
        flags: vec![],
        strategy: Strategy { match_type: "bestOf".to_string(), count },
    }
}

fn entry(start: &str, state: &str, block: &str, c: Option<Match>) -> MatchData {
    MatchData {
        start_time: start.to_string(),
        state: state.to_string(),
        match_type: "match".to_string(),
        block_name: block.to_string(),
        league: League { name: "Worlds".to_string(), slug: "worlds".to_string() },
        match_data: c,
    }
}

fn two_teams(count: u8) -> Option<Match> {
    Some(contest(vec![team("Alpha", "AAA", None), team("Beta", "BBB", None)], count))
}

fn utc() -> TimeZoneRules {
    TimeZoneRules::fixed(0).unwrap()
}

fn same(a: &RunOutcome, b: &RunOutcome) -> bool {
    let ev = |e: &CalendarEvent| (e.start, e.end, e.summary.clone(), e.description.clone());
    a.events.iter().map(ev).collect::<Vec<_>>() == b.events.iter().map(ev).collect::<Vec<_>>()
        && a.sources == b.sources
        && a.failures == b.failures
}

#[test]
fn completed_match_is_excluded() {
    let ms = vec![
        entry("2023-10-19T09:00:00Z", "completed", "Groups", two_teams(1)),
        entry("2023-10-19T10:00:00Z", "unstarted", "Groups", two_teams(1)),
    ];
    assert!(!keep(&ms[0]));
    let out = run(&ms, &utc());
    assert_eq!(out.sources, vec![1]);
    assert!(out.failures.is_empty());
}

#[test]
fn other_blocks_are_excluded_whatever_the_state() {
    let ms = vec![
        entry("2023-10-19T09:00:00Z", "unstarted", "Playoffs", two_teams(1)),
        entry("2023-10-19T09:00:00Z", "inProgress", "groups", two_teams(1)),
        entry("2023-10-19T09:00:00Z", "completed", "Knockouts", two_teams(1)),
        entry("2023-10-19T09:00:00Z", "inProgress", "Groups", two_teams(1)),
    ];
    let out = run(&ms, &utc());
    assert_eq!(out.sources, vec![3]);
    assert_eq!(out.events.len(), 1);
}

#[test]
fn events_follow_the_parsed_instant_not_the_text() {
    // 09:00+02:00 is 07:00Z: earlier than 08:00Z although its text sorts later.
    let ms = vec![
        entry("2023-10-19T10:00:00Z", "unstarted", "Groups", two_teams(1)),
        entry("2023-10-19T08:00:00Z", "unstarted", "Groups", two_teams(1)),
        entry("2023-10-19T09:00:00+02:00", "unstarted", "Groups", two_teams(1)),
    ];
    let out = run(&ms, &utc());
    assert_eq!(out.sources, vec![2, 1, 0]);
    assert_eq!(out.events[0].start, LocalDateTime { secs: 1697698800, nanos: 0 });
}

#[test]
fn equal_instants_keep_input_order() {
    let ms = vec![
        entry("2023-10-19T09:00:00Z", "unstarted", "Groups", two_teams(1)),
        entry("2023-10-19T08:00:00Z", "unstarted", "Groups", two_teams(1)),
        entry("2023-10-19T11:00:00+02:00", "unstarted", "Groups", two_teams(1)),
    ];
    let out = run(&ms, &utc());
    assert_eq!(out.sources, vec![1, 0, 2]);
}

#[test]
fn two_games_make_a_two_hour_event() {
    let ms = vec![entry("2023-10-19T09:00:00Z", "unstarted", "Groups", two_teams(2))];
    let out = run(&ms, &utc());
    let e = &out.events[0];
    assert_eq!(e.start, LocalDateTime { secs: 1697706000, nanos: 0 });
    assert_eq!(e.end.secs - e.start.secs, 2 * 3600);
    assert_eq!(e.end.nanos, e.start.nanos);
}

#[test]
fn zero_games_make_an_empty_window() {
    let ms = vec![entry("2023-10-19T09:00:00Z", "unstarted", "Groups", two_teams(0))];
    let e = assemble(&ms[0], &utc()).unwrap();
    assert_eq!(e.start, e.end);
}

#[test]
fn running_twice_gives_the_same_output() {
    let ms = vec![
        entry("2023-10-19T10:00:00Z", "unstarted", "Groups", two_teams(3)),
        entry("not a time", "unstarted", "Groups", two_teams(1)),
        entry("2023-10-19T08:00:00Z", "unstarted", "Groups", None),
        entry("2023-10-19T08:00:00Z", "unstarted", "Groups", two_teams(1)),
    ];
    let zone = TimeZoneRules::fixed(7200).unwrap();
    let a = run(&ms, &zone);
    let b = run(&ms, &zone);
    assert!(same(&a, &b));
    assert_eq!(a.sources, vec![3, 0]);
}

#[test]
fn text_from_codes_names_and_records() {
    let c = contest(vec![team("T1 Esports", "T1", Some((3, 1))), team("G2 Esports", "G2", None)], 3);
    let m = entry("2023-10-19T09:00:00Z", "unstarted", "Groups", Some(c));
    assert_eq!(m.summary().unwrap(), "T1 vs G2");
    assert_eq!(m.description().unwrap(), "T1 Esports (3-1) | G2 Esports ");
    let e = assemble(&m, &utc()).unwrap();
    assert_eq!(e.summary, "T1 vs G2");
    assert_eq!(e.description, "T1 Esports (3-1) | G2 Esports ");
}

#[test]
fn records_with_several_digits() {
    assert_eq!(Record { wins: 255, losses: 10 }.to_text(), "(255-10)");
    assert_eq!(Record { wins: 0, losses: 0 }.to_text(), "(0-0)");
    assert_eq!(team("Gen.G", "GEN", Some((12, 7))).display(), "Gen.G (12-7)");
    assert_eq!(team("Gen.G", "GEN", None).display(), "Gen.G ");
}

#[test]
fn malformed_contest_fails_alone() {
    let ms = vec![
        entry("2023-10-19T09:00:00Z", "unstarted", "Groups", two_teams(1)),
        entry("2023-10-19T10:00:00Z", "unstarted", "Groups", Some(contest(vec![team("Solo", "SOL", None)], 1))),
        entry("2023-10-19T11:00:00Z", "unstarted", "Groups", Some(contest(vec![], 1))),
        entry("2023-10-19T12:00:00Z", "unstarted", "Groups", two_teams(1)),
    ];
    let out = run(&ms, &utc());
    assert_eq!(out.sources, vec![0, 3]);
    assert_eq!(
        out.failures,
        vec![
            Failure { source: 1, error: CoreError::MalformedContest },
            Failure { source: 2, error: CoreError::MalformedContest },
        ]
    );
    assert_eq!(ms[1].summary(), Err(CoreError::MalformedContest));
    assert_eq!(ms[2].description(), Err(CoreError::MalformedContest));
}

#[test]
fn each_error_has_its_input() {
    let bad_time = entry("yesterday", "unstarted", "Groups", two_teams(1));
    let no_contest = entry("2023-10-19T09:00:00Z", "unstarted", "Groups", None);
    assert_eq!(assemble(&bad_time, &utc()).unwrap_err(), CoreError::InvalidTimestamp);
    assert_eq!(bad_time.start_timestamp(&utc()), Err(CoreError::InvalidTimestamp));
    assert_eq!(assemble(&no_contest, &utc()).unwrap_err(), CoreError::MissingContestData);
    assert_eq!(no_contest.end_timestamp(&utc()), Err(CoreError::MissingContestData));
    assert_eq!(no_contest.summary(), Err(CoreError::MissingContestData));
    assert!(no_contest.start_timestamp(&utc()).is_ok());
    let out = run(&vec![bad_time, no_contest], &utc());
    assert!(out.events.is_empty());
    assert_eq!(
        out.failures,
        vec![
            Failure { source: 0, error: CoreError::InvalidTimestamp },
            Failure { source: 1, error: CoreError::MissingContestData },
        ]
    );
}

#[test]
fn offset_is_taken_at_each_event_across_a_dst_change() {
    // Central European rules around 2023-03-26: +1h until 01:00Z, +2h from then on.
    let mut zone = TimeZoneRules::fixed(3600).unwrap();
    assert!(zone.add_transition(1679792400, 7200));
    let ms = vec![
        entry("2023-03-26T00:30:00Z", "unstarted", "Groups", two_teams(1)),
        entry("2023-03-26T01:30:00Z", "unstarted", "Groups", two_teams(1)),
    ];
    let out = run(&ms, &zone);
    assert_eq!(out.events[0].start, LocalDateTime { secs: 1679790600 + 3600, nanos: 0 });
    assert_eq!(out.events[1].start, LocalDateTime { secs: 1679794200 + 7200, nanos: 0 });
    assert_eq!(ms[1].end_timestamp(&zone), Ok(LocalDateTime { secs: 1679794200 + 7200 + 3600, nanos: 0 }));
    assert_eq!(zone.offset_at_secs(1679792399), 3600);
    assert_eq!(zone.offset_at_secs(1679792400), 7200);
}

#[test]
fn zone_rules_refuse_offsets_of_a_day() {
    assert!(TimeZoneRules::fixed(86400).is_none());
    assert!(TimeZoneRules::fixed(-86399).is_some());
    let mut zone = utc();
    assert!(!zone.add_transition(0, -86400));
    assert!(zone.transitions.is_empty());
}

#[test]
fn rfc3339_text_is_read_as_an_instant() {
    assert_eq!(parse_instant("1970-01-01T01:00:00Z"), Some(Instant { secs: 3600, nanos: 0 }));
    assert_eq!(parse_instant("2023-10-19T11:00:00.5+02:00"), Some(Instant { secs: 1697706000, nanos: 500_000_000 }));
    assert_eq!(parse_instant("2023-10-19 11:00"), None);
}

#[test]
fn system_zone_run_keeps_selection_and_durations() {
    let ms = vec![
        entry("2023-10-19T10:00:00Z", "unstarted", "Groups", two_teams(2)),
        entry("2023-10-19T08:00:00Z", "completed", "Groups", two_teams(1)),
        entry("2023-10-19T08:00:00Z", "unstarted", "Groups", two_teams(1)),
    ];
    let out = run_in_system_zone(&ms);
    assert_eq!(out.sources, vec![2, 0]);
    assert_eq!(out.events[1].end.secs - out.events[1].start.secs, 7200);
}

#[test]
fn league_names_match_ignoring_case() {
    let league = |name: &str| LeagueData { name: name.to_string(), ..Default::default() };
    let leagues = vec![league("LCK"), league("Worlds"), league("worlds")];
    assert_eq!(find_league_by_name(&leagues, "worlds"), Some(1));
    assert_eq!(find_league_by_name(&leagues, "WORLDS"), Some(1));
    assert_eq!(find_league_by_name(&leagues, "lec"), None);
    assert_eq!(find_league_by_name(&vec![], "lck"), None);
}

#[test]
fn window_from_an_instant_and_offset() {
    let i = Instant { secs: 1697706000, nanos: 250 };
    let (start, end) = lol_schedule::time::window_from_instant(i, -18000, 3);
    assert_eq!(start, LocalDateTime { secs: 1697706000 - 18000, nanos: 250 });
    assert_eq!(end, LocalDateTime { secs: 1697706000 - 18000 + 3 * 3600, nanos: 250 });
}

#[test]
fn position_of_finds_the_first_equal_name() {
    let names = vec!["lck".to_string(), "worlds".to_string(), "worlds".to_string()];
    assert_eq!(lol_schedule::leagues::position_of(&names, &"worlds".to_string()), Some(1));
    assert_eq!(lol_schedule::leagues::position_of(&names, &"Worlds".to_string()), None);
}
