use odds_api::bootstrap::filter_odds;
use odds_api::keyed::KeyedVec;
use odds_api::processor::{snapshot_request_result, Envelope, FixtureOutcome, ProcessError, Processor, Route};
use odds_api::risk::{Engine, Reason, Verdict};
use odds_api::state::State;
use odds_api::types::{
    BookmakerFixtureMeta, BookmakersPayload, Game, MatchPrice, OddsPayload, ParticipantsRef, Quote, SeasonRef,
    SportRef, Status, TournamentRef, VenueRef,
};

fn env(kind: Option<&str>, channel: Option<&str>, has_payload: bool) -> Envelope {
    Envelope {
        is_object: true,
        kind: kind.map(|k| k.to_string()),
        channel: channel.map(|c| c.to_string()),
        has_payload,
    }
}

fn route_name(r: &Result<Route, ProcessError>) -> String {
    match r {
        Ok(Route::RequestSnapshot) => "snapshot".to_string(),
        Ok(Route::Control(k)) => format!("control {k}"),
        Ok(Route::Frozen) => "frozen".to_string(),
        Ok(Route::Fixtures) => "fixtures".to_string(),
        Ok(Route::Odds) => "odds".to_string(),
        Ok(Route::Bookmakers) => "bookmakers".to_string(),
        Err(e) => format!("error {}", e.message()),
    }
}

fn odds(fixture: &str, groups: Vec<(&str, Vec<(&str, Quote)>)>) -> OddsPayload {
    OddsPayload {
        fixture_id: fixture.to_string(),
        odds: groups
            .into_iter()
            .map(|(b, qs)| (b.to_string(), qs.into_iter().map(|(i, q)| (i.to_string(), q)).collect()))
            .collect(),
    }
}

fn live() -> (Engine, Processor) {
    let engine = Engine::new(vec![10]);
    let mut p = Processor::new();
    p.install_snapshot(sample_state());
    (engine, p)
}

fn game(id: &str, sport_id: i32, status_id: Option<i32>) -> Game {
    Game {
        fixture_id: id.to_string(),
        status: Status { live: false, status_id, status_name: None },
        sport: SportRef { sport_id, sport_name: "Soccer".to_string() },
        tournament: TournamentRef { tournament_id: 1, tournament_name: "Cup".to_string(), category_name: None },
        season: SeasonRef { season_id: None, season_name: None, season_round: None },
        venue: VenueRef { venue_id: None, venue_name: None, venue_location: None },
        start_time: 0,
        true_start_time: None,
        true_end_time: None,
        participants: ParticipantsRef {
            participant1_id: 1,
            participant1_rot_nr: None,
            participant1_name: None,
            participant1_short_name: None,
            participant1_abbr: None,
            participant2_id: 2,
            participant2_rot_nr: None,
            participant2_name: None,
            participant2_short_name: None,
            participant2_abbr: None,
        },
        scores: KeyedVec::new(),
        clock: None,
        expected_periods: None,
        period_length: None,
        external_providers: KeyedVec::new(),
        bookmakers: KeyedVec::new(),
    }
}

fn meta(bookmaker: &str) -> BookmakerFixtureMeta {
    BookmakerFixtureMeta {
        bookmaker: bookmaker.to_string(),
        bookmaker_fixture_id: None,
        fixture_path: None,
        has_odds: true,
        stale_odds: false,
        stale_odds_response_code: None,
        suspended: false,
        participants_rotated: false,
        meta: None,
        updated_at: "2024-01-01T00:00:00Z".to_string(),
    }
}

fn quote(bookmaker: &str, outcome_id: i64, player_id: i64, price: f64, changed_at: i64) -> Quote {
    Quote {
        bookmaker: bookmaker.to_string(),
        outcome_id,
        player_id,
        price_bits: price.to_bits(),
        active: true,
        market_active: Some(true),
        main_line: None,
        market_id: None,
        bookmaker_market_id: None,
        bookmaker_outcome_id: None,
        bookmaker_changed_at: None,
        price_fractional: None,
        price_american: None,
        meta: None,
        limit_bits: None,
        betslip: None,
        changed_at,
    }
}

fn priced(id: &str, bookmakers: Vec<(&str, BookmakerFixtureMeta)>, odds: Vec<(&str, Vec<(&str, Quote)>)>) -> MatchPrice {
    let g = game(id, 10, Some(0));
    MatchPrice {
        fixture_id: g.fixture_id,
        status: g.status,
        sport: g.sport,
        tournament: g.tournament,
        season: g.season,
        venue: g.venue,
        start_time: g.start_time,
        true_start_time: g.true_start_time,
        true_end_time: g.true_end_time,
        participants: g.participants,
        scores: g.scores,
        clock: g.clock,
        expected_periods: g.expected_periods,
        period_length: g.period_length,
        external_providers: g.external_providers,
        bookmakers: bookmakers.into_iter().map(|(b, m)| (b.to_string(), m)).collect(),
        odds: odds
            .into_iter()
            .map(|(b, qs)| (b.to_string(), qs.into_iter().map(|(i, q)| (i.to_string(), q)).collect()))
            .collect(),
    }
}

fn ids_under(state: &State, fixture: &str) -> Vec<String> {
    match state.odds_by_fixture.get(fixture) {
        None => vec![],
        Some(set) => {
            let mut v: Vec<String> = (0..set.len()).map(|i| set.key_at(i).clone()).collect();
            v.sort();
            v
        },
    }
}

/// A snapshot with two fixtures: f1 has bookmakers bk (good) and bad
/// (suspended), f2 has bk; quotes of both bookmakers on both fixtures.
fn sample_state() -> State {
    let engine = Engine::new(vec![10]);
    let active = vec![game("f1", 10, Some(0)), game("f2", 10, Some(1))];
    let mut bad = meta("bad");
    bad.suspended = true;
    let p1 = priced(
        "f1",
        vec![("bk", meta("bk")), ("bad", bad)],
        vec![
            ("bk", vec![("f1:bk:1:0", quote("bk", 1, 0, 1.5, 10)), ("f1:bk:2:0", quote("bk", 2, 0, 2.5, 10))]),
            ("bad", vec![("f1:bad:1:0", quote("bad", 1, 0, 1.7, 10))]),
        ],
    );
    let p2 = priced("f2", vec![("bk", meta("bk"))], vec![("bk", vec![("f2:bk:1:0", quote("bk", 1, 0, 3.0, 10))])]);
    filter_odds(&engine, active, vec![p1, p2])
}

#[test]
fn new_processor_holds_updates_back() {
    let mut p = Processor::new();
    assert!(!p.has_state());
    assert!(p.state().is_none());
    assert_eq!(route_name(&p.route(&env(Some("UPDATE"), Some("odds"), true))), "frozen");
}

#[test]
fn routing_of_messages() {
    let (_, mut p) = live();
    let not_object = Envelope { is_object: false, kind: None, channel: None, has_payload: false };
    assert_eq!(route_name(&p.route(&not_object)), "error websocket message is not an object");
    assert_eq!(route_name(&p.route(&env(None, Some("odds"), true))), "error websocket message missing type");
    assert_eq!(route_name(&p.route(&env(Some("login_ok"), None, false))), "control login_ok");
    assert_eq!(route_name(&p.route(&env(Some("UPDATE"), None, true))), "error websocket update missing channel");
    assert_eq!(route_name(&p.route(&env(Some("UPDATE"), Some("odds"), false))), "error websocket update missing payload");
    assert_eq!(route_name(&p.route(&env(Some("UPDATE"), Some("fixtures"), true))), "fixtures");
    assert_eq!(route_name(&p.route(&env(Some("UPDATE"), Some("odds"), true))), "odds");
    assert_eq!(route_name(&p.route(&env(Some("UPDATE"), Some("bookmakers"), true))), "bookmakers");
    assert_eq!(
        route_name(&p.route(&env(Some("UPDATE"), Some("scores"), true))),
        "error unsupported websocket channel: scores"
    );
    assert_eq!(route_name(&p.route(&env(Some("update"), Some("odds"), true))), "control update");
}

#[test]
fn snapshot_request_freezes_until_next_snapshot() {
    let (engine, mut p) = live();
    assert_eq!(route_name(&p.route(&env(Some("snapshot_required"), None, false))), "snapshot");
    assert_eq!(route_name(&p.route(&env(Some("UPDATE"), Some("odds"), true))), "frozen");
    assert_eq!(route_name(&p.route(&env(Some("UPDATE"), None, false))), "frozen");
    // A repeated request while frozen is still a request.
    assert_eq!(route_name(&p.route(&env(Some("snapshot_required"), None, false))), "snapshot");
    let mut fresh = sample_state();
    fresh.remove_fixture("f2");
    p.install_snapshot(fresh);
    assert_eq!(route_name(&p.route(&env(Some("UPDATE"), Some("odds"), true))), "odds");
    assert_eq!(p.state().unwrap().matches.len(), 1);
    let _ = engine;
}

#[test]
fn snapshot_request_channel_outcomes() {
    assert!(snapshot_request_result(false).is_ok());
    match snapshot_request_result(true) {
        Err(e) => assert_eq!(e.message(), "bootstrap snapshot request failed: channel closed"),
        Ok(()) => panic!("expected error"),
    }
}

#[test]
fn fixture_update_without_state_does_nothing() {
    let engine = Engine::new(vec![10]);
    let mut p = Processor::new();
    // A new processor is frozen until its first snapshot, so nothing applies.
    assert!(matches!(p.process_fixture(&engine, game("f1", 10, Some(0))), FixtureOutcome::Frozen));
    assert!(p.state().is_none());
}

#[test]
fn updates_while_frozen_change_nothing() {
    let (engine, mut p) = live();
    assert_eq!(route_name(&p.route(&env(Some("snapshot_required"), None, false))), "snapshot");
    assert!(matches!(p.process_fixture(&engine, game("f1", 10, Some(2))), FixtureOutcome::Frozen));
    let outcomes = p.process_odds(&engine, odds("f1", vec![("bk", vec![("f1:bk:4:0", quote("bk", 4, 0, 4.0, 11))])]));
    assert!(outcomes.is_empty());
    let mut m = meta("bk");
    m.suspended = true;
    let outcomes = p.process_bookmakers(&engine, BookmakersPayload { fixture_id: "f1".to_string(), bookmakers: vec![("bk".to_string(), m)] });
    assert!(outcomes.is_empty());
    let state = p.state().unwrap();
    assert_eq!(state.matches.len(), 2);
    assert_eq!(state.prices.len(), 3);
    assert!(state.matches.get("f1").unwrap().bookmakers.contains_key(&"bk".to_string()));
}

#[test]
fn enabled_fixture_update_replaces_the_game() {
    let (engine, mut p) = live();
    let mut g = game("f1", 10, Some(1));
    g.start_time = 42;
    assert!(matches!(p.process_fixture(&engine, g), FixtureOutcome::Updated));
    let state = p.state().unwrap();
    assert_eq!(state.matches.get("f1").unwrap().start_time, 42);
    // Its quotes stay.
    assert_eq!(state.prices.len(), 3);
    let g3 = game("f3", 10, Some(0));
    assert!(matches!(p.process_fixture(&engine, g3), FixtureOutcome::Updated));
    assert_eq!(p.state().unwrap().matches.len(), 3);
}

#[test]
fn disabled_fixture_removes_dependent_quotes() {
    let (engine, mut p) = live();
    match p.process_fixture(&engine, game("f1", 10, Some(2))) {
        FixtureOutcome::Disabled { reason, removed_prices } => {
            assert_eq!(reason, "Game status ID is not tradable");
            assert_eq!(removed_prices, 2);
        },
        _ => panic!("expected disabled"),
    }
    let state = p.state().unwrap();
    assert!(state.matches.get("f1").is_none());
    assert_eq!(state.prices.len(), 1);
    assert!(state.prices.contains_key("f2:bk:1:0"));
    assert!(ids_under(state, "f1").is_empty());
    assert_eq!(ids_under(state, "f2"), vec!["f2:bk:1:0".to_string()]);
}

#[test]
fn ignored_fixture_changes_nothing() {
    let (engine, mut p) = live();
    match p.process_fixture(&engine, game("f1", 99, Some(2))) {
        FixtureOutcome::Ignored { reason } => assert_eq!(reason, "sportId not allowed"),
        _ => panic!("expected ignored"),
    }
    let state = p.state().unwrap();
    assert_eq!(state.matches.len(), 2);
    assert_eq!(state.prices.len(), 3);
}

#[test]
fn one_bad_quote_does_not_block_good_quotes() {
    let (engine, mut p) = live();
    p.process_odds(
        &engine,
        odds(
            "f1",
            vec![(
                "bk",
                vec![
                    ("f1:bk:3:0", quote("bk", 3, 0, f64::NAN, 11)),
                    ("f1:bk:4:0", quote("bk", 4, 0, 4.0, 11)),
                    ("f1:bk:5:zz", quote("bk", 5, 0, 4.0, 11)),
                ],
            )],
        ),
    );
    let state = p.state().unwrap();
    assert!(!state.prices.contains_key("f1:bk:3:0"));
    assert!(state.prices.contains_key("f1:bk:4:0"));
    assert!(!state.prices.contains_key("f1:bk:5:zz"));
    assert_eq!(state.prices.len(), 4);
    assert!(state.odds_by_fixture.get("f1").unwrap().contains_key(&"f1:bk:4:0".to_string()));
}

#[test]
fn stale_quote_update_is_ignored_and_newer_one_applied() {
    let (engine, mut p) = live();
    p.process_odds(&engine, odds("f1", vec![("bk", vec![("f1:bk:1:0", quote("bk", 1, 0, 9.0, 9))])]));
    assert_eq!(p.state().unwrap().prices.get("f1:bk:1:0").unwrap().changed_at, 10);
    p.process_odds(&engine, odds("f1", vec![("bk", vec![("f1:bk:1:0", quote("bk", 1, 0, 9.0, 12))])]));
    let q = p.state().unwrap().prices.get("f1:bk:1:0").unwrap();
    assert_eq!(q.changed_at, 12);
    assert_eq!(q.price_bits, 9.0f64.to_bits());
}

#[test]
fn inactive_quote_update_removes_the_quote() {
    let (engine, mut p) = live();
    let mut q = quote("bk", 1, 0, 2.0, 11);
    q.active = false;
    p.process_odds(&engine, odds("f2", vec![("bk", vec![("f2:bk:1:0", q)])]));
    let state = p.state().unwrap();
    assert!(!state.prices.contains_key("f2:bk:1:0"));
    assert!(state.odds_by_fixture.get("f2").is_none());
}

#[test]
fn quotes_of_unknown_bookmaker_or_fixture_are_ignored() {
    let (engine, mut p) = live();
    p.process_odds(&engine, odds("f1", vec![("bad", vec![("f1:bad:2:0", quote("bad", 2, 0, 2.0, 11))])]));
    p.process_odds(&engine, odds("f9", vec![("bk", vec![("f9:bk:2:0", quote("bk", 2, 0, 2.0, 11))])]));
    assert_eq!(p.state().unwrap().prices.len(), 3);
}

#[test]
fn bookmaker_updates_enable_and_disable() {
    let (engine, mut p) = live();
    // Enabling bk3 on f1 lets its quotes in.
    p.process_bookmakers(
        &engine,
        BookmakersPayload { fixture_id: "f1".to_string(), bookmakers: vec![("bk3".to_string(), meta("bk3"))] },
    );
    assert!(p.state().unwrap().matches.get("f1").unwrap().bookmakers.contains_key(&"bk3".to_string()));
    p.process_odds(&engine, odds("f1", vec![("bk3", vec![("f1:bk3:1:0", quote("bk3", 1, 0, 2.0, 11))])]));
    assert!(p.state().unwrap().prices.contains_key("f1:bk3:1:0"));
    // Suspending bk on f1 removes it and its quotes, and only those.
    let mut m = meta("bk");
    m.suspended = true;
    p.process_bookmakers(&engine, BookmakersPayload { fixture_id: "f1".to_string(), bookmakers: vec![("bk".to_string(), m)] });
    let state = p.state().unwrap();
    assert!(!state.matches.get("f1").unwrap().bookmakers.contains_key(&"bk".to_string()));
    assert!(!state.prices.contains_key("f1:bk:1:0"));
    assert!(!state.prices.contains_key("f1:bk:2:0"));
    assert!(state.prices.contains_key("f1:bk3:1:0"));
    assert!(state.prices.contains_key("f2:bk:1:0"));
    assert_eq!(ids_under(state, "f1"), vec!["f1:bk3:1:0".to_string()]);
}

#[test]
fn bookmaker_update_for_unknown_fixture_is_ignored() {
    let (engine, mut p) = live();
    let mut m = meta("bk");
    m.stale_odds = true;
    p.process_bookmakers(&engine, BookmakersPayload { fixture_id: "f9".to_string(), bookmakers: vec![("bk".to_string(), m)] });
    assert_eq!(p.state().unwrap().prices.len(), 3);
    assert_eq!(p.state().unwrap().matches.len(), 2);
}

#[test]
fn fixture_update_keeps_the_accepted_bookmakers() {
    let (engine, mut p) = live();
    let mut g = game("f1", 10, Some(1));
    g.bookmakers.insert("unvetted".to_string(), meta("unvetted"));
    assert!(matches!(p.process_fixture(&engine, g), FixtureOutcome::Updated));
    let stored = p.state().unwrap().matches.get("f1").unwrap();
    assert!(stored.bookmakers.contains_key(&"bk".to_string()));
    assert!(!stored.bookmakers.contains_key(&"unvetted".to_string()));
    // A new fixture starts with no bookmakers, whatever its payload lists.
    let mut g3 = game("f3", 10, Some(0));
    g3.bookmakers.insert("bk".to_string(), meta("bk"));
    assert!(matches!(p.process_fixture(&engine, g3), FixtureOutcome::Updated));
    assert_eq!(p.state().unwrap().matches.get("f3").unwrap().bookmakers.len(), 0);
    p.process_odds(&engine, odds("f3", vec![("bk", vec![("f3:bk:1:0", quote("bk", 1, 0, 2.0, 11))])]));
    assert!(!p.state().unwrap().prices.contains_key("f3:bk:1:0"));
}

#[test]
fn odds_update_reports_each_quote_verdict() {
    let (engine, mut p) = live();
    let mut inactive = quote("bk", 2, 0, 2.0, 11);
    inactive.active = false;
    let outcomes = p.process_odds(
        &engine,
        odds(
            "f1",
            vec![
                ("bk", vec![("f1:bk:4:0", quote("bk", 4, 0, 4.0, 11)), ("f1:bk:2:0", inactive)]),
                ("bad", vec![("f1:bad:1:0", quote("bad", 1, 0, 2.0, 11))]),
            ],
        ),
    );
    assert_eq!(
        outcomes,
        vec![
            ("f1:bk:4:0".to_string(), Verdict::Enable),
            ("f1:bk:2:0".to_string(), Verdict::Disable(Reason::ActiveFalse)),
            ("f1:bad:1:0".to_string(), Verdict::Ignore(Reason::BookmakerMetaMissing)),
        ]
    );
    let mut fresh = Processor::new();
    assert!(fresh.process_odds(&engine, odds("f1", vec![("bk", vec![("f1:bk:4:0", quote("bk", 4, 0, 4.0, 11))])])).is_empty());
}

#[test]
fn bookmaker_update_reports_each_verdict() {
    let (engine, mut p) = live();
    let mut m = meta("bk");
    m.has_odds = false;
    let outcomes = p.process_bookmakers(
        &engine,
        BookmakersPayload {
            fixture_id: "f1".to_string(),
            bookmakers: vec![("bk3".to_string(), meta("bk3")), ("bk".to_string(), m)],
        },
    );
    assert_eq!(
        outcomes,
        vec![("bk3".to_string(), Verdict::Enable), ("bk".to_string(), Verdict::Disable(Reason::HasOddsFalse))]
    );
    let outcomes = p.process_bookmakers(
        &engine,
        BookmakersPayload { fixture_id: "f9".to_string(), bookmakers: vec![("bk".to_string(), meta("bk"))] },
    );
    assert_eq!(outcomes, vec![("bk".to_string(), Verdict::Ignore(Reason::FixtureMissing))]);
}
