use odds_api::bootstrap::{active_games, filter_odds, fixture_ids, odds_chunks, ODDS_CHUNK};
use odds_api::keyed::KeyedVec;
use odds_api::risk::Engine;
use odds_api::state::State;
use odds_api::types::{
    BookmakerFixtureMeta, Game, MatchPrice, ParticipantsRef, Quote, SeasonRef, SportRef, Status, TournamentRef,
    VenueRef,
};

fn game(id: &str, sport_id: i32, status_id: Option<i32>) -> Game {
    Game {
        fixture_id: id.to_string(),
        status: Status { live: false, status_id, status_name: None },
        sport: SportRef { sport_id, sport_name: "Soccer".to_string() },
        tournament: TournamentRef { tournament_id: 1, tournament_name: "Cup".to_string(), category_name: None },
        season: SeasonRef { season_id: None, season_name: None, season_round: None },
        venue: VenueRef { venue_id: None, venue_name: None, venue_location: None },
        start_time: 0,
        true_start_time: None,
        true_end_time: None,
        participants: ParticipantsRef {
            participant1_id: 1,
            participant1_rot_nr: None,
            participant1_name: None,
            participant1_short_name: None,
            participant1_abbr: None,
            participant2_id: 2,
            participant2_rot_nr: None,
            participant2_name: None,
            participant2_short_name: None,
            participant2_abbr: None,
        },
        scores: KeyedVec::new(),
        clock: None,
        expected_periods: None,
        period_length: None,
        external_providers: KeyedVec::new(),
        bookmakers: KeyedVec::new(),
    }
}

fn meta(bookmaker: &str) -> BookmakerFixtureMeta {
    BookmakerFixtureMeta {
        bookmaker: bookmaker.to_string(),
        bookmaker_fixture_id: None,
        fixture_path: None,
        has_odds: true,
        stale_odds: false,
        stale_odds_response_code: None,
        suspended: false,
        participants_rotated: false,
        meta: None,
        updated_at: "2024-01-01T00:00:00Z".to_string(),
    }
}

fn quote(bookmaker: &str, outcome_id: i64, player_id: i64, price: f64, changed_at: i64) -> Quote {
    Quote {
        bookmaker: bookmaker.to_string(),
        outcome_id,
        player_id,
        price_bits: price.to_bits(),
        active: true,
        market_active: Some(true),
        main_line: None,
        market_id: None,
        bookmaker_market_id: None,
        bookmaker_outcome_id: None,
        bookmaker_changed_at: None,
        price_fractional: None,
        price_american: None,
        meta: None,
        limit_bits: None,
        betslip: None,
        changed_at,
    }
}

fn priced(id: &str, bookmakers: Vec<(&str, BookmakerFixtureMeta)>, odds: Vec<(&str, Vec<(&str, Quote)>)>) -> MatchPrice {
    let g = game(id, 10, Some(0));
    MatchPrice {
        fixture_id: g.fixture_id,
        status: g.status,
        sport: g.sport,
        tournament: g.tournament,
        season: g.season,
        venue: g.venue,
        start_time: g.start_time,
        true_start_time: g.true_start_time,
        true_end_time: g.true_end_time,
        participants: g.participants,
        scores: g.scores,
        clock: g.clock,
        expected_periods: g.expected_periods,
        period_length: g.period_length,
        external_providers: g.external_providers,
        bookmakers: bookmakers.into_iter().map(|(b, m)| (b.to_string(), m)).collect(),
        odds: odds
            .into_iter()
            .map(|(b, qs)| (b.to_string(), qs.into_iter().map(|(i, q)| (i.to_string(), q)).collect()))
            .collect(),
    }
}

fn ids_under(state: &State, fixture: &str) -> Vec<String> {
    match state.odds_by_fixture.get(fixture) {
        None => vec![],
        Some(set) => {
            let mut v: Vec<String> = (0..set.len()).map(|i| set.key_at(i).clone()).collect();
            v.sort();
            v
        },
    }
}

/// A snapshot with two fixtures: f1 has bookmakers bk (good) and bad
/// (suspended), f2 has bk; quotes of both bookmakers on both fixtures.
fn sample_state() -> State {
    let engine = Engine::new(vec![10]);
    let active = vec![game("f1", 10, Some(0)), game("f2", 10, Some(1))];
    let mut bad = meta("bad");
    bad.suspended = true;
    let p1 = priced(
        "f1",
        vec![("bk", meta("bk")), ("bad", bad)],
        vec![
            ("bk", vec![("f1:bk:1:0", quote("bk", 1, 0, 1.5, 10)), ("f1:bk:2:0", quote("bk", 2, 0, 2.5, 10))]),
            ("bad", vec![("f1:bad:1:0", quote("bad", 1, 0, 1.7, 10))]),
        ],
    );
    let p2 = priced("f2", vec![("bk", meta("bk"))], vec![("bk", vec![("f2:bk:1:0", quote("bk", 1, 0, 3.0, 10))])]);
    filter_odds(&engine, active, vec![p1, p2])
}

#[test]
fn snapshot_keeps_only_enabled_bookmakers_and_quotes() {
    let state = sample_state();
    assert_eq!(state.matches.len(), 2);
    assert_eq!(state.prices.len(), 3);
    assert!(state.prices.contains_key("f1:bk:1:0"));
    assert!(state.prices.contains_key("f1:bk:2:0"));
    assert!(!state.prices.contains_key("f1:bad:1:0"));
    assert!(state.prices.contains_key("f2:bk:1:0"));
    assert_eq!(ids_under(&state, "f1"), vec!["f1:bk:1:0".to_string(), "f1:bk:2:0".to_string()]);
    assert_eq!(ids_under(&state, "f2"), vec!["f2:bk:1:0".to_string()]);
    let g1 = state.matches.get("f1").unwrap();
    assert!(g1.bookmakers.contains_key(&"bk".to_string()));
    assert!(!g1.bookmakers.contains_key(&"bad".to_string()));
}

#[test]
fn snapshot_ignores_quotes_of_unknown_fixtures() {
    let engine = Engine::new(vec![10]);
    let p = priced("ghost", vec![("bk", meta("bk"))], vec![("bk", vec![("ghost:bk:1:0", quote("bk", 1, 0, 2.0, 1))])]);
    let state = filter_odds(&engine, vec![game("f1", 10, Some(0))], vec![p]);
    assert_eq!(state.matches.len(), 1);
    assert_eq!(state.prices.len(), 0);
    assert!(state.odds_by_fixture.get("ghost").is_none());
}

#[test]
fn snapshot_keeps_the_newer_of_two_quotes() {
    let engine = Engine::new(vec![10]);
    let p = priced(
        "f1",
        vec![("bk", meta("bk"))],
        vec![
            ("bk", vec![("f1:bk:1:0", quote("bk", 1, 0, 2.0, 20))]),
            ("bk2", vec![("f1:bk:1:0", quote("bk", 1, 0, 9.0, 5))]),
        ],
    );
    let state = filter_odds(&engine, vec![game("f1", 10, Some(0))], vec![p]);
    let q = state.prices.get("f1:bk:1:0").unwrap();
    assert_eq!(q.changed_at, 20);
    assert_eq!(q.price_bits, 2.0f64.to_bits());
}

#[test]
fn snapshot_later_fixture_replaces_earlier_one() {
    let engine = Engine::new(vec![10]);
    let mut second = game("f1", 10, Some(1));
    second.start_time = 99;
    let state = filter_odds(&engine, vec![game("f1", 10, Some(0)), second], vec![]);
    assert_eq!(state.matches.len(), 1);
    assert_eq!(state.matches.get("f1").unwrap().start_time, 99);
}

#[test]
fn active_games_keep_tradable_games_in_order() {
    let engine = Engine::new(vec![10, 4]);
    let games = vec![
        game("a", 10, Some(0)),
        game("b", 7, Some(0)),
        game("c", 4, Some(1)),
        game("d", 10, Some(3)),
        game("e", 10, None),
    ];
    let active = active_games(&engine, games);
    let ids: Vec<String> = active.iter().map(|g| g.fixture_id.clone()).collect();
    assert_eq!(ids, vec!["a".to_string(), "c".to_string()]);
    assert_eq!(fixture_ids(&active), vec!["a".to_string(), "c".to_string()]);
}

#[test]
fn odds_are_asked_for_in_chunks_of_two_hundred() {
    assert_eq!(ODDS_CHUNK, 200);
    assert_eq!(odds_chunks(0), vec![]);
    assert_eq!(odds_chunks(1), vec![(0, 1)]);
    assert_eq!(odds_chunks(200), vec![(0, 200)]);
    assert_eq!(odds_chunks(201), vec![(0, 200), (200, 201)]);
    assert_eq!(odds_chunks(450), vec![(0, 200), (200, 400), (400, 450)]);
}

#[test]
fn removing_a_fixture_removes_its_quotes() {
    let mut state = sample_state();
    let removed = state.remove_fixture("f1");
    assert_eq!(removed, 2);
    assert!(state.matches.get("f1").is_none());
    assert_eq!(state.prices.len(), 1);
    assert!(state.prices.contains_key("f2:bk:1:0"));
    assert!(state.odds_by_fixture.get("f1").is_none());
    assert_eq!(state.remove_fixture("f1"), 0);
    assert_eq!(state.remove_fixture("nope"), 0);
}

#[test]
fn removing_a_price_unfiles_it_and_drops_empty_sets() {
    let mut state = sample_state();
    state.remove_price("f1", "f1:bk:1:0");
    assert!(!state.prices.contains_key("f1:bk:1:0"));
    assert_eq!(ids_under(&state, "f1"), vec!["f1:bk:2:0".to_string()]);
    state.remove_price("f1", "f1:bk:2:0");
    assert!(state.odds_by_fixture.get("f1").is_none());
    state.remove_price("f9", "f9:bk:1:0");
    assert_eq!(state.prices.len(), 1);
    assert_eq!(state.matches.len(), 2);
}

#[test]
fn removing_bookmaker_prices_uses_the_full_prefix() {
    let engine = Engine::new(vec![10]);
    let p = priced(
        "f1",
        vec![("bk", meta("bk")), ("bk2", meta("bk2"))],
        vec![
            ("bk", vec![("f1:bk:1:0", quote("bk", 1, 0, 2.0, 1))]),
            ("bk2", vec![("f1:bk2:1:0", quote("bk2", 1, 0, 2.0, 1))]),
        ],
    );
    let mut state = filter_odds(&engine, vec![game("f1", 10, Some(0))], vec![p]);
    assert_eq!(state.prices.len(), 2);
    state.remove_bookmaker_prices("f1", "bk");
    assert!(!state.prices.contains_key("f1:bk:1:0"));
    assert!(state.prices.contains_key("f1:bk2:1:0"));
    assert_eq!(ids_under(&state, "f1"), vec!["f1:bk2:1:0".to_string()]);
    state.remove_bookmaker_prices("f1", "bk2");
    assert_eq!(state.prices.len(), 0);
    assert!(state.odds_by_fixture.get("f1").is_none());
    state.remove_bookmaker_prices("f1", "bk2");
    assert_eq!(state.matches.len(), 1);
}

#[test]
fn snapshot_drops_a_listed_bookmaker_that_the_engine_disables() {
    let engine = Engine::new(vec![10]);
    let mut g = game("f", 10, Some(0));
    g.bookmakers.insert("bk".to_string(), meta("bk"));
    let mut suspended = meta("bk");
    suspended.suspended = true;
    let p = priced("f", vec![("bk", suspended)], vec![("bk", vec![("f:bk:1:0", quote("bk", 1, 0, 2.0, 1))])]);
    let state = filter_odds(&engine, vec![g], vec![p]);
    assert!(!state.matches.get("f").unwrap().bookmakers.contains_key(&"bk".to_string()));
    assert_eq!(state.prices.len(), 0);
}

#[test]
fn snapshot_files_only_bookmakers_that_the_engine_enables() {
    let engine = Engine::new(vec![10]);
    let mut g = game("f", 10, Some(0));
    g.bookmakers.insert("listed".to_string(), meta("listed"));
    let p = priced(
        "f",
        vec![("bk", meta("bk"))],
        vec![("listed", vec![("f:listed:1:0", quote("listed", 1, 0, 2.0, 1))]), ("bk", vec![("f:bk:1:0", quote("bk", 1, 0, 2.0, 1))])],
    );
    let state = filter_odds(&engine, vec![g], vec![p]);
    let stored = state.matches.get("f").unwrap();
    assert!(!stored.bookmakers.contains_key(&"listed".to_string()));
    assert!(stored.bookmakers.contains_key(&"bk".to_string()));
    assert!(!state.prices.contains_key("f:listed:1:0"));
    assert!(state.prices.contains_key("f:bk:1:0"));
}

#[test]
fn snapshot_disabling_an_enabled_bookmaker_removes_its_quotes() {
    let engine = Engine::new(vec![10]);
    let first = priced("f", vec![("bk", meta("bk"))], vec![("bk", vec![("f:bk:1:0", quote("bk", 1, 0, 2.0, 1))])]);
    let mut stale = meta("bk");
    stale.stale_odds = true;
    let second = priced("f", vec![("bk", stale)], vec![]);
    let state = filter_odds(&engine, vec![game("f", 10, Some(0))], vec![first, second]);
    assert!(!state.matches.get("f").unwrap().bookmakers.contains_key(&"bk".to_string()));
    assert_eq!(state.prices.len(), 0);
    assert!(state.odds_by_fixture.get("f").is_none());
}

#[test]
fn removing_a_fixture_counts_the_quotes_that_go() {
    let mut state = sample_state();
    let before = state.prices.len();
    let removed = state.remove_fixture("f1");
    assert_eq!(removed, 2);
    assert_eq!(before - state.prices.len(), removed);
    assert_eq!(state.remove_fixture("f1"), 0);
}
