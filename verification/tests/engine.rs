use odds_api::keyed::KeyedVec;
use odds_api::risk::{invalid_odds_id_reason, BookmakerInput, Decision, Engine, QuoteInput, Reason};
use odds_api::types::{
    BookmakerFixtureMeta, Game, ParticipantsRef, SeasonRef, SportRef, Status, TournamentRef, VenueRef,
};
use odds_api::types::Quote;

fn game(id: &str, sport_id: i32, status_id: Option<i32>) -> Game {
    Game {
        fixture_id: id.to_string(),
        status: Status { live: false, status_id, status_name: None },
        sport: SportRef { sport_id, sport_name: "Soccer".to_string() },
        tournament: TournamentRef { tournament_id: 1, tournament_name: "Cup".to_string(), category_name: None },
        season: SeasonRef { season_id: None, season_name: None, season_round: None },
        venue: VenueRef { venue_id: None, venue_name: None, venue_location: None },
        start_time: 0,
        true_start_time: None,
        true_end_time: None,
        participants: ParticipantsRef {
            participant1_id: 1,
            participant1_rot_nr: None,
            participant1_name: None,
            participant1_short_name: None,
            participant1_abbr: None,
            participant2_id: 2,
            participant2_rot_nr: None,
            participant2_name: None,
            participant2_short_name: None,
            participant2_abbr: None,
        },
        scores: KeyedVec::new(),
        clock: None,
        expected_periods: None,
        period_length: None,
        external_providers: KeyedVec::new(),
        bookmakers: KeyedVec::new(),
    }
}

fn meta(bookmaker: &str) -> BookmakerFixtureMeta {
    BookmakerFixtureMeta {
        bookmaker: bookmaker.to_string(),
        bookmaker_fixture_id: None,
        fixture_path: None,
        has_odds: true,
        stale_odds: false,
        stale_odds_response_code: None,
        suspended: false,
        participants_rotated: false,
        meta: None,
        updated_at: "2024-01-01T00:00:00Z".to_string(),
    }
}

fn quote(bookmaker: &str, outcome_id: i64, player_id: i64, price: f64, changed_at: i64) -> Quote {
    Quote {
        bookmaker: bookmaker.to_string(),
        outcome_id,
        player_id,
        price_bits: price.to_bits(),
        active: true,
        market_active: Some(true),
        main_line: None,
        market_id: None,
        bookmaker_market_id: None,
        bookmaker_outcome_id: None,
        bookmaker_changed_at: None,
        price_fractional: None,
        price_american: None,
        meta: None,
        limit_bits: None,
        betslip: None,
        changed_at,
    }
}

fn reason_of<T>(d: Decision<T>) -> (&'static str, String) {
    match d {
        Decision::Enable(_) => ("enable", String::new()),
        Decision::Disable(r) => ("disable", r),
        Decision::Ignore(r) => ("ignore", r),
    }
}

fn quote_input(odds_id: &str, q: Quote) -> QuoteInput {
    QuoteInput::new("f1".to_string(), odds_id.to_string(), true, true, None, q)
}

#[test]
fn game_of_other_sport_is_ignored() {
    let engine = Engine::new(vec![10, 4]);
    let (kind, reason) = reason_of(engine.validate_game(game("f1", 7, Some(0))));
    assert_eq!(kind, "ignore");
    assert_eq!(reason, "sportId not allowed");
}

#[test]
fn pregame_and_live_games_are_enabled() {
    let engine = Engine::new(vec![10]);
    for status in [0, 1] {
        match engine.validate_game(game("f1", 10, Some(status))) {
            Decision::Enable(g) => assert_eq!(g.fixture_id, "f1"),
            _ => panic!("expected enable"),
        }
    }
}

#[test]
fn finished_or_unknown_status_is_disabled() {
    let engine = Engine::new(vec![10]);
    for status in [Some(2), Some(-1), None] {
        let (kind, reason) = reason_of(engine.validate_game(game("f1", 10, status)));
        assert_eq!(kind, "disable");
        assert_eq!(reason, "Game status ID is not tradable");
    }
}

#[test]
fn no_sports_configured_ignores_every_game() {
    let engine = Engine::new(vec![]);
    let (kind, _) = reason_of(engine.validate_game(game("f1", 10, Some(0))));
    assert_eq!(kind, "ignore");
}

#[test]
fn bookmaker_checks_in_order() {
    let engine = Engine::new(vec![10]);
    let input = BookmakerInput::new("f1".to_string(), "bk".to_string(), false, meta("bk"));
    assert_eq!(reason_of(engine.validate_bookmaker(input)), ("ignore", "fixtureId missing from matches".to_string()));

    let mut m = meta("bk");
    m.has_odds = false;
    m.suspended = true;
    let input = BookmakerInput::new("f1".to_string(), "bk".to_string(), true, m);
    assert_eq!(reason_of(engine.validate_bookmaker(input)), ("disable", "hasOdds false".to_string()));

    let mut m = meta("bk");
    m.stale_odds = true;
    let input = BookmakerInput::new("f1".to_string(), "bk".to_string(), true, m);
    assert_eq!(reason_of(engine.validate_bookmaker(input)), ("disable", "staleOdds true".to_string()));

    let mut m = meta("bk");
    m.suspended = true;
    let input = BookmakerInput::new("f1".to_string(), "bk".to_string(), true, m);
    assert_eq!(reason_of(engine.validate_bookmaker(input)), ("disable", "suspended true".to_string()));

    let mut m = meta("bk");
    m.participants_rotated = true;
    let input = BookmakerInput::new("f1".to_string(), "bk".to_string(), true, m);
    assert_eq!(reason_of(engine.validate_bookmaker(input)), ("disable", "participantsRotated unhandled".to_string()));

    let input = BookmakerInput::new("f1".to_string(), "bk".to_string(), true, meta("bk"));
    match engine.validate_bookmaker(input) {
        Decision::Enable(i) => {
            assert_eq!(i.fixture_id, "f1");
            assert_eq!(i.bookmaker_id, "bk");
        },
        _ => panic!("expected enable"),
    }
}

#[test]
fn valid_quote_is_enabled() {
    let engine = Engine::new(vec![10]);
    match engine.validate_quote(quote_input("f1:bk:101:0", quote("bk", 101, 0, 1.95, 5))) {
        Decision::Enable(i) => {
            assert_eq!(i.odds_id, "f1:bk:101:0");
            assert_eq!(i.quote.changed_at, 5);
        },
        _ => panic!("expected enable"),
    }
}

#[test]
fn quote_of_unknown_fixture_or_bookmaker_is_ignored() {
    let engine = Engine::new(vec![10]);
    let input = QuoteInput::new("f1".to_string(), "f1:bk:1:0".to_string(), false, true, None, quote("bk", 1, 0, 2.0, 1));
    assert_eq!(reason_of(engine.validate_quote(input)), ("ignore", "fixtureId missing from matches".to_string()));
    let input = QuoteInput::new("f1".to_string(), "f1:bk:1:0".to_string(), true, false, None, quote("bk", 1, 0, 2.0, 1));
    assert_eq!(reason_of(engine.validate_quote(input)), ("ignore", "bookmaker meta missing".to_string()));
}

#[test]
fn older_quote_is_ignored_and_equal_age_accepted() {
    let engine = Engine::new(vec![10]);
    let input = QuoteInput::new("f1".to_string(), "f1:bk:1:0".to_string(), true, true, Some(10), quote("bk", 1, 0, 2.0, 9));
    assert_eq!(reason_of(engine.validate_quote(input)), ("ignore", "changedAt older than stored".to_string()));
    let input = QuoteInput::new("f1".to_string(), "f1:bk:1:0".to_string(), true, true, Some(10), quote("bk", 1, 0, 2.0, 10));
    assert_eq!(reason_of(engine.validate_quote(input)).0, "enable");
}

#[test]
fn odds_id_checks() {
    let q = quote("bk", 101, 7, 2.0, 1);
    assert_eq!(invalid_odds_id_reason("f1", "f1:bk:101:7", &q), None);
    assert_eq!(invalid_odds_id_reason("f1", "f1:bk:101", &q), Some(Reason::OddsIdFormat));
    assert_eq!(invalid_odds_id_reason("f1", "f1:bk:101:7:8", &q), Some(Reason::OddsIdFormat));
    assert_eq!(invalid_odds_id_reason("f1", "", &q), Some(Reason::OddsIdFormat));
    assert_eq!(invalid_odds_id_reason("f1", "f2:bk:101:7", &q), Some(Reason::OddsIdFixtureMismatch));
    assert_eq!(invalid_odds_id_reason("f1", "f1:other:101:7", &q), Some(Reason::OddsIdBookmakerMismatch));
    assert_eq!(invalid_odds_id_reason("f1", "f1:bk:x:7", &q), Some(Reason::OddsIdOutcomeInvalid));
    assert_eq!(invalid_odds_id_reason("f1", "f1:bk::7", &q), Some(Reason::OddsIdOutcomeInvalid));
    assert_eq!(invalid_odds_id_reason("f1", "f1:bk:101:y", &q), Some(Reason::OddsIdPlayerInvalid));
    assert_eq!(invalid_odds_id_reason("f1", "f1:bk:102:7", &q), Some(Reason::OddsIdOutcomeMismatch));
    assert_eq!(invalid_odds_id_reason("f1", "f1:bk:101:8", &q), Some(Reason::OddsIdPlayerMismatch));
    // The numbers must be written exactly as the quote's numbers in decimal.
    assert_eq!(invalid_odds_id_reason("f1", "f1:bk:+101:7", &q), Some(Reason::OddsIdOutcomeMismatch));
    assert_eq!(invalid_odds_id_reason("f1", "f1:bk:0101:7", &q), Some(Reason::OddsIdOutcomeMismatch));
    assert_eq!(invalid_odds_id_reason("f1", "f1:bk:101:007", &q), Some(Reason::OddsIdPlayerMismatch));
    // The outcome is read before the player, so a bad player wins over a wrong outcome.
    assert_eq!(invalid_odds_id_reason("f1", "f1:bk:5:y", &q), Some(Reason::OddsIdPlayerInvalid));
}

#[test]
fn odds_id_reasons_through_the_engine() {
    let engine = Engine::new(vec![10]);
    let cases = [
        ("f1:bk:101", "oddsId format"),
        ("zz:bk:101:0", "oddsId fixtureId mismatch"),
        ("f1:xx:101:0", "oddsId bookmaker mismatch"),
        ("f1:bk:a:0", "oddsId outcomeId invalid"),
        ("f1:bk:101:b", "oddsId playerId invalid"),
        ("f1:bk:100:0", "oddsId outcomeId mismatch"),
        ("f1:bk:101:1", "oddsId playerId mismatch"),
    ];
    for (id, text) in cases {
        let (kind, reason) = reason_of(engine.validate_quote(quote_input(id, quote("bk", 101, 0, 2.0, 1))));
        assert_eq!(kind, "ignore");
        assert_eq!(reason, text);
    }
}

#[test]
fn extreme_identifiers() {
    let q = quote("bk", i64::MIN, i64::MAX, 2.0, 1);
    assert_eq!(invalid_odds_id_reason("f", "f:bk:-9223372036854775808:9223372036854775807", &q), None);
    let q = quote("bk", 0, 0, 2.0, 1);
    assert_eq!(invalid_odds_id_reason("f", "f:bk:9223372036854775808:0", &q), Some(Reason::OddsIdOutcomeInvalid));
    assert_eq!(invalid_odds_id_reason("f", "f:bk:-0:0", &q), Some(Reason::OddsIdOutcomeMismatch));
    assert_eq!(invalid_odds_id_reason("f", "f:bk:0:+0", &q), Some(Reason::OddsIdPlayerMismatch));
    assert_eq!(invalid_odds_id_reason("f", "f:bk:0:0", &q), None);
}

#[test]
fn odds_id_must_equal_the_canonical_text() {
    let q = quote("bk", 1, 0, 2.0, 1);
    assert_eq!(invalid_odds_id_reason("f", "f:bk:01:0", &q), Some(Reason::OddsIdOutcomeMismatch));
    assert_eq!(invalid_odds_id_reason("f", "f:bk:1:0", &q), None);
    for (o, p) in [(0i64, 0i64), (-5, 12), (i64::MAX, i64::MIN), (42, -1)] {
        let q = quote("bk", o, p, 2.0, 1);
        let id = format!("f:{}:{}:{}", "bk", o, p);
        assert_eq!(invalid_odds_id_reason("f", &id, &q), None);
        let padded = format!("f:bk:{}:0{}", o, p.unsigned_abs());
        assert!(invalid_odds_id_reason("f", &padded, &q).is_some());
    }
}

#[test]
fn unusable_prices_are_ignored() {
    let engine = Engine::new(vec![10]);
    for price in [0.0, -0.0, f64::INFINITY, f64::NEG_INFINITY, f64::NAN] {
        let (kind, reason) = reason_of(engine.validate_quote(quote_input("f1:bk:101:0", quote("bk", 101, 0, price, 1))));
        assert_eq!(kind, "ignore");
        assert_eq!(reason, "price invalid");
    }
    for price in [1.01, -3.5, f64::MIN_POSITIVE, 5e-324, f64::MAX] {
        let (kind, _) = reason_of(engine.validate_quote(quote_input("f1:bk:101:0", quote("bk", 101, 0, price, 1))));
        assert_eq!(kind, "enable", "price {price}");
    }
}

#[test]
fn price_check_matches_float_semantics() {
    let engine = Engine::new(vec![10]);
    let samples = [0.0, -0.0, 1.0, -1.0, 1e308, 1e-310, f64::INFINITY, f64::NAN, f64::from_bits(0x7ff0_0000_0000_0001)];
    for price in samples {
        let expected = price.is_finite() && price != 0.0;
        let (kind, _) = reason_of(engine.validate_quote(quote_input("f1:bk:101:0", quote("bk", 101, 0, price, 1))));
        assert_eq!(kind == "enable", expected, "price bits {:x}", price.to_bits());
    }
}

#[test]
fn inactive_quotes_and_markets_are_disabled() {
    let engine = Engine::new(vec![10]);
    let mut q = quote("bk", 101, 0, 2.0, 1);
    q.active = false;
    q.market_active = None;
    assert_eq!(reason_of(engine.validate_quote(quote_input("f1:bk:101:0", q))), ("disable", "active false".to_string()));
    let mut q = quote("bk", 101, 0, 2.0, 1);
    q.market_active = Some(false);
    assert_eq!(reason_of(engine.validate_quote(quote_input("f1:bk:101:0", q))), ("disable", "marketActive false".to_string()));
    let mut q = quote("bk", 101, 0, 2.0, 1);
    q.market_active = None;
    assert_eq!(reason_of(engine.validate_quote(quote_input("f1:bk:101:0", q))), ("disable", "marketActive missing".to_string()));
}

#[test]
fn invalid_price_wins_over_inactive() {
    let engine = Engine::new(vec![10]);
    let mut q = quote("bk", 101, 0, 0.0, 1);
    q.active = false;
    assert_eq!(reason_of(engine.validate_quote(quote_input("f1:bk:101:0", q))), ("ignore", "price invalid".to_string()));
}
