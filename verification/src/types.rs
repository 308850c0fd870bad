//! The feed's records: fixtures, their references, bookmaker metadata and
//! quotes, as the library holds them. A price is held as the IEEE-754
//! binary64 encoding of the number the feed sent, and free-form JSON values
//! as their JSON text.
use vstd::prelude::*;
use crate::keyed::{Duplicate, KeyedVec};

verus! {

/// An exact copy of an optional text.
pub fn copy_text(o: &Option<String>) -> (r: Option<String>)
    ensures
        r == *o,
{
    match o {
        Some(s) => Some(s.clone()),
        None => None,
    }
}

/// A fixture's status.
pub struct Status {
    pub live: bool,
    pub status_id: Option<i32>,
    pub status_name: Option<String>,
}

impl Duplicate for Status {
    fn duplicate(&self) -> (r: Self) {
        Status { live: self.live, status_id: self.status_id, status_name: copy_text(&self.status_name) }
    }
}

/// The sport of a fixture.
pub struct SportRef {
    pub sport_id: i32,
    pub sport_name: String,
}

impl Duplicate for SportRef {
    fn duplicate(&self) -> (r: Self) {
        SportRef { sport_id: self.sport_id, sport_name: self.sport_name.clone() }
    }
}

/// The tournament of a fixture.
pub struct TournamentRef {
    pub tournament_id: i32,
    pub tournament_name: String,
    pub category_name: Option<String>,
}

impl Duplicate for TournamentRef {
    fn duplicate(&self) -> (r: Self) {
        TournamentRef {
            tournament_id: self.tournament_id,
            tournament_name: self.tournament_name.clone(),
            category_name: copy_text(&self.category_name),
        }
    }
}

/// The season of a fixture.
pub struct SeasonRef {
    pub season_id: Option<i64>,
    pub season_name: Option<String>,
    pub season_round: Option<i32>,
}

impl Duplicate for SeasonRef {
    fn duplicate(&self) -> (r: Self) {
        SeasonRef {
            season_id: self.season_id,
            season_name: copy_text(&self.season_name),
            season_round: self.season_round,
        }
    }
}

/// The venue of a fixture.
pub struct VenueRef {
    pub venue_id: Option<i64>,
    pub venue_name: Option<String>,
    pub venue_location: Option<String>,
}

impl Duplicate for VenueRef {
    fn duplicate(&self) -> (r: Self) {
        VenueRef {
            venue_id: self.venue_id,
            venue_name: copy_text(&self.venue_name),
            venue_location: copy_text(&self.venue_location),
        }
    }
}

/// The two participants of a fixture.
pub struct ParticipantsRef {
    pub participant1_id: i64,
    pub participant1_rot_nr: Option<i64>,
    pub participant1_name: Option<String>,
    pub participant1_short_name: Option<String>,
    pub participant1_abbr: Option<String>,
    pub participant2_id: i64,
    pub participant2_rot_nr: Option<i64>,
    pub participant2_name: Option<String>,
    pub participant2_short_name: Option<String>,
    pub participant2_abbr: Option<String>,
}

impl Duplicate for ParticipantsRef {
    fn duplicate(&self) -> (r: Self) {
        ParticipantsRef {
            participant1_id: self.participant1_id,
            participant1_rot_nr: self.participant1_rot_nr,
            participant1_name: copy_text(&self.participant1_name),
            participant1_short_name: copy_text(&self.participant1_short_name),
            participant1_abbr: copy_text(&self.participant1_abbr),
            participant2_id: self.participant2_id,
            participant2_rot_nr: self.participant2_rot_nr,
            participant2_name: copy_text(&self.participant2_name),
            participant2_short_name: copy_text(&self.participant2_short_name),
            participant2_abbr: copy_text(&self.participant2_abbr),
        }
    }
}

/// The score of one period.
pub struct ScorePeriod {
    pub period: String,
    pub participant1_score: i32,
    pub participant2_score: i32,
    pub updated_at: String,
}

impl Duplicate for ScorePeriod {
    fn duplicate(&self) -> (r: Self) {
        ScorePeriod {
            period: self.period.clone(),
            participant1_score: self.participant1_score,
            participant2_score: self.participant2_score,
            updated_at: self.updated_at.clone(),
        }
    }
}

/// The clock of a running fixture.
pub struct Clock {
    pub current_period: Option<String>,
    pub current_time: Option<String>,
    pub remaining_time: Option<String>,
    pub remaining_time_in_period: Option<String>,
    pub stopped: Option<bool>,
    pub updated_at: Option<String>,
}

impl Duplicate for Clock {
    fn duplicate(&self) -> (r: Self) {
        Clock {
            current_period: copy_text(&self.current_period),
            current_time: copy_text(&self.current_time),
            remaining_time: copy_text(&self.remaining_time),
            remaining_time_in_period: copy_text(&self.remaining_time_in_period),
            stopped: self.stopped,
            updated_at: copy_text(&self.updated_at),
        }
    }
}

/// What the feed says of one bookmaker on one fixture. `meta` is JSON text.
pub struct BookmakerFixtureMeta {
    pub bookmaker: String,
    pub bookmaker_fixture_id: Option<String>,
    pub fixture_path: Option<String>,
    pub has_odds: bool,
    pub stale_odds: bool,
    pub stale_odds_response_code: Option<i32>,
    pub suspended: bool,
    pub participants_rotated: bool,
    pub meta: Option<String>,
    pub updated_at: String,
}

impl Duplicate for BookmakerFixtureMeta {
    fn duplicate(&self) -> (r: Self) {
        BookmakerFixtureMeta {
            bookmaker: self.bookmaker.clone(),
            bookmaker_fixture_id: copy_text(&self.bookmaker_fixture_id),
            fixture_path: copy_text(&self.fixture_path),
            has_odds: self.has_odds,
            stale_odds: self.stale_odds,
            stale_odds_response_code: self.stale_odds_response_code,
            suspended: self.suspended,
            participants_rotated: self.participants_rotated,
            meta: copy_text(&self.meta),
            updated_at: self.updated_at.clone(),
        }
    }
}

/// A fixture. `scores` is keyed by period, `external_providers` holds JSON
/// text keyed by provider, and `bookmakers` is keyed by bookmaker.
pub struct Game {
    pub fixture_id: String,
    pub status: Status,
    pub sport: SportRef,
    pub tournament: TournamentRef,
    pub season: SeasonRef,
    pub venue: VenueRef,
    pub start_time: i64,
    pub true_start_time: Option<String>,
    pub true_end_time: Option<String>,
    pub participants: ParticipantsRef,
    pub scores: KeyedVec<ScorePeriod>,
    pub clock: Option<Clock>,
    pub expected_periods: Option<i32>,
    pub period_length: Option<i32>,
    pub external_providers: KeyedVec<String>,
    pub bookmakers: KeyedVec<BookmakerFixtureMeta>,
}

/// What a fixture holds, with its keyed tables taken as maps.
pub ghost struct GameView {
    pub fixture_id: String,
    pub status: Status,
    pub sport: SportRef,
    pub tournament: TournamentRef,
    pub season: SeasonRef,
    pub venue: VenueRef,
    pub start_time: i64,
    pub true_start_time: Option<String>,
    pub true_end_time: Option<String>,
    pub participants: ParticipantsRef,
    pub scores: Map<Seq<char>, ScorePeriod>,
    pub clock: Option<Clock>,
    pub expected_periods: Option<i32>,
    pub period_length: Option<i32>,
    pub external_providers: Map<Seq<char>, String>,
    pub bookmakers: Map<Seq<char>, BookmakerFixtureMeta>,
}

impl View for Game {
    type V = GameView;

    open spec fn view(&self) -> GameView {
        GameView {
            fixture_id: self.fixture_id,
            status: self.status,
            sport: self.sport,
            tournament: self.tournament,
            season: self.season,
            venue: self.venue,
            start_time: self.start_time,
            true_start_time: self.true_start_time,
            true_end_time: self.true_end_time,
            participants: self.participants,
            scores: self.scores@,
            clock: self.clock,
            expected_periods: self.expected_periods,
            period_length: self.period_length,
            external_providers: self.external_providers@,
            bookmakers: self.bookmakers@,
        }
    }
}

impl Game {
    /// A copy of the fixture that holds the same data.
    pub fn duplicate(&self) -> (r: Self)
        ensures
            r@ == self@,
    {
        let clock = match &self.clock {
            Some(c) => Some(c.duplicate()),
            None => None,
        };
        Game {
            fixture_id: self.fixture_id.clone(),
            status: self.status.duplicate(),
            sport: self.sport.duplicate(),
            tournament: self.tournament.duplicate(),
            season: self.season.duplicate(),
            venue: self.venue.duplicate(),
            start_time: self.start_time,
            true_start_time: copy_text(&self.true_start_time),
            true_end_time: copy_text(&self.true_end_time),
            participants: self.participants.duplicate(),
            scores: self.scores.duplicate(),
            clock: clock,
            expected_periods: self.expected_periods,
            period_length: self.period_length,
            external_providers: self.external_providers.duplicate(),
            bookmakers: self.bookmakers.duplicate(),
        }
    }
}

/// A quote of one bookmaker for one outcome. `price_bits` and `limit_bits`
/// are IEEE-754 binary64 encodings; `meta` is JSON text.
pub struct Quote {
    pub bookmaker: String,
    pub outcome_id: i64,
    pub player_id: i64,
    pub price_bits: u64,
    pub active: bool,
    pub market_active: Option<bool>,
    pub main_line: Option<bool>,
    pub market_id: Option<i64>,
    pub bookmaker_market_id: Option<String>,
    pub bookmaker_outcome_id: Option<String>,
    pub bookmaker_changed_at: Option<i64>,
    pub price_fractional: Option<String>,
    pub price_american: Option<i64>,
    pub meta: Option<String>,
    pub limit_bits: Option<u64>,
    pub betslip: Option<String>,
    pub changed_at: i64,
}

/// A fixture with its bookmakers and quotes, as the odds snapshot gives it.
/// `bookmakers` lists (bookmaker, metadata) pairs and `odds` lists, per
/// bookmaker group, (odds identifier, quote) pairs, in the order in which the
/// library walks them.
pub struct MatchPrice {
    pub fixture_id: String,
    pub status: Status,
    pub sport: SportRef,
    pub tournament: TournamentRef,
    pub season: SeasonRef,
    pub venue: VenueRef,
    pub start_time: i64,
    pub true_start_time: Option<String>,
    pub true_end_time: Option<String>,
    pub participants: ParticipantsRef,
    pub scores: KeyedVec<ScorePeriod>,
    pub clock: Option<Clock>,
    pub expected_periods: Option<i32>,
    pub period_length: Option<i32>,
    pub external_providers: KeyedVec<String>,
    pub bookmakers: Vec<(String, BookmakerFixtureMeta)>,
    pub odds: Vec<(String, Vec<(String, Quote)>)>,
}

/// An odds update for one fixture.
pub struct OddsPayload {
    pub fixture_id: String,
    pub odds: Vec<(String, Vec<(String, Quote)>)>,
}

/// A bookmaker update for one fixture.
pub struct BookmakersPayload {
    pub fixture_id: String,
    pub bookmakers: Vec<(String, BookmakerFixtureMeta)>,
}

} // verus!
