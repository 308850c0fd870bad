//! The risk engine: every fixture, bookmaker and quote that reaches the state
//! receives one decision, to enable it, to disable it or to ignore it.
use vstd::prelude::*;
use crate::text::{
    chars_of, is_i64_text, joined, lemma_join_split, lemma_signed_decimal_parses, lemma_split_append, parse_i64,
    same_chars, signed_decimal, signed_decimal_chars, split_colon, split_on_colon, views_of,
};
use crate::state::lemma_split_no_colon;
use crate::types::{BookmakerFixtureMeta, Game, Quote};

verus! {

/// Why an item was disabled or ignored.
#[derive(PartialEq, Eq, Structural, Clone, Copy, Debug)]
pub enum Reason {
    SportNotAllowed,
    StatusNotTradable,
    FixtureMissing,
    HasOddsFalse,
    StaleOdds,
    Suspended,
    ParticipantsRotated,
    BookmakerMetaMissing,
    ChangedAtOlder,
    OddsIdFormat,
    OddsIdFixtureMismatch,
    OddsIdBookmakerMismatch,
    OddsIdOutcomeInvalid,
    OddsIdPlayerInvalid,
    OddsIdOutcomeMismatch,
    OddsIdPlayerMismatch,
    PriceInvalid,
    ActiveFalse,
    MarketActiveFalse,
    MarketActiveMissing,
}

/// The text that a decision carries for each reason.
pub open spec fn reason_text(r: Reason) -> Seq<char> {
    match r {
        Reason::SportNotAllowed => "sportId not allowed"@,
        Reason::StatusNotTradable => "Game status ID is not tradable"@,
        Reason::FixtureMissing => "fixtureId missing from matches"@,
        Reason::HasOddsFalse => "hasOdds false"@,
        Reason::StaleOdds => "staleOdds true"@,
        Reason::Suspended => "suspended true"@,
        Reason::ParticipantsRotated => "participantsRotated unhandled"@,
        Reason::BookmakerMetaMissing => "bookmaker meta missing"@,
        Reason::ChangedAtOlder => "changedAt older than stored"@,
        Reason::OddsIdFormat => "oddsId format"@,
        Reason::OddsIdFixtureMismatch => "oddsId fixtureId mismatch"@,
        Reason::OddsIdBookmakerMismatch => "oddsId bookmaker mismatch"@,
        Reason::OddsIdOutcomeInvalid => "oddsId outcomeId invalid"@,
        Reason::OddsIdPlayerInvalid => "oddsId playerId invalid"@,
        Reason::OddsIdOutcomeMismatch => "oddsId outcomeId mismatch"@,
        Reason::OddsIdPlayerMismatch => "oddsId playerId mismatch"@,
        Reason::PriceInvalid => "price invalid"@,
        Reason::ActiveFalse => "active false"@,
        Reason::MarketActiveFalse => "marketActive false"@,
        Reason::MarketActiveMissing => "marketActive missing"@,
    }
}

/// The text of a reason.
pub fn reason_string(r: Reason) -> (s: String)
    ensures
        s@ == reason_text(r),
{
    match r {
        Reason::SportNotAllowed => String::from_str("sportId not allowed"),
        Reason::StatusNotTradable => String::from_str("Game status ID is not tradable"),
        Reason::FixtureMissing => String::from_str("fixtureId missing from matches"),
        Reason::HasOddsFalse => String::from_str("hasOdds false"),
        Reason::StaleOdds => String::from_str("staleOdds true"),
        Reason::Suspended => String::from_str("suspended true"),
        Reason::ParticipantsRotated => String::from_str("participantsRotated unhandled"),
        Reason::BookmakerMetaMissing => String::from_str("bookmaker meta missing"),
        Reason::ChangedAtOlder => String::from_str("changedAt older than stored"),
        Reason::OddsIdFormat => String::from_str("oddsId format"),
        Reason::OddsIdFixtureMismatch => String::from_str("oddsId fixtureId mismatch"),
        Reason::OddsIdBookmakerMismatch => String::from_str("oddsId bookmaker mismatch"),
        Reason::OddsIdOutcomeInvalid => String::from_str("oddsId outcomeId invalid"),
        Reason::OddsIdPlayerInvalid => String::from_str("oddsId playerId invalid"),
        Reason::OddsIdOutcomeMismatch => String::from_str("oddsId outcomeId mismatch"),
        Reason::OddsIdPlayerMismatch => String::from_str("oddsId playerId mismatch"),
        Reason::PriceInvalid => String::from_str("price invalid"),
        Reason::ActiveFalse => String::from_str("active false"),
        Reason::MarketActiveFalse => String::from_str("marketActive false"),
        Reason::MarketActiveMissing => String::from_str("marketActive missing"),
    }
}

/// The outcome of a check, before it is attached to the item.
#[derive(PartialEq, Eq, Structural, Clone, Copy, Debug)]
pub enum Verdict {
    Enable,
    Disable(Reason),
    Ignore(Reason),
}

/// A decision on an item: accept it, remove it (with a reason) or drop it
/// (with a reason).
pub enum Decision<T> {
    Enable(T),
    Disable(String),
    Ignore(String),
}

/// `d` is the decision that verdict `v` gives for `item`.
pub open spec fn decision_agrees<T>(d: Decision<T>, v: Verdict, item: T) -> bool {
    match d {
        Decision::Enable(x) => v == Verdict::Enable && x == item,
        Decision::Disable(s) => v matches Verdict::Disable(r) && s@ == reason_text(r),
        Decision::Ignore(s) => v matches Verdict::Ignore(r) && s@ == reason_text(r),
    }
}

/// Attaches a verdict to its item.
pub fn decide<T>(v: Verdict, item: T) -> (d: Decision<T>)
    ensures
        decision_agrees(d, v, item),
{
    match v {
        Verdict::Enable => Decision::Enable(item),
        Verdict::Disable(r) => Decision::Disable(reason_string(r)),
        Verdict::Ignore(r) => Decision::Ignore(reason_string(r)),
    }
}

/// A bookmaker entry of a fixture, with whether the fixture is known.
pub struct BookmakerInput {
    pub fixture_id: String,
    pub bookmaker_id: String,
    pub fixture_exists: bool,
    pub meta: BookmakerFixtureMeta,
}

impl BookmakerInput {
    pub fn new(
        fixture_id: String,
        bookmaker_id: String,
        fixture_exists: bool,
        meta: BookmakerFixtureMeta,
    ) -> (r: Self)
        ensures
            r == (BookmakerInput { fixture_id, bookmaker_id, fixture_exists, meta }),
    {
        BookmakerInput { fixture_id, bookmaker_id, fixture_exists, meta }
    }
}

/// A quote, with what the state knows of its fixture, its bookmaker and the
/// stored quote under the same identifier.
pub struct QuoteInput {
    pub fixture_id: String,
    pub odds_id: String,
    pub fixture_exists: bool,
    pub bookmaker_available: bool,
    pub current_changed_at: Option<i64>,
    pub quote: Quote,
}

impl QuoteInput {
    pub fn new(
        fixture_id: String,
        odds_id: String,
        fixture_exists: bool,
        bookmaker_available: bool,
        current_changed_at: Option<i64>,
        quote: Quote,
    ) -> (r: Self)
        ensures
            r == (QuoteInput {
                fixture_id,
                odds_id,
                fixture_exists,
                bookmaker_available,
                current_changed_at,
                quote,
            }),
    {
        QuoteInput { fixture_id, odds_id, fixture_exists, bookmaker_available, current_changed_at, quote }
    }
}

/// Some configured sport has the given identifier.
pub open spec fn sport_allowed(sport_ids: Seq<u8>, sport_id: i32) -> bool {
    exists|i: int| 0 <= i < sport_ids.len() && sport_ids[i] as i32 == sport_id
}

/// Fixtures of configured sports that are pregame (status 0) or live
/// (status 1) are enabled; others of configured sports are disabled; those of
/// other sports are ignored.
pub open spec fn game_verdict(sport_ids: Seq<u8>, sport_id: i32, status_id: Option<i32>) -> Verdict {
    if !sport_allowed(sport_ids, sport_id) {
        Verdict::Ignore(Reason::SportNotAllowed)
    } else if status_id == Some(0i32) || status_id == Some(1i32) {
        Verdict::Enable
    } else {
        Verdict::Disable(Reason::StatusNotTradable)
    }
}

/// A bookmaker of an unknown fixture is ignored; one without odds, with stale
/// odds, suspended or with rotated participants is disabled; others are
/// enabled.
pub open spec fn bookmaker_verdict(fixture_exists: bool, meta: BookmakerFixtureMeta) -> Verdict {
    if !fixture_exists {
        Verdict::Ignore(Reason::FixtureMissing)
    } else if !meta.has_odds {
        Verdict::Disable(Reason::HasOddsFalse)
    } else if meta.stale_odds {
        Verdict::Disable(Reason::StaleOdds)
    } else if meta.suspended {
        Verdict::Disable(Reason::Suspended)
    } else if meta.participants_rotated {
        Verdict::Disable(Reason::ParticipantsRotated)
    } else {
        Verdict::Enable
    }
}

/// The text that the odds identifier of a quote must equal:
/// `{fixtureId}:{bookmaker}:{outcomeId}:{playerId}`, the numbers in decimal.
pub open spec fn odds_id_text(fixture_id: Seq<char>, bookmaker: Seq<char>, outcome_id: i64, player_id: i64) -> Seq<char> {
    fixture_id + seq![':'] + bookmaker + seq![':'] + signed_decimal(outcome_id as int) + seq![':']
        + signed_decimal(player_id as int)
}

/// The odds identifier must read `{fixtureId}:{bookmaker}:{outcomeId}:{playerId}`
/// for the quote's own bookmaker, outcome and player, the numbers written in
/// decimal as they are; this gives the first rule that it breaks. A number
/// part that is not an `i64` at all is invalid; one that is, but is not the
/// quote's number in that form (`01`, `+1`, `-0`), is a mismatch.
pub open spec fn odds_id_problem(fixture_id: Seq<char>, odds_id: Seq<char>, quote: Quote) -> Option<Reason> {
    let parts = split_colon(odds_id);
    if parts.len() != 4 {
        Some(Reason::OddsIdFormat)
    } else if parts[0] != fixture_id {
        Some(Reason::OddsIdFixtureMismatch)
    } else if parts[1] != quote.bookmaker@ {
        Some(Reason::OddsIdBookmakerMismatch)
    } else if !is_i64_text(parts[2]) {
        Some(Reason::OddsIdOutcomeInvalid)
    } else if !is_i64_text(parts[3]) {
        Some(Reason::OddsIdPlayerInvalid)
    } else if parts[2] != signed_decimal(quote.outcome_id as int) {
        Some(Reason::OddsIdOutcomeMismatch)
    } else if parts[3] != signed_decimal(quote.player_id as int) {
        Some(Reason::OddsIdPlayerMismatch)
    } else {
        None
    }
}

/// A binary64 encoding of a finite, non-zero number: the exponent field is
/// not all ones (which would be an infinity or a NaN) and some bit other than
/// the sign is set (else it is +0 or -0).
pub open spec fn price_usable(bits: u64) -> bool {
    (bits >> 52u64) & 0x7ffu64 != 0x7ffu64 && bits & 0x7fff_ffff_ffff_ffffu64 != 0
}

/// The checks on a quote, in order: unknown fixture, unknown bookmaker, older
/// than the stored quote, malformed identifier and unusable price make it
/// ignored; an inactive quote or market makes it disabled.
pub open spec fn quote_verdict(input: QuoteInput) -> Verdict {
    let q = input.quote;
    if !input.fixture_exists {
        Verdict::Ignore(Reason::FixtureMissing)
    } else if !input.bookmaker_available {
        Verdict::Ignore(Reason::BookmakerMetaMissing)
    } else if input.current_changed_at matches Some(c) && q.changed_at < c {
        Verdict::Ignore(Reason::ChangedAtOlder)
    } else if odds_id_problem(input.fixture_id@, input.odds_id@, q) is Some {
        Verdict::Ignore(odds_id_problem(input.fixture_id@, input.odds_id@, q)->0)
    } else if !price_usable(q.price_bits) {
        Verdict::Ignore(Reason::PriceInvalid)
    } else if !q.active {
        Verdict::Disable(Reason::ActiveFalse)
    } else {
        match q.market_active {
            Some(true) => Verdict::Enable,
            Some(false) => Verdict::Disable(Reason::MarketActiveFalse),
            None => Verdict::Disable(Reason::MarketActiveMissing),
        }
    }
}

/// Checks an odds identifier against its fixture and quote.
pub fn invalid_odds_id_reason(fixture_id: &str, odds_id: &str, quote: &Quote) -> (r: Option<Reason>)
    ensures
        r == odds_id_problem(fixture_id@, odds_id@, *quote),
{
    let id = chars_of(odds_id);
    let parts = split_on_colon(&id);
    let ghost ps = split_colon(odds_id@);
    assert(views_of(parts@).len() == parts@.len());
    if parts.len() != 4 {
        return Some(Reason::OddsIdFormat);
    }
    assert(parts@[0]@ == ps[0] && parts@[1]@ == ps[1] && parts@[2]@ == ps[2] && parts@[3]@ == ps[3]);
    let fixture = chars_of(fixture_id);
    if !same_chars(&parts[0], &fixture) {
        return Some(Reason::OddsIdFixtureMismatch);
    }
    let bookmaker = chars_of(quote.bookmaker.as_str());
    if !same_chars(&parts[1], &bookmaker) {
        return Some(Reason::OddsIdBookmakerMismatch);
    }
    if parse_i64(&parts[2]).is_none() {
        return Some(Reason::OddsIdOutcomeInvalid);
    }
    if parse_i64(&parts[3]).is_none() {
        return Some(Reason::OddsIdPlayerInvalid);
    }
    if !same_chars(&parts[2], &signed_decimal_chars(quote.outcome_id)) {
        return Some(Reason::OddsIdOutcomeMismatch);
    }
    if !same_chars(&parts[3], &signed_decimal_chars(quote.player_id)) {
        return Some(Reason::OddsIdPlayerMismatch);
    }
    None
}

/// For a fixture and bookmaker without `:`, an odds identifier passes the
/// identifier checks exactly when it equals
/// `{fixtureId}:{bookmaker}:{outcomeId}:{playerId}` for the quote.
pub proof fn lemma_odds_id_canonical(fixture_id: Seq<char>, odds_id: Seq<char>, quote: Quote)
    requires
        !fixture_id.contains(':'),
        !quote.bookmaker@.contains(':'),
    ensures
        odds_id_problem(fixture_id, odds_id, quote) is None <==> odds_id == odds_id_text(
            fixture_id,
            quote.bookmaker@,
            quote.outcome_id,
            quote.player_id,
        ),
{
    let b = quote.bookmaker@;
    let so = signed_decimal(quote.outcome_id as int);
    let sp = signed_decimal(quote.player_id as int);
    lemma_signed_decimal_parses(quote.outcome_id);
    lemma_signed_decimal_parses(quote.player_id);
    assert forall|j: int| 0 <= j < fixture_id.len() implies fixture_id[j] != ':' by {
        if fixture_id[j] == ':' {
            assert(fixture_id.contains(':'));
        }
    }
    assert forall|j: int| 0 <= j < b.len() implies b[j] != ':' by {
        if b[j] == ':' {
            assert(b.contains(':'));
        }
    }
    let text = odds_id_text(fixture_id, b, quote.outcome_id, quote.player_id);
    lemma_split_no_colon(fixture_id);
    lemma_split_append(fixture_id, b);
    lemma_split_append(fixture_id + seq![':'] + b, so);
    lemma_split_append(fixture_id + seq![':'] + b + seq![':'] + so, sp);
    assert(split_colon(text) =~= seq![fixture_id, b, so, sp]);
    if odds_id_problem(fixture_id, odds_id, quote) is None {
        let parts = split_colon(odds_id);
        lemma_join_split(odds_id);
        reveal_with_fuel(joined, 4);
        assert(parts =~= seq![fixture_id, b, so, sp]);
        assert(joined(parts, seq![':']) =~= text);
    }
}

/// Fixtures of a configured sport are enabled exactly when their status is
/// pregame (0) or live (1); every other status, or none, disables them with
/// "Game status ID is not tradable". Fixtures of any other sport are ignored.
pub proof fn lemma_game_verdict_law(sport_ids: Seq<u8>, sport_id: i32, status_id: Option<i32>)
    ensures
        (exists|i: int| 0 <= i < sport_ids.len() && sport_ids[i] as i32 == sport_id) ==> {
            &&& (game_verdict(sport_ids, sport_id, status_id) == Verdict::Enable <==> (status_id == Some(0i32)
                || status_id == Some(1i32)))
            &&& (!(status_id == Some(0i32) || status_id == Some(1i32)) ==> game_verdict(sport_ids, sport_id, status_id)
                == Verdict::Disable(Reason::StatusNotTradable))
        },
        !(exists|i: int| 0 <= i < sport_ids.len() && sport_ids[i] as i32 == sport_id) ==> game_verdict(
            sport_ids,
            sport_id,
            status_id,
        ) == Verdict::Ignore(Reason::SportNotAllowed),
{
}

/// A bookmaker of an unknown fixture is ignored; of a known fixture it is
/// enabled exactly when it has odds, its odds are not stale, it is not
/// suspended and its participants are not rotated, and disabled otherwise.
pub proof fn lemma_bookmaker_verdict_law(fixture_exists: bool, meta: BookmakerFixtureMeta)
    ensures
        !fixture_exists ==> bookmaker_verdict(fixture_exists, meta) == Verdict::Ignore(Reason::FixtureMissing),
        bookmaker_verdict(fixture_exists, meta) == Verdict::Enable <==> (fixture_exists && meta.has_odds
            && !meta.stale_odds && !meta.suspended && !meta.participants_rotated),
        fixture_exists && !(meta.has_odds && !meta.stale_odds && !meta.suspended && !meta.participants_rotated)
            ==> bookmaker_verdict(fixture_exists, meta) is Disable,
{
}

/// The quote checks. A quote of an unknown fixture, of an unknown bookmaker,
/// or older than the stored quote is ignored, whatever else it says: an
/// out-of-order update never disables or replaces a newer stored quote. A
/// quote is enabled exactly when it passes every check: known fixture and
/// bookmaker, not older than the stored one, a well-formed identifier, a
/// finite non-zero price, active, on an active market. It is disabled only
/// when it passes every check for being ignored, and then exactly when the
/// quote or its market is not active (or the market state is missing).
pub proof fn lemma_quote_verdict_law(input: QuoteInput)
    ensures
        !input.fixture_exists ==> quote_verdict(input) == Verdict::Ignore(Reason::FixtureMissing),
        input.fixture_exists && !input.bookmaker_available ==> quote_verdict(input) == Verdict::Ignore(
            Reason::BookmakerMetaMissing,
        ),
        input.fixture_exists && input.bookmaker_available && input.current_changed_at is Some
            && input.quote.changed_at < input.current_changed_at->0 ==> quote_verdict(input) == Verdict::Ignore(
            Reason::ChangedAtOlder,
        ),
        quote_verdict(input) == Verdict::Enable <==> {
            &&& input.fixture_exists
            &&& input.bookmaker_available
            &&& !(input.current_changed_at is Some && input.quote.changed_at < input.current_changed_at->0)
            &&& odds_id_problem(input.fixture_id@, input.odds_id@, input.quote) is None
            &&& price_usable(input.quote.price_bits)
            &&& input.quote.active
            &&& input.quote.market_active == Some(true)
        },
        quote_verdict(input) is Disable <==> {
            &&& input.fixture_exists
            &&& input.bookmaker_available
            &&& !(input.current_changed_at is Some && input.quote.changed_at < input.current_changed_at->0)
            &&& odds_id_problem(input.fixture_id@, input.odds_id@, input.quote) is None
            &&& price_usable(input.quote.price_bits)
            &&& !(input.quote.active && input.quote.market_active == Some(true))
        },
{
}

/// The risk engine, configured with the sports that may be traded.
pub struct Engine {
    sport_ids: Vec<u8>,
}

impl View for Engine {
    type V = Seq<u8>;

    closed spec fn view(&self) -> Seq<u8> {
        self.sport_ids@
    }
}

impl Engine {
    pub fn new(sport_ids: Vec<u8>) -> (r: Self)
        ensures
            r@ == sport_ids@,
    {
        Engine { sport_ids }
    }

    fn allows_sport(&self, sport_id: i32) -> (r: bool)
        ensures
            r == sport_allowed(self@, sport_id),
    {
        let mut i: usize = 0;
        while i < self.sport_ids.len()
            invariant
                i <= self.sport_ids@.len(),
                forall|j: int| 0 <= j < i ==> self.sport_ids@[j] as i32 != sport_id,
            decreases self.sport_ids@.len() - i,
        {
            if self.sport_ids[i] as i32 == sport_id {
                return true;
            }
            i = i + 1;
        }
        false
    }

    /// The verdict on a fixture.
    pub fn game_check(&self, game: &Game) -> (v: Verdict)
        ensures
            v == game_verdict(self@, game.sport.sport_id, game.status.status_id),
    {
        if !self.allows_sport(game.sport.sport_id) {
            return Verdict::Ignore(Reason::SportNotAllowed);
        }
        match game.status.status_id {
            Some(0) | Some(1) => Verdict::Enable,
            _ => Verdict::Disable(Reason::StatusNotTradable),
        }
    }

    /// The verdict on a bookmaker entry.
    pub fn bookmaker_check(&self, input: &BookmakerInput) -> (v: Verdict)
        ensures
            v == bookmaker_verdict(input.fixture_exists, input.meta),
    {
        if !input.fixture_exists {
            return Verdict::Ignore(Reason::FixtureMissing);
        }
        if !input.meta.has_odds {
            return Verdict::Disable(Reason::HasOddsFalse);
        }
        if input.meta.stale_odds {
            return Verdict::Disable(Reason::StaleOdds);
        }
        if input.meta.suspended {
            return Verdict::Disable(Reason::Suspended);
        }
        if input.meta.participants_rotated {
            return Verdict::Disable(Reason::ParticipantsRotated);
        }
        Verdict::Enable
    }

    /// The verdict on a quote.
    pub fn quote_check(&self, input: &QuoteInput) -> (v: Verdict)
        ensures
            v == quote_verdict(*input),
    {
        if !input.fixture_exists {
            return Verdict::Ignore(Reason::FixtureMissing);
        }
        if !input.bookmaker_available {
            return Verdict::Ignore(Reason::BookmakerMetaMissing);
        }
        match input.current_changed_at {
            Some(changed_at) => {
                if input.quote.changed_at < changed_at {
                    return Verdict::Ignore(Reason::ChangedAtOlder);
                }
            },
            None => {},
        }
        match invalid_odds_id_reason(input.fixture_id.as_str(), input.odds_id.as_str(), &input.quote) {
            Some(reason) => return Verdict::Ignore(reason),
            None => {},
        }
        let bits = input.quote.price_bits;
        if !((bits >> 52u64) & 0x7ffu64 != 0x7ffu64 && bits & 0x7fff_ffff_ffff_ffffu64 != 0) {
            return Verdict::Ignore(Reason::PriceInvalid);
        }
        if !input.quote.active {
            return Verdict::Disable(Reason::ActiveFalse);
        }
        match input.quote.market_active {
            Some(true) => Verdict::Enable,
            Some(false) => Verdict::Disable(Reason::MarketActiveFalse),
            None => Verdict::Disable(Reason::MarketActiveMissing),
        }
    }

    /// Decides on a fixture.
    pub fn validate_game(&self, game: Game) -> (d: Decision<Game>)
        ensures
            decision_agrees(d, game_verdict(self@, game.sport.sport_id, game.status.status_id), game),
    {
        let v = self.game_check(&game);
        decide(v, game)
    }

    /// Decides on a bookmaker entry.
    pub fn validate_bookmaker(&self, input: BookmakerInput) -> (d: Decision<BookmakerInput>)
        ensures
            decision_agrees(d, bookmaker_verdict(input.fixture_exists, input.meta), input),
    {
        let v = self.bookmaker_check(&input);
        decide(v, input)
    }

    /// Decides on a quote.
    pub fn validate_quote(&self, input: QuoteInput) -> (d: Decision<QuoteInput>)
        ensures
            decision_agrees(d, quote_verdict(input), input),
    {
        let v = self.quote_check(&input);
        decide(v, input)
    }
}

} // verus!
