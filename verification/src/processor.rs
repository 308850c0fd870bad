//! Applying the live feed to the accepted state. Updates are held back while
//! a replacement snapshot is being built; a new snapshot replaces the state
//! whole and lets updates through again.
use vstd::prelude::*;
use crate::bootstrap::{accept_quote, quote_input_in, lemma_backed_accept, lemma_checked_quote_owner};
use crate::risk::{
    bookmaker_verdict, decide, game_verdict, quote_verdict, reason_text, BookmakerInput, Decision, Engine,
    QuoteInput, Verdict,
};
use crate::state::{
    drop_bookmaker, drop_bookmaker_quotes, drop_fixture, file_bookmaker, lemma_backed_drop_bookmaker,
    lemma_backed_drop_fixture, lemma_backed_file_bookmaker, lemma_backed_remove_quote, lemma_backed_update_game,
    lemma_remove_keys_finite, lemma_well_formed_view, quotes_backed, ids_of, odds_owner, remove_quote, updated_game, view_well_formed, with_bookmaker,
    without_bookmaker, State, StateView,
};
use crate::types::{BookmakerFixtureMeta, BookmakersPayload, Game, GameView, OddsPayload, Quote};

verus! {

/// One live fixture update: an enabled fixture is stored with the bookmakers
/// already accepted on it, a disabled one is removed with its quotes, an
/// ignored one changes nothing.
pub open spec fn live_fixture_step(v: StateView, sport_ids: Seq<u8>, g: Game) -> StateView {
    match game_verdict(sport_ids, g.sport.sport_id, g.status.status_id) {
        Verdict::Enable => StateView {
            games: v.games.insert(g.fixture_id@, updated_game(v.games, g.fixture_id@, g@)),
            ..v
        },
        Verdict::Disable(_) => drop_fixture(v, g.fixture_id@),
        Verdict::Ignore(_) => v,
    }
}

/// One live quote of fixture `f`: an enabled quote is stored, a disabled one
/// is removed, an ignored one changes nothing.
pub open spec fn live_quote_step(v: StateView, f: String, e: (String, Quote)) -> StateView {
    match quote_verdict(quote_input_in(v, f, v.games.contains_key(f@), e.0, e.1)) {
        Verdict::Enable => accept_quote(v, f@, e.0@, e.1),
        Verdict::Disable(_) => remove_quote(v, f@, e.0@),
        Verdict::Ignore(_) => v,
    }
}

/// The live quotes of one bookmaker group, in order.
pub open spec fn live_quotes(v: StateView, f: String, qs: Seq<(String, Quote)>) -> StateView
    decreases qs.len(),
{
    if qs.len() == 0 {
        v
    } else {
        live_quote_step(live_quotes(v, f, qs.drop_last()), f, qs.last())
    }
}

/// The live bookmaker groups of one odds update, in order.
pub open spec fn live_groups(v: StateView, f: String, gs: Seq<(String, Vec<(String, Quote)>)>) -> StateView
    decreases gs.len(),
{
    if gs.len() == 0 {
        v
    } else {
        live_quotes(live_groups(v, f, gs.drop_last()), f, gs.last().1@)
    }
}

/// The engine's verdict on one live quote of fixture `f` against the state `v`.
pub open spec fn live_quote_verdict(v: StateView, f: String, e: (String, Quote)) -> Verdict {
    quote_verdict(quote_input_in(v, f, v.games.contains_key(f@), e.0, e.1))
}

/// Each live quote of a bookmaker group with the verdict it got, in order.
pub open spec fn live_quote_verdicts(v: StateView, f: String, qs: Seq<(String, Quote)>) -> Seq<(Seq<char>, Verdict)>
    decreases qs.len(),
{
    if qs.len() == 0 {
        Seq::empty()
    } else {
        live_quote_verdicts(v, f, qs.drop_last()).push(
            (qs.last().0@, live_quote_verdict(live_quotes(v, f, qs.drop_last()), f, qs.last())),
        )
    }
}

/// Each live quote of an odds update with the verdict it got, in order.
pub open spec fn live_group_verdicts(
    v: StateView,
    f: String,
    gs: Seq<(String, Vec<(String, Quote)>)>,
) -> Seq<(Seq<char>, Verdict)>
    decreases gs.len(),
{
    if gs.len() == 0 {
        Seq::empty()
    } else {
        live_group_verdicts(v, f, gs.drop_last()) + live_quote_verdicts(live_groups(v, f, gs.drop_last()), f, gs.last().1@)
    }
}

/// Each live bookmaker of a bookmaker update with the verdict it got, in order.
pub open spec fn live_bookmaker_verdicts(
    v: StateView,
    f: String,
    bs: Seq<(String, BookmakerFixtureMeta)>,
) -> Seq<(Seq<char>, Verdict)>
    decreases bs.len(),
{
    if bs.len() == 0 {
        Seq::empty()
    } else {
        live_bookmaker_verdicts(v, f, bs.drop_last()).push(
            (bs.last().0@, bookmaker_verdict(live_bookmakers(v, f, bs.drop_last()).games.contains_key(f@), bs.last().1)),
        )
    }
}

/// The identifiers and verdicts of a list of outcomes, as text.
pub open spec fn outcomes_view(r: Seq<(String, Verdict)>) -> Seq<(Seq<char>, Verdict)> {
    r.map_values(|o: (String, Verdict)| (o.0@, o.1))
}

/// One live bookmaker of fixture `f`: an enabled one is filed under the
/// fixture; a disabled one is dropped from it, with its quotes; an ignored
/// one changes nothing.
pub open spec fn live_bookmaker_step(v: StateView, f: String, e: (String, BookmakerFixtureMeta)) -> StateView {
    match bookmaker_verdict(v.games.contains_key(f@), e.1) {
        Verdict::Enable => file_bookmaker(v, f@, e.0@, e.1),
        Verdict::Disable(_) => drop_bookmaker(v, f@, e.0@),
        Verdict::Ignore(_) => v,
    }
}

/// The live bookmakers of one bookmaker update, in order.
pub open spec fn live_bookmakers(v: StateView, f: String, bs: Seq<(String, BookmakerFixtureMeta)>) -> StateView
    decreases bs.len(),
{
    if bs.len() == 0 {
        v
    } else {
        live_bookmaker_step(live_bookmakers(v, f, bs.drop_last()), f, bs.last())
    }
}

/// Every quote kept from `a` to `b` has a `changedAt` no older than before.
pub open spec fn no_older_quotes(a: StateView, b: StateView) -> bool {
    forall|id: Seq<char>| #[trigger] b.prices.contains_key(id) && a.prices.contains_key(id)
        ==> b.prices[id].changed_at >= a.prices[id].changed_at
}

/// What happened to a fixture update.
pub enum FixtureOutcome {
    /// Updates are held back while a snapshot is built.
    Frozen,
    /// There is no state yet.
    NoState,
    /// The fixture was stored.
    Updated,
    /// The fixture was removed, with this many quotes.
    Disabled { reason: String, removed_prices: usize },
    /// The fixture was dropped.
    Ignored { reason: String },
}

/// The decoded parts of a websocket message that decide where it goes.
/// `kind` is the `type` field when it is a string, `channel` the `channel`
/// field when it is a string, `has_payload` whether a `payload` field is there.
pub struct Envelope {
    pub is_object: bool,
    pub kind: Option<String>,
    pub channel: Option<String>,
    pub has_payload: bool,
}

/// Where a websocket message goes.
pub enum Route {
    /// The feed asked for a new snapshot: updates are now held back.
    RequestSnapshot,
    /// A control message of the given type, with nothing to apply.
    Control(String),
    /// An update that is held back while a snapshot is built.
    Frozen,
    Fixtures,
    Odds,
    Bookmakers,
}

/// Why a websocket message could not be processed.
pub enum ProcessError {
    NotObject,
    MissingType,
    MissingChannel,
    MissingPayload,
    UnsupportedChannel(String),
    SnapshotChannelClosed,
}

impl ProcessError {
    /// The text of the error.
    pub fn message(&self) -> (r: String)
        ensures
            r@ == match self {
                ProcessError::NotObject => "websocket message is not an object"@,
                ProcessError::MissingType => "websocket message missing type"@,
                ProcessError::MissingChannel => "websocket update missing channel"@,
                ProcessError::MissingPayload => "websocket update missing payload"@,
                ProcessError::UnsupportedChannel(c) => "unsupported websocket channel: "@ + c@,
                ProcessError::SnapshotChannelClosed => "bootstrap snapshot request failed: channel closed"@,
            },
    {
        match self {
            ProcessError::NotObject => String::from_str("websocket message is not an object"),
            ProcessError::MissingType => String::from_str("websocket message missing type"),
            ProcessError::MissingChannel => String::from_str("websocket update missing channel"),
            ProcessError::MissingPayload => String::from_str("websocket update missing payload"),
            ProcessError::UnsupportedChannel(c) => {
                let mut m = String::from_str("unsupported websocket channel: ");
                m.append(c.as_str());
                m
            },
            ProcessError::SnapshotChannelClosed => String::from_str(
                "bootstrap snapshot request failed: channel closed",
            ),
        }
    }
}

/// The outcome of asking for a snapshot: a full request queue means one is
/// already pending, a closed one is an error.
pub fn snapshot_request_result(channel_closed: bool) -> (r: Result<(), ProcessError>)
    ensures
        r is Ok <==> !channel_closed,
        r matches Err(e) ==> e is SnapshotChannelClosed,
{
    if channel_closed {
        Err(ProcessError::SnapshotChannelClosed)
    } else {
        Ok(())
    }
}

/// The live state holder.
pub struct Processor {
    state: Option<State>,
    freeze: bool,
}

impl Processor {
    /// Whether updates are held back.
    pub closed spec fn frozen(&self) -> bool {
        self.freeze
    }

    /// What the state holds, once a snapshot has been installed.
    pub closed spec fn current(&self) -> Option<StateView> {
        match self.state {
            Some(s) => Some(s.model()),
            None => None,
        }
    }

    /// The state, when there is one, keeps its quotes and index in agreement,
    /// and every quote it holds has its fixture stored and its bookmaker filed
    /// under that fixture.
    pub open spec fn consistent(&self) -> bool {
        self.current() matches Some(v) ==> view_well_formed(v) && quotes_backed(v)
    }

    /// The state, when there is one, keeps its quotes and index in agreement.
    pub open spec fn index_agrees(&self) -> bool {
        self.current() matches Some(v) ==> view_well_formed(v)
    }

    /// Updates are only let through once there is a state.
    pub open spec fn ready_when_open(&self) -> bool {
        !self.frozen() ==> self.current() is Some
    }

    /// A processor with no state, holding updates back until the first snapshot.
    pub fn new() -> (r: Self)
        ensures
            r.current() is None,
            r.frozen(),
            r.consistent(),
            r.ready_when_open(),
    {
        Processor { state: None, freeze: true }
    }

    /// Whether a snapshot has been installed.
    pub fn has_state(&self) -> (r: bool)
        ensures
            r == self.current() is Some,
    {
        self.state.is_some()
    }

    /// The state, once a snapshot has been installed.
    pub fn state(&self) -> (r: Option<&State>)
        ensures
            match r {
                Some(s) => self.current() == Some(s.model()),
                None => self.current() is None,
            },
    {
        match &self.state {
            Some(s) => Some(s),
            None => None,
        }
    }

    /// Replaces the state with a new snapshot and lets updates through.
    pub fn install_snapshot(&mut self, snapshot: State)
        ensures
            final(self).current() == Some(snapshot.model()),
            !final(self).frozen(),
            final(self).ready_when_open(),
            snapshot.well_formed() && quotes_backed(snapshot.model()) ==> final(self).consistent(),
    {
        self.state = Some(snapshot);
        self.freeze = false;
    }

    /// Decides where a websocket message goes. A `snapshot_required` message
    /// holds updates back; nothing else changes the processor.
    pub fn route(&mut self, env: &Envelope) -> (r: Result<Route, ProcessError>)
        ensures
            final(self).current() == old(self).current(),
            final(self).consistent() == old(self).consistent(),
            final(self).frozen() == (old(self).frozen() || r matches Ok(Route::RequestSnapshot)),
            old(self).ready_when_open() ==> final(self).ready_when_open(),
            !env.is_object ==> r matches Err(ProcessError::NotObject),
            env.is_object ==> match env.kind {
                None => r matches Err(ProcessError::MissingType),
                Some(k) => if k@ == "snapshot_required"@ {
                    r matches Ok(Route::RequestSnapshot)
                } else if k@ != "UPDATE"@ {
                    r matches Ok(Route::Control(c)) && c@ == k@
                } else if old(self).frozen() {
                    r matches Ok(Route::Frozen)
                } else {
                    match env.channel {
                        None => r matches Err(ProcessError::MissingChannel),
                        Some(c) => if !env.has_payload {
                            r matches Err(ProcessError::MissingPayload)
                        } else if c@ == "fixtures"@ {
                            r matches Ok(Route::Fixtures)
                        } else if c@ == "odds"@ {
                            r matches Ok(Route::Odds)
                        } else if c@ == "bookmakers"@ {
                            r matches Ok(Route::Bookmakers)
                        } else {
                            r matches Err(ProcessError::UnsupportedChannel(u)) && u@ == c@
                        },
                    }
                },
            },
    {
        if !env.is_object {
            return Err(ProcessError::NotObject);
        }
        let kind = match &env.kind {
            Some(k) => k,
            None => return Err(ProcessError::MissingType),
        };
        if *kind == String::from_str("snapshot_required") {
            self.freeze = true;
            return Ok(Route::RequestSnapshot);
        }
        if *kind != String::from_str("UPDATE") {
            return Ok(Route::Control(kind.clone()));
        }
        if self.freeze {
            return Ok(Route::Frozen);
        }
        let channel = match &env.channel {
            Some(c) => c,
            None => return Err(ProcessError::MissingChannel),
        };
        if !env.has_payload {
            return Err(ProcessError::MissingPayload);
        }
        if *channel == String::from_str("fixtures") {
            Ok(Route::Fixtures)
        } else if *channel == String::from_str("odds") {
            Ok(Route::Odds)
        } else if *channel == String::from_str("bookmakers") {
            Ok(Route::Bookmakers)
        } else {
            Err(ProcessError::UnsupportedChannel(channel.clone()))
        }
    }

    /// Applies a fixture update through the engine.
    pub fn process_fixture(&mut self, engine: &Engine, game: Game) -> (r: FixtureOutcome)
        ensures
            final(self).frozen() == old(self).frozen(),
            old(self).frozen() ==> final(self).current() == old(self).current() && r is Frozen,
            !old(self).frozen() && old(self).current() is None ==> final(self).current() is None && r is NoState,
            !old(self).frozen() ==> (old(self).current() matches Some(v) ==> {
                &&& final(self).current() == Some(live_fixture_step(v, engine@, game))
                &&& match game_verdict(engine@, game.sport.sport_id, game.status.status_id) {
                    Verdict::Enable => r is Updated,
                    Verdict::Disable(why) => r matches FixtureOutcome::Disabled { reason, removed_prices }
                        && reason@ == reason_text(why)
                        && removed_prices == crate::state::ids_of(v.index, game.fixture_id@).len(),
                    Verdict::Ignore(why) => r matches FixtureOutcome::Ignored { reason } && reason@ == reason_text(why),
                }
            }),
            old(self).index_agrees() ==> final(self).index_agrees(),
            old(self).consistent() ==> final(self).consistent(),
            old(self).ready_when_open() ==> final(self).ready_when_open(),
    {
        if self.freeze {
            return FixtureOutcome::Frozen;
        }
        match &mut self.state {
            None => FixtureOutcome::NoState,
            Some(state) => {
                let fixture_id = game.fixture_id.clone();
                match engine.validate_game(game) {
                    Decision::Enable(game) => {
                        let ghost v = state.model();
                        let ghost g = game@;
                        state.update_game(fixture_id, game);
                        proof {
                            assert(state.model().prices == v.prices && state.model().index == v.index);
                            if quotes_backed(v) {
                                lemma_backed_update_game(v, fixture_id@, g);
                            }
                        }
                        FixtureOutcome::Updated
                    },
                    Decision::Disable(reason) => {
                        let ghost v = state.model();
                        proof {
                            lemma_well_formed_view(state);
                        }
                        let removed_prices = state.remove_fixture(fixture_id.as_str());
                        assert(state.games() =~= v.games.remove(fixture_id@));
                        assert(state.model() == drop_fixture(v, fixture_id@));
                        proof {
                            lemma_well_formed_view(state);
                            if view_well_formed(v) && quotes_backed(v) {
                                lemma_backed_drop_fixture(v, fixture_id@);
                            }
                        }
                        FixtureOutcome::Disabled { reason, removed_prices }
                    },
                    Decision::Ignore(reason) => FixtureOutcome::Ignored { reason },
                }
            },
        }
    }

    /// Applies an odds update through the engine, quote by quote; returns
    /// each quote's identifier with the engine's verdict on it, in order
    /// (none when there is no state yet).
    pub fn process_odds(&mut self, engine: &Engine, payload: OddsPayload) -> (r: Vec<(String, Verdict)>)
        ensures
            final(self).frozen() == old(self).frozen(),
            old(self).frozen() ==> final(self).current() == old(self).current() && r@.len() == 0,
            !old(self).frozen() && old(self).current() is None ==> final(self).current() is None && r@.len() == 0,
            !old(self).frozen() ==> (old(self).current() matches Some(v) ==> outcomes_view(r@) == live_group_verdicts(
                v,
                payload.fixture_id,
                payload.odds@,
            )),
            !old(self).frozen() ==> (old(self).current() matches Some(v) ==> final(self).current() == Some(
                live_groups(v, payload.fixture_id, payload.odds@),
            )),
            old(self).index_agrees() ==> final(self).index_agrees(),
            old(self).consistent() ==> final(self).consistent(),
            old(self).ready_when_open() ==> final(self).ready_when_open(),
    {
        let mut out: Vec<(String, Verdict)> = Vec::new();
        if self.freeze {
            return out;
        }
        match &mut self.state {
            None => {},
            Some(state) => {
                proof {
                    lemma_well_formed_view(state);
                }
                apply_live_groups(engine, state, &payload.fixture_id, payload.odds, &mut out);
                proof {
                    lemma_well_formed_view(state);
                }
                assert(outcomes_view(out@) =~= live_group_verdicts(old(self).current()->0, payload.fixture_id, payload.odds@));
            },
        }
        out
    }

    /// Applies a bookmaker update through the engine, bookmaker by bookmaker;
    /// returns each bookmaker with the engine's verdict on it, in order (none
    /// when there is no state yet).
    pub fn process_bookmakers(&mut self, engine: &Engine, payload: BookmakersPayload) -> (r: Vec<(String, Verdict)>)
        ensures
            final(self).frozen() == old(self).frozen(),
            old(self).frozen() ==> final(self).current() == old(self).current() && r@.len() == 0,
            !old(self).frozen() && old(self).current() is None ==> final(self).current() is None && r@.len() == 0,
            !old(self).frozen() ==> (old(self).current() matches Some(v) ==> outcomes_view(r@) == live_bookmaker_verdicts(
                v,
                payload.fixture_id,
                payload.bookmakers@,
            )),
            !old(self).frozen() ==> (old(self).current() matches Some(v) ==> final(self).current() == Some(
                live_bookmakers(v, payload.fixture_id, payload.bookmakers@),
            )),
            old(self).index_agrees() ==> final(self).index_agrees(),
            old(self).consistent() ==> final(self).consistent(),
            old(self).ready_when_open() ==> final(self).ready_when_open(),
    {
        let mut out: Vec<(String, Verdict)> = Vec::new();
        if self.freeze {
            return out;
        }
        match &mut self.state {
            None => {},
            Some(state) => {
                proof {
                    lemma_well_formed_view(state);
                }
                apply_live_bookmakers(engine, state, &payload.fixture_id, payload.bookmakers, &mut out);
                proof {
                    lemma_well_formed_view(state);
                }
                assert(outcomes_view(out@) =~= live_bookmaker_verdicts(old(self).current()->0, payload.fixture_id, payload.bookmakers@));
            },
        }
        out
    }
}

fn apply_live_quotes(
    engine: &Engine,
    state: &mut State,
    fixture_id: &String,
    quotes: Vec<(String, Quote)>,
    out: &mut Vec<(String, Verdict)>,
)
    ensures
        outcomes_view(final(out)@) == outcomes_view(old(out)@) + live_quote_verdicts(old(state).model(), *fixture_id, quotes@),
        final(state).model() == live_quotes(old(state).model(), *fixture_id, quotes@),
        old(state).well_formed() ==> final(state).well_formed(),
        old(state).well_formed() && quotes_backed(old(state).model()) ==> final(state).well_formed()
            && quotes_backed(final(state).model()),
{
    let ghost v0 = state.model();
    let ghost wfa = state.well_formed();
    let ghost wf0 = state.well_formed() && quotes_backed(state.model());
    let ghost qs = quotes@;
    let ghost out0 = outcomes_view(out@);
    assert(qs.take(0) =~= Seq::<(String, Quote)>::empty());
    assert(outcomes_view(out@) =~= out0 + live_quote_verdicts(v0, *fixture_id, qs.take(0)));
    for e in it: quotes
        invariant
            it.seq() == qs,
            outcomes_view(out@) == out0 + live_quote_verdicts(v0, *fixture_id, qs.take(it.index() as int)),
            wfa ==> state.well_formed(),
            wf0 ==> state.well_formed() && quotes_backed(state.model()),
            state.model() == live_quotes(v0, *fixture_id, qs.take(it.index() as int)),
    {
        let ghost i = it.index() as int;
        let ghost before = state.model();
        let (odds_id, quote) = e;
        let fixture_exists = state.matches.contains_key(fixture_id.as_str());
        assert(fixture_exists == before.games.contains_key(fixture_id@));
        let bookmaker_available = match state.matches.get(fixture_id.as_str()) {
            Some(g) => g.bookmakers.contains_key(&quote.bookmaker),
            None => false,
        };
        let current_changed_at = match state.prices.get(odds_id.as_str()) {
            Some(q) => Some(q.changed_at),
            None => None,
        };
        let id_copy = odds_id.clone();
        let input = QuoteInput::new(
            fixture_id.clone(),
            odds_id,
            fixture_exists,
            bookmaker_available,
            current_changed_at,
            quote,
        );
        let ghost checked = input;
        assert(input == quote_input_in(before, *fixture_id, fixture_exists, e.0, e.1));
        let verdict = engine.quote_check(&input);
        let ghost out_before = outcomes_view(out@);
        out.push((id_copy.clone(), verdict));
        assert(outcomes_view(out@) =~= out_before.push((e.0@, verdict)));
        match decide(verdict, input) {
            Decision::Enable(input) => {
                proof {
                    lemma_checked_quote_owner(input);
                }
                state.insert_price(input.fixture_id, input.odds_id, input.quote);
            },
            Decision::Disable(_) => {
                proof {
                    lemma_checked_quote_owner(checked);
                }
                state.remove_price(fixture_id.as_str(), id_copy.as_str());
                assert(state.index() =~= remove_quote(before, fixture_id@, id_copy@).index);
            },
            Decision::Ignore(_) => {},
        }
        assert(qs.take(i + 1).drop_last() =~= qs.take(i));
        assert(qs.take(i + 1).last() == e);
        assert(state.model() == live_quote_step(before, *fixture_id, e));
        assert(live_quotes(v0, *fixture_id, qs.take(i))  == before);
        assert(outcomes_view(out@) =~= out0 + live_quote_verdicts(v0, *fixture_id, qs.take(i + 1)));
        proof {
            if wf0 {
                match quote_verdict(quote_input_in(before, *fixture_id, before.games.contains_key(fixture_id@), e.0, e.1)) {
                    Verdict::Enable => lemma_backed_accept(before, *fixture_id, before.games.contains_key(fixture_id@), e),
                    Verdict::Disable(_) => lemma_backed_remove_quote(before, fixture_id@, e.0@),
                    Verdict::Ignore(_) => {},
                }
            }
        }
    }
    assert(qs.take(qs.len() as int) =~= qs);
}

fn apply_live_groups(
    engine: &Engine,
    state: &mut State,
    fixture_id: &String,
    groups: Vec<(String, Vec<(String, Quote)>)>,
    out: &mut Vec<(String, Verdict)>,
)
    ensures
        outcomes_view(final(out)@) == outcomes_view(old(out)@) + live_group_verdicts(old(state).model(), *fixture_id, groups@),
        final(state).model() == live_groups(old(state).model(), *fixture_id, groups@),
        old(state).well_formed() ==> final(state).well_formed(),
        old(state).well_formed() && quotes_backed(old(state).model()) ==> final(state).well_formed()
            && quotes_backed(final(state).model()),
{
    let ghost v0 = state.model();
    let ghost wfa = state.well_formed();
    let ghost wf0 = state.well_formed() && quotes_backed(state.model());
    let ghost gs = groups@;
    let ghost out0 = outcomes_view(out@);
    assert(gs.take(0) =~= Seq::<(String, Vec<(String, Quote)>)>::empty());
    assert(outcomes_view(out@) =~= out0 + live_group_verdicts(v0, *fixture_id, gs.take(0)));
    for e in it: groups
        invariant
            it.seq() == gs,
            outcomes_view(out@) == out0 + live_group_verdicts(v0, *fixture_id, gs.take(it.index() as int)),
            wfa ==> state.well_formed(),
            wf0 ==> state.well_formed() && quotes_backed(state.model()),
            state.model() == live_groups(v0, *fixture_id, gs.take(it.index() as int)),
    {
        let ghost i = it.index() as int;
        let ghost before = state.model();
        let ghost out_before = outcomes_view(out@);
        let (_bookmaker, quotes) = e;
        apply_live_quotes(engine, state, fixture_id, quotes, out);
        assert(gs.take(i + 1).drop_last() =~= gs.take(i));
        assert(gs.take(i + 1).last() == e);
        assert(outcomes_view(out@) =~= out0 + live_group_verdicts(v0, *fixture_id, gs.take(i + 1)));
    }
    assert(gs.take(gs.len() as int) =~= gs);
}

fn apply_live_bookmakers(
    engine: &Engine,
    state: &mut State,
    fixture_id: &String,
    bookmakers: Vec<(String, BookmakerFixtureMeta)>,
    out: &mut Vec<(String, Verdict)>,
)
    ensures
        outcomes_view(final(out)@) == outcomes_view(old(out)@) + live_bookmaker_verdicts(old(state).model(), *fixture_id, bookmakers@),
        final(state).model() == live_bookmakers(old(state).model(), *fixture_id, bookmakers@),
        old(state).well_formed() ==> final(state).well_formed(),
        old(state).well_formed() && quotes_backed(old(state).model()) ==> final(state).well_formed()
            && quotes_backed(final(state).model()),
{
    let ghost v0 = state.model();
    let ghost wfa = state.well_formed();
    let ghost wf0 = state.well_formed() && quotes_backed(state.model());
    let ghost bs = bookmakers@;
    let ghost out0 = outcomes_view(out@);
    assert(bs.take(0) =~= Seq::<(String, BookmakerFixtureMeta)>::empty());
    assert(outcomes_view(out@) =~= out0 + live_bookmaker_verdicts(v0, *fixture_id, bs.take(0)));
    for e in it: bookmakers
        invariant
            it.seq() == bs,
            outcomes_view(out@) == out0 + live_bookmaker_verdicts(v0, *fixture_id, bs.take(it.index() as int)),
            wfa ==> state.well_formed(),
            wf0 ==> state.well_formed() && quotes_backed(state.model()),
            state.model() == live_bookmakers(v0, *fixture_id, bs.take(it.index() as int)),
    {
        let ghost i = it.index() as int;
        let ghost before = state.model();
        let (bookmaker_id, meta) = e;
        let fixture_exists = state.matches.contains_key(fixture_id.as_str());
        let id_copy = bookmaker_id.clone();
        let input = BookmakerInput::new(fixture_id.clone(), bookmaker_id, fixture_exists, meta);
        let verdict = engine.bookmaker_check(&input);
        let ghost out_before = outcomes_view(out@);
        out.push((id_copy.clone(), verdict));
        assert(outcomes_view(out@) =~= out_before.push((e.0@, verdict)));
        match decide(verdict, input) {
            Decision::Enable(input) => {
                state.put_game_bookmaker(fixture_id.as_str(), input.bookmaker_id, input.meta);
            },
            Decision::Disable(_) => {
                state.drop_game_bookmaker(fixture_id.as_str(), &id_copy);
                let ghost mid = state.model();
                state.remove_bookmaker_prices(fixture_id.as_str(), id_copy.as_str());
                assert(state.model() == drop_bookmaker_quotes(mid, fixture_id@, id_copy@));
            },
            Decision::Ignore(_) => {},
        }
        assert(bs.take(i + 1).drop_last() =~= bs.take(i));
        assert(bs.take(i + 1).last() == e);
        assert(state.model() == live_bookmaker_step(before, *fixture_id, e));
        assert(live_bookmakers(v0, *fixture_id, bs.take(i)) == before);
        assert(outcomes_view(out@) =~= out0 + live_bookmaker_verdicts(v0, *fixture_id, bs.take(i + 1)));
        proof {
            if wf0 {
                assert(view_well_formed(before));
                match bookmaker_verdict(before.games.contains_key(fixture_id@), e.1) {
                    Verdict::Enable => lemma_backed_file_bookmaker(before, fixture_id@, e.0@, e.1),
                    Verdict::Disable(_) => lemma_backed_drop_bookmaker(before, fixture_id@, e.0@),
                    Verdict::Ignore(_) => {},
                }
            }
        }
    }
    assert(bs.take(bs.len() as int) =~= bs);
}

/// A live quote never replaces a stored quote with one whose `changedAt` is
/// older.
pub proof fn lemma_live_quote_not_older(v: StateView, f: String, e: (String, Quote))
    ensures
        no_older_quotes(v, live_quote_step(v, f, e)),
{
}

/// A quote enters the state, or changes there, only when the engine enables
/// it; every other stored quote stays as it was or goes.
pub proof fn lemma_live_quote_only_enabled(v: StateView, f: String, e: (String, Quote))
    ensures
        forall|id: Seq<char>| #[trigger] live_quote_step(v, f, e).prices.contains_key(id) ==> {
            ||| v.prices.contains_key(id) && live_quote_step(v, f, e).prices[id] == v.prices[id]
            ||| id == e.0@ && live_quote_step(v, f, e).prices[id] == e.1
                && quote_verdict(quote_input_in(v, f, v.games.contains_key(f@), e.0, e.1)) == Verdict::Enable
        },
{
}

/// A bookmaker update never adds quotes and never changes a stored quote.
pub proof fn lemma_live_bookmaker_keeps_quotes(v: StateView, f: String, e: (String, BookmakerFixtureMeta))
    ensures
        forall|id: Seq<char>| #[trigger] live_bookmaker_step(v, f, e).prices.contains_key(id) ==>
            v.prices.contains_key(id) && live_bookmaker_step(v, f, e).prices[id] == v.prices[id],
{
}

/// When the engine disables a bookmaker of a stored fixture, the bookmaker is
/// no longer filed under the fixture and none of its quotes on that fixture
/// is left.
pub proof fn lemma_live_bookmaker_disable_clears(v: StateView, f: String, e: (String, BookmakerFixtureMeta))
    requires
        view_well_formed(v),
        quotes_backed(v),
        bookmaker_verdict(v.games.contains_key(f@), e.1) is Disable,
    ensures
        quotes_backed(live_bookmaker_step(v, f, e)),
        v.games.contains_key(f@) && !live_bookmaker_step(v, f, e).games[f@].bookmakers.contains_key(e.0@),
        forall|id: Seq<char>| #[trigger] live_bookmaker_step(v, f, e).prices.contains_key(id) ==> !(odds_owner(id)
            == f@ && live_bookmaker_step(v, f, e).prices[id].bookmaker@ == e.0@),
{
    lemma_backed_drop_bookmaker(v, f@, e.0@);
}

/// A live quote that the engine disables, whatever the reason, is gone
/// afterwards: no price is stored under its identifier and no fixture files
/// it. The fixtures and every other quote stay as they were.
pub proof fn lemma_live_quote_disable_removes(v: StateView, f: String, e: (String, Quote))
    requires
        view_well_formed(v),
        quote_verdict(quote_input_in(v, f, v.games.contains_key(f@), e.0, e.1)) is Disable,
    ensures
        !live_quote_step(v, f, e).prices.contains_key(e.0@),
        forall|f2: Seq<char>| #[trigger] live_quote_step(v, f, e).index.contains_key(f2) ==> !live_quote_step(
            v,
            f,
            e,
        ).index[f2].contains(e.0@),
        live_quote_step(v, f, e).games == v.games,
        forall|id: Seq<char>| id != e.0@ ==> (#[trigger] live_quote_step(v, f, e).prices.contains_key(id)
            == v.prices.contains_key(id) && (v.prices.contains_key(id) ==> live_quote_step(v, f, e).prices[id]
            == v.prices[id])),
{
    let input = quote_input_in(v, f, v.games.contains_key(f@), e.0, e.1);
    lemma_checked_quote_owner(input);
    let w = live_quote_step(v, f, e);
    assert forall|f2: Seq<char>| #[trigger] w.index.contains_key(f2) implies !w.index[f2].contains(e.0@) by {
        if f2 != f@ && w.index[f2].contains(e.0@) {
            assert(v.index.contains_key(f2) && v.index[f2].contains(e.0@));
        }
    }
}

/// A live quote that the engine ignores, whatever the reason, leaves the
/// fixtures, the quotes and the index exactly as they were.
pub proof fn lemma_live_quote_ignore_unchanged(v: StateView, f: String, e: (String, Quote))
    requires
        quote_verdict(quote_input_in(v, f, v.games.contains_key(f@), e.0, e.1)) is Ignore,
    ensures
        live_quote_step(v, f, e).games == v.games,
        live_quote_step(v, f, e).prices == v.prices,
        live_quote_step(v, f, e).index == v.index,
{
}

/// A live quote that the engine enables is stored under its identifier and
/// filed under its fixture; the fixtures and every other quote stay as they
/// were.
pub proof fn lemma_live_quote_enable_stores(v: StateView, f: String, e: (String, Quote))
    requires
        quote_verdict(quote_input_in(v, f, v.games.contains_key(f@), e.0, e.1)) is Enable,
    ensures
        live_quote_step(v, f, e).prices.contains_key(e.0@),
        live_quote_step(v, f, e).prices[e.0@] == e.1,
        live_quote_step(v, f, e).index.contains_key(f@),
        live_quote_step(v, f, e).index[f@].contains(e.0@),
        live_quote_step(v, f, e).games == v.games,
        forall|id: Seq<char>| id != e.0@ ==> (#[trigger] live_quote_step(v, f, e).prices.contains_key(id)
            == v.prices.contains_key(id) && (v.prices.contains_key(id) ==> live_quote_step(v, f, e).prices[id]
            == v.prices[id])),
{
}

/// A live bookmaker that the engine enables is filed under its stored
/// fixture with the given metadata; the quotes and the index are untouched,
/// and every other fixture, and every other field of this one, stays as it
/// was.
pub proof fn lemma_live_bookmaker_enable_files(v: StateView, f: String, e: (String, BookmakerFixtureMeta))
    requires
        bookmaker_verdict(v.games.contains_key(f@), e.1) is Enable,
    ensures
        live_bookmaker_step(v, f, e).prices == v.prices,
        live_bookmaker_step(v, f, e).index == v.index,
        v.games.contains_key(f@),
        live_bookmaker_step(v, f, e).games.dom() == v.games.dom(),
        live_bookmaker_step(v, f, e).games[f@].bookmakers == v.games[f@].bookmakers.insert(e.0@, e.1),
        live_bookmaker_step(v, f, e).games[f@] == (GameView {
            bookmakers: v.games[f@].bookmakers.insert(e.0@, e.1),
            ..v.games[f@]
        }),
        forall|f2: Seq<char>| f2 != f@ && #[trigger] v.games.contains_key(f2) ==> live_bookmaker_step(v, f, e).games[f2]
            == v.games[f2],
{
    assert(live_bookmaker_step(v, f, e).games.dom() =~= v.games.dom());
}

/// A live bookmaker that the engine ignores leaves the state as it was.
pub proof fn lemma_live_bookmaker_ignore_unchanged(v: StateView, f: String, e: (String, BookmakerFixtureMeta))
    requires
        bookmaker_verdict(v.games.contains_key(f@), e.1) is Ignore,
    ensures
        live_bookmaker_step(v, f, e) == v,
{
}

/// A live fixture update that the engine ignores leaves the state as it
/// was; one that it enables stores the new fixture data with the bookmakers
/// already accepted on the fixture (none for a new fixture), and leaves the
/// quotes, the index and every other fixture as they were.
pub proof fn lemma_live_fixture_law(v: StateView, sport_ids: Seq<u8>, g: Game)
    ensures
        game_verdict(sport_ids, g.sport.sport_id, g.status.status_id) is Ignore ==> live_fixture_step(v, sport_ids, g)
            == v,
        game_verdict(sport_ids, g.sport.sport_id, g.status.status_id) is Enable ==> {
            let w = live_fixture_step(v, sport_ids, g);
            &&& w.prices == v.prices
            &&& w.index == v.index
            &&& w.games.contains_key(g.fixture_id@)
            &&& w.games[g.fixture_id@] == (GameView {
                bookmakers: if v.games.contains_key(g.fixture_id@) {
                    v.games[g.fixture_id@].bookmakers
                } else {
                    Map::empty()
                },
                ..g@
            })
            &&& forall|f2: Seq<char>| f2 != g.fixture_id@ ==> #[trigger] w.games.contains_key(f2) == v.games.contains_key(f2)
                && (v.games.contains_key(f2) ==> w.games[f2] == v.games[f2])
        },
{
}

/// When the engine disables a fixture, no quote that names it is left.
pub proof fn lemma_live_fixture_disable_clears(v: StateView, sport_ids: Seq<u8>, g: Game)
    requires
        view_well_formed(v),
        game_verdict(sport_ids, g.sport.sport_id, g.status.status_id) is Disable,
    ensures
        view_well_formed(live_fixture_step(v, sport_ids, g)),
        !live_fixture_step(v, sport_ids, g).games.contains_key(g.fixture_id@),
        forall|id: Seq<char>| #[trigger] live_fixture_step(v, sport_ids, g).prices.contains_key(id)
            ==> odds_owner(id) != g.fixture_id@,
{
    let w = live_fixture_step(v, sport_ids, g);
    let f = g.fixture_id@;
    lemma_remove_keys_finite(v.prices, ids_of(v.index, f));
    assert forall|id: Seq<char>| #[trigger] w.prices.contains_key(id) implies odds_owner(id) != f by {
        assert(v.prices.contains_key(id));
        if odds_owner(id) == f {
            assert(v.index[f].contains(id));
            assert(ids_of(v.index, f).contains(id));
        }
    }
    assert forall|f2: Seq<char>, id: Seq<char>|
        #![trigger w.index[f2].contains(id)]
        w.index.contains_key(f2) && w.index[f2].contains(id) implies w.prices.contains_key(id) && odds_owner(id) == f2 by {
        assert(v.index[f2].contains(id));
        assert(!ids_of(v.index, f).contains(id));
    }
}

} // verus!
