//! Building the initial state from the REST snapshot: the fixtures that the
//! engine enables, then for each priced fixture its bookmakers and quotes,
//! each through the engine.
use vstd::prelude::*;
use vstd::hash_map::StringHashMap;
use crate::risk::{
    bookmaker_verdict, decision_agrees, quote_verdict, game_verdict, odds_id_problem, BookmakerInput,
    Decision, Engine, QuoteInput, Verdict,
};
use crate::keyed::KeyedVec;
use crate::state::{
    drop_bookmaker, drop_bookmaker_quotes, file_bookmaker, ids_of, lemma_backed_drop_bookmaker,
    lemma_backed_file_bookmaker, odds_owner, quotes_backed, view_well_formed, with_bookmaker, State, StateView,
};
use crate::text::split_colon;
use crate::types::{BookmakerFixtureMeta, Game, GameView, MatchPrice, Quote};

verus! {

/// The quote check for quote `q` under identifier `id` of fixture `f`, given
/// what the state `v` holds and whether the fixture was known.
pub open spec fn quote_input_in(v: StateView, f: String, exists: bool, id: String, q: Quote) -> QuoteInput {
    QuoteInput {
        fixture_id: f,
        odds_id: id,
        fixture_exists: exists,
        bookmaker_available: v.games.contains_key(f@) && v.games[f@].bookmakers.contains_key(q.bookmaker@),
        current_changed_at: if v.prices.contains_key(id@) {
            Some(v.prices[id@].changed_at)
        } else {
            None
        },
        quote: q,
    }
}

/// Accepting a quote: it is filed under its fixture and stored.
pub open spec fn accept_quote(v: StateView, f: Seq<char>, id: Seq<char>, q: Quote) -> StateView {
    StateView { prices: v.prices.insert(id, q), index: v.index.insert(f, ids_of(v.index, f).insert(id)), ..v }
}

/// One snapshot quote: stored if the engine enables it, else dropped.
pub open spec fn snapshot_quote_step(v: StateView, f: String, exists: bool, e: (String, Quote)) -> StateView {
    if quote_verdict(quote_input_in(v, f, exists, e.0, e.1)) == Verdict::Enable {
        accept_quote(v, f@, e.0@, e.1)
    } else {
        v
    }
}

/// The snapshot quotes of one bookmaker group, in order.
pub open spec fn snapshot_quotes(v: StateView, f: String, exists: bool, qs: Seq<(String, Quote)>) -> StateView
    decreases qs.len(),
{
    if qs.len() == 0 {
        v
    } else {
        snapshot_quote_step(snapshot_quotes(v, f, exists, qs.drop_last()), f, exists, qs.last())
    }
}

/// The bookmaker groups of one fixture, in order.
pub open spec fn snapshot_groups(
    v: StateView,
    f: String,
    exists: bool,
    gs: Seq<(String, Vec<(String, Quote)>)>,
) -> StateView
    decreases gs.len(),
{
    if gs.len() == 0 {
        v
    } else {
        snapshot_quotes(snapshot_groups(v, f, exists, gs.drop_last()), f, exists, gs.last().1@)
    }
}

/// One snapshot bookmaker: filed under the fixture if the engine enables it;
/// if the engine disables it, dropped from the fixture together with the
/// quotes it has there; if ignored, nothing changes.
pub open spec fn snapshot_bookmaker_step(
    v: StateView,
    f: String,
    exists: bool,
    e: (String, BookmakerFixtureMeta),
) -> StateView {
    match bookmaker_verdict(exists, e.1) {
        Verdict::Enable => file_bookmaker(v, f@, e.0@, e.1),
        Verdict::Disable(_) => drop_bookmaker(v, f@, e.0@),
        Verdict::Ignore(_) => v,
    }
}

/// The snapshot bookmakers of one fixture, in order.
pub open spec fn snapshot_bookmakers(
    v: StateView,
    f: String,
    exists: bool,
    bs: Seq<(String, BookmakerFixtureMeta)>,
) -> StateView
    decreases bs.len(),
{
    if bs.len() == 0 {
        v
    } else {
        snapshot_bookmaker_step(snapshot_bookmakers(v, f, exists, bs.drop_last()), f, exists, bs.last())
    }
}

/// One priced fixture: whether its fixture is known is read first, then its
/// bookmakers are taken, then its quotes.
pub open spec fn snapshot_match(v: StateView, mp: MatchPrice) -> StateView {
    let exists = v.games.contains_key(mp.fixture_id@);
    snapshot_groups(
        snapshot_bookmakers(v, mp.fixture_id, exists, mp.bookmakers@),
        mp.fixture_id,
        exists,
        mp.odds@,
    )
}

/// All priced fixtures, in order.
pub open spec fn snapshot_matches(v: StateView, mps: Seq<MatchPrice>) -> StateView
    decreases mps.len(),
{
    if mps.len() == 0 {
        v
    } else {
        snapshot_match(snapshot_matches(v, mps.drop_last()), mps.last())
    }
}

/// A fixture with no bookmaker filed under it: bookmakers enter only through
/// the engine.
pub open spec fn without_bookmakers(g: GameView) -> GameView {
    GameView { bookmakers: Map::empty(), ..g }
}

/// The fixtures by identifier, each without bookmakers; a later fixture
/// replaces an earlier one with the same identifier.
pub open spec fn games_by_id(games: Seq<Game>) -> Map<Seq<char>, GameView>
    decreases games.len(),
{
    if games.len() == 0 {
        Map::empty()
    } else {
        games_by_id(games.drop_last()).insert(games.last().fixture_id@, without_bookmakers(games.last()@))
    }
}

/// The state that the snapshot builds from the active fixtures and the
/// priced fixtures.
pub open spec fn snapshot_state(active: Seq<Game>, priced: Seq<MatchPrice>) -> StateView {
    snapshot_matches(
        StateView { games: games_by_id(active), prices: Map::empty(), index: Map::empty() },
        priced,
    )
}

/// A quote that the engine enables or disables passed the identifier checks,
/// so it names its own fixture.
pub proof fn lemma_checked_quote_owner(input: QuoteInput)
    requires
        quote_verdict(input) is Enable || quote_verdict(input) is Disable,
    ensures
        odds_owner(input.odds_id@) == input.fixture_id@,
{
    assert(odds_id_problem(input.fixture_id@, input.odds_id@, input.quote) is None);
    assert(split_colon(input.odds_id@).len() == 4);
}

/// A quote that the engine enables names its fixture and its own bookmaker,
/// both stored, so accepting it keeps every stored quote backed.
pub proof fn lemma_backed_accept(v: StateView, f: String, exists: bool, e: (String, Quote))
    requires
        quotes_backed(v),
        quote_verdict(quote_input_in(v, f, exists, e.0, e.1)) == Verdict::Enable,
    ensures
        quotes_backed(accept_quote(v, f@, e.0@, e.1)),
{
    let input = quote_input_in(v, f, exists, e.0, e.1);
    lemma_checked_quote_owner(input);
    assert(odds_id_problem(f@, e.0@, e.1) is None);
}

fn apply_snapshot_quotes(engine: &Engine, state: &mut State, fixture_id: &String, exists: bool, quotes: Vec<(String, Quote)>)
    requires
        old(state).well_formed(),
        quotes_backed(old(state).model()),
    ensures
        final(state).well_formed(),
        quotes_backed(final(state).model()),
        final(state).model() == snapshot_quotes(old(state).model(), *fixture_id, exists, quotes@),
{
    let ghost v0 = state.model();
    let ghost qs = quotes@;
    assert(qs.take(0) =~= Seq::<(String, Quote)>::empty());
    for e in it: quotes
        invariant
            it.seq() == qs,
            state.well_formed(),
            quotes_backed(state.model()),
            state.model() == snapshot_quotes(v0, *fixture_id, exists, qs.take(it.index() as int)),
    {
        let ghost i = it.index() as int;
        let ghost before = state.model();
        let (odds_id, quote) = e;
        let bookmaker_available = match state.matches.get(fixture_id.as_str()) {
            Some(g) => g.bookmakers.contains_key(&quote.bookmaker),
            None => false,
        };
        let current_changed_at = match state.prices.get(odds_id.as_str()) {
            Some(q) => Some(q.changed_at),
            None => None,
        };
        let input = QuoteInput::new(
            fixture_id.clone(),
            odds_id,
            exists,
            bookmaker_available,
            current_changed_at,
            quote,
        );
        assert(input == quote_input_in(before, *fixture_id, exists, e.0, e.1));
        match engine.validate_quote(input) {
            Decision::Enable(input) => {
                proof {
                    lemma_checked_quote_owner(input);
                }
                state.insert_price(input.fixture_id, input.odds_id, input.quote);
            },
            _ => {},
        }
        assert(qs.take(i + 1).drop_last() =~= qs.take(i));
        assert(qs.take(i + 1).last() == e);
        assert(state.model() == snapshot_quote_step(before, *fixture_id, exists, e));
        proof {
            if quote_verdict(quote_input_in(before, *fixture_id, exists, e.0, e.1)) == Verdict::Enable {
                lemma_backed_accept(before, *fixture_id, exists, e);
            }
        }
    }
    assert(qs.take(qs.len() as int) =~= qs);
}

fn apply_snapshot_groups(
    engine: &Engine,
    state: &mut State,
    fixture_id: &String,
    exists: bool,
    groups: Vec<(String, Vec<(String, Quote)>)>,
)
    requires
        old(state).well_formed(),
        quotes_backed(old(state).model()),
    ensures
        final(state).well_formed(),
        quotes_backed(final(state).model()),
        final(state).model() == snapshot_groups(old(state).model(), *fixture_id, exists, groups@),
{
    let ghost v0 = state.model();
    let ghost gs = groups@;
    assert(gs.take(0) =~= Seq::<(String, Vec<(String, Quote)>)>::empty());
    for e in it: groups
        invariant
            it.seq() == gs,
            state.well_formed(),
            quotes_backed(state.model()),
            state.model() == snapshot_groups(v0, *fixture_id, exists, gs.take(it.index() as int)),
    {
        let ghost i = it.index() as int;
        let ghost before = state.model();
        let (_bookmaker, quotes) = e;
        apply_snapshot_quotes(engine, state, fixture_id, exists, quotes);
        assert(gs.take(i + 1).drop_last() =~= gs.take(i));
        assert(gs.take(i + 1).last() == e);
    }
    assert(gs.take(gs.len() as int) =~= gs);
}

fn apply_snapshot_bookmakers(
    engine: &Engine,
    state: &mut State,
    fixture_id: &String,
    exists: bool,
    bookmakers: Vec<(String, BookmakerFixtureMeta)>,
)
    requires
        old(state).well_formed(),
        quotes_backed(old(state).model()),
    ensures
        final(state).well_formed(),
        quotes_backed(final(state).model()),
        final(state).model() == snapshot_bookmakers(old(state).model(), *fixture_id, exists, bookmakers@),
{
    let ghost v0 = state.model();
    let ghost bs = bookmakers@;
    assert(bs.take(0) =~= Seq::<(String, BookmakerFixtureMeta)>::empty());
    for e in it: bookmakers
        invariant
            it.seq() == bs,
            state.well_formed(),
            quotes_backed(state.model()),
            state.model() == snapshot_bookmakers(v0, *fixture_id, exists, bs.take(it.index() as int)),
    {
        let ghost i = it.index() as int;
        let ghost before = state.model();
        assert(view_well_formed(before));
        let (bookmaker_id, meta) = e;
        let id_copy = bookmaker_id.clone();
        let input = BookmakerInput::new(fixture_id.clone(), bookmaker_id, exists, meta);
        match engine.validate_bookmaker(input) {
            Decision::Enable(input) => {
                state.put_game_bookmaker(fixture_id.as_str(), input.bookmaker_id, input.meta);
            },
            Decision::Disable(_) => {
                state.drop_game_bookmaker(fixture_id.as_str(), &id_copy);
                let ghost mid = state.model();
                state.remove_bookmaker_prices(fixture_id.as_str(), id_copy.as_str());
                assert(state.model() == drop_bookmaker_quotes(mid, fixture_id@, id_copy@));
            },
            Decision::Ignore(_) => {},
        }
        assert(bs.take(i + 1).drop_last() =~= bs.take(i));
        assert(bs.take(i + 1).last() == e);
        assert(state.model() == snapshot_bookmaker_step(before, *fixture_id, exists, e));
        proof {
            match bookmaker_verdict(exists, e.1) {
                Verdict::Enable => lemma_backed_file_bookmaker(before, fixture_id@, e.0@, e.1),
                Verdict::Disable(_) => lemma_backed_drop_bookmaker(before, fixture_id@, e.0@),
                Verdict::Ignore(_) => {},
            }
        }
    }
    assert(bs.take(bs.len() as int) =~= bs);
}

/// Takes one priced fixture of the snapshot into the state.
pub fn apply_match_price(engine: &Engine, state: &mut State, match_price: MatchPrice)
    requires
        old(state).well_formed(),
        quotes_backed(old(state).model()),
    ensures
        final(state).well_formed(),
        quotes_backed(final(state).model()),
        final(state).model() == snapshot_match(old(state).model(), match_price),
{
    let exists = state.matches.contains_key(match_price.fixture_id.as_str());
    let fixture_id = match_price.fixture_id;
    apply_snapshot_bookmakers(engine, state, &fixture_id, exists, match_price.bookmakers);
    apply_snapshot_groups(engine, state, &fixture_id, exists, match_price.odds);
}

/// Builds the state from the active fixtures and the priced fixtures of the
/// snapshot: the fixtures by identifier, then each priced fixture's enabled
/// bookmakers and enabled quotes, in order. Every quote it keeps has its
/// fixture stored and its bookmaker filed under that fixture.
pub fn filter_odds(engine: &Engine, active_matches: Vec<Game>, match_odds: Vec<MatchPrice>) -> (r: State)
    ensures
        r.well_formed(),
        quotes_backed(r.model()),
        r.model() == snapshot_state(active_matches@, match_odds@),
{
    let mut state = State::new(StringHashMap::new(), StringHashMap::new(), StringHashMap::new());
    let ghost gs = active_matches@;
    assert(gs.take(0) =~= Seq::<Game>::empty());
    assert(state.index() =~= Map::<Seq<char>, Set<Seq<char>>>::empty());
    assert(state.games() =~= Map::<Seq<char>, GameView>::empty());
    for game in it: active_matches
        invariant
            it.seq() == gs,
            state.games() == games_by_id(gs.take(it.index() as int)),
            state.prices@ == Map::<Seq<char>, Quote>::empty(),
            state.index() == Map::<Seq<char>, Set<Seq<char>>>::empty(),
    {
        let ghost i = it.index() as int;
        let ghost g0 = game;
        let fixture_id = game.fixture_id.clone();
        let mut game = game;
        game.bookmakers = KeyedVec::new();
        assert(game@ =~= without_bookmakers(g0@));
        state.put_game(fixture_id, game);
        assert(gs.take(i + 1).drop_last() =~= gs.take(i));
        assert(gs.take(i + 1).last() == g0);
    }
    assert(gs.take(gs.len() as int) =~= gs);
    let ghost v0 = state.model();
    let ghost ms = match_odds@;
    assert(ms.take(0) =~= Seq::<MatchPrice>::empty());
    for match_price in it: match_odds
        invariant
            it.seq() == ms,
            state.well_formed(),
            quotes_backed(state.model()),
            state.model() == snapshot_matches(v0, ms.take(it.index() as int)),
    {
        let ghost i = it.index() as int;
        apply_match_price(engine, &mut state, match_price);
        assert(ms.take(i + 1).drop_last() =~= ms.take(i));
        assert(ms.take(i + 1).last() == match_price);
    }
    assert(ms.take(ms.len() as int) =~= ms);
    state
}

/// Whether the engine enables a fixture.
pub open spec fn game_enabled(sport_ids: Seq<u8>, g: Game) -> bool {
    game_verdict(sport_ids, g.sport.sport_id, g.status.status_id) == Verdict::Enable
}

/// The fixtures of the snapshot that the engine enables (configured sports,
/// pregame or live), in order.
pub fn active_games(engine: &Engine, snapshot: Vec<Game>) -> (r: Vec<Game>)
    ensures
        r@ == snapshot@.filter(|g: Game| game_enabled(engine@, g)),
{
    let ghost gs = snapshot@;
    let ghost pred = |g: Game| game_enabled(engine@, g);
    let mut active: Vec<Game> = Vec::new();
    assert(gs.take(0).filter(pred) =~= Seq::<Game>::empty());
    for game in it: snapshot
        invariant
            it.seq() == gs,
            pred == (|g: Game| game_enabled(engine@, g)),
            active@ == gs.take(it.index() as int).filter(pred),
    {
        let ghost i = it.index() as int;
        proof {
            reveal_with_fuel(Seq::<_>::filter, 1);
        }
        assert(gs.take(i + 1).drop_last() =~= gs.take(i));
        assert(gs.take(i + 1).last() == game);
        let ghost g = game;
        match engine.validate_game(game) {
            Decision::Enable(game) => {
                active.push(game);
            },
            _ => {},
        }
        assert(active@ =~= gs.take(i + 1).filter(pred));
    }
    assert(gs.take(gs.len() as int) =~= gs);
    active
}

/// The identifiers of the given fixtures, in order.
pub fn fixture_ids(games: &Vec<Game>) -> (r: Vec<String>)
    ensures
        r@ == games@.map_values(|g: Game| g.fixture_id),
{
    let mut ids: Vec<String> = Vec::new();
    let mut i: usize = 0;
    while i < games.len()
        invariant
            i <= games@.len(),
            ids@ == games@.take(i as int).map_values(|g: Game| g.fixture_id),
        decreases games@.len() - i,
    {
        ids.push(games[i].fixture_id.clone());
        assert(games@.take(i + 1).map_values(|g: Game| g.fixture_id) =~= games@.take(i as int).map_values(
            |g: Game| g.fixture_id,
        ).push(games@[i as int].fixture_id));
        i = i + 1;
    }
    assert(games@.take(games@.len() as int) =~= games@);
    ids
}

/// How many fixtures one odds request may name.
pub const ODDS_CHUNK: usize = 200;

/// The ranges `[start, end)` in which `n` fixtures are asked for: consecutive
/// ranges of `ODDS_CHUNK` fixtures, the last one possibly shorter.
pub open spec fn chunk_ranges(n: nat) -> Seq<(usize, usize)> {
    Seq::new(
        ((n as int + ODDS_CHUNK as int - 1) / (ODDS_CHUNK as int)) as nat,
        |k: int| ((k * ODDS_CHUNK as int) as usize, (if (k + 1) * ODDS_CHUNK as int <= n { (k + 1) * ODDS_CHUNK as int } else { n as int }) as usize),
    )
}

/// The ranges in which `n` fixtures are asked for.
pub fn odds_chunks(n: usize) -> (r: Vec<(usize, usize)>)
    ensures
        r@ == chunk_ranges(n as nat),
{
    let mut r: Vec<(usize, usize)> = Vec::new();
    let mut start: usize = 0;
    while start < n
        invariant
            start <= n,
            start as int == (if r@.len() * 200 <= n { (r@.len() * 200) as int } else { n as int }),
            r@.len() == 0 || (r@.len() - 1) * 200 < n,
            forall|k: int| 0 <= k < r@.len() ==> #[trigger] r@[k] == ((k * 200) as usize, (if (k + 1) * 200 <= n { (k + 1) * 200 } else { n as int }) as usize),
        decreases n - start,
    {
        let end = if n - start > ODDS_CHUNK { start + ODDS_CHUNK } else { n };
        let ghost k = r@.len() as int;
        assert(start as int == k * 200);
        r.push((start, end));
        start = end;
    }
    let ghost len = r@.len() as int;
    proof {
        assert((n as int + 199) / 200 == len) by (nonlinear_arith)
            requires
                len * 200 >= n,
                len == 0 || (len - 1) * 200 < n,
                n >= 0,
        ;
    }
    assert(r@ =~= chunk_ranges(n as nat));
    r
}

/// Snapshot quotes leave the fixtures as they are.
pub proof fn lemma_snapshot_quotes_keep_games(v: StateView, f: String, exists: bool, qs: Seq<(String, Quote)>)
    ensures
        snapshot_quotes(v, f, exists, qs).games == v.games,
    decreases qs.len(),
{
    if qs.len() > 0 {
        lemma_snapshot_quotes_keep_games(v, f, exists, qs.drop_last());
    }
}

/// Snapshot bookmaker groups leave the fixtures as they are.
pub proof fn lemma_snapshot_groups_keep_games(
    v: StateView,
    f: String,
    exists: bool,
    gs: Seq<(String, Vec<(String, Quote)>)>,
)
    ensures
        snapshot_groups(v, f, exists, gs).games == v.games,
    decreases gs.len(),
{
    if gs.len() > 0 {
        lemma_snapshot_groups_keep_games(v, f, exists, gs.drop_last());
        lemma_snapshot_quotes_keep_games(snapshot_groups(v, f, exists, gs.drop_last()), f, exists, gs.last().1@);
    }
}

/// Snapshot bookmakers add no fixture and remove none.
pub proof fn lemma_snapshot_bookmakers_keep_ids(
    v: StateView,
    f: String,
    exists: bool,
    bs: Seq<(String, BookmakerFixtureMeta)>,
)
    ensures
        snapshot_bookmakers(v, f, exists, bs).games.dom() == v.games.dom(),
    decreases bs.len(),
{
    if bs.len() > 0 {
        lemma_snapshot_bookmakers_keep_ids(v, f, exists, bs.drop_last());
        let w = snapshot_bookmakers(v, f, exists, bs.drop_last());
        if w.games.contains_key(f@) {
            assert(w.games.insert(f@, with_bookmaker(w.games[f@], bs.last().0@, bs.last().1)).dom() =~= w.games.dom());
        }
    }
}

/// The snapshot holds exactly the active fixtures: the priced fixtures add
/// bookmakers to them, never fixtures.
pub proof fn lemma_snapshot_fixtures(active: Seq<Game>, priced: Seq<MatchPrice>)
    ensures
        snapshot_state(active, priced).games.dom() == games_by_id(active).dom(),
    decreases priced.len(),
{
    if priced.len() > 0 {
        lemma_snapshot_fixtures(active, priced.drop_last());
        let v = snapshot_state(active, priced.drop_last());
        let mp = priced.last();
        let exists = v.games.contains_key(mp.fixture_id@);
        lemma_snapshot_bookmakers_keep_ids(v, mp.fixture_id, exists, mp.bookmakers@);
        lemma_snapshot_groups_keep_games(
            snapshot_bookmakers(v, mp.fixture_id, exists, mp.bookmakers@),
            mp.fixture_id,
            exists,
            mp.odds@,
        );
        assert(snapshot_state(active, priced) == snapshot_match(v, mp));
    }
}

/// A snapshot quote that the engine does not enable leaves the state as it
/// was; one that it enables is stored under its identifier and filed under
/// its fixture, with the fixtures and every other quote as they were.
pub proof fn lemma_snapshot_quote_law(v: StateView, f: String, exists: bool, e: (String, Quote))
    ensures
        !(quote_verdict(quote_input_in(v, f, exists, e.0, e.1)) is Enable) ==> snapshot_quote_step(v, f, exists, e)
            == v,
        quote_verdict(quote_input_in(v, f, exists, e.0, e.1)) is Enable ==> {
            let w = snapshot_quote_step(v, f, exists, e);
            &&& w.prices.contains_key(e.0@)
            &&& w.prices[e.0@] == e.1
            &&& w.index.contains_key(f@) && w.index[f@].contains(e.0@)
            &&& w.games == v.games
            &&& forall|id: Seq<char>| id != e.0@ ==> (#[trigger] w.prices.contains_key(id) == v.prices.contains_key(id)
                && (v.prices.contains_key(id) ==> w.prices[id] == v.prices[id]))
        },
{
}

/// A snapshot bookmaker that the engine enables is filed under its stored
/// fixture, with the quotes and the index untouched; one that it ignores
/// leaves the state as it was; one that it disables is no longer filed under
/// the fixture and, in a state whose quotes are backed, none of its quotes on
/// that fixture is left.
pub proof fn lemma_snapshot_bookmaker_law(v: StateView, f: String, exists: bool, e: (String, BookmakerFixtureMeta))
    ensures
        bookmaker_verdict(exists, e.1) is Enable ==> {
            let w = snapshot_bookmaker_step(v, f, exists, e);
            &&& w.prices == v.prices
            &&& w.index == v.index
            &&& w.games.dom() == v.games.dom()
            &&& v.games.contains_key(f@) ==> w.games[f@] == (GameView {
                bookmakers: v.games[f@].bookmakers.insert(e.0@, e.1),
                ..v.games[f@]
            })
            &&& forall|f2: Seq<char>| f2 != f@ && #[trigger] v.games.contains_key(f2) ==> w.games[f2] == v.games[f2]
        },
        bookmaker_verdict(exists, e.1) is Ignore ==> snapshot_bookmaker_step(v, f, exists, e) == v,
        bookmaker_verdict(exists, e.1) is Disable && v.games.contains_key(f@) ==> !snapshot_bookmaker_step(
            v,
            f,
            exists,
            e,
        ).games[f@].bookmakers.contains_key(e.0@),
        bookmaker_verdict(exists, e.1) is Disable && view_well_formed(v) && quotes_backed(v) ==> forall|id: Seq<char>|
            #[trigger] snapshot_bookmaker_step(v, f, exists, e).prices.contains_key(id) ==> !(odds_owner(id) == f@
                && snapshot_bookmaker_step(v, f, exists, e).prices[id].bookmaker@ == e.0@),
{
    let w = snapshot_bookmaker_step(v, f, exists, e);
    if bookmaker_verdict(exists, e.1) is Enable {
        assert(w.games.dom() =~= v.games.dom());
    }
    if bookmaker_verdict(exists, e.1) is Disable && view_well_formed(v) && quotes_backed(v) {
        lemma_backed_drop_bookmaker(v, f@, e.0@);
    }
}

/// A snapshot quote enters the state, or changes there, only when the engine
/// enables it.
pub proof fn lemma_snapshot_quote_only_enabled(v: StateView, f: String, exists: bool, e: (String, Quote))
    ensures
        forall|id: Seq<char>| #[trigger] snapshot_quote_step(v, f, exists, e).prices.contains_key(id) ==> {
            ||| v.prices.contains_key(id) && snapshot_quote_step(v, f, exists, e).prices[id] == v.prices[id]
            ||| id == e.0@ && snapshot_quote_step(v, f, exists, e).prices[id] == e.1
                && quote_verdict(quote_input_in(v, f, exists, e.0, e.1)) == Verdict::Enable
        },
{
}

} // verus!
