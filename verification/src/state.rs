//! The accepted in-memory state: fixtures by identifier, quotes by odds
//! identifier, and for each fixture the set of odds identifiers it owns.
use vstd::prelude::*;
use vstd::hash_map::StringHashMap;
use crate::keyed::{KeyedVec, lemma_take_to_set_step};
use crate::text::{chars_of, has_prefix, joined, lemma_join_split, split_colon, lemma_split_colon_nonempty};
use crate::types::{BookmakerFixtureMeta, Game, GameView, Quote};

verus! {

/// The fixture that an odds identifier names: the text before its first `:`.
pub open spec fn odds_owner(odds_id: Seq<char>) -> Seq<char> {
    split_colon(odds_id)[0]
}

/// The text with which the odds identifiers of bookmaker `b` on fixture `f`
/// begin: `{f}:{b}:`.
pub open spec fn bookmaker_prefix(f: Seq<char>, b: Seq<char>) -> Seq<char> {
    f + seq![':'] + b + seq![':']
}

/// The index after a fixture's set of odds identifiers becomes `kept`: an
/// empty set leaves no entry for the fixture.
pub open spec fn with_fixture_ids(
    index: Map<Seq<char>, Set<Seq<char>>>,
    f: Seq<char>,
    kept: Set<Seq<char>>,
) -> Map<Seq<char>, Set<Seq<char>>> {
    if kept.is_empty() {
        index.remove(f)
    } else {
        index.insert(f, kept)
    }
}

/// The identifiers that `index` files under `f`, or none.
pub open spec fn ids_of(index: Map<Seq<char>, Set<Seq<char>>>, f: Seq<char>) -> Set<Seq<char>> {
    if index.contains_key(f) {
        index[f]
    } else {
        Set::empty()
    }
}

/// What a state holds: fixtures by identifier, quotes by odds identifier,
/// and the odds identifiers filed under each fixture.
pub ghost struct StateView {
    pub games: Map<Seq<char>, GameView>,
    pub prices: Map<Seq<char>, Quote>,
    pub index: Map<Seq<char>, Set<Seq<char>>>,
}

/// The state view's agreement between quotes and index, as `State::well_formed` states it.
pub open spec fn view_well_formed(v: StateView) -> bool {
    &&& forall|f: Seq<char>| #[trigger] v.index.contains_key(f) ==> !v.index[f].is_empty()
    &&& forall|f: Seq<char>, id: Seq<char>|
        #![trigger v.index[f].contains(id)]
        v.index.contains_key(f) && v.index[f].contains(id) ==> v.prices.contains_key(id) && odds_owner(id) == f
    &&& forall|id: Seq<char>| #[trigger] v.prices.contains_key(id) ==> v.index.contains_key(odds_owner(id))
        && v.index[odds_owner(id)].contains(id)
    &&& v.prices.dom().finite()
}

pub struct State {
    pub matches: StringHashMap<Game>,
    pub prices: StringHashMap<Quote>,
    pub odds_by_fixture: StringHashMap<KeyedVec<()>>,
}

impl State {
    /// The fixtures, each taken by its view.
    pub open spec fn games(&self) -> Map<Seq<char>, GameView> {
        self.matches@.map_values(|g: Game| g@)
    }

    /// For each fixture, the odds identifiers filed under it.
    pub open spec fn index(&self) -> Map<Seq<char>, Set<Seq<char>>> {
        self.odds_by_fixture@.map_values(|s: KeyedVec<()>| s@.dom())
    }

    /// Everything the state holds.
    pub open spec fn model(&self) -> StateView {
        StateView { games: self.games(), prices: self.prices@, index: self.index() }
    }

    /// The quotes and the index agree: every fixture in the index files a
    /// non-empty set of identifiers, each of which names that fixture and has
    /// a stored quote, and every stored quote is filed under the fixture that
    /// its identifier names; there are finitely many quotes.
    pub open spec fn well_formed(&self) -> bool {
        &&& forall|f: Seq<char>| #[trigger] self.index().contains_key(f) ==> !self.index()[f].is_empty()
        &&& forall|f: Seq<char>, id: Seq<char>|
            #![trigger self.index()[f].contains(id)]
            self.index().contains_key(f) && self.index()[f].contains(id) ==> self.prices@.contains_key(id)
                && odds_owner(id) == f
        &&& forall|id: Seq<char>| #[trigger] self.prices@.contains_key(id) ==> self.index().contains_key(odds_owner(id))
            && self.index()[odds_owner(id)].contains(id)
        &&& self.prices@.dom().finite()
    }

    pub fn new(
        matches: StringHashMap<Game>,
        prices: StringHashMap<Quote>,
        odds_by_fixture: StringHashMap<KeyedVec<()>>,
    ) -> (r: Self)
        ensures
            r.matches@ == matches@,
            r.prices@ == prices@,
            r.odds_by_fixture@ == odds_by_fixture@,
    {
        State { matches, prices, odds_by_fixture }
    }

    /// Removes a fixture and every quote filed under it; returns how many
    /// quotes were filed under it.
    pub fn remove_fixture(&mut self, fixture_id: &str) -> (removed: usize)
        ensures
            final(self).matches@ == old(self).matches@.remove(fixture_id@),
            final(self).index() == old(self).index().remove(fixture_id@),
            final(self).prices@ == old(self).prices@.remove_keys(ids_of(old(self).index(), fixture_id@)),
            removed == ids_of(old(self).index(), fixture_id@).len(),
            old(self).well_formed() ==> final(self).well_formed(),
            old(self).well_formed() ==> removed == old(self).prices@.len() - final(self).prices@.len(),
            old(self).well_formed() ==> forall|id: Seq<char>| #[trigger] final(self).prices@.contains_key(id)
                ==> odds_owner(id) != fixture_id@,
    {
        self.matches.remove(fixture_id);
        let ghost old_matches = self.matches@;
        let ghost old_odds = self.odds_by_fixture@;
        let ghost old_prices = self.prices@;
        let ghost old_index = self.index();
        let ghost old_wf = self.well_formed();
        let removed = match self.odds_by_fixture.get(fixture_id) {
            None => {
                assert(self.index() =~= old_index.remove(fixture_id@));
                assert(self.prices@ =~= old_prices.remove_keys(Set::empty()));
                return 0;
            },
            Some(ids) => {
                proof {
                    ids.lemma_keys();
                }
                let n = ids.len();
                let mut i: usize = 0;
                assert(ids.keys().take(0).to_set() =~= Set::<Seq<char>>::empty());
                assert(self.prices@ =~= old_prices.remove_keys(Set::empty()));
                while i < n
                    invariant
                        n == ids.keys().len(),
                        i <= n,
                        self.prices@ == old_prices.remove_keys(ids.keys().take(i as int).to_set()),
                        self.matches@ == old_matches,
                        self.odds_by_fixture@ == old_odds,
                    decreases n - i,
                {
                    let id = ids.key_at(i);
                    self.prices.remove(id.as_str());
                    proof {
                        let ks = ids.keys();
                        lemma_take_to_set_step(ks, i as int);
                        assert(self.prices@ =~= old_prices.remove_keys(ks.take(i + 1).to_set()));
                    }
                    i = i + 1;
                }
                proof {
                    assert(ids.keys().take(n as int) =~= ids.keys());
                    assert(old_index[fixture_id@] == ids@.dom());
                    if old_wf {
                        assert forall|k: Seq<char>| #[trigger] ids@.dom().contains(k) implies old_prices.contains_key(k) by {
                            assert(old_index[fixture_id@].contains(k));
                        }
                        old_prices.lemma_remove_keys_len(ids@.dom());
                        lemma_remove_keys_finite(old_prices, ids@.dom());
                    }
                }
                n
            },
        };
        self.odds_by_fixture.remove(fixture_id);
        assert(self.index() =~= old_index.remove(fixture_id@));
        removed
    }

    /// Removes one quote and unfiles it from the fixture's set; a set left
    /// empty is dropped.
    pub fn remove_price(&mut self, fixture_id: &str, odds_id: &str)
        ensures
            final(self).matches@ == old(self).matches@,
            final(self).prices@ == old(self).prices@.remove(odds_id@),
            final(self).index() == (if old(self).index().contains_key(fixture_id@) {
                with_fixture_ids(old(self).index(), fixture_id@, old(self).index()[fixture_id@].remove(odds_id@))
            } else {
                old(self).index()
            }),
            old(self).well_formed() && odds_owner(odds_id@) == fixture_id@ ==> final(self).well_formed(),
    {
        let ghost old_index = self.index();
        self.prices.remove(odds_id);
        let kept = match self.odds_by_fixture.get(fixture_id) {
            Some(ids) => {
                let mut kept = ids.duplicate();
                let id = String::from_str(odds_id);
                kept.remove(&id);
                kept
            },
            None => {
                assert(self.index() =~= old_index);
                return;
            },
        };
        proof {
            kept.lemma_keys();
        }
        if kept.len() == 0 {
            assert(kept@.dom() =~= Set::<Seq<char>>::empty());
            self.odds_by_fixture.remove(fixture_id);
            assert(self.index() =~= old_index.remove(fixture_id@));
        } else {
            self.odds_by_fixture.insert(String::from_str(fixture_id), kept);
            assert(self.index() =~= old_index.insert(fixture_id@, old_index[fixture_id@].remove(odds_id@)));
        }
    }

    /// Removes every quote that bookmaker `bookmaker` has on fixture
    /// `fixture_id`, that is every identifier filed under the fixture that
    /// begins with `{fixture_id}:{bookmaker}:`; a set left empty is dropped.
    pub fn remove_bookmaker_prices(&mut self, fixture_id: &str, bookmaker: &str)
        ensures
            final(self).matches@ == old(self).matches@,
            old(self).index().contains_key(fixture_id@) ==> {
                let ids = old(self).index()[fixture_id@];
                let prefix = bookmaker_prefix(fixture_id@, bookmaker@);
                &&& final(self).prices@ == old(self).prices@.remove_keys(ids.filter(|id: Seq<char>| prefix.is_prefix_of(id)))
                &&& final(self).index() == with_fixture_ids(old(self).index(), fixture_id@,
                    ids.filter(|id: Seq<char>| !prefix.is_prefix_of(id)))
            },
            !old(self).index().contains_key(fixture_id@) ==> final(self).prices@ == old(self).prices@
                && final(self).index() == old(self).index(),
            old(self).well_formed() ==> final(self).well_formed(),
            old(self).well_formed() && !fixture_id@.contains(':') ==> forall|id: Seq<char>|
                #[trigger] final(self).prices@.contains_key(id) ==> !bookmaker_prefix(fixture_id@, bookmaker@).is_prefix_of(id),
    {
        let ghost old_index = self.index();
        let ghost old_prices = self.prices@;
        let ghost old_odds = self.odds_by_fixture@;
        let ghost old_matches = self.matches@;
        let ghost old_self_wf = self.well_formed();
        let mut prefix_text = String::from_str(fixture_id);
        prefix_text.append(":");
        prefix_text.append(bookmaker);
        prefix_text.append(":");
        let prefix = chars_of(prefix_text.as_str());
        proof {
            reveal_strlit(":");
        }
        assert(prefix@ =~= bookmaker_prefix(fixture_id@, bookmaker@));
        let ghost pre = prefix@;
        proof {
            if !fixture_id@.contains(':') {
                assert(pre.subrange(0, fixture_id@.len() as int) =~= fixture_id@);
                assert(pre[fixture_id@.len() as int] == ':');
                assert forall|id: Seq<char>| pre.is_prefix_of(id) implies #[trigger] odds_owner(id) == fixture_id@ by {
                    lemma_owner_of_prefixed(fixture_id@, id, pre);
                }
            }
        }
        let ids = match self.odds_by_fixture.get(fixture_id) {
            Some(ids) => ids,
            None => {
                return;
            },
        };
        proof {
            ids.lemma_keys();
        }
        let ghost all = ids@.dom();
        let ghost ks = ids.keys();
        let mut kept: KeyedVec<()> = KeyedVec::new();
        let n = ids.len();
        let mut i: usize = 0;
        while i < n
            invariant
                n == ks.len(),
                ks == ids.keys(),
                all == ks.to_set(),
                i <= n,
                kept@.dom() == ks.take(i as int).to_set().filter(|id: Seq<char>| !pre.is_prefix_of(id)),
                self.prices@ == old_prices.remove_keys(ks.take(i as int).to_set().filter(|id: Seq<char>| pre.is_prefix_of(id))),
                self.odds_by_fixture@ == old_odds,
                self.matches@ == old_matches,
                prefix@ == pre,
            decreases n - i,
        {
            let id = ids.key_at(i);
            let id_chars = chars_of(id.as_str());
            let ghost cur = ks[i as int];
            let ghost before = ks.take(i as int).to_set();
            proof {
                lemma_take_to_set_step(ks, i as int);
                assert(ks.take(i + 1).to_set() == before.insert(cur));
            }
            if has_prefix(&id_chars, &prefix) {
                self.prices.remove(id.as_str());
                assert(before.insert(cur).filter(|id: Seq<char>| !pre.is_prefix_of(id)) =~= before.filter(|id: Seq<char>| !pre.is_prefix_of(id)));
                assert(before.insert(cur).filter(|id: Seq<char>| pre.is_prefix_of(id)) =~= before.filter(|id: Seq<char>| pre.is_prefix_of(id)).insert(cur));
                assert(kept@.dom() =~= ks.take(i + 1).to_set().filter(|id: Seq<char>| !pre.is_prefix_of(id)));
                assert(self.prices@ =~= old_prices.remove_keys(ks.take(i + 1).to_set().filter(|id: Seq<char>| pre.is_prefix_of(id))));
            } else {
                kept.insert(id.clone(), ());
                assert(before.insert(cur).filter(|id: Seq<char>| !pre.is_prefix_of(id)) =~= before.filter(|id: Seq<char>| !pre.is_prefix_of(id)).insert(cur));
                assert(before.insert(cur).filter(|id: Seq<char>| pre.is_prefix_of(id)) =~= before.filter(|id: Seq<char>| pre.is_prefix_of(id)));
                assert(kept@.dom() =~= ks.take(i + 1).to_set().filter(|id: Seq<char>| !pre.is_prefix_of(id)));
                assert(self.prices@ =~= old_prices.remove_keys(ks.take(i + 1).to_set().filter(|id: Seq<char>| pre.is_prefix_of(id))));
            }
            i = i + 1;
        }
        assert(ks.take(n as int) =~= ks);
        proof {
            kept.lemma_keys();
        }
        if kept.len() == 0 {
            assert(kept@.dom() =~= Set::<Seq<char>>::empty());
            self.odds_by_fixture.remove(fixture_id);
            assert(self.index() =~= old_index.remove(fixture_id@));
        } else {
            self.odds_by_fixture.insert(String::from_str(fixture_id), kept);
            assert(self.index() =~= old_index.insert(fixture_id@, kept@.dom()));
        }
        proof {
            let kept_ids = all.filter(|id: Seq<char>| !pre.is_prefix_of(id));
            let dropped = all.filter(|id: Seq<char>| pre.is_prefix_of(id));
            assert(self.index() == with_fixture_ids(old_index, fixture_id@, kept_ids));
            assert(self.prices@ == old_prices.remove_keys(dropped));
            assert(old_index[fixture_id@] == all);
            if old_self_wf {
                lemma_remove_keys_finite(old_prices, dropped);
                assert forall|f: Seq<char>, id: Seq<char>|
                    #![trigger self.index()[f].contains(id)]
                    self.index().contains_key(f) && self.index()[f].contains(id) implies self.prices@.contains_key(id)
                        && odds_owner(id) == f by {
                    if f == fixture_id@ {
                        assert(kept_ids.contains(id));
                        assert(old_index[f].contains(id));
                    } else {
                        assert(old_index[f].contains(id));
                        assert(!dropped.contains(id));
                    }
                }
                assert forall|id: Seq<char>| #[trigger] self.prices@.contains_key(id) implies self.index().contains_key(odds_owner(id))
                    && self.index()[odds_owner(id)].contains(id) by {
                    assert(old_prices.contains_key(id));
                    assert(old_index[odds_owner(id)].contains(id));
                    if odds_owner(id) == fixture_id@ {
                        assert(!dropped.contains(id));
                        assert(kept_ids.contains(id));
                    }
                }
            }
        }
    }
}

/// Removing one quote and unfiling it from fixture `f`.
pub open spec fn remove_quote(v: StateView, f: Seq<char>, id: Seq<char>) -> StateView {
    StateView {
        prices: v.prices.remove(id),
        index: if v.index.contains_key(f) {
            with_fixture_ids(v.index, f, v.index[f].remove(id))
        } else {
            v.index
        },
        ..v
    }
}

/// Removing fixture `f` with every quote filed under it.
pub open spec fn drop_fixture(v: StateView, f: Seq<char>) -> StateView {
    StateView {
        games: v.games.remove(f),
        prices: v.prices.remove_keys(ids_of(v.index, f)),
        index: v.index.remove(f),
    }
}

/// Removing the quotes of bookmaker `b` filed under fixture `f`.
pub open spec fn drop_bookmaker_quotes(v: StateView, f: Seq<char>, b: Seq<char>) -> StateView {
    if v.index.contains_key(f) {
        let ids = v.index[f];
        let prefix = bookmaker_prefix(f, b);
        StateView {
            prices: v.prices.remove_keys(ids.filter(|id: Seq<char>| prefix.is_prefix_of(id))),
            index: with_fixture_ids(v.index, f, ids.filter(|id: Seq<char>| !prefix.is_prefix_of(id))),
            ..v
        }
    } else {
        v
    }
}

/// Filing bookmaker `b` with `meta` under fixture `f`, when it is stored.
pub open spec fn file_bookmaker(v: StateView, f: Seq<char>, b: Seq<char>, meta: BookmakerFixtureMeta) -> StateView {
    if v.games.contains_key(f) {
        StateView { games: v.games.insert(f, with_bookmaker(v.games[f], b, meta)), ..v }
    } else {
        v
    }
}

/// Dropping bookmaker `b` from fixture `f`, when it is stored, together with
/// the quotes that it has on that fixture.
pub open spec fn drop_bookmaker(v: StateView, f: Seq<char>, b: Seq<char>) -> StateView {
    let v1 = if v.games.contains_key(f) {
        StateView { games: v.games.insert(f, without_bookmaker(v.games[f], b)), ..v }
    } else {
        v
    };
    drop_bookmaker_quotes(v1, f, b)
}

/// Every stored quote has a well-formed identifier naming its own bookmaker,
/// its fixture is stored, and its bookmaker is filed under that fixture.
pub open spec fn quotes_backed(v: StateView) -> bool {
    forall|id: Seq<char>| #[trigger] v.prices.contains_key(id) ==> {
        &&& split_colon(id).len() == 4
        &&& split_colon(id)[1] == v.prices[id].bookmaker@
        &&& v.games.contains_key(odds_owner(id))
        &&& v.games[odds_owner(id)].bookmakers.contains_key(v.prices[id].bookmaker@)
    }
}

/// An identifier whose first two pieces are `f` and `b` begins with `{f}:{b}:`.
pub proof fn lemma_bookmaker_prefix(id: Seq<char>, f: Seq<char>, b: Seq<char>)
    requires
        split_colon(id).len() == 4,
        split_colon(id)[0] == f,
        split_colon(id)[1] == b,
    ensures
        bookmaker_prefix(f, b).is_prefix_of(id),
{
    let p = split_colon(id);
    lemma_join_split(id);
    reveal_with_fuel(joined, 4);
    assert(p.drop_last().drop_last().drop_last() =~= seq![p[0]]);
    assert(p.drop_last().drop_last() =~= seq![p[0], p[1]]);
    assert(p.drop_last() =~= seq![p[0], p[1], p[2]]);
    let rest = p[2] + seq![':'] + p[3];
    assert(id =~= bookmaker_prefix(f, b) + rest);
    assert(id.subrange(0, bookmaker_prefix(f, b).len() as int) =~= bookmaker_prefix(f, b));
}

/// Filing a bookmaker keeps every stored quote backed.
pub proof fn lemma_backed_file_bookmaker(v: StateView, f: Seq<char>, b: Seq<char>, meta: BookmakerFixtureMeta)
    requires
        quotes_backed(v),
    ensures
        quotes_backed(file_bookmaker(v, f, b, meta)),
{
}

/// Dropping a bookmaker drops its quotes on that fixture, so every quote left
/// is still backed.
pub proof fn lemma_backed_drop_bookmaker(v: StateView, f: Seq<char>, b: Seq<char>)
    requires
        view_well_formed(v),
        quotes_backed(v),
    ensures
        quotes_backed(drop_bookmaker(v, f, b)),
{
    let w = drop_bookmaker(v, f, b);
    assert forall|id: Seq<char>| #[trigger] w.prices.contains_key(id) implies {
        &&& split_colon(id).len() == 4
        &&& split_colon(id)[1] == w.prices[id].bookmaker@
        &&& w.games.contains_key(odds_owner(id))
        &&& w.games[odds_owner(id)].bookmakers.contains_key(w.prices[id].bookmaker@)
    } by {
        assert(v.prices.contains_key(id));
        let o = odds_owner(id);
        if o == f && v.prices[id].bookmaker@ == b {
            lemma_bookmaker_prefix(id, f, b);
            assert(v.index[f].contains(id));
            assert(false);
        }
    }
}

/// Removing a quote keeps every other stored quote backed.
pub proof fn lemma_backed_remove_quote(v: StateView, f: Seq<char>, id: Seq<char>)
    requires
        quotes_backed(v),
    ensures
        quotes_backed(remove_quote(v, f, id)),
{
}

/// Removing a fixture with the quotes filed under it keeps every quote left
/// backed.
pub proof fn lemma_backed_drop_fixture(v: StateView, f: Seq<char>)
    requires
        view_well_formed(v),
        quotes_backed(v),
    ensures
        quotes_backed(drop_fixture(v, f)),
{
    let w = drop_fixture(v, f);
    assert forall|id: Seq<char>| #[trigger] w.prices.contains_key(id) implies w.games.contains_key(odds_owner(id)) by {
        assert(v.prices.contains_key(id));
        if odds_owner(id) == f {
            assert(v.index[f].contains(id));
            assert(ids_of(v.index, f).contains(id));
        }
    }
}

/// Storing a fixture update with the bookmakers already accepted on it keeps
/// every stored quote backed.
pub proof fn lemma_backed_update_game(v: StateView, f: Seq<char>, g: GameView)
    requires
        quotes_backed(v),
    ensures
        quotes_backed(StateView { games: v.games.insert(f, updated_game(v.games, f, g)), ..v }),
{
}

/// Removing keys from a finite map leaves a finite map.
pub proof fn lemma_remove_keys_finite(m: Map<Seq<char>, Quote>, keys: Set<Seq<char>>)
    requires
        m.dom().finite(),
    ensures
        m.remove_keys(keys).dom().finite(),
{
    assert(m.remove_keys(keys).dom() =~= m.dom().difference(keys));
}

/// A state is well-formed exactly when its view is.
pub proof fn lemma_well_formed_view(s: &State)
    ensures
        s.well_formed() == view_well_formed(s.model()),
{
    let v = s.model();
    assert(v.index == s.index());
    assert(v.prices == s.prices@);
    if s.well_formed() {
        assert forall|f: Seq<char>, id: Seq<char>|
            #![trigger v.index[f].contains(id)]
            v.index.contains_key(f) && v.index[f].contains(id) implies v.prices.contains_key(id) && odds_owner(id) == f by {
            assert(s.index()[f].contains(id));
        }
        assert forall|id: Seq<char>| #[trigger] v.prices.contains_key(id) implies v.index.contains_key(odds_owner(id))
            && v.index[odds_owner(id)].contains(id) by {
            assert(s.prices@.contains_key(id));
        }
        assert forall|f: Seq<char>| #[trigger] v.index.contains_key(f) implies !v.index[f].is_empty() by {
            assert(s.index().contains_key(f));
        }
    }
    if view_well_formed(v) {
        assert forall|f: Seq<char>, id: Seq<char>|
            #![trigger s.index()[f].contains(id)]
            s.index().contains_key(f) && s.index()[f].contains(id) implies s.prices@.contains_key(id) && odds_owner(id) == f by {
            assert(v.index[f].contains(id));
        }
        assert forall|id: Seq<char>| #[trigger] s.prices@.contains_key(id) implies s.index().contains_key(odds_owner(id))
            && s.index()[odds_owner(id)].contains(id) by {
            assert(v.prices.contains_key(id));
        }
        assert forall|f: Seq<char>| #[trigger] s.index().contains_key(f) implies !s.index()[f].is_empty() by {
            assert(v.index.contains_key(f));
        }
    }
}

/// The fixture `g` with `meta` filed under bookmaker `b`.
pub open spec fn with_bookmaker(g: GameView, b: Seq<char>, meta: BookmakerFixtureMeta) -> GameView {
    GameView { bookmakers: g.bookmakers.insert(b, meta), ..g }
}

/// The fixture `g` without bookmaker `b`.
pub open spec fn without_bookmaker(g: GameView, b: Seq<char>) -> GameView {
    GameView { bookmakers: g.bookmakers.remove(b), ..g }
}

/// The bookmakers accepted on fixture `f`, or none when it is not stored.
pub open spec fn accepted_bookmakers(
    games: Map<Seq<char>, GameView>,
    f: Seq<char>,
) -> Map<Seq<char>, BookmakerFixtureMeta> {
    if games.contains_key(f) {
        games[f].bookmakers
    } else {
        Map::empty()
    }
}

/// A fixture update as stored: the new fixture data with the bookmakers that
/// were accepted on it before, since the update's own bookmaker table has not
/// passed the engine.
pub open spec fn updated_game(games: Map<Seq<char>, GameView>, f: Seq<char>, g: GameView) -> GameView {
    GameView { bookmakers: accepted_bookmakers(games, f), ..g }
}

impl State {
    /// Stores an updated fixture under its identifier, keeping the bookmakers
    /// accepted on the stored one.
    pub fn update_game(&mut self, fixture_id: String, game: Game)
        ensures
            final(self).games() == old(self).games().insert(
                fixture_id@,
                updated_game(old(self).games(), fixture_id@, game@),
            ),
            final(self).prices@ == old(self).prices@,
            final(self).odds_by_fixture@ == old(self).odds_by_fixture@,
    {
        let ghost old_games = self.games();
        let ghost g0 = game;
        let bookmakers = match self.matches.get(fixture_id.as_str()) {
            Some(g) => g.bookmakers.duplicate(),
            None => KeyedVec::new(),
        };
        let mut game = game;
        game.bookmakers = bookmakers;
        assert(game@ =~= updated_game(old_games, fixture_id@, g0@));
        self.matches.insert(fixture_id, game);
        assert(self.games() =~= old_games.insert(fixture_id@, updated_game(old_games, fixture_id@, g0@)));
    }

    /// Stores a fixture under its identifier, replacing any stored one.
    pub fn put_game(&mut self, fixture_id: String, game: Game)
        ensures
            final(self).games() == old(self).games().insert(fixture_id@, game@),
            final(self).prices@ == old(self).prices@,
            final(self).odds_by_fixture@ == old(self).odds_by_fixture@,
    {
        let ghost old_games = self.games();
        self.matches.insert(fixture_id, game);
        assert(self.games() =~= old_games.insert(fixture_id@, game@));
    }

    /// Files a quote under its fixture and stores it.
    pub fn insert_price(&mut self, fixture_id: String, odds_id: String, quote: Quote)
        ensures
            final(self).matches@ == old(self).matches@,
            final(self).prices@ == old(self).prices@.insert(odds_id@, quote),
            final(self).index() == old(self).index().insert(
                fixture_id@,
                ids_of(old(self).index(), fixture_id@).insert(odds_id@),
            ),
            old(self).well_formed() && odds_owner(odds_id@) == fixture_id@ ==> final(self).well_formed(),
    {
        let ghost old_index = self.index();
        let mut ids = match self.odds_by_fixture.get(fixture_id.as_str()) {
            Some(ids) => ids.duplicate(),
            None => {
                let e = KeyedVec::new();
                assert(e@.dom() =~= Set::<Seq<char>>::empty());
                e
            },
        };
        ids.insert(odds_id.clone(), ());
        self.odds_by_fixture.insert(fixture_id, ids);
        self.prices.insert(odds_id, quote);
        assert(self.index() =~= old_index.insert(fixture_id@, ids_of(old_index, fixture_id@).insert(odds_id@)));
    }

    /// Files `meta` under bookmaker `bookmaker_id` of the stored fixture, if
    /// there is one.
    pub fn put_game_bookmaker(&mut self, fixture_id: &str, bookmaker_id: String, meta: BookmakerFixtureMeta)
        ensures
            final(self).games() == (if old(self).games().contains_key(fixture_id@) {
                old(self).games().insert(fixture_id@, with_bookmaker(old(self).games()[fixture_id@], bookmaker_id@, meta))
            } else {
                old(self).games()
            }),
            final(self).prices@ == old(self).prices@,
            final(self).odds_by_fixture@ == old(self).odds_by_fixture@,
    {
        let ghost old_games = self.games();
        let mut game = match self.matches.get(fixture_id) {
            Some(g) => g.duplicate(),
            None => {
                return;
            },
        };
        game.bookmakers.insert(bookmaker_id, meta);
        self.matches.insert(String::from_str(fixture_id), game);
        assert(self.games() =~= old_games.insert(fixture_id@, with_bookmaker(old_games[fixture_id@], bookmaker_id@, meta)));
    }

    /// Drops bookmaker `bookmaker_id` from the stored fixture, if there is one.
    pub fn drop_game_bookmaker(&mut self, fixture_id: &str, bookmaker_id: &String)
        ensures
            final(self).games() == (if old(self).games().contains_key(fixture_id@) {
                old(self).games().insert(fixture_id@, without_bookmaker(old(self).games()[fixture_id@], bookmaker_id@))
            } else {
                old(self).games()
            }),
            final(self).prices@ == old(self).prices@,
            final(self).odds_by_fixture@ == old(self).odds_by_fixture@,
    {
        let ghost old_games = self.games();
        let mut game = match self.matches.get(fixture_id) {
            Some(g) => g.duplicate(),
            None => {
                return;
            },
        };
        game.bookmakers.remove(bookmaker_id);
        self.matches.insert(String::from_str(fixture_id), game);
        assert(self.games() =~= old_games.insert(fixture_id@, without_bookmaker(old_games[fixture_id@], bookmaker_id@)));
    }
}

/// An identifier that begins with `{f}:` names fixture `f` when `f` holds no `:`.
pub proof fn lemma_owner_of_prefixed(f: Seq<char>, id: Seq<char>, pre: Seq<char>)
    requires
        !f.contains(':'),
        pre.len() > f.len(),
        pre.subrange(0, f.len() as int) == f,
        pre[f.len() as int] == ':',
        pre.is_prefix_of(id),
    ensures
        odds_owner(id) == f,
{
    assert(pre =~= id.subrange(0, pre.len() as int));
    assert forall|j: int| 0 <= j < f.len() implies id[j] != ':' by {
        assert(id.subrange(0, pre.len() as int)[j] == id[j]);
        assert(pre.subrange(0, f.len() as int)[j] == pre[j]);
        if f[j] == ':' {
            assert(f.contains(':'));
        }
    }
    assert(id.subrange(0, pre.len() as int)[f.len() as int] == id[f.len() as int]);
    lemma_split_first(id, f.len() as int);
    assert(id.subrange(0, f.len() as int) =~= f) by {
        assert forall|j: int| 0 <= j < f.len() implies id.subrange(0, f.len() as int)[j] == f[j] by {
            assert(id.subrange(0, pre.len() as int)[j] == id[j]);
            assert(pre.subrange(0, f.len() as int)[j] == pre[j]);
        }
    }
}

/// When the first `:` of `s` is at position `k`, the first piece is `s[..k]`.
pub proof fn lemma_split_first(s: Seq<char>, k: int)
    requires
        0 <= k < s.len(),
        s[k] == ':',
        forall|j: int| 0 <= j < k ==> s[j] != ':',
    ensures
        split_colon(s)[0] == s.subrange(0, k),
    decreases s.len(),
{
    lemma_split_colon_nonempty(s);
    if s.len() == k + 1 {
        let t = s.drop_last();
        lemma_split_no_colon(t);
        assert(t =~= s.subrange(0, k));
    } else {
        let t = s.drop_last();
        assert forall|j: int| 0 <= j < k implies t[j] != ':' by {
            assert(t[j] == s[j]);
        }
        lemma_split_first(t, k);
        assert(t.subrange(0, k) =~= s.subrange(0, k));
        lemma_split_colon_nonempty(t);
        assert(split_colon(t).len() >= 2) by {
            lemma_split_colon_count(t, k);
        }
    }
}

/// A text with no `:` splits into itself.
pub proof fn lemma_split_no_colon(s: Seq<char>)
    requires
        forall|j: int| 0 <= j < s.len() ==> s[j] != ':',
    ensures
        split_colon(s) == seq![s],
    decreases s.len(),
{
    if s.len() > 0 {
        lemma_split_no_colon(s.drop_last());
        assert(s.drop_last().push(s.last()) =~= s);
    } else {
        assert(s =~= Seq::<char>::empty());
    }
}

/// A text with a `:` at position `k` splits into at least two pieces.
pub proof fn lemma_split_colon_count(s: Seq<char>, k: int)
    requires
        0 <= k < s.len(),
        s[k] == ':',
    ensures
        split_colon(s).len() >= 2,
    decreases s.len(),
{
    if s.len() == k + 1 {
        lemma_split_colon_nonempty(s.drop_last());
    } else {
        lemma_split_colon_count(s.drop_last(), k);
    }
}

} // verus!
