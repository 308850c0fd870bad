//! A small map keyed by text, kept as a list of entries with distinct keys.
//! It is used for the per-fixture bookmaker tables and the per-fixture sets
//! of odds identifiers, where the library needs to walk and copy the entries.
use vstd::prelude::*;

verus! {

/// Some entry of `s` has key `k`.
pub open spec fn has_key<V>(s: Seq<(String, V)>, k: Seq<char>) -> bool {
    exists|i: int| 0 <= i < s.len() && (#[trigger] s[i]).0@ == k
}

/// The position of an entry of `s` with key `k`.
pub open spec fn key_index<V>(s: Seq<(String, V)>, k: Seq<char>) -> int {
    choose|i: int| 0 <= i < s.len() && (#[trigger] s[i]).0@ == k
}

/// No two entries of `s` share a key.
pub open spec fn unique_keys<V>(s: Seq<(String, V)>) -> bool {
    forall|i: int, j: int| 0 <= i < s.len() && 0 <= j < s.len() && i != j ==> (#[trigger] s[i]).0@ != (#[trigger] s[j]).0@
}

/// The map that a list of entries stands for.
pub open spec fn keyed_map<V>(s: Seq<(String, V)>) -> Map<Seq<char>, V> {
    Map::new(|k: Seq<char>| has_key(s, k), |k: Seq<char>| s[key_index(s, k)].1)
}

/// The keys of a list of entries, in order.
pub open spec fn key_seq<V>(s: Seq<(String, V)>) -> Seq<Seq<char>> {
    s.map_values(|e: (String, V)| e.0@)
}

pub proof fn lemma_key_index<V>(s: Seq<(String, V)>, i: int)
    requires
        unique_keys(s),
        0 <= i < s.len(),
    ensures
        has_key(s, s[i].0@),
        key_index(s, s[i].0@) == i,
        keyed_map(s).contains_key(s[i].0@),
        keyed_map(s)[s[i].0@] == s[i].1,
{
    let k = s[i].0@;
    assert(has_key(s, k));
    let j = key_index(s, k);
    assert(s[j].0@ == k);
}

pub proof fn lemma_push<V>(s: Seq<(String, V)>, k: String, v: V)
    requires
        unique_keys(s),
        !has_key(s, k@),
    ensures
        unique_keys(s.push((k, v))),
        keyed_map(s.push((k, v))) == keyed_map(s).insert(k@, v),
{
    let t = s.push((k, v));
    assert forall|i: int, j: int| 0 <= i < t.len() && 0 <= j < t.len() && i != j implies (#[trigger] t[i]).0@ != (#[trigger] t[j]).0@ by {
        if i < s.len() && j < s.len() {
            assert(t[i] == s[i] && t[j] == s[j]);
        } else if i < s.len() {
            assert(t[i] == s[i]);
        } else {
            assert(t[j] == s[j]);
        }
    }
    assert forall|q: Seq<char>| #[trigger] keyed_map(t).contains_key(q) == keyed_map(s).insert(k@, v).contains_key(q) by {
        if has_key(t, q) && q != k@ {
            let i = choose|i: int| 0 <= i < t.len() && (#[trigger] t[i]).0@ == q;
            assert(i < s.len());
            assert(s[i] == t[i]);
        }
        if has_key(s, q) {
            let i = choose|i: int| 0 <= i < s.len() && (#[trigger] s[i]).0@ == q;
            assert(t[i] == s[i]);
        }
        if q == k@ {
            assert(t[s.len() as int].0@ == q);
        }
    }
    assert forall|q: Seq<char>| #[trigger] keyed_map(t).contains_key(q) implies keyed_map(t)[q] == keyed_map(s).insert(k@, v)[q] by {
        if q == k@ {
            lemma_key_index(t, s.len() as int);
        } else {
            let i = choose|i: int| 0 <= i < t.len() && (#[trigger] t[i]).0@ == q;
            assert(i < s.len());
            assert(s[i] == t[i]);
            lemma_key_index(t, i);
            lemma_key_index(s, i);
        }
    }
    assert(keyed_map(t) =~= keyed_map(s).insert(k@, v));
}

pub proof fn lemma_update<V>(s: Seq<(String, V)>, i: int, k: String, v: V)
    requires
        unique_keys(s),
        0 <= i < s.len(),
        s[i].0@ == k@,
    ensures
        unique_keys(s.update(i, (k, v))),
        keyed_map(s.update(i, (k, v))) == keyed_map(s).insert(k@, v),
{
    let t = s.update(i, (k, v));
    assert forall|a: int, b: int| 0 <= a < t.len() && 0 <= b < t.len() && a != b implies (#[trigger] t[a]).0@ != (#[trigger] t[b]).0@ by {
        assert(t[a].0@ == s[a].0@);
        assert(t[b].0@ == s[b].0@);
    }
    assert forall|q: Seq<char>| #[trigger] keyed_map(t).contains_key(q) == keyed_map(s).insert(k@, v).contains_key(q) by {
        if has_key(t, q) {
            let a = choose|a: int| 0 <= a < t.len() && (#[trigger] t[a]).0@ == q;
            assert(s[a].0@ == q);
        }
        if has_key(s, q) {
            let a = choose|a: int| 0 <= a < s.len() && (#[trigger] s[a]).0@ == q;
            assert(t[a].0@ == q);
        }
        if q == k@ {
            assert(t[i].0@ == q);
        }
    }
    assert forall|q: Seq<char>| #[trigger] keyed_map(t).contains_key(q) implies keyed_map(t)[q] == keyed_map(s).insert(k@, v)[q] by {
        let a = choose|a: int| 0 <= a < t.len() && (#[trigger] t[a]).0@ == q;
        lemma_key_index(t, a);
        if a != i {
            assert(t[a] == s[a]);
            lemma_key_index(s, a);
        }
    }
    assert(keyed_map(t) =~= keyed_map(s).insert(k@, v));
}

pub proof fn lemma_remove<V>(s: Seq<(String, V)>, i: int)
    requires
        unique_keys(s),
        0 <= i < s.len(),
    ensures
        unique_keys(s.remove(i)),
        keyed_map(s.remove(i)) == keyed_map(s).remove(s[i].0@),
{
    let k = s[i].0@;
    let t = s.remove(i);
    assert forall|a: int| 0 <= a < t.len() implies #[trigger] t[a] == s[if a < i { a } else { a + 1 }] by {}
    assert forall|a: int, b: int| 0 <= a < t.len() && 0 <= b < t.len() && a != b implies (#[trigger] t[a]).0@ != (#[trigger] t[b]).0@ by {
        let a2 = if a < i { a } else { a + 1 };
        let b2 = if b < i { b } else { b + 1 };
        assert(t[a] == s[a2]);
        assert(t[b] == s[b2]);
    }
    assert forall|q: Seq<char>| #[trigger] keyed_map(t).contains_key(q) == keyed_map(s).remove(k).contains_key(q) by {
        if has_key(t, q) {
            let a = choose|a: int| 0 <= a < t.len() && (#[trigger] t[a]).0@ == q;
            let a2 = if a < i { a } else { a + 1 };
            assert(t[a] == s[a2]);
            assert(s[a2].0@ == q);
        }
        if has_key(s, q) && q != k {
            let a = choose|a: int| 0 <= a < s.len() && (#[trigger] s[a]).0@ == q;
            assert(a != i);
            let a1 = if a < i { a } else { a - 1 };
            assert(t[a1] == s[a]);
        }
    }
    assert forall|q: Seq<char>| #[trigger] keyed_map(t).contains_key(q) implies keyed_map(t)[q] == keyed_map(s).remove(k)[q] by {
        let a = choose|a: int| 0 <= a < t.len() && (#[trigger] t[a]).0@ == q;
        let a2 = if a < i { a } else { a + 1 };
        assert(t[a] == s[a2]);
        lemma_key_index(t, a);
        lemma_key_index(s, a2);
    }
    assert(keyed_map(t) =~= keyed_map(s).remove(k));
}

pub proof fn lemma_dom_set<V>(s: Seq<(String, V)>)
    ensures
        keyed_map(s).dom() == key_seq(s).to_set(),
        keyed_map(s).dom().finite(),
{
    let ks = key_seq(s);
    assert forall|q: Seq<char>| #[trigger] keyed_map(s).dom().contains(q) == ks.to_set().contains(q) by {
        if has_key(s, q) {
            let a = choose|a: int| 0 <= a < s.len() && (#[trigger] s[a]).0@ == q;
            assert(ks[a] == q);
        }
        if ks.contains(q) {
            let a = choose|a: int| 0 <= a < ks.len() && ks[a] == q;
            assert(s[a].0@ == q);
        }
    }
    assert(keyed_map(s).dom() =~= ks.to_set());
    vstd::seq_lib::seq_to_set_is_finite(ks);
}

pub proof fn lemma_dom<V>(s: Seq<(String, V)>)
    requires
        unique_keys(s),
    ensures
        keyed_map(s).dom() == key_seq(s).to_set(),
        key_seq(s).no_duplicates(),
        keyed_map(s).dom().finite(),
        keyed_map(s).dom().len() == s.len(),
{
    let ks = key_seq(s);
    assert forall|q: Seq<char>| #[trigger] keyed_map(s).dom().contains(q) == ks.to_set().contains(q) by {
        if has_key(s, q) {
            let a = choose|a: int| 0 <= a < s.len() && (#[trigger] s[a]).0@ == q;
            assert(ks[a] == q);
        }
        if ks.contains(q) {
            let a = choose|a: int| 0 <= a < ks.len() && ks[a] == q;
            assert(s[a].0@ == q);
        }
    }
    assert(keyed_map(s).dom() =~= ks.to_set());
    assert forall|a: int, b: int| 0 <= a < ks.len() && 0 <= b < ks.len() && a != b implies ks[a] != ks[b] by {
        assert(ks[a] == s[a].0@ && ks[b] == s[b].0@);
    }
    ks.unique_seq_to_set();
    vstd::seq_lib::seq_to_set_is_finite(ks);
}

/// The set of the first `i + 1` items is that of the first `i` with item `i` added.
pub proof fn lemma_take_to_set_step<A>(s: Seq<A>, i: int)
    requires
        0 <= i < s.len(),
    ensures
        s.take(i + 1).to_set() == s.take(i).to_set().insert(s[i]),
{
    let a = s.take(i + 1);
    let b = s.take(i);
    assert forall|x: A| #[trigger] a.to_set().contains(x) == b.to_set().insert(s[i]).contains(x) by {
        if a.contains(x) {
            let j = choose|j: int| 0 <= j < a.len() && a[j] == x;
            if j < i {
                assert(b[j] == x);
            }
        }
        if b.contains(x) {
            let j = choose|j: int| 0 <= j < b.len() && b[j] == x;
            assert(a[j] == x);
        }
        if x == s[i] {
            assert(a[i] == x);
        }
    }
    assert(a.to_set() =~= b.to_set().insert(s[i]));
}

/// Values that the library can copy exactly.
pub trait Duplicate: Sized {
    /// An equal copy of `self`.
    fn duplicate(&self) -> (r: Self)
        ensures
            r == *self,
    ;
}

impl Duplicate for () {
    fn duplicate(&self) -> (r: Self) {
        ()
    }
}

impl Duplicate for String {
    fn duplicate(&self) -> (r: Self) {
        self.clone()
    }
}

/// The map built by inserting the entries of `s` in order, so a later entry
/// replaces an earlier one with the same key.
pub open spec fn inserted_all<V>(s: Seq<(String, V)>) -> Map<Seq<char>, V>
    decreases s.len(),
{
    if s.len() == 0 {
        Map::empty()
    } else {
        inserted_all(s.drop_last()).insert(s.last().0@, s.last().1)
    }
}

/// A map from text keys to values, kept as a list of entries with distinct keys.
pub struct KeyedVec<V> {
    entries: Vec<(String, V)>,
}

impl<V> View for KeyedVec<V> {
    type V = Map<Seq<char>, V>;

    closed spec fn view(&self) -> Map<Seq<char>, V> {
        keyed_map(self.entries@)
    }
}

impl<V> KeyedVec<V> {
    #[verifier::type_invariant]
    spec fn distinct_keys(&self) -> bool {
        unique_keys(self.entries@)
    }

    /// The keys in the order in which the entries are kept.
    pub closed spec fn keys(&self) -> Seq<Seq<char>> {
        key_seq(self.entries@)
    }

    /// The keys of the map are exactly the kept keys, so there are finitely many.
    pub proof fn lemma_keys(&self)
        ensures
            self@.dom() == self.keys().to_set(),
            self@.dom().finite(),
    {
        lemma_dom_set(self.entries@);
    }

    /// An empty map.
    pub fn new() -> (r: Self)
        ensures
            r@ == Map::<Seq<char>, V>::empty(),
            r.keys() == Seq::<Seq<char>>::empty(),
    {
        let r = KeyedVec { entries: Vec::new() };
        assert(r@ =~= Map::<Seq<char>, V>::empty());
        assert(r.keys() =~= Seq::<Seq<char>>::empty());
        r
    }

    /// The number of keys.
    pub fn len(&self) -> (r: usize)
        ensures
            r == self@.len(),
            r == self.keys().len(),
    {
        proof {
            use_type_invariant(self);
            lemma_dom(self.entries@);
        }
        self.entries.len()
    }

    /// The key kept at position `i`.
    pub fn key_at(&self, i: usize) -> (r: &String)
        requires
            i < self.keys().len(),
        ensures
            r@ == self.keys()[i as int],
    {
        &self.entries[i].0
    }

    fn find(&self, k: &String) -> (r: Option<usize>)
        ensures
            match r {
                Some(i) => i < self.entries@.len() && self.entries@[i as int].0@ == k@,
                None => !has_key(self.entries@, k@),
            },
    {
        let mut i: usize = 0;
        while i < self.entries.len()
            invariant
                i <= self.entries@.len(),
                forall|j: int| 0 <= j < i ==> (#[trigger] self.entries@[j]).0@ != k@,
            decreases self.entries@.len() - i,
        {
            if self.entries[i].0 == *k {
                return Some(i);
            }
            i = i + 1;
        }
        None
    }

    /// Whether `k` is a key.
    pub fn contains_key(&self, k: &String) -> (r: bool)
        ensures
            r == self@.contains_key(k@),
    {
        self.find(k).is_some()
    }

    /// The value under `k`, if any.
    pub fn get(&self, k: &String) -> (r: Option<&V>)
        ensures
            match r {
                Some(v) => self@.contains_key(k@) && *v == self@[k@],
                None => !self@.contains_key(k@),
            },
    {
        proof {
            use_type_invariant(self);
        }
        match self.find(k) {
            Some(i) => {
                proof {
                    lemma_key_index(self.entries@, i as int);
                }
                Some(&self.entries[i].1)
            },
            None => None,
        }
    }

    /// Puts `v` under `k`, replacing any value there.
    pub fn insert(&mut self, k: String, v: V)
        ensures
            final(self)@ == old(self)@.insert(k@, v),
    {
        proof {
            use_type_invariant(&*self);
        }
        match self.find(&k) {
            Some(i) => {
                proof {
                    lemma_update(self.entries@, i as int, k, v);
                }
                let mut es: Vec<(String, V)> = Vec::new();
                std::mem::swap(&mut es, &mut self.entries);
                es.set(i, (k, v));
                self.entries = es;
            },
            None => {
                proof {
                    lemma_push(self.entries@, k, v);
                }
                let mut es: Vec<(String, V)> = Vec::new();
                std::mem::swap(&mut es, &mut self.entries);
                es.push((k, v));
                self.entries = es;
            },
        }
    }

    /// Drops the entry under `k`, if any.
    pub fn remove(&mut self, k: &String)
        ensures
            final(self)@ == old(self)@.remove(k@),
    {
        proof {
            use_type_invariant(&*self);
        }
        match self.find(k) {
            Some(i) => {
                proof {
                    lemma_remove(self.entries@, i as int);
                }
                let mut es: Vec<(String, V)> = Vec::new();
                std::mem::swap(&mut es, &mut self.entries);
                es.remove(i);
                self.entries = es;
            },
            None => {
                assert(self@ =~= self@.remove(k@));
            },
        }
    }
}

impl<V> KeyedVec<V> {
    /// The map holding the given entries; a later entry replaces an earlier one
    /// with the same key.
    pub fn from_entries(entries: Vec<(String, V)>) -> (r: Self)
        ensures
            r@ == inserted_all(entries@),
    {
        let mut r = KeyedVec::new();
        let mut rest = entries;
        let ghost all = rest@;
        let mut taken: Vec<(String, V)> = Vec::new();
        // Walk the entries from the back, then insert them front to back.
        while rest.len() > 0
            invariant
                all == rest@ + taken@.reverse(),
            decreases rest@.len(),
        {
            let e = rest.pop().unwrap();
            let ghost before = taken@;
            taken.push(e);
            assert(taken@.reverse() =~= seq![e] + before.reverse());
            assert(all =~= rest@ + taken@.reverse());
        }
        assert(all =~= taken@.reverse());
        assert(all.subrange(0, all.len() as int) =~= all);
        let ghost n = taken@.len();
        while taken.len() > 0
            invariant
                taken@.len() <= n,
                all.subrange(n - taken@.len(), n as int) == taken@.reverse(),
                n == all.len(),
                r@ == inserted_all(all.take(n - taken@.len())),
            decreases taken@.len(),
        {
            let ghost k = n - taken@.len();
            let ghost before = taken@;
            let e = taken.pop().unwrap();
            assert(before.reverse()[0] == e);
            assert(all.subrange(k, n as int)[0] == all[k]);
            assert(all[k] == e);
            assert(all.take(k + 1).drop_last() =~= all.take(k));
            assert(all.take(k + 1).last() == e);
            let (key, value) = e;
            r.insert(key, value);
            assert(all.subrange(n - taken@.len(), n as int) =~= taken@.reverse()) by {
                assert(before.reverse().drop_first() =~= taken@.reverse());
                assert(all.subrange(k, n as int).drop_first() =~= all.subrange(k + 1, n as int));
            }
        }
        assert(all.take(n as int) =~= all);
        r
    }

    /// The entries, one per key.
    pub fn into_entries(self) -> (r: Vec<(String, V)>)
        ensures
            unique_keys(r@),
            keyed_map(r@) == self@,
    {
        proof {
            use_type_invariant(&self);
        }
        self.entries
    }
}

impl<V: Duplicate> KeyedVec<V> {
    /// An equal copy of the map.
    pub fn duplicate(&self) -> (r: Self)
        ensures
            r@ == self@,
            r.keys() == self.keys(),
    {
        proof {
            use_type_invariant(self);
        }
        let mut es: Vec<(String, V)> = Vec::new();
        let mut i: usize = 0;
        while i < self.entries.len()
            invariant
                i <= self.entries@.len(),
                es@ == self.entries@.take(i as int),
            decreases self.entries@.len() - i,
        {
            let k = self.entries[i].0.clone();
            let v = self.entries[i].1.duplicate();
            assert((k, v) == self.entries@[i as int]);
            es.push((k, v));
            assert(self.entries@.take(i + 1) =~= self.entries@.take(i as int).push(self.entries@[i as int]));
            i = i + 1;
        }
        assert(es@ =~= self.entries@);
        KeyedVec { entries: es }
    }
}

} // verus!
