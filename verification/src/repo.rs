//! An in-memory store of portfolios by name, kept in a `dashmap::DashMap`.
//! The portfolio on screen is stored under the name `current`.
use vstd::prelude::*;
use dashmap::DashMap;
use crate::book::Portfolio;

verus! {

#[verifier::external_type_specification]
#[verifier::external_body]
#[verifier::reject_recursive_types(K)]
#[verifier::reject_recursive_types(V)]
#[verifier::reject_recursive_types(S)]
pub struct ExDashMap<K, V, S>(DashMap<K, V, S>);

/// The store that holds nothing.
pub open spec fn empty_store() -> Map<Seq<char>, Portfolio> {
    Map::empty()
}

/// A stored portfolio with its name.
pub type Entry = (String, Portfolio);

/// What a `DashMap` of portfolios holds: each key, by its text, to its
/// portfolio.
pub uninterp spec fn cache_contents(cache: DashMap<String, Portfolio>) -> Map<Seq<char>, Portfolio>;

/// Calls `DashMap::new`. Claimed of it: the map holds nothing.
#[verifier::external_body]
fn cache_new() -> (cache: DashMap<String, Portfolio>)
    ensures
        cache_contents(cache) == empty_store(),
{
    DashMap::new()
}

/// Calls `DashMap::insert`. Claimed of it: afterwards the key maps to the
/// value and every other key is unchanged; it returns the value the key had.
#[verifier::external_body]
fn cache_insert(cache: &mut DashMap<String, Portfolio>, key: String, value: Portfolio) -> (prev:
    Option<Portfolio>)
    ensures
        cache_contents(*final(cache)) == cache_contents(*old(cache)).insert(key@, value),
        prev == (if cache_contents(*old(cache)).contains_key(key@) {
            Some(cache_contents(*old(cache))[key@])
        } else {
            None
        }),
{
    cache.insert(key, value)
}

/// Calls `DashMap::get` and clones the value found. Claimed of it: the
/// value under the key, where there is one.
#[verifier::external_body]
fn cache_get(cache: &DashMap<String, Portfolio>, key: &str) -> (found: Option<Portfolio>)
    ensures
        found == (if cache_contents(*cache).contains_key(key@) {
            Some(cache_contents(*cache)[key@])
        } else {
            None
        }),
{
    match cache.get(key) {
        Some(entry) => Some(entry.value().clone()),
        None => None,
    }
}

/// Calls `DashMap::remove`. Claimed of it: afterwards the key is absent and
/// every other key unchanged; it returns the key and value that were there.
#[verifier::external_body]
fn cache_remove(cache: &mut DashMap<String, Portfolio>, key: &str) -> (removed: Option<
    (String, Portfolio),
>)
    ensures
        cache_contents(*final(cache)) == cache_contents(*old(cache)).remove(key@),
        removed is Some <==> cache_contents(*old(cache)).contains_key(key@),
        removed matches Some(kv) ==> kv.0@ == key@ && kv.1 == cache_contents(*old(cache))[key@],
{
    cache.remove(key)
}

/// Calls `DashMap::clone`, which copies every key and value into a new
/// map. Claimed of it: the copy holds what the map it was made from holds.
#[verifier::external_body]
fn cache_clone(cache: &DashMap<String, Portfolio>) -> (copy: DashMap<String, Portfolio>)
    ensures
        cache_contents(copy) == cache_contents(*cache),
{
    cache.clone()
}

/// Calls `DashMap::clear`. Claimed of it: afterwards the map holds nothing.
#[verifier::external_body]
fn cache_clear(cache: &mut DashMap<String, Portfolio>)
    ensures
        cache_contents(*final(cache)) == empty_store(),
{
    cache.clear()
}

/// Walks the map with `DashMap::iter` and clones each key and value.
/// Claimed of it: each key is listed once, with its value, and every key is
/// listed; the order is the map's own, which depends on its hasher's seed.
#[verifier::external_body]
fn cache_entries(cache: &DashMap<String, Portfolio>) -> (entries: Vec<Entry>)
    ensures
        cache_contents(*cache).dom() == entries@.map_values(|e: Entry| e.0@).to_set(),
        forall|i: int|
            0 <= i < entries@.len() ==> #[trigger] cache_contents(*cache)[entries@[i].0@]
                == entries@[i].1,
        forall|i: int, j: int|
            0 <= i < j < entries@.len() ==> #[trigger] entries@[i].0@ != #[trigger] entries@[j].0@,
{
    cache.iter().map(|entry| (entry.key().clone(), entry.value().clone())).collect()
}

/// The key of the portfolio on screen.
pub open spec fn current_key() -> Seq<char> {
    "current"@
}

/// Whether a portfolio holds no cash and no positions.
pub open spec fn is_empty_portfolio(p: Portfolio) -> bool {
    p.cash@ == (0i128, 0u32) && p.positions@.len() == 0
}

/// The store that results from writing the entries in order into an empty
/// store: the last entry of a key wins.
pub open spec fn store_of(entries: Seq<(String, Portfolio)>) -> Map<Seq<char>, Portfolio>
    decreases entries.len(),
{
    if entries.len() == 0 {
        Map::empty()
    } else {
        store_of(entries.drop_last()).insert(entries.last().0@, entries.last().1)
    }
}

/// Portfolios by name.
pub struct Repo {
    cache: DashMap<String, Portfolio>,
}

impl View for Repo {
    type V = Map<Seq<char>, Portfolio>;

    closed spec fn view(&self) -> Map<Seq<char>, Portfolio> {
        cache_contents(self.cache)
    }
}

impl Clone for Repo {
    /// A separate store holding the same portfolios.
    fn clone(&self) -> (copy: Repo)
        ensures
            copy@ == self@,
    {
        Repo { cache: cache_clone(&self.cache) }
    }
}

impl Default for Repo {
    /// A store that holds nothing, not even the current portfolio.
    fn default() -> (repo: Repo)
        ensures
            repo@ == Map::<Seq<char>, Portfolio>::empty(),
    {
        Repo { cache: cache_new() }
    }
}

impl Repo {
    /// A store that holds an empty portfolio as the current one.
    pub fn new() -> (repo: Repo)
        ensures
            repo@.dom() == set![current_key()],
            is_empty_portfolio(repo@[current_key()]),
    {
        let mut cache = cache_new();
        let _ = cache_insert(&mut cache, "current".to_owned(), Portfolio::default());
        let repo = Repo { cache };
        proof {
            assert(repo@.dom() =~= set![current_key()]);
        }
        repo
    }

    /// A copy of the current portfolio.
    pub fn get(&self) -> (p: Portfolio)
        requires
            self@.contains_key(current_key()),
        ensures
            p == self@[current_key()],
    {
        match cache_get(&self.cache, "current") {
            Some(p) => p,
            None => Portfolio::default(),
        }
    }

    /// Stores a portfolio under a name, replacing what was there.
    pub fn upsert(&mut self, key: String, p: Portfolio)
        ensures
            final(self)@ == old(self)@.insert(key@, p),
    {
        let _ = cache_insert(&mut self.cache, key, p);
    }

    /// Removes the portfolio stored under a name and returns it.
    pub fn remove(&mut self, key: &str) -> (removed: Option<Portfolio>)
        ensures
            final(self)@ == old(self)@.remove(key@),
            removed == (if old(self)@.contains_key(key@) {
                Some(old(self)@[key@])
            } else {
                None
            }),
    {
        match cache_remove(&mut self.cache, key) {
            Some(kv) => Some(kv.1),
            None => None,
        }
    }

    /// Applies `f` to the portfolio stored under a name, where there is one.
    pub fn with_portfolio<F, R>(&self, key: &str, f: F) -> (r: Option<R>) where
        F: FnOnce(&Portfolio) -> R,

        requires
            self@.contains_key(key@) ==> call_requires(f, (&self@[key@],)),
        ensures
            r is Some <==> self@.contains_key(key@),
            r matches Some(v) ==> call_ensures(f, (&self@[key@],), v),
    {
        match cache_get(&self.cache, key) {
            Some(p) => Some(f(&p)),
            None => None,
        }
    }

    /// The names of the stored portfolios, each once, in no fixed order.
    pub fn list_keys(&self) -> (keys: Vec<String>)
        ensures
            keys@.len() == self@.dom().len(),
            forall|i: int| 0 <= i < keys@.len() ==> #[trigger] self@.contains_key(keys@[i]@),
            forall|k: Seq<char>|
                #[trigger] self@.contains_key(k) ==> exists|i: int|
                    0 <= i < keys@.len() && #[trigger] keys@[i]@ == k,
            forall|i: int, j: int|
                0 <= i < j < keys@.len() ==> #[trigger] keys@[i]@ != #[trigger] keys@[j]@,
    {
        let entries = self.list_as_vec();
        let mut keys: Vec<String> = Vec::new();
        let mut i: usize = 0;
        while i < entries.len()
            invariant
                0 <= i <= entries@.len(),
                keys@.len() == i,
                forall|j: int| 0 <= j < i ==> #[trigger] keys@[j]@ == entries@[j].0@,
            decreases entries@.len() - i,
        {
            keys.push(entries[i].0.clone());
            i += 1;
        }
        proof {
            assert forall|k: Seq<char>| #[trigger] self@.contains_key(k) implies exists|i: int|
                0 <= i < keys@.len() && #[trigger] keys@[i]@ == k by {
                let i = choose|i: int| 0 <= i < entries@.len() && entries@[i].0@ == k;
                assert(keys@[i]@ == k);
            }
        }
        keys
    }

    /// Each stored name with its portfolio, each name once, in no fixed
    /// order.
    pub fn list_as_vec(&self) -> (entries: Vec<Entry>)
        ensures
            entries@.len() == self@.dom().len(),
            forall|i: int|
                0 <= i < entries@.len() ==> #[trigger] self@.contains_key(entries@[i].0@)
                    && self@[entries@[i].0@] == entries@[i].1,
            forall|k: Seq<char>|
                #[trigger] self@.contains_key(k) ==> exists|i: int|
                    0 <= i < entries@.len() && #[trigger] entries@[i].0@ == k && entries@[i].1
                        == self@[k],
            forall|i: int, j: int|
                0 <= i < j < entries@.len() ==> #[trigger] entries@[i].0@ != #[trigger] entries@[j].0@,
    {
        let entries = cache_entries(&self.cache);
        proof {
            lemma_entries_cover(self@, entries@);
            assert forall|k: Seq<char>| #[trigger] self@.contains_key(k) implies exists|i: int|
                0 <= i < entries@.len() && #[trigger] entries@[i].0@ == k && entries@[i].1 == self@[k] by {
                let i = choose|i: int| 0 <= i < entries@.len() && #[trigger] entries@[i].0@ == k;
                assert(self@.contains_key(entries@[i].0@));
            }
        }
        entries
    }

    /// Replaces the current portfolio.
    pub fn set(&mut self, p: Portfolio)
        ensures
            final(self)@ == old(self)@.insert(current_key(), p),
    {
        let _ = cache_insert(&mut self.cache, "current".to_owned(), p);
    }

    /// Replaces everything stored by the given entries, written in order, so
    /// that the last entry of a name wins.
    pub fn load_entries(&mut self, entries: Vec<(String, Portfolio)>)
        ensures
            final(self)@ == store_of(entries@),
    {
        cache_clear(&mut self.cache);
        let ghost all = entries@;
        let mut rest = entries;
        let mut reversed: Vec<(String, Portfolio)> = Vec::new();
        while rest.len() > 0
            invariant
                reversed@.len() + rest@.len() == all.len(),
                rest@ == all.take(rest@.len() as int),
                forall|i: int| 0 <= i < reversed@.len() ==> #[trigger] reversed@[i] == all[all.len() - 1 - i],
            decreases rest@.len(),
        {
            let e = rest.pop().unwrap();
            reversed.push(e);
            proof {
                assert(rest@ =~= all.take(rest@.len() as int));
            }
        }
        proof {
            assert(store_of(all.take(0)) =~= self@) by {
                assert(all.take(0) =~= Seq::<(String, Portfolio)>::empty());
            }
        }
        while reversed.len() > 0
            invariant
                reversed@.len() <= all.len(),
                forall|i: int| 0 <= i < reversed@.len() ==> #[trigger] reversed@[i] == all[all.len() - 1 - i],
                self@ == store_of(all.take(all.len() - reversed@.len())),
            decreases reversed@.len(),
        {
            let ghost done = all.len() - reversed@.len();
            let (key, p) = reversed.pop().unwrap();
            proof {
                assert(all.take(done + 1).drop_last() =~= all.take(done));
            }
            let _ = cache_insert(&mut self.cache, key, p);
        }
        proof {
            assert(all.take(all.len() as int) =~= all);
        }
    }
}

/// Reading the current portfolio after setting it gives back the portfolio
/// that was set, whatever the store held before.
pub proof fn law_get_after_set(store: Map<Seq<char>, Portfolio>, p: Portfolio)
    ensures
        store.insert(current_key(), p).contains_key(current_key()),
        store.insert(current_key(), p)[current_key()] == p,
{
}

/// Removing a name just stored gives back the portfolio stored, and leaves
/// the store as removing the name from the store before would.
pub proof fn law_remove_after_upsert(store: Map<Seq<char>, Portfolio>, key: Seq<char>, p: Portfolio)
    ensures
        store.insert(key, p).contains_key(key),
        store.insert(key, p)[key] == p,
        store.insert(key, p).remove(key) == store.remove(key),
{
    assert(store.insert(key, p).remove(key) =~= store.remove(key));
}

/// Storing under one name leaves every other name as it was.
pub proof fn law_upsert_keeps_other_names(
    store: Map<Seq<char>, Portfolio>,
    key: Seq<char>,
    p: Portfolio,
    other: Seq<char>,
)
    requires
        other != key,
    ensures
        store.insert(key, p).contains_key(other) == store.contains_key(other),
        store.contains_key(other) ==> store.insert(key, p)[other] == store[other],
{
}

/// After loading entries, the store holds exactly their names, and each name
/// holds the portfolio of its last entry.
pub proof fn law_load_last_entry_wins(entries: Seq<(String, Portfolio)>, i: int)
    requires
        0 <= i < entries.len(),
        forall|j: int| i < j < entries.len() ==> #[trigger] entries[j].0@ != entries[i].0@,
    ensures
        store_of(entries).contains_key(entries[i].0@),
        store_of(entries)[entries[i].0@] == entries[i].1,
    decreases entries.len(),
{
    if i < entries.len() - 1 {
        let rest = entries.drop_last();
        assert forall|j: int| i < j < rest.len() implies #[trigger] rest[j].0@ != rest[i].0@ by {
            assert(rest[j] == entries[j]);
        }
        law_load_last_entry_wins(rest, i);
        assert(entries.last().0@ != entries[i].0@);
    }
}

/// A loaded store holds no name that no entry has.
pub proof fn law_load_only_given_names(entries: Seq<(String, Portfolio)>, k: Seq<char>)
    requires
        store_of(entries).contains_key(k),
    ensures
        exists|i: int| 0 <= i < entries.len() && #[trigger] entries[i].0@ == k,
    decreases entries.len(),
{
    if entries.len() > 0 {
        if entries.last().0@ == k {
            assert(entries[entries.len() - 1].0@ == k);
        } else {
            law_load_only_given_names(entries.drop_last(), k);
            let i = choose|i: int| 0 <= i < entries.drop_last().len() && #[trigger] entries.drop_last()[i].0@ == k;
            assert(entries[i].0@ == k);
        }
    }
}

/// A listing of entries whose names are distinct and make up the keys of a
/// store lists each key once and has as many entries as the store has keys.
proof fn lemma_entries_cover(store: Map<Seq<char>, Portfolio>, entries: Seq<Entry>)
    requires
        store.dom() == entries.map_values(|e: Entry| e.0@).to_set(),
        forall|i: int, j: int| 0 <= i < j < entries.len() ==> #[trigger] entries[i].0@ != #[trigger] entries[j].0@,
    ensures
        store.dom().finite(),
        entries.len() == store.dom().len(),
        forall|i: int| 0 <= i < entries.len() ==> #[trigger] store.contains_key(entries[i].0@),
        forall|k: Seq<char>|
            #[trigger] store.contains_key(k) ==> exists|i: int|
                0 <= i < entries.len() && #[trigger] entries[i].0@ == k,
{
    let keys = entries.map_values(|e: Entry| e.0@);
    assert(keys.no_duplicates()) by {
        assert forall|i: int, j: int| 0 <= i < keys.len() && 0 <= j < keys.len() && i != j implies keys[i] != keys[j] by {
            if i < j {
                assert(entries[i].0@ != entries[j].0@);
            } else {
                assert(entries[j].0@ != entries[i].0@);
            }
        }
    }
    keys.unique_seq_to_set();
    assert forall|i: int| 0 <= i < entries.len() implies #[trigger] store.contains_key(entries[i].0@) by {
        assert(keys[i] == entries[i].0@);
        assert(keys.to_set().contains(keys[i]));
    }
    assert forall|k: Seq<char>| #[trigger] store.contains_key(k) implies exists|i: int|
        0 <= i < entries.len() && #[trigger] entries[i].0@ == k by {
        assert(keys.to_set().contains(k));
        let i = choose|i: int| 0 <= i < keys.len() && keys[i] == k;
        assert(entries[i].0@ == k);
    }
}

} // verus!
