//! The result store: classification results keyed by fingerprint.
//!
//! The store holds two-field records `{id, value}` and answers equality
//! queries on `id`. Writing is an upsert: a record whose `id` already
//! exists has its `value` overwritten, so rewriting an identical record
//! changes nothing observable. The store is viewed as a map from key to
//! stored value.

use vstd::prelude::*;

verus! {

/// A persisted record: a fingerprint and the classification stored
/// under it.
#[derive(Clone, Debug)]
pub struct CacheEntry {
    pub id: String,
    pub value: String,
}

impl CacheEntry {
    /// The partition key of a record is its identity.
    pub fn partition_key(&self) -> (r: &str)
        ensures
            r@ == self.id@,
    {
        self.id.as_str()
    }
}

/// A key-value store of cache entries, addressed by fingerprint.
pub struct Store {
    entries: Vec<CacheEntry>,
}

/// The map held by a sequence of writes: a later write to a key
/// overrides an earlier one.
spec fn map_of(s: Seq<CacheEntry>) -> Map<Seq<char>, Seq<char>>
    decreases s.len(),
{
    if s.len() == 0 {
        Map::<Seq<char>, Seq<char>>::empty()
    } else {
        map_of(s.drop_last()).insert(s.last().id@, s.last().value@)
    }
}

impl View for Store {
    type V = Map<Seq<char>, Seq<char>>;

    closed spec fn view(&self) -> Map<Seq<char>, Seq<char>> {
        map_of(self.entries@)
    }
}

proof fn lemma_map_of_contains(s: Seq<CacheEntry>, k: Seq<char>)
    ensures
        map_of(s).contains_key(k) <==> exists|i: int| 0 <= i < s.len() && s[i].id@ == k,
    decreases s.len(),
{
    if s.len() > 0 {
        lemma_map_of_contains(s.drop_last(), k);
        if s.last().id@ == k {
            assert(s[s.len() - 1].id@ == k);
        } else if map_of(s).contains_key(k) {
            let i = choose|i: int| 0 <= i < s.drop_last().len() && s.drop_last()[i].id@ == k;
            assert(s[i].id@ == k);
        } else if exists|i: int| 0 <= i < s.len() && s[i].id@ == k {
            let i = choose|i: int| 0 <= i < s.len() && s[i].id@ == k;
            assert(s.drop_last()[i].id@ == k);
        }
    }
}

proof fn lemma_map_of_value(s: Seq<CacheEntry>, i: int, k: Seq<char>)
    requires
        0 <= i < s.len(),
        s[i].id@ == k,
        forall|j: int| i < j < s.len() ==> s[j].id@ != k,
    ensures
        map_of(s).contains_key(k),
        map_of(s)[k] == s[i].value@,
    decreases s.len(),
{
    if i == s.len() - 1 {
    } else {
        assert(s.drop_last()[i] == s[i]);
        lemma_map_of_value(s.drop_last(), i, k);
    }
}

impl Store {
    /// An empty store.
    pub fn new() -> (r: Store)
        ensures
            r@ == Map::<Seq<char>, Seq<char>>::empty(),
    {
        Store { entries: Vec::new() }
    }

    /// The equality query by identity: the value stored under the key,
    /// if a record with that identity exists, and nothing otherwise.
    pub fn lookup(&self, key: &String) -> (r: Option<String>)
        ensures
            match r {
                Some(v) => self@.contains_key(key@) && v@ == self@[key@],
                None => !self@.contains_key(key@),
            },
    {
        let mut i: usize = self.entries.len();
        while i > 0
            invariant
                i <= self.entries@.len(),
                forall|j: int| i <= j < self.entries@.len() ==> self.entries@[j].id@ != key@,
            decreases i,
        {
            i = i - 1;
            if self.entries[i].id == *key {
                proof {
                    lemma_map_of_value(self.entries@, i as int, key@);
                }
                return Some(self.entries[i].value.clone());
            }
        }
        proof {
            lemma_map_of_contains(self.entries@, key@);
        }
        None
    }

    /// The upsert: after the call the key holds exactly the given
    /// value, and every other key is as it was.
    pub fn insert(&mut self, key: String, value: String)
        ensures
            final(self)@ == old(self)@.insert(key@, value@),
    {
        let ghost before = self.entries@;
        let ghost k = key@;
        let ghost v = value@;
        self.entries.push(CacheEntry { id: key, value });
        proof {
            assert(self.entries@.drop_last() =~= before);
            assert(self.entries@.last().id@ == k);
            assert(self.entries@.last().value@ == v);
        }
    }
}

/// Idempotent upsert: writing the same record twice leaves the store in
/// the state that writing it once leaves it in.
pub proof fn lemma_insert_idempotent(m: Map<Seq<char>, Seq<char>>, k: Seq<char>, v: Seq<char>)
    ensures
        m.insert(k, v).insert(k, v) == m.insert(k, v),
{
    assert(m.insert(k, v).insert(k, v) =~= m.insert(k, v));
}

} // verus!
