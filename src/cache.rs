//! The comparison cache: remembered outcomes of full content comparisons, keyed by
//! the two paths and their two signatures.

use vstd::prelude::*;

use crate::signature::Signature;

verus! {

/// The number of entries beyond which an insertion empties the whole cache.
pub const MAX_CACHE_SIZE: usize = 100;

/// The key of one remembered comparison: the two paths and their signatures at the
/// time the contents were compared. A changed signature makes a different key.
#[derive(Clone, Debug)]
pub struct CacheKey {
    pub path1: String,
    pub path2: String,
    pub sig1: Signature,
    pub sig2: Signature,
}

/// A cache key as a mathematical value.
pub type KeyView = (Seq<char>, Seq<char>, Signature, Signature);

impl View for CacheKey {
    type V = KeyView;

    open spec fn view(&self) -> KeyView {
        (self.path1@, self.path2@, self.sig1, self.sig2)
    }
}

/// The key under which the comparison of `f1` with `f2` is remembered.
pub open spec fn key_of(f1: Seq<char>, f2: Seq<char>, s1: Signature, s2: Signature) -> KeyView {
    (f1, f2, s1, s2)
}

/// The cache after remembering `value` under `key`: the insertion, unless the cache
/// then holds more than `MAX_CACHE_SIZE` entries, in which case it is emptied.
pub open spec fn after_put(m: Map<KeyView, bool>, key: KeyView, value: bool) -> Map<KeyView, bool> {
    let n = m.insert(key, value);
    if n.len() > MAX_CACHE_SIZE {
        Map::empty()
    } else {
        n
    }
}

/// A bounded memo of content comparison outcomes.
pub struct ComparisonCache {
    entries: Vec<(CacheKey, bool)>,
}

impl ComparisonCache {
    /// The keys of the entries, in the order they are held.
    closed spec fn keys(self) -> Seq<KeyView> {
        self.entries@.map_values(|e: (CacheKey, bool)| e.0@)
    }

    /// Each key is held once, and no more than `MAX_CACHE_SIZE` keys are held.
    pub closed spec fn wf(self) -> bool {
        &&& self.keys().no_duplicates()
        &&& self.entries@.len() <= MAX_CACHE_SIZE
    }

    /// The remembered outcomes.
    pub closed spec fn view(self) -> Map<KeyView, bool> {
        Map::new(
            |k: KeyView| self.keys().contains(k),
            |k: KeyView| self.entries@[self.keys().index_of(k)].1,
        )
    }

    proof fn lemma_view_len(self)
        requires
            self.keys().no_duplicates(),
        ensures
            self.view().dom().finite(),
            self.view().len() == self.entries@.len(),
    {
        assert(self.view().dom() =~= self.keys().to_set());
        self.keys().unique_seq_to_set();
        broadcast use vstd::seq_lib::seq_to_set_is_finite;
    }

    proof fn lemma_lookup(self, i: int)
        requires
            self.wf(),
            0 <= i < self.entries@.len(),
        ensures
            self.view().contains_key(self.entries@[i].0@),
            self.view()[self.entries@[i].0@] == self.entries@[i].1,
    {
        let k = self.entries@[i].0@;
        assert(self.keys()[i] == k);
        let j = self.keys().index_of(k);
        assert(self.keys()[j] == k);
    }

    /// An empty cache.
    pub fn new() -> (r: ComparisonCache)
        ensures
            r.wf(),
            r.view() == Map::<KeyView, bool>::empty(),
            r.view().dom().finite(),
    {
        let r = ComparisonCache { entries: Vec::new() };
        assert(r.view() =~= Map::<KeyView, bool>::empty());
        r
    }

    /// The number of remembered outcomes.
    pub fn size(&self) -> (r: usize)
        requires
            self.wf(),
        ensures
            r == self.view().len(),
            self.view().dom().finite(),
            r <= MAX_CACHE_SIZE,
    {
        proof {
            self.lemma_view_len();
        }
        self.entries.len()
    }

    /// Forget every remembered outcome.
    pub fn clear(&mut self)
        ensures
            final(self).wf(),
            final(self).view() == Map::<KeyView, bool>::empty(),
            final(self).view().dom().finite(),
    {
        self.entries = Vec::new();
        assert(self.view() =~= Map::<KeyView, bool>::empty());
    }

    /// The position of `key` among the entries, if it is held.
    fn find(&self, key: &CacheKey) -> (r: Option<usize>)
        ensures
            match r {
                Some(i) => i < self.entries@.len() && self.keys()[i as int] == key@,
                None => !self.keys().contains(key@),
            },
    {
        let mut i: usize = 0;
        while i < self.entries.len()
            invariant
                i <= self.entries@.len(),
                forall|j: int| 0 <= j < i ==> #[trigger] self.keys()[j] != key@,
            decreases self.entries@.len() - i,
        {
            assert(self.keys()[i as int] == self.entries@[i as int].0@);
            if same_key(&self.entries[i].0, key) {
                return Some(i);
            }
            i = i + 1;
        }
        proof {
            if self.keys().contains(key@) {
                let j = choose|j: int| 0 <= j < self.keys().len() && self.keys()[j] == key@;
                assert(self.keys()[j] != key@);
            }
        }
        None
    }

    /// The outcome remembered under `key`, if any.
    pub fn get(&self, key: &CacheKey) -> (r: Option<bool>)
        requires
            self.wf(),
        ensures
            r == (if self.view().contains_key(key@) {
                Some(self.view()[key@])
            } else {
                None
            }),
    {
        match self.find(key) {
            Some(i) => {
                proof {
                    self.lemma_lookup(i as int);
                }
                Some(self.entries[i].1)
            },
            None => None,
        }
    }

    /// Remember `value` under `key`; when the cache then holds more than
    /// `MAX_CACHE_SIZE` entries, empty it.
    pub fn put(&mut self, key: CacheKey, value: bool)
        requires
            old(self).wf(),
        ensures
            final(self).wf(),
            final(self).view() == after_put(old(self).view(), key@, value),
            final(self).view().dom().finite(),
            final(self).view().len() <= MAX_CACHE_SIZE,
    {
        let ghost before = self.view();
        let ghost k = key@;
        let found = self.find(&key);
        let ghost old_keys = self.keys();
        let ghost old_entries = self.entries@;
        if let Some(i) = found {
            self.entries.set(i, (key, value));
            assert(self.keys() =~= old_keys);
            assert forall|k2: KeyView| #[trigger] self.keys().contains(k2) implies self.entries@[self.keys().index_of(k2)].1 == before.insert(k, value)[k2] by {
                let j = self.keys().index_of(k2);
                assert(self.keys()[j] == k2);
                if k2 == k {
                    assert(j == i);
                } else {
                    assert(j != i);
                    assert(old_entries[j].0@ == k2);
                    let j2 = old_keys.index_of(k2);
                    assert(old_keys[j2] == k2);
                }
            }
            assert(self.view() =~= before.insert(k, value));
        } else {
            self.entries.push((key, value));
            assert(self.keys() =~= old_keys.push(k));
            assert forall|k2: KeyView| #[trigger] self.keys().contains(k2) implies self.entries@[self.keys().index_of(k2)].1 == before.insert(k, value)[k2] by {
                let j = self.keys().index_of(k2);
                assert(self.keys()[j] == k2);
                if k2 == k {
                    assert(j == old_keys.len());
                } else {
                    assert(j < old_keys.len());
                    assert(old_keys[j] == k2);
                    let j2 = old_keys.index_of(k2);
                    assert(old_keys[j2] == k2);
                }
            }
            assert forall|k2: KeyView| self.keys().contains(k2) <==> #[trigger] before.insert(k, value).contains_key(k2) by {
                assert(before.contains_key(k2) == old_keys.contains(k2));
                assert(self.keys()[old_keys.len() as int] == k);
                if old_keys.contains(k2) {
                    let j = choose|j: int| 0 <= j < old_keys.len() && old_keys[j] == k2;
                    assert(self.keys()[j] == k2);
                }
                if self.keys().contains(k2) && k2 != k {
                    let j = choose|j: int| 0 <= j < self.keys().len() && self.keys()[j] == k2;
                    assert(old_keys[j] == k2);
                }
            }
            assert(self.view() =~= before.insert(k, value));
        }
        proof {
            self.lemma_view_len();
        }
        if self.entries.len() > MAX_CACHE_SIZE {
            self.clear();
        }
    }
}

/// Whether two keys are the same key.
fn same_key(a: &CacheKey, b: &CacheKey) -> (r: bool)
    ensures
        r == (a@ == b@),
{
    a.path1 == b.path1 && a.path2 == b.path2 && a.sig1 == b.sig1 && a.sig2 == b.sig2
}

/// Remembering an outcome under a new key while fewer than `MAX_CACHE_SIZE` are held
/// adds exactly that entry.
pub proof fn lemma_put_adds(m: Map<KeyView, bool>, key: KeyView, value: bool)
    requires
        m.dom().finite(),
        m.len() < MAX_CACHE_SIZE,
        !m.contains_key(key),
    ensures
        after_put(m, key, value) == m.insert(key, value),
        after_put(m, key, value).len() == m.len() + 1,
{
}

/// Once `MAX_CACHE_SIZE` outcomes are held, remembering one more under a new key
/// empties the whole cache.
pub proof fn lemma_put_evicts(m: Map<KeyView, bool>, key: KeyView, value: bool)
    requires
        m.dom().finite(),
        m.len() == MAX_CACHE_SIZE,
        !m.contains_key(key),
    ensures
        after_put(m, key, value) == Map::<KeyView, bool>::empty(),
        after_put(m, key, value).len() == 0,
{
}

/// Forget every outcome that `cache` remembers.
pub fn clear_cache(cache: &mut ComparisonCache)
    ensures
        final(cache).wf(),
        final(cache).view() == Map::<KeyView, bool>::empty(),
{
    cache.clear();
}

} // verus!
