//! Key-value storage with a default value for absent keys, in the manner
//! of a runtime storage map queried by value.

use vstd::prelude::*;

verus! {

/// Keys that can be compared for equality in executable code.
pub trait StorageKey: Sized {
    fn same_key(&self, other: &Self) -> (r: bool)
        ensures
            r == (*self == *other),
    ;
}

impl StorageKey for u64 {
    fn same_key(&self, other: &Self) -> (r: bool) {
        *self == *other
    }
}

impl StorageKey for (u64, u64) {
    fn same_key(&self, other: &Self) -> (r: bool) {
        self.0 == other.0 && self.1 == other.1
    }
}

/// The value stored under `key` in a list of entries: the last entry with
/// that key wins, and `default` stands for a key that has no entry.
pub open spec fn lookup<K, V>(s: Seq<(K, V)>, key: K, default: V) -> V
    decreases s.len(),
{
    if s.len() == 0 {
        default
    } else if s.last().0 == key {
        s.last().1
    } else {
        lookup(s.drop_last(), key, default)
    }
}

/// A map from keys to values in which every key is present: keys that were
/// never written read as the map's default value.
pub struct StorageMap<K, V> {
    entries: Vec<(K, V)>,
    default: V,
}

impl<K, V> View for StorageMap<K, V> {
    type V = Map<K, V>;

    closed spec fn view(&self) -> Map<K, V> {
        Map::new(|k: K| true, |k: K| lookup(self.entries@, k, self.default))
    }
}

/// Every key is in the domain of a storage map.
pub broadcast proof fn lemma_every_key_present<K, V>(m: StorageMap<K, V>, k: K)
    ensures
        #[trigger] m@.dom().contains(k),
{
}

pub proof fn lemma_lookup_absent<K, V>(s: Seq<(K, V)>, key: K, default: V)
    requires
        forall|i: int| 0 <= i < s.len() ==> s[i].0 != key,
    ensures
        lookup(s, key, default) == default,
    decreases s.len(),
{
    if s.len() > 0 {
        lemma_lookup_absent(s.drop_last(), key, default);
    }
}

pub proof fn lemma_lookup_at<K, V>(s: Seq<(K, V)>, i: int, default: V)
    requires
        0 <= i < s.len(),
        forall|j: int| i < j < s.len() ==> s[j].0 != s[i].0,
    ensures
        lookup(s, s[i].0, default) == s[i].1,
    decreases s.len(),
{
    if i < s.len() - 1 {
        lemma_lookup_at(s.drop_last(), i, default);
    }
}

pub proof fn lemma_lookup_update<K, V>(s: Seq<(K, V)>, i: int, v: V, k2: K, default: V)
    requires
        0 <= i < s.len(),
        forall|j: int| i < j < s.len() ==> s[j].0 != s[i].0,
    ensures
        lookup(s.update(i, (s[i].0, v)), k2, default) == if k2 == s[i].0 {
            v
        } else {
            lookup(s, k2, default)
        },
    decreases s.len(),
{
    let t = s.update(i, (s[i].0, v));
    if i < s.len() - 1 {
        assert(t.drop_last() =~= s.drop_last().update(i, (s[i].0, v)));
        lemma_lookup_update(s.drop_last(), i, v, k2, default);
    } else {
        assert(t.drop_last() =~= s.drop_last());
    }
}

impl<K: StorageKey + Copy, V: Copy> StorageMap<K, V> {
    /// Keys occur at most once among the entries.
    pub closed spec fn wf(&self) -> bool {
        forall|i: int, j: int|
            0 <= i < j < self.entries@.len() ==> self.entries@[i].0 != self.entries@[j].0
    }

    /// The value read for keys that were never written.
    pub closed spec fn default_value(&self) -> V {
        self.default
    }

    /// The keys ever written, in the order they were first written.
    pub closed spec fn keys(&self) -> Seq<K> {
        self.entries@.map_values(|e: (K, V)| e.0)
    }

    /// Each key is written at most once in `keys`, and a key never written
    /// reads as the default.
    pub proof fn lemma_keys(&self)
        requires
            self.wf(),
        ensures
            self.keys().no_duplicates(),
            forall|k: K| !self.keys().contains(k) ==> #[trigger] self@[k] == self.default_value(),
    {
        let ks = self.keys();
        assert forall|k: K| !ks.contains(k) implies #[trigger] self@[k] == self.default_value() by {
            assert forall|i: int| 0 <= i < self.entries@.len() implies self.entries@[i].0 != k by {
                assert(ks[i] == self.entries@[i].0);
            }
            lemma_lookup_absent(self.entries@, k, self.default);
        }
    }

    pub fn new(default: V) -> (m: Self)
        ensures
            m.wf(),
            m.keys() == Seq::<K>::empty(),
            m.default_value() == default,
            forall|k: K| #[trigger] m@[k] == default,
    {
        let m = StorageMap { entries: Vec::new(), default };
        assert(m.keys() =~= Seq::<K>::empty());
        m
    }

    /// Index of the entry holding `key`, if any.
    fn find(&self, key: &K) -> (r: Option<usize>)
        requires
            self.wf(),
        ensures
            match r {
                Some(i) => i < self.entries@.len() && self.entries@[i as int].0 == *key,
                None => forall|i: int| 0 <= i < self.entries@.len() ==> self.entries@[i].0 != *key,
            },
    {
        let mut i: usize = 0;
        while i < self.entries.len()
            invariant
                i <= self.entries@.len(),
                forall|j: int| 0 <= j < i ==> self.entries@[j].0 != *key,
            decreases self.entries@.len() - i,
        {
            if self.entries[i].0.same_key(key) {
                return Some(i);
            }
            i = i + 1;
        }
        None
    }

    pub fn get(&self, key: K) -> (v: V)
        requires
            self.wf(),
        ensures
            v == self@[key],
    {
        match self.find(&key) {
            Some(i) => {
                proof {
                    lemma_lookup_at(self.entries@, i as int, self.default);
                }
                self.entries[i].1
            },
            None => {
                proof {
                    lemma_lookup_absent(self.entries@, key, self.default);
                }
                self.default
            },
        }
    }

    pub fn insert(&mut self, key: K, value: V)
        requires
            old(self).wf(),
        ensures
            final(self).wf(),
            final(self).default_value() == old(self).default_value(),
            final(self)@ == old(self)@.insert(key, value),
            final(self).keys() == if old(self).keys().contains(key) {
                old(self).keys()
            } else {
                old(self).keys().push(key)
            },
    {
        let ghost s = self.entries@;
        match self.find(&key) {
            Some(i) => {
                self.entries.set(i, (key, value));
                proof {
                    assert(old(self).keys()[i as int] == key);
                    assert(self.keys() =~= old(self).keys());
                    assert forall|k: K| #[trigger] self@[k] == value_after_insert(s, key, value, self.default, k) by {
                        lemma_lookup_update(s, i as int, value, k, self.default);
                    }
                }
            },
            None => {
                self.entries.push((key, value));
                proof {
                    assert(self.entries@.drop_last() =~= s);
                    assert forall|i: int| 0 <= i < old(self).keys().len() implies old(self).keys()[i]
                        != key by {
                        assert(old(self).keys()[i] == s[i].0);
                    }
                    assert(self.keys() =~= old(self).keys().push(key));
                }
            },
        }
        assert(self@ =~= old(self)@.insert(key, value));
    }
}

/// What `key` reads after `value` is written under `key` into the entries `s`.
spec fn value_after_insert<K, V>(s: Seq<(K, V)>, key: K, value: V, default: V, k: K) -> V {
    if k == key { value } else { lookup(s, k, default) }
}

} // verus!
