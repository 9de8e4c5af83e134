//! The persistent store's building block: a small key-value map from asset
//! ids to plain values, backed by an association list with distinct keys
//! and viewed as a mathematical `Map`.

use vstd::prelude::*;

verus! {

/// Looks a key up in an association list, scanning from the last entry.
/// Under distinct keys the scan order does not matter.
pub open spec fn assoc_find<K, V>(s: Seq<(K, V)>, key: K) -> Option<V>
    decreases s.len(),
{
    if s.len() == 0 {
        None
    } else if s.last().0 == key {
        Some(s.last().1)
    } else {
        assoc_find(s.drop_last(), key)
    }
}

/// All keys of the association list are distinct.
pub open spec fn distinct_keys<K, V>(s: Seq<(K, V)>) -> bool {
    forall|i: int, j: int| 0 <= i < j < s.len() ==> s[i].0 != s[j].0
}

/// An entry with the sought key determines the lookup result, wherever it
/// stands, as long as keys are distinct.
pub proof fn lemma_find_some<K, V>(s: Seq<(K, V)>, key: K, i: int)
    requires
        distinct_keys(s),
        0 <= i < s.len(),
        s[i].0 == key,
    ensures
        assoc_find(s, key) == Some(s[i].1),
    decreases s.len(),
{
    if i == s.len() - 1 {
    } else {
        assert(s.last().0 != key);
        assert(distinct_keys(s.drop_last()));
        lemma_find_some(s.drop_last(), key, i);
    }
}

/// A key no entry holds is not found.
pub proof fn lemma_find_none<K, V>(s: Seq<(K, V)>, key: K)
    requires
        forall|i: int| 0 <= i < s.len() ==> s[i].0 != key,
    ensures
        assoc_find(s, key) is None,
    decreases s.len(),
{
    if s.len() > 0 {
        lemma_find_none(s.drop_last(), key);
    }
}

/// Replacing the entry at `i` by one with the same key changes only that
/// key's lookup result.
pub proof fn lemma_find_update<K, V>(s: Seq<(K, V)>, i: int, e: (K, V), q: K)
    requires
        distinct_keys(s),
        0 <= i < s.len(),
        e.0 == s[i].0,
    ensures
        distinct_keys(s.update(i, e)),
        assoc_find(s.update(i, e), q) == if q == e.0 {
            Some(e.1)
        } else {
            assoc_find(s, q)
        },
{
    let s2 = s.update(i, e);
    assert(distinct_keys(s2));
    if q == e.0 {
        lemma_find_some(s2, q, i);
    } else {
        if exists|j: int| 0 <= j < s.len() && s[j].0 == q {
            let j = choose|j: int| 0 <= j < s.len() && s[j].0 == q;
            assert(s2[j].0 == q);
            lemma_find_some(s, q, j);
            lemma_find_some(s2, q, j);
        } else {
            lemma_find_none(s, q);
            lemma_find_none(s2, q);
        }
    }
}

/// Appending an entry with a fresh key adds exactly that key.
pub proof fn lemma_find_push<K, V>(s: Seq<(K, V)>, e: (K, V), q: K)
    requires
        distinct_keys(s),
        forall|i: int| 0 <= i < s.len() ==> s[i].0 != e.0,
    ensures
        distinct_keys(s.push(e)),
        assoc_find(s.push(e), q) == if q == e.0 {
            Some(e.1)
        } else {
            assoc_find(s, q)
        },
{
    let s2 = s.push(e);
    assert(forall|k: int| 0 <= k < s.len() ==> s2[k] == s[k]);
    assert(distinct_keys(s2));
    assert(s2.last() == e);
    assert(s2.drop_last() =~= s);
}

/// Removing the entry at `i` removes exactly its key.
pub proof fn lemma_find_remove<K, V>(s: Seq<(K, V)>, i: int, q: K)
    requires
        distinct_keys(s),
        0 <= i < s.len(),
    ensures
        distinct_keys(s.remove(i)),
        assoc_find(s.remove(i), q) == if q == s[i].0 {
            None::<V>
        } else {
            assoc_find(s, q)
        },
{
    let s2 = s.remove(i);
    s.remove_ensures(i);
    assert(distinct_keys(s2));
    if q == s[i].0 {
        assert(forall|k: int| 0 <= k < s2.len() ==> s2[k].0 != q);
        lemma_find_none(s2, q);
    } else {
        if exists|j: int| 0 <= j < s.len() && s[j].0 == q {
            let j = choose|j: int| 0 <= j < s.len() && s[j].0 == q;
            lemma_find_some(s, q, j);
            if j < i {
                assert(s2[j] == s[j]);
                lemma_find_some(s2, q, j);
            } else {
                assert(s2[j - 1] == s[j]);
                lemma_find_some(s2, q, j - 1);
            }
        } else {
            lemma_find_none(s, q);
            assert(forall|k: int| 0 <= k < s2.len() ==> s2[k].0 != q);
            lemma_find_none(s2, q);
        }
    }
}

/// A key-value map from asset ids to plain values.  Writes to it are the
/// only way the registry's state changes, so each operation below states
/// its effect on the abstract map exactly.
pub struct KvMap<V> {
    entries: Vec<(u32, V)>,
}

impl<V: Copy> KvMap<V> {
    /// The abstract contents: the mathematical map the entries encode.
    pub closed spec fn view(&self) -> Map<u32, V> {
        Map::new(
            |k: u32| assoc_find(self.entries@, k) is Some,
            |k: u32| assoc_find(self.entries@, k)->0,
        )
    }

    /// Well-formed: no key occurs twice.
    pub closed spec fn wf(&self) -> bool {
        distinct_keys(self.entries@)
    }

    /// The empty map.
    pub fn new() -> (r: KvMap<V>)
        ensures
            r.wf(),
            r@ == Map::<u32, V>::empty(),
    {
        let r = KvMap { entries: Vec::new() };
        proof {
            assert(r@ =~= Map::<u32, V>::empty());
        }
        r
    }

    /// The position of the entry holding `key`, if any.
    fn index_of(&self, key: u32) -> (r: Option<usize>)
        requires
            self.wf(),
        ensures
            match r {
                Some(i) => i < self.entries@.len() && self.entries@[i as int].0 == key,
                None => !self@.contains_key(key),
            },
    {
        let mut i: usize = 0;
        while i < self.entries.len()
            invariant
                i <= self.entries@.len(),
                forall|j: int| 0 <= j < i ==> self.entries@[j].0 != key,
            decreases self.entries@.len() - i,
        {
            if self.entries[i].0 == key {
                return Some(i);
            }
            i = i + 1;
        }
        proof {
            lemma_find_none(self.entries@, key);
        }
        None
    }

    /// The value stored under `key`, if any.
    pub fn get(&self, key: u32) -> (r: Option<V>)
        requires
            self.wf(),
        ensures
            r is Some <==> self@.contains_key(key),
            r is Some ==> r->0 == self@[key],
    {
        match self.index_of(key) {
            Some(i) => {
                proof {
                    lemma_find_some(self.entries@, key, i as int);
                }
                Some(self.entries[i].1)
            },
            None => None,
        }
    }

    /// Whether any value is stored under `key`.
    pub fn contains_key(&self, key: u32) -> (r: bool)
        requires
            self.wf(),
        ensures
            r == self@.contains_key(key),
    {
        self.get(key).is_some()
    }

    /// Stores `value` under `key`, overwriting any previous value.
    pub fn insert(&mut self, key: u32, value: V)
        requires
            old(self).wf(),
        ensures
            final(self).wf(),
            final(self)@ == old(self)@.insert(key, value),
    {
        let ghost s0 = self.entries@;
        match self.index_of(key) {
            Some(i) => {
                self.entries[i] = (key, value);
                proof {
                    let s1 = self.entries@;
                    assert(s1 == s0.update(i as int, (key, value)));
                    assert forall|q: u32|
                        #![trigger assoc_find(s1, q)]
                        assoc_find(s1, q) == (if q == key {
                            Some(value)
                        } else {
                            assoc_find(s0, q)
                        }) by {
                        lemma_find_update(s0, i as int, (key, value), q);
                    }
                    lemma_find_update(s0, i as int, (key, value), key);
                    assert(self@ =~= old(self)@.insert(key, value));
                }
            },
            None => {
                proof {
                    if exists|j: int| 0 <= j < s0.len() && s0[j].0 == key {
                        let j = choose|j: int| 0 <= j < s0.len() && s0[j].0 == key;
                        lemma_find_some(s0, key, j);
                        assert(false);
                    }
                }
                self.entries.push((key, value));
                proof {
                    let s1 = self.entries@;
                    assert(s1 == s0.push((key, value)));
                    assert forall|q: u32|
                        #![trigger assoc_find(s1, q)]
                        assoc_find(s1, q) == (if q == key {
                            Some(value)
                        } else {
                            assoc_find(s0, q)
                        }) by {
                        lemma_find_push(s0, (key, value), q);
                    }
                    lemma_find_push(s0, (key, value), key);
                    assert(self@ =~= old(self)@.insert(key, value));
                }
            },
        }
    }

    /// Removes the value stored under `key`, if any.
    pub fn remove(&mut self, key: u32)
        requires
            old(self).wf(),
        ensures
            final(self).wf(),
            final(self)@ == old(self)@.remove(key),
    {
        let ghost s0 = self.entries@;
        match self.index_of(key) {
            Some(i) => {
                self.entries.remove(i);
                proof {
                    let s1 = self.entries@;
                    assert(s1 == s0.remove(i as int));
                    assert forall|q: u32|
                        #![trigger assoc_find(s1, q)]
                        assoc_find(s1, q) == (if q == key {
                            None::<V>
                        } else {
                            assoc_find(s0, q)
                        }) by {
                        lemma_find_remove(s0, i as int, q);
                    }
                    lemma_find_remove(s0, i as int, key);
                    assert(self@ =~= old(self)@.remove(key));
                }
            },
            None => {
                proof {
                    assert(self@ =~= old(self)@.remove(key));
                }
            },
        }
    }
}

} // verus!
