//! A small map, kept as two parallel vectors in which no key occurs twice.

use vstd::prelude::*;
use crate::types::{find_key, Key};

verus! {

/// Map from keys of type `K` to values of type `V`.
#[derive(Clone, Debug)]
pub struct KeyTable<K: Key, V> {
    keys: Vec<K>,
    vals: Vec<V>,
}

impl<K: Key, V> KeyTable<K, V> {
    /// Both vectors have one length and no key occurs twice.
    pub closed spec fn wf(&self) -> bool {
        &&& self.keys.len() == self.vals.len()
        &&& self.keys@.no_duplicates()
    }

    /// The keys in the order in which they were first inserted.
    pub closed spec fn keys(&self) -> Seq<K> {
        self.keys@
    }

    /// The table as a mathematical map.
    pub closed spec fn view(&self) -> Map<K, V> {
        Map::new(
            |k: K| self.keys@.contains(k),
            |k: K| self.vals@[self.keys@.index_of(k)],
        )
    }

    /// Number of entries.
    pub open spec fn spec_len(&self) -> nat {
        self.keys().len()
    }

    /// The domain of the map is the set of the keys, each counted once.
    pub proof fn lemma_domain(&self)
        requires
            self.wf(),
        ensures
            self@.dom() =~= self.keys().to_set(),
            self@.dom().finite(),
            self@.dom().len() == self.spec_len(),
            self.keys().no_duplicates(),
    {
        self.keys@.unique_seq_to_set();
        assert(self@.dom() =~= self.keys@.to_set());
    }

    /// An empty table.
    pub fn new() -> (t: Self)
        ensures
            t.wf(),
            t@ == Map::<K, V>::empty(),
            t.keys() == Seq::<K>::empty(),
    {
        let t = KeyTable { keys: Vec::new(), vals: Vec::new() };
        assert(t@ =~= Map::<K, V>::empty());
        t
    }

    /// Number of entries.
    pub fn len(&self) -> (n: usize)
        requires
            self.wf(),
        ensures
            n == self.spec_len(),
            n == self@.dom().len(),
    {
        proof {
            self.lemma_domain();
        }
        self.keys.len()
    }

    /// The keys in the order in which they were first inserted.
    pub fn key_list(&self) -> (list: Vec<K>)
        ensures
            list@ == self.keys(),
    {
        let mut list: Vec<K> = Vec::new();
        let mut i: usize = 0;
        while i < self.keys.len()
            invariant
                i <= self.keys.len(),
                list@ == self.keys@.take(i as int),
            decreases self.keys.len() - i,
        {
            list.push(self.keys[i]);
            assert(self.keys@.take(i + 1) =~= self.keys@.take(i as int).push(self.keys@[i as int]));
            i += 1;
        }
        assert(self.keys@.take(i as int) =~= self.keys@);
        list
    }

    /// Whether `key` has an entry.
    pub fn contains_key(&self, key: &K) -> (found: bool)
        requires
            self.wf(),
        ensures
            found == self@.dom().contains(*key),
    {
        find_key(&self.keys, key).is_some()
    }

    /// The value stored under `key`, if any.
    pub fn get(&self, key: &K) -> (found: Option<&V>)
        requires
            self.wf(),
        ensures
            match found {
                Some(v) => self@.dom().contains(*key) && *v == self@[*key],
                None => !self@.dom().contains(*key),
            },
    {
        match find_key(&self.keys, key) {
            Some(i) => {
                proof {
                    let j = self.keys@.index_of(*key);
                    assert(self.keys@[j] == *key);
                    assert(j == i as int);
                }
                Some(&self.vals[i])
            },
            None => None,
        }
    }

    /// Stores `value` under `key` and returns the value it replaces, if any.
    /// A new key goes to the end of the key order; a known key keeps its place.
    pub fn insert(&mut self, key: K, value: V) -> (previous: Option<V>)
        requires
            old(self).wf(),
        ensures
            final(self).wf(),
            final(self)@ == old(self)@.insert(key, value),
            match previous {
                Some(v) => old(self)@.dom().contains(key) && v == old(self)@[key]
                    && final(self).keys() == old(self).keys(),
                None => !old(self)@.dom().contains(key)
                    && final(self).keys() == old(self).keys().push(key),
            },
    {
        match find_key(&self.keys, &key) {
            Some(i) => {
                proof {
                    let j = self.keys@.index_of(key);
                    assert(self.keys@[j] == key);
                    assert(j == i as int);
                }
                let previous = self.vals.remove(i);
                self.vals.insert(i, value);
                proof {
                    assert(self.vals@ =~= old(self).vals@.update(i as int, value));
                    assert forall|k: K| self@.dom().contains(k) implies #[trigger] self@[k]
                        == old(self)@.insert(key, value)[k] by {
                        let j = self.keys@.index_of(k);
                        assert(self.keys@[j] == k);
                    }
                    assert(self@ =~= old(self)@.insert(key, value));
                }
                Some(previous)
            },
            None => {
                self.keys.push(key);
                self.vals.push(value);
                proof {
                    let n = old(self).keys@.len() as int;
                    assert(self.keys@[n] == key);
                    assert forall|k: K| self.keys@.contains(k) <==> (k == key || old(
                        self,
                    ).keys@.contains(k)) by {
                        if old(self).keys@.contains(k) {
                            let j = old(self).keys@.index_of(k);
                            assert(self.keys@[j] == k);
                        }
                    }
                    assert forall|k: K| self@.dom().contains(k) implies #[trigger] self@[k]
                        == old(self)@.insert(key, value)[k] by {
                        let j = self.keys@.index_of(k);
                        assert(self.keys@[j] == k);
                        if k != key {
                            let j0 = old(self).keys@.index_of(k);
                            assert(old(self).keys@[j0] == k);
                            assert(self.keys@[j0] == k);
                            assert(j0 == j);
                        } else {
                            assert(j == n);
                        }
                    }
                    assert(self@ =~= old(self)@.insert(key, value));
                }
                None
            },
        }
    }

    /// Removes the entry of `key` and returns its value, if there was one.
    /// The other keys keep their order.
    pub fn remove(&mut self, key: &K) -> (removed: Option<V>)
        requires
            old(self).wf(),
        ensures
            final(self).wf(),
            final(self)@ == old(self)@.remove(*key),
            match removed {
                Some(v) => old(self)@.dom().contains(*key) && v == old(self)@[*key]
                    && final(self).spec_len() + 1 == old(self).spec_len()
                    && final(self).keys() == old(self).keys().remove(
                    old(self).keys().index_of(*key),
                ),
                None => !old(self)@.dom().contains(*key) && final(self).keys() == old(
                    self,
                ).keys(),
            },
    {
        match find_key(&self.keys, key) {
            Some(i) => {
                proof {
                    let j = self.keys@.index_of(*key);
                    assert(self.keys@[j] == *key);
                    assert(j == i as int);
                }
                self.keys.remove(i);
                let v = self.vals.remove(i);
                proof {
                    let ok = old(self).keys@;
                    let nk = self.keys@;
                    assert(nk =~= ok.remove(i as int));
                    assert forall|a: int, b: int| 0 <= a < nk.len() && 0 <= b < nk.len() && a
                        != b implies nk[a] != nk[b] by {
                        let a0 = if a < i { a } else { a + 1 };
                        let b0 = if b < i { b } else { b + 1 };
                        assert(nk[a] == ok[a0] && nk[b] == ok[b0]);
                    }
                    assert forall|k: K| nk.contains(k) <==> (k != *key && ok.contains(
                        k,
                    )) by {
                        if nk.contains(k) {
                            let a = nk.index_of(k);
                            assert(nk[a] == k);
                            let a0 = if a < i { a } else { a + 1 };
                            assert(ok[a0] == k);
                        }
                        if k != *key && ok.contains(k) {
                            let a0 = ok.index_of(k);
                            assert(ok[a0] == k);
                            let a = if a0 < i { a0 } else { a0 - 1 };
                            assert(nk[a] == k);
                        }
                    }
                    assert forall|k: K| self@.dom().contains(k) implies #[trigger] self@[k]
                        == old(self)@.remove(*key)[k] by {
                        let a = nk.index_of(k);
                        assert(nk[a] == k);
                        let a0 = if a < i { a } else { a + 1 };
                        assert(ok[a0] == k);
                        let b0 = ok.index_of(k);
                        assert(ok[b0] == k);
                        assert(a0 == b0);
                    }
                    assert(self@ =~= old(self)@.remove(*key));
                }
                Some(v)
            },
            None => {
                assert(self@ =~= old(self)@.remove(*key));
                None
            },
        }
    }
}

} // verus!
