//! The key/value store behind the application state: a persistent hash map,
//! batches of writes, and snapshots.

use vstd::prelude::*;

verus! {

/// `im::HashMap`: a persistent hash map.
#[verifier::external_type_specification]
#[verifier::external_body]
#[verifier::reject_recursive_types(K)]
#[verifier::reject_recursive_types(V)]
#[verifier::reject_recursive_types(S)]
pub struct ExImHashMap<K, V, S>(im::HashMap<K, V, S>);

/// What a persistent map of byte strings holds.
pub uninterp spec fn spec_kv_contents(map: im::HashMap<Vec<u8>, Vec<u8>>) -> Map<Seq<u8>, Seq<u8>>;

/// Contents of a map that holds nothing.
pub open spec fn spec_kv_empty() -> Map<Seq<u8>, Seq<u8>> {
    Map::empty()
}

/// `im::HashMap::new`: a map that holds nothing.
#[verifier::external_body]
fn kv_new() -> (map: im::HashMap<Vec<u8>, Vec<u8>>)
    ensures
        spec_kv_contents(map) == spec_kv_empty(),
{
    im::HashMap::new()
}

/// `im::HashMap::get`: a copy of the value stored under a key with the bytes
/// of `key`, or nothing when the map has no such key.
#[verifier::external_body]
fn kv_get(map: &im::HashMap<Vec<u8>, Vec<u8>>, key: &Vec<u8>) -> (value: Option<Vec<u8>>)
    ensures
        match value {
            Some(v) => spec_kv_contents(*map).dom().contains(key@) && v@ == spec_kv_contents(
                *map,
            )[key@],
            None => !spec_kv_contents(*map).dom().contains(key@),
        },
{
    map.get(key).cloned()
}

/// `im::HashMap::insert`: afterwards the map holds `value` under `key`, in
/// place of what it held there, and everything else as before.
#[verifier::external_body]
fn kv_insert(map: &mut im::HashMap<Vec<u8>, Vec<u8>>, key: Vec<u8>, value: Vec<u8>)
    ensures
        spec_kv_contents(*final(map)) == spec_kv_contents(*old(map)).insert(key@, value@),
{
    map.insert(key, value);
}

/// `im::HashMap::remove`: afterwards the map holds nothing under `key`, and
/// everything else as before.
#[verifier::external_body]
fn kv_remove(map: &mut im::HashMap<Vec<u8>, Vec<u8>>, key: &Vec<u8>)
    ensures
        spec_kv_contents(*final(map)) == spec_kv_contents(*old(map)).remove(key@),
{
    map.remove(key);
}

/// `im::HashMap::clear`: afterwards the map holds nothing.
#[verifier::external_body]
fn kv_clear(map: &mut im::HashMap<Vec<u8>, Vec<u8>>)
    ensures
        spec_kv_contents(*final(map)) == spec_kv_empty(),
{
    map.clear();
}

/// `im::HashMap::clone`: a map that holds what `map` holds.
#[verifier::external_body]
fn kv_clone(map: &im::HashMap<Vec<u8>, Vec<u8>>) -> (copy: im::HashMap<Vec<u8>, Vec<u8>>)
    ensures
        spec_kv_contents(copy) == spec_kv_contents(*map),
{
    map.clone()
}

/// Whether two byte strings hold the same bytes.
pub fn bytes_eq(a: &Vec<u8>, b: &Vec<u8>) -> (same: bool)
    ensures
        same == (a@ == b@),
{
    if a.len() != b.len() {
        return false;
    }
    let mut i: usize = 0;
    while i < a.len()
        invariant
            i <= a.len(),
            a.len() == b.len(),
            forall|j: int| 0 <= j < i ==> a[j] == b[j],
        decreases a.len() - i,
    {
        if a[i] != b[i] {
            return false;
        }
        i += 1;
    }
    assert(a@ =~= b@);
    true
}

/// The keys of the entries, in order.
pub open spec fn spec_entry_keys(entries: Seq<(Vec<u8>, Vec<u8>)>) -> Seq<Seq<u8>> {
    entries.map_values(|e: (Vec<u8>, Vec<u8>)| e.0@)
}

/// The byte strings that the buffers hold, in order.
pub open spec fn spec_key_views(keys: Seq<Vec<u8>>) -> Seq<Seq<u8>> {
    keys.map_values(|k: Vec<u8>| k@)
}

/// A list of keys without repeats stays one when a key that it lacks joins
/// it at the end.
pub proof fn lemma_fresh_key_joins(keys: Seq<Seq<u8>>, key: Seq<u8>)
    requires
        keys.no_duplicates(),
        forall|j: int| 0 <= j < keys.len() ==> keys[j] != key,
    ensures
        keys.push(key).no_duplicates(),
{
    let after = keys.push(key);
    assert forall|a: int, b: int| 0 <= a < after.len() && 0 <= b < after.len() && a
        != b implies after[a] != after[b] by {
        if a < keys.len() {
            assert(keys[a] == after[a]);
        }
        if b < keys.len() {
            assert(keys[b] == after[b]);
        }
    }
}

/// A store's contents after the entries were written in order.
pub open spec fn spec_set_all(contents: Map<Seq<u8>, Seq<u8>>, entries: Seq<(Vec<u8>, Vec<u8>)>)
    -> Map<Seq<u8>, Seq<u8>>
    decreases entries.len(),
{
    if entries.len() == 0 {
        contents
    } else {
        spec_set_all(contents, entries.drop_last()).insert(entries.last().0@, entries.last().1@)
    }
}

/// A store's contents after the keys were deleted.
pub open spec fn spec_delete_all(contents: Map<Seq<u8>, Seq<u8>>, keys: Seq<Vec<u8>>) -> Map<
    Seq<u8>,
    Seq<u8>,
>
    decreases keys.len(),
{
    if keys.len() == 0 {
        contents
    } else {
        spec_delete_all(contents, keys.drop_last()).remove(keys.last()@)
    }
}

/// Writes that are to reach a store together: values to set, each key once,
/// and keys to delete, each once.
pub struct WriteBatchImpl {
    inserts: Vec<(Vec<u8>, Vec<u8>)>,
    deletes: Vec<Vec<u8>>,
}

impl WriteBatchImpl {
    /// No key is set twice and none is deleted twice.
    pub closed spec fn wf(&self) -> bool {
        &&& spec_entry_keys(self.inserts@).no_duplicates()
        &&& spec_key_views(self.deletes@).no_duplicates()
    }

    /// The values to set, in the order in which their keys were first set.
    pub closed spec fn inserts(&self) -> Seq<(Vec<u8>, Vec<u8>)> {
        self.inserts@
    }

    /// The keys to delete, in the order in which they were first named.
    pub closed spec fn deletes(&self) -> Seq<Vec<u8>> {
        self.deletes@
    }

    /// A batch without writes.
    pub fn new() -> (batch: Self)
        ensures
            batch.wf(),
            batch.inserts() == Seq::<(Vec<u8>, Vec<u8>)>::empty(),
            batch.deletes() == Seq::<Vec<u8>>::empty(),
    {
        WriteBatchImpl { inserts: Vec::new(), deletes: Vec::new() }
    }

    /// Asks for `value` to be stored under `key`, in place of a value that the
    /// batch held for the key.
    pub fn set(&mut self, key: &Vec<u8>, value: &Vec<u8>)
        requires
            old(self).wf(),
        ensures
            final(self).wf(),
            final(self).deletes() == old(self).deletes(),
            final(self).inserts().len() == if spec_entry_keys(old(self).inserts()).contains(key@) {
                old(self).inserts().len()
            } else {
                old(self).inserts().len() + 1
            },
            ({
                let at = if spec_entry_keys(old(self).inserts()).contains(key@) {
                    spec_entry_keys(old(self).inserts()).index_of(key@)
                } else {
                    old(self).inserts().len() as int
                };
                &&& final(self).inserts()[at].0@ == key@
                &&& final(self).inserts()[at].1@ == value@
                &&& forall|i: int|
                    0 <= i < old(self).inserts().len() && i != at ==> final(self).inserts()[i]
                        == old(self).inserts()[i]
            }),
    {
        let ghost keys = spec_entry_keys(self.inserts@);
        let mut i: usize = 0;
        while i < self.inserts.len()
            invariant
                i <= self.inserts.len(),
                self.wf(),
                self.inserts == old(self).inserts,
                self.deletes == old(self).deletes,
                keys == spec_entry_keys(self.inserts@),
                forall|j: int| 0 <= j < i ==> keys[j] != key@,
            decreases self.inserts.len() - i,
        {
            if bytes_eq(&self.inserts[i].0, key) {
                proof {
                    assert(keys[i as int] == key@);
                    let at = keys.index_of(key@);
                    assert(keys[at] == key@);
                    assert(at == i);
                }
                let _ = self.inserts.remove(i);
                self.inserts.insert(i, (key.clone(), value.clone()));
                proof {
                    let after = spec_entry_keys(self.inserts@);
                    assert(after =~= keys);
                }
                return ;
            }
            i += 1;
        }
        self.inserts.push((key.clone(), value.clone()));
        proof {
            assert(spec_entry_keys(self.inserts@) =~= keys.push(key@));
            lemma_fresh_key_joins(keys, key@);
        }
    }

    /// Asks for `key` to be deleted.
    pub fn delete(&mut self, key: &Vec<u8>)
        requires
            old(self).wf(),
        ensures
            final(self).wf(),
            final(self).inserts() == old(self).inserts(),
            spec_key_views(final(self).deletes()) == if spec_key_views(
                old(self).deletes(),
            ).contains(key@) {
                spec_key_views(old(self).deletes())
            } else {
                spec_key_views(old(self).deletes()).push(key@)
            },
    {
        let ghost keys = spec_key_views(self.deletes@);
        let mut i: usize = 0;
        while i < self.deletes.len()
            invariant
                i <= self.deletes.len(),
                self.wf(),
                self.inserts == old(self).inserts,
                self.deletes == old(self).deletes,
                keys == spec_key_views(self.deletes@),
                forall|j: int| 0 <= j < i ==> keys[j] != key@,
            decreases self.deletes.len() - i,
        {
            if bytes_eq(&self.deletes[i], key) {
                assert(keys[i as int] == key@);
                return ;
            }
            i += 1;
        }
        self.deletes.push(key.clone());
        proof {
            assert(spec_key_views(self.deletes@) =~= keys.push(key@));
            lemma_fresh_key_joins(keys, key@);
        }
    }

    /// Gives up the batch: the values to set, each key once, and the keys to
    /// delete, each once.
    pub fn consume(self) -> (writes: (Vec<(Vec<u8>, Vec<u8>)>, Vec<Vec<u8>>))
        requires
            self.wf(),
        ensures
            writes.0@ == self.inserts(),
            writes.1@ == self.deletes(),
            spec_entry_keys(writes.0@).no_duplicates(),
            spec_key_views(writes.1@).no_duplicates(),
    {
        (self.inserts, self.deletes)
    }
}

/// The store.
pub struct KVStoreImpl {
    map: im::HashMap<Vec<u8>, Vec<u8>>,
}

/// What a store held at one moment.
pub struct SnapshotImpl {
    map: im::HashMap<Vec<u8>, Vec<u8>>,
}

impl SnapshotImpl {
    /// The values by key.
    pub closed spec fn view(&self) -> Map<Seq<u8>, Seq<u8>> {
        spec_kv_contents(self.map)
    }

    /// The value under `key`, if there is one.
    pub fn get(&self, key: &Vec<u8>) -> (value: Option<Vec<u8>>)
        ensures
            match value {
                Some(v) => self@.dom().contains(key@) && v@ == self@[key@],
                None => !self@.dom().contains(key@),
            },
    {
        kv_get(&self.map, key)
    }
}

impl KVStoreImpl {
    /// The values by key.
    pub closed spec fn view(&self) -> Map<Seq<u8>, Seq<u8>> {
        spec_kv_contents(self.map)
    }

    /// An empty store.
    pub fn new() -> (store: Self)
        ensures
            store@ == Map::<Seq<u8>, Seq<u8>>::empty(),
    {
        KVStoreImpl { map: kv_new() }
    }

    /// The value under `key`, if there is one.
    pub fn get(&self, key: &Vec<u8>) -> (value: Option<Vec<u8>>)
        ensures
            match value {
                Some(v) => self@.dom().contains(key@) && v@ == self@[key@],
                None => !self@.dom().contains(key@),
            },
    {
        kv_get(&self.map, key)
    }

    /// Applies a batch: first every value is set, then every key named for
    /// deletion is deleted.
    pub fn write(&mut self, wb: WriteBatchImpl)
        requires
            wb.wf(),
        ensures
            final(self)@ == spec_delete_all(
                spec_set_all(old(self)@, wb.inserts()),
                wb.deletes(),
            ),
    {
        let (inserts, deletes) = wb.consume();
        let mut i: usize = 0;
        while i < inserts.len()
            invariant
                i <= inserts.len(),
                self@ == spec_set_all(old(self)@, inserts@.take(i as int)),
            decreases inserts.len() - i,
        {
            proof {
                assert(inserts@.take(i + 1).drop_last() =~= inserts@.take(i as int));
            }
            kv_insert(&mut self.map, inserts[i].0.clone(), inserts[i].1.clone());
            i += 1;
        }
        assert(inserts@.take(i as int) =~= inserts@);
        let ghost set = self@;
        let mut j: usize = 0;
        while j < deletes.len()
            invariant
                j <= deletes.len(),
                self@ == spec_delete_all(set, deletes@.take(j as int)),
            decreases deletes.len() - j,
        {
            proof {
                assert(deletes@.take(j + 1).drop_last() =~= deletes@.take(j as int));
            }
            kv_remove(&mut self.map, &deletes[j]);
            j += 1;
        }
        assert(deletes@.take(j as int) =~= deletes@);
    }

    /// Empties the store.
    pub fn clear(&mut self)
        ensures
            final(self)@ == Map::<Seq<u8>, Seq<u8>>::empty(),
    {
        kv_clear(&mut self.map);
    }

    /// What the store holds now; later writes to the store do not reach it.
    pub fn snapshot(&self) -> (snapshot: SnapshotImpl)
        ensures
            snapshot@ == self@,
    {
        SnapshotImpl { map: kv_clone(&self.map) }
    }
}

} // verus!
