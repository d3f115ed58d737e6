use vstd::prelude::*;
use crate::types::{Address, MetadataView, ProjectMetadata};

verus! {

/// The closed key space of the persistent store: one variant per logical
/// record class, each carrying exactly the payload needed to address one
/// record. A tagged union keeps key construction total and collision-free.
#[derive(Clone, Copy, Debug, Eq, PartialEq, Structural)]
pub enum DataKey {
    Admin,
    NextTokenId,
    Owner(u128),
    Metadata(u128),
}

/// A stored value: each key class maps to one value shape.
#[derive(Debug, Eq, PartialEq)]
pub enum Value {
    Addr(Address),
    Count(u128),
    Meta(ProjectMetadata),
}

/// The mathematical value of a stored entry.
pub enum ValueView {
    Addr(Seq<char>),
    Count(u128),
    Meta(MetadataView),
}

impl View for Value {
    type V = ValueView;

    open spec fn view(&self) -> ValueView {
        match self {
            Value::Addr(a) => ValueView::Addr(a@),
            Value::Count(n) => ValueView::Count(*n),
            Value::Meta(m) => ValueView::Meta(m@),
        }
    }
}

/// The map that a sequence of key/value entries denotes; a later entry for a
/// key shadows an earlier one, though the store never keeps two entries for
/// one key.
pub open spec fn kv_map(s: Seq<(DataKey, Value)>) -> Map<DataKey, ValueView>
    decreases s.len(),
{
    if s.len() == 0 {
        Map::empty()
    } else {
        kv_map(s.drop_last()).insert(s.last().0, s.last().1@)
    }
}

/// No two entries of the sequence address the same key.
pub open spec fn keys_unique(s: Seq<(DataKey, Value)>) -> bool {
    forall|i: int, j: int| 0 <= i < j < s.len() ==> (#[trigger] s[i]).0 != (#[trigger] s[j]).0
}

/// A typed, key-scoped accessor over a durable key/value store. The store is
/// held as a list of entries with pairwise distinct keys and is read through
/// its `Map` view.
pub struct Storage {
    entries: Vec<(DataKey, Value)>,
}

impl View for Storage {
    type V = Map<DataKey, ValueView>;

    closed spec fn view(&self) -> Map<DataKey, ValueView> {
        kv_map(self.entries@)
    }
}

proof fn lemma_kv_map_contains(s: Seq<(DataKey, Value)>, k: DataKey)
    ensures
        kv_map(s).contains_key(k) <==> exists|i: int| 0 <= i < s.len() && (#[trigger] s[i]).0 == k,
    decreases s.len(),
{
    if s.len() > 0 {
        lemma_kv_map_contains(s.drop_last(), k);
        if s.last().0 == k {
            assert(s[s.len() - 1].0 == k);
        } else {
            if kv_map(s).contains_key(k) {
                let i = choose|i: int| 0 <= i < s.drop_last().len() && (#[trigger] s.drop_last()[i]).0 == k;
                assert(s[i].0 == k);
            }
            if exists|i: int| 0 <= i < s.len() && (#[trigger] s[i]).0 == k {
                let i = choose|i: int| 0 <= i < s.len() && (#[trigger] s[i]).0 == k;
                assert(i < s.len() - 1);
                assert(s.drop_last()[i].0 == k);
            }
        }
    }
}

proof fn lemma_kv_map_index(s: Seq<(DataKey, Value)>, i: int)
    requires
        keys_unique(s),
        0 <= i < s.len(),
    ensures
        kv_map(s).contains_key(s[i].0),
        kv_map(s)[s[i].0] == s[i].1@,
    decreases s.len(),
{
    if i == s.len() - 1 {
    } else {
        assert(s[i].0 != s.last().0);
        assert(s.drop_last()[i] == s[i]);
        lemma_kv_map_index(s.drop_last(), i);
    }
}

impl Storage {
    /// The store's internal shape is sound: one entry per key.
    pub closed spec fn wf(&self) -> bool {
        keys_unique(self.entries@)
    }

    /// An empty store.
    pub fn new() -> (r: Storage)
        ensures
            r.wf(),
            r@ == Map::<DataKey, ValueView>::empty(),
    {
        Storage { entries: Vec::new() }
    }

    fn find_index(&self, key: &DataKey) -> (r: Option<usize>)
        ensures
            (match r {
                Some(i) => i < self.entries@.len() && self.entries@[i as int].0 == *key,
                None => forall|j: int|
                    0 <= j < self.entries@.len() ==> (#[trigger] self.entries@[j]).0 != *key,
            }),
    {
        let mut i: usize = 0;
        while i < self.entries.len()
            invariant
                i <= self.entries@.len(),
                forall|j: int| 0 <= j < i ==> (#[trigger] self.entries@[j]).0 != *key,
            decreases self.entries@.len() - i,
        {
            if self.entries[i].0 == *key {
                return Some(i);
            }
            i = i + 1;
        }
        None
    }

    /// Returns the stored value for `key` if one is present; absent keys
    /// simply answer `None`, they never fault.
    pub fn get(&self, key: &DataKey) -> (r: Option<&Value>)
        requires
            self.wf(),
        ensures
            (match r {
                Some(v) => self@.contains_key(*key) && v@ == self@[*key],
                None => !self@.contains_key(*key),
            }),
    {
        proof {
            lemma_kv_map_contains(self.entries@, *key);
        }
        match self.find_index(key) {
            Some(i) => {
                proof {
                    lemma_kv_map_index(self.entries@, i as int);
                }
                Some(&self.entries[i].1)
            },
            None => None,
        }
    }

    /// Existence check without decoding.
    pub fn has(&self, key: &DataKey) -> (r: bool)
        requires
            self.wf(),
        ensures
            r == self@.contains_key(*key),
    {
        proof {
            lemma_kv_map_contains(self.entries@, *key);
        }
        match self.find_index(key) {
            Some(_) => true,
            None => false,
        }
    }

    /// Writes `key`, overwriting any value it previously held.
    pub fn set(&mut self, key: DataKey, value: Value)
        requires
            old(self).wf(),
        ensures
            final(self).wf(),
            final(self)@ == old(self)@.insert(key, value@),
    {
        match self.find_index(&key) {
            Some(i) => {
                proof {
                    lemma_kv_map_set_at(self.entries@, i as int, key, value);
                }
                self.entries.set(i, (key, value));
            },
            None => {
                proof {
                    let s2 = self.entries@.push((key, value));
                    assert(s2.drop_last() =~= self.entries@);
                }
                self.entries.push((key, value));
            },
        }
    }

    /// Deletes the entry for `key`, if any; a later `get` answers `None`.
    pub fn remove(&mut self, key: &DataKey)
        requires
            old(self).wf(),
        ensures
            final(self).wf(),
            final(self)@ == old(self)@.remove(*key),
    {
        proof {
            lemma_kv_map_contains(self.entries@, *key);
        }
        match self.find_index(key) {
            Some(i) => {
                proof {
                    lemma_kv_map_remove_at(self.entries@, i as int);
                }
                self.entries.remove(i);
            },
            None => {
                proof {
                    assert(old(self)@ =~= old(self)@.remove(*key));
                }
            },
        }
    }
}

proof fn lemma_kv_map_set_at(s: Seq<(DataKey, Value)>, i: int, key: DataKey, value: Value)
    requires
        keys_unique(s),
        0 <= i < s.len(),
        s[i].0 == key,
    ensures
        keys_unique(s.update(i, (key, value))),
        kv_map(s.update(i, (key, value))) == kv_map(s).insert(key, value@),
{
    let s2 = s.update(i, (key, value));
    assert(forall|j: int| 0 <= j < s2.len() ==> (#[trigger] s2[j]).0 == s[j].0);
    assert(keys_unique(s2));
    assert forall|k2: DataKey|
        kv_map(s2).contains_key(k2) == kv_map(s).insert(key, value@).contains_key(k2) by {
        lemma_kv_map_contains(s, k2);
        lemma_kv_map_contains(s2, k2);
        if k2 == key {
            assert(s2[i].0 == k2);
        } else {
            if kv_map(s2).contains_key(k2) {
                let j = choose|j: int| 0 <= j < s2.len() && (#[trigger] s2[j]).0 == k2;
                assert(s[j].0 == k2);
            }
            if kv_map(s).contains_key(k2) {
                let j = choose|j: int| 0 <= j < s.len() && (#[trigger] s[j]).0 == k2;
                assert(s2[j].0 == k2);
            }
        }
    }
    assert forall|k2: DataKey| #[trigger] kv_map(s2).contains_key(k2)
        implies kv_map(s2)[k2] == kv_map(s).insert(key, value@)[k2] by {
        if k2 == key {
            lemma_kv_map_index(s2, i);
        } else {
            lemma_kv_map_contains(s2, k2);
            let j = choose|j: int| 0 <= j < s2.len() && (#[trigger] s2[j]).0 == k2;
            assert(j != i);
            assert(s2[j] == s[j]);
            lemma_kv_map_index(s2, j);
            lemma_kv_map_index(s, j);
        }
    }
    assert(kv_map(s2) =~= kv_map(s).insert(key, value@));
}

proof fn lemma_kv_map_remove_at(s: Seq<(DataKey, Value)>, i: int)
    requires
        keys_unique(s),
        0 <= i < s.len(),
    ensures
        keys_unique(s.remove(i)),
        kv_map(s.remove(i)) == kv_map(s).remove(s[i].0),
{
    let s2 = s.remove(i);
    let key = s[i].0;
    assert(forall|j: int| 0 <= j < i ==> #[trigger] s2[j] == s[j]);
    assert(forall|j: int| i <= j < s2.len() ==> #[trigger] s2[j] == s[j + 1]);
    assert forall|a: int, b: int| 0 <= a < b < s2.len() implies (#[trigger] s2[a]).0 != (#[trigger] s2[b]).0 by {
        let a0 = if a < i { a } else { a + 1 };
        let b0 = if b < i { b } else { b + 1 };
        assert(s2[a] == s[a0]);
        assert(s2[b] == s[b0]);
    }
    assert forall|k2: DataKey|
        kv_map(s2).contains_key(k2) == kv_map(s).remove(key).contains_key(k2) by {
        lemma_kv_map_contains(s, k2);
        lemma_kv_map_contains(s2, k2);
        if k2 == key {
            if kv_map(s2).contains_key(k2) {
                let j = choose|j: int| 0 <= j < s2.len() && (#[trigger] s2[j]).0 == k2;
                let j0 = if j < i { j } else { j + 1 };
                assert(s[j0].0 == k2);
                assert(j0 != i ==> false);
            }
        } else {
            if kv_map(s2).contains_key(k2) {
                let j = choose|j: int| 0 <= j < s2.len() && (#[trigger] s2[j]).0 == k2;
                let j0 = if j < i { j } else { j + 1 };
                assert(s[j0].0 == k2);
            }
            if kv_map(s).contains_key(k2) {
                let j0 = choose|j0: int| 0 <= j0 < s.len() && (#[trigger] s[j0]).0 == k2;
                assert(j0 != i);
                let j = if j0 < i { j0 } else { j0 - 1 };
                assert(s2[j].0 == k2);
            }
        }
    }
    assert forall|k2: DataKey| #[trigger] kv_map(s2).contains_key(k2)
        implies kv_map(s2)[k2] == kv_map(s).remove(key)[k2] by {
        lemma_kv_map_contains(s2, k2);
        let j = choose|j: int| 0 <= j < s2.len() && (#[trigger] s2[j]).0 == k2;
        let j0 = if j < i { j } else { j + 1 };
        assert(s2[j] == s[j0]);
        lemma_kv_map_index(s2, j);
        lemma_kv_map_index(s, j0);
    }
    assert(kv_map(s2) =~= kv_map(s).remove(key));
}

} // verus!
