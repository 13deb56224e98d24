use vstd::prelude::*;

verus! {

/// A table keyed by channel ids, at most one entry per id.
///
/// Its model is a finite map from the id to the stored value.
pub struct ChannelTable<V> {
    entries: Vec<(u32, V)>,
    model: Ghost<Map<u32, V>>,
}

impl<V> View for ChannelTable<V> {
    type V = Map<u32, V>;

    closed spec fn view(&self) -> Map<u32, V> {
        self.model@
    }
}

impl<V> ChannelTable<V> {
    /// The entries' ids are distinct, and the model holds exactly the entries.
    pub closed spec fn wf(&self) -> bool {
        &&& forall|i: int, j: int|
            0 <= i < j < self.entries@.len() ==> self.entries@[i].0 != self.entries@[j].0
        &&& forall|i: int|
            0 <= i < self.entries@.len() ==> {
                &&& #[trigger] self.model@.contains_key(self.entries@[i].0)
                &&& self.model@[self.entries@[i].0] == self.entries@[i].1
            }
        &&& forall|k: u32|
            #[trigger] self.model@.contains_key(k) ==> exists|i: int|
                0 <= i < self.entries@.len() && self.entries@[i].0 == k
    }

    /// An empty table.
    pub fn new() -> (r: Self)
        ensures
            r.wf(),
            r@ == Map::<u32, V>::empty(),
    {
        ChannelTable { entries: Vec::new(), model: Ghost(Map::empty()) }
    }

    /// The number of entries.
    pub fn len(&self) -> (r: usize)
        requires
            self.wf(),
        ensures
            r == self@.dom().len(),
    {
        proof {
            self.lemma_len();
        }
        self.entries.len()
    }

    proof fn lemma_len(&self)
        requires
            self.wf(),
        ensures
            self@.dom().len() == self.entries@.len(),
            self@.dom().finite(),
        decreases self.entries@.len(),
    {
        let keys = self.entries@.map_values(|e: (u32, V)| e.0);
        assert forall|i: int, j: int| 0 <= i < j < keys.len() implies keys[i] != keys[j] by {}
        assert(keys.no_duplicates());
        keys.unique_seq_to_set();
        assert(self@.dom() =~= keys.to_set()) by {
            assert forall|k: u32| self@.dom().contains(k) implies keys.to_set().contains(k) by {
                let i = choose|i: int| 0 <= i < self.entries@.len() && self.entries@[i].0 == k;
                assert(keys[i] == k);
            }
            assert forall|k: u32| keys.to_set().contains(k) implies self@.dom().contains(k) by {
                let i = choose|i: int| 0 <= i < keys.len() && keys[i] == k;
                assert(self.model@.contains_key(self.entries@[i].0));
            }
        }
    }

    fn find(&self, key: &u32) -> (r: Option<usize>)
        requires
            self.wf(),
        ensures
            r is Some <==> self@.contains_key(*key),
            r is Some ==> r->0 < self.entries@.len() && self.entries@[r->0 as int].0 == *key,
    {
        let mut i: usize = 0;
        while i < self.entries.len()
            invariant
                self.wf(),
                i <= self.entries@.len(),
                forall|j: int| 0 <= j < i ==> self.entries@[j].0 != *key,
            decreases self.entries@.len() - i,
        {
            if self.entries[i].0 == *key {
                return Some(i);
            }
            i = i + 1;
        }
        proof {
            if self@.contains_key(*key) {
                let j = choose|j: int| 0 <= j < self.entries@.len() && self.entries@[j].0 == *key;
                assert(self.entries@[j].0 != *key);
            }
        }
        None
    }

    /// Whether an entry has the id `key`.
    pub fn contains(&self, key: &u32) -> (r: bool)
        requires
            self.wf(),
        ensures
            r == self@.contains_key(*key),
    {
        self.find(key).is_some()
    }

    /// The value stored under `key`.
    pub fn get(&self, key: &u32) -> (r: Option<&V>)
        requires
            self.wf(),
        ensures
            r is Some <==> self@.contains_key(*key),
            r is Some ==> *r->0 == self@[*key],
    {
        match self.find(key) {
            Some(i) => Some(&self.entries[i].1),
            None => None,
        }
    }

    /// Takes the entry with id `key` out of the table and hands back its value.
    pub fn remove(&mut self, key: &u32) -> (r: Option<V>)
        requires
            old(self).wf(),
        ensures
            final(self).wf(),
            final(self)@ == old(self)@.remove(*key),
            r is Some <==> old(self)@.contains_key(*key),
            r is Some ==> r->0 == old(self)@[*key],
    {
        match self.find(key) {
            Some(i) => {
                let ghost before = self.entries@;
                let (_, v) = self.entries.remove(i);
                self.model = Ghost(self.model@.remove(*key));
                proof {
                    let after = self.entries@;
                    assert(after =~= before.remove(i as int));
                    assert forall|j: int| 0 <= j < after.len() implies
                        (j < i ==> after[j] == before[j]) && (j >= i ==> after[j] == before[j + 1])
                    by {}
                    assert forall|j: int|
                        0 <= j < after.len() implies #[trigger] self.model@.contains_key(after[j].0)
                        && self.model@[after[j].0] == after[j].1 by {
                        if j < i {
                            assert(before[j].0 != before[i as int].0);
                        } else {
                            assert(before[j + 1].0 != before[i as int].0);
                        }
                    }
                    assert forall|k: u32| #[trigger] self.model@.contains_key(k) implies exists|j: int|
                        0 <= j < after.len() && after[j].0 == k by {
                        let j = choose|j: int| 0 <= j < before.len() && before[j].0 == k;
                        if j < i {
                            assert(after[j].0 == k);
                        } else {
                            assert(j != i);
                            assert(after[j - 1].0 == k);
                        }
                    }
                }
                Some(v)
            },
            None => {
                assert(self.model@.remove(*key) =~= self.model@);
                None
            },
        }
    }

    /// Stores `value` under `key`, replacing and handing back a previous value.
    pub fn insert(&mut self, key: u32, value: V) -> (r: Option<V>)
        requires
            old(self).wf(),
        ensures
            final(self).wf(),
            final(self)@ == old(self)@.insert(key, value),
            r is Some <==> old(self)@.contains_key(key),
            r is Some ==> r->0 == old(self)@[key],
    {
        let previous = self.remove(&key);
        let ghost before = self.entries@;
        let ghost mid = self.model@;
        let ghost k = key;
        self.entries.push((key, value));
        self.model = Ghost(self.model@.insert(k, value));
        proof {
            let after = self.entries@;
            assert(after =~= before.push((after.last().0, value)));
            assert forall|i: int, j: int| 0 <= i < j < after.len() implies after[i].0 != after[j].0 by {
                if j == before.len() {
                    assert(mid.contains_key(before[i].0));
                    assert(!mid.contains_key(k));
                    assert(after[j].0 == k);
                } else {
                    assert(after[i] == before[i] && after[j] == before[j]);
                }
            }
            assert forall|j: int|
                0 <= j < after.len() implies #[trigger] self.model@.contains_key(after[j].0)
                && self.model@[after[j].0] == after[j].1 by {
                if j < before.len() {
                    assert(after[j] == before[j]);
                }
            }
            assert forall|k2: u32| #[trigger] self.model@.contains_key(k2) implies exists|j: int|
                0 <= j < after.len() && after[j].0 == k2 by {
                if k2 == k {
                    assert(after[before.len() as int].0 == k2);
                } else {
                    let j = choose|j: int| 0 <= j < before.len() && before[j].0 == k2;
                    assert(after[j].0 == k2);
                }
            }
            assert(self.model@ =~= old(self)@.insert(k, value));
        }
        previous
    }

    /// The ids of all entries, each once, in no promised order.
    pub fn ids(&self) -> (r: Vec<u32>)
        requires
            self.wf(),
        ensures
            r@.no_duplicates(),
            r@.to_set() == self@.dom(),
    {
        let mut r: Vec<u32> = Vec::new();
        let mut i: usize = 0;
        while i < self.entries.len()
            invariant
                self.wf(),
                i <= self.entries@.len(),
                r@ == self.entries@.subrange(0, i as int).map_values(|e: (u32, V)| e.0),
            decreases self.entries@.len() - i,
        {
            r.push(self.entries[i].0);
            i = i + 1;
            assert(r@ =~= self.entries@.subrange(0, i as int).map_values(|e: (u32, V)| e.0));
        }
        assert(r@ =~= self.entries@.map_values(|e: (u32, V)| e.0));
        assert(r@.to_set() =~= self@.dom()) by {
            assert forall|k: u32| self@.dom().contains(k) implies r@.to_set().contains(k) by {
                let j = choose|j: int| 0 <= j < self.entries@.len() && self.entries@[j].0 == k;
                assert(r@[j] == k);
            }
            assert forall|k: u32| r@.to_set().contains(k) implies self@.dom().contains(k) by {
                let j = choose|j: int| 0 <= j < r@.len() && r@[j] == k;
                assert(self.model@.contains_key(self.entries@[j].0));
            }
        }
        r
    }
}

} // verus!
