//! A keyed store with unique keys, held as a vector of entries and seen as a map.
use vstd::prelude::*;

verus! {

/// Keys whose equality can be decided at run time.
pub trait TableKey: Sized {
    fn same_key(&self, other: &Self) -> (r: bool)
        ensures
            r == (*self == *other),
    ;
}

impl TableKey for u64 {
    fn same_key(&self, other: &u64) -> (r: bool) {
        *self == *other
    }
}

impl TableKey for [u8; 32] {
    fn same_key(&self, other: &[u8; 32]) -> (r: bool) {
        let mut i: usize = 0;
        while i < 32
            invariant
                0 <= i <= 32,
                forall|j: int| 0 <= j < i ==> self[j] == other[j],
            decreases 32 - i,
        {
            if self[i] != other[i] {
                return false;
            }
            i = i + 1;
        }
        assert(*self =~= *other);
        true
    }
}

/// Entries in some order, one per key.
#[verifier::reject_recursive_types(K)]
pub struct Table<K: TableKey, V> {
    entries: Vec<(K, V)>,
    contents: Ghost<Map<K, V>>,
}

impl<K: TableKey, V> View for Table<K, V> {
    type V = Map<K, V>;

    closed spec fn view(&self) -> Map<K, V> {
        self.contents@
    }
}

impl<K: TableKey, V> Table<K, V> {
    /// One entry per key, and the entries are the map.
    pub closed spec fn wf(&self) -> bool {
        &&& forall|i: int, j: int|
            0 <= i < j < self.entries.len() ==> self.entries[i].0 != self.entries[j].0
        &&& forall|i: int|
            0 <= i < self.entries.len() ==> #[trigger] self.contents@.contains_key(
                self.entries[i].0,
            ) && self.contents@[self.entries[i].0] == self.entries[i].1
        &&& forall|k: K|
            #[trigger] self.contents@.contains_key(k) ==> exists|i: int|
                0 <= i < self.entries.len() && self.entries[i].0 == k
    }

    pub fn new() -> (r: Self)
        ensures
            r.wf(),
            r@ == Map::<K, V>::empty(),
    {
        Table { entries: Vec::new(), contents: Ghost(Map::empty()) }
    }

    /// Position of the entry for `k`, if any.
    fn position(&self, k: &K) -> (r: Option<usize>)
        requires
            self.wf(),
        ensures
            match r {
                Some(i) => i < self.entries.len() && self.entries[i as int].0 == *k,
                None => !self@.contains_key(*k),
            },
    {
        let mut i: usize = 0;
        while i < self.entries.len()
            invariant
                0 <= i <= self.entries.len(),
                forall|j: int| 0 <= j < i ==> self.entries[j].0 != *k,
            decreases self.entries.len() - i,
        {
            if self.entries[i].0.same_key(k) {
                return Some(i);
            }
            i = i + 1;
        }
        None
    }

    pub fn contains_key(&self, k: &K) -> (r: bool)
        requires
            self.wf(),
        ensures
            r == self@.contains_key(*k),
    {
        match self.position(k) {
            Some(_) => true,
            None => false,
        }
    }

    pub fn get(&self, k: &K) -> (r: Option<&V>)
        requires
            self.wf(),
        ensures
            match r {
                Some(v) => self@.contains_key(*k) && *v == self@[*k],
                None => !self@.contains_key(*k),
            },
    {
        match self.position(k) {
            Some(i) => {
                assert(self.contents@.contains_key(self.entries[i as int].0));
                Some(&self.entries[i].1)
            },
            None => None,
        }
    }

    /// Sets the value of `k`, adding the key if it is absent.
    pub fn insert(&mut self, k: K, v: V)
        requires
            old(self).wf(),
        ensures
            final(self).wf(),
            final(self)@ == old(self)@.insert(k, v),
    {
        let ghost key = k;
        let ghost value = v;
        let ghost new_contents = self.contents@.insert(k, v);
        match self.position(&k) {
            Some(i) => {
                self.entries.set(i, (k, v));
                self.contents = Ghost(new_contents);
                assert forall|j: int| 0 <= j < self.entries.len() implies #[trigger] self.contents@.contains_key(
                    self.entries[j].0,
                ) && self.contents@[self.entries[j].0] == self.entries[j].1 by {
                    if self.entries[j].0 != key {
                        assert(old(self).contents@.contains_key(old(self).entries[j].0));
                    }
                }
                assert forall|q: K| #[trigger] self.contents@.contains_key(q) implies exists|j: int|
                    0 <= j < self.entries.len() && self.entries[j].0 == q by {
                    if q != key {
                        let j = choose|j: int|
                            0 <= j < old(self).entries.len() && old(self).entries[j].0 == q;
                        assert(self.entries[j].0 == q);
                    } else {
                        assert(self.entries[i as int].0 == q);
                    }
                }
            },
            None => {
                self.entries.push((k, v));
                self.contents = Ghost(new_contents);
                assert forall|j: int| 0 <= j < self.entries.len() implies #[trigger] self.contents@.contains_key(
                    self.entries[j].0,
                ) && self.contents@[self.entries[j].0] == self.entries[j].1 by {
                    if self.entries[j].0 != key {
                        assert(old(self).contents@.contains_key(old(self).entries[j].0));
                    }
                }
                assert forall|q: K| #[trigger] self.contents@.contains_key(q) implies exists|j: int|
                    0 <= j < self.entries.len() && self.entries[j].0 == q by {
                    if q != key {
                        let j = choose|j: int|
                            0 <= j < old(self).entries.len() && old(self).entries[j].0 == q;
                        assert(self.entries[j].0 == q);
                    } else {
                        assert(self.entries[self.entries.len() - 1].0 == q);
                    }
                }
            },
        }
    }

    /// Takes the entry of `k` out, if there is one.
    pub fn remove(&mut self, k: &K) -> (r: Option<V>)
        requires
            old(self).wf(),
        ensures
            final(self).wf(),
            final(self)@ == old(self)@.remove(*k),
            match r {
                Some(v) => old(self)@.contains_key(*k) && v == old(self)@[*k],
                None => !old(self)@.contains_key(*k),
            },
    {
        match self.position(k) {
            Some(i) => {
                assert(self.contents@.contains_key(self.entries[i as int].0));
                let ghost old_entries = self.entries@;
                let ghost last = self.entries.len() - 1;
                let ghost new_contents = self.contents@.remove(*k);
                let entry = self.entries.swap_remove(i);
                self.contents = Ghost(new_contents);
                assert forall|q: K| #[trigger] self.contents@.contains_key(q) implies exists|j: int|
                    0 <= j < self.entries.len() && self.entries[j].0 == q by {
                    let j = choose|j: int| 0 <= j < old_entries.len() && old_entries[j].0 == q;
                    if j == last {
                        assert(self.entries[i as int].0 == q);
                    } else {
                        assert(self.entries[j].0 == q);
                    }
                }
                Some(entry.1)
            },
            None => {
                assert(self.contents@ =~= self.contents@.remove(*k));
                None
            },
        }
    }
}

} // verus!
