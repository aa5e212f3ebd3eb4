//! Maps keyed by account (or token) names, held as lists of distinct keys.

use vstd::prelude::*;

verus! {

/// A map from account names to values.
#[derive(Clone)]
pub struct AccountMap<V> {
    entries: Vec<(String, V)>,
}

impl<V> AccountMap<V> {
    /// The key-value pairs in the order they are held.
    pub closed spec fn pairs(&self) -> Seq<(Seq<char>, V)> {
        self.entries@.map_values(|e: (String, V)| (e.0@, e.1))
    }

    /// No key is held twice.
    pub open spec fn wf(&self) -> bool {
        forall|i: int, j: int|
            0 <= i < j < self.pairs().len() ==> #[trigger] self.pairs()[i].0 != #[trigger] self.pairs()[j].0
    }

    /// The map that the pairs stand for.
    pub open spec fn view(&self) -> Map<Seq<char>, V> {
        Map::new(
            |k: Seq<char>| exists|i: int| 0 <= i < self.pairs().len() && self.pairs()[i].0 == k,
            |k: Seq<char>| self.pairs()[choose|i: int| 0 <= i < self.pairs().len() && self.pairs()[i].0 == k].1,
        )
    }

    /// The pair at `i` is in the map.
    pub proof fn lemma_view_at(&self, i: int)
        requires
            self.wf(),
            0 <= i < self.pairs().len(),
        ensures
            self.view().contains_key(self.pairs()[i].0),
            self.view()[self.pairs()[i].0] == self.pairs()[i].1,
    {
        let k = self.pairs()[i].0;
        assert(exists|j: int| 0 <= j < self.pairs().len() && self.pairs()[j].0 == k);
        let j = choose|j: int| 0 <= j < self.pairs().len() && self.pairs()[j].0 == k;
        if i != j {
            if i < j {
                assert(self.pairs()[i].0 != self.pairs()[j].0);
            } else {
                assert(self.pairs()[j].0 != self.pairs()[i].0);
            }
        }
    }

    /// An empty map.
    pub fn new() -> (r: AccountMap<V>)
        ensures
            r.wf(),
            r.view() == Map::<Seq<char>, V>::empty(),
            r.pairs().len() == 0,
    {
        let r = AccountMap { entries: Vec::new() };
        assert(r.pairs().len() == 0);
        assert(r.view() =~= Map::<Seq<char>, V>::empty());
        r
    }

    /// The number of keys.
    pub fn len(&self) -> (r: usize)
        requires
            self.wf(),
        ensures
            r == self.pairs().len(),
            r == self.view().dom().len(),
    {
        proof { self.lemma_dom_len(); }
        self.entries.len()
    }

    proof fn lemma_dom_len(&self)
        requires
            self.wf(),
        ensures
            self.view().dom().finite(),
            self.view().dom().len() == self.pairs().len(),
        decreases self.pairs().len(),
    {
        let ks = self.pairs().map_values(|e: (Seq<char>, V)| e.0);
        assert forall|i: int, j: int| 0 <= i < ks.len() && 0 <= j < ks.len() && i != j implies ks[i] != ks[j] by {
            if i < j {
                assert(self.pairs()[i].0 != self.pairs()[j].0);
            } else {
                assert(self.pairs()[j].0 != self.pairs()[i].0);
            }
        }
        assert(ks.no_duplicates());
        assert(self.view().dom() =~= ks.to_set()) by {
            assert forall|k: Seq<char>| self.view().dom().contains(k) implies ks.to_set().contains(k) by {
                let i = choose|i: int| 0 <= i < self.pairs().len() && self.pairs()[i].0 == k;
                assert(ks[i] == k);
            }
            assert forall|k: Seq<char>| ks.to_set().contains(k) implies self.view().dom().contains(k) by {
                let i = choose|i: int| 0 <= i < ks.len() && ks[i] == k;
                assert(self.pairs()[i].0 == k);
            }
        }
        ks.unique_seq_to_set();
    }

    /// Whether there are no keys.
    pub fn is_empty(&self) -> (r: bool)
        requires
            self.wf(),
        ensures
            r == (self.view().dom().len() == 0),
            r == (self.view() == Map::<Seq<char>, V>::empty()),
    {
        proof {
            self.lemma_dom_len();
            if self.pairs().len() > 0 {
                self.lemma_view_at(0);
                assert(self.view() != Map::<Seq<char>, V>::empty()) by {
                    assert(self.view().contains_key(self.pairs()[0].0));
                }
            } else {
                assert(self.view() =~= Map::<Seq<char>, V>::empty());
            }
        }
        self.entries.len() == 0
    }

    /// The position of `key`, if it is held.
    fn find(&self, key: &String) -> (r: Option<usize>)
        requires
            self.wf(),
        ensures
            r matches Some(i) ==> i < self.pairs().len() && self.pairs()[i as int].0 == key@,
            r is None ==> !self.view().contains_key(key@),
    {
        let mut i: usize = 0;
        while i < self.entries.len()
            invariant
                i <= self.entries.len(),
                self.pairs().len() == self.entries.len(),
                forall|j: int| 0 <= j < i ==> self.pairs()[j].0 != key@,
            decreases self.entries.len() - i,
        {
            assert(self.pairs()[i as int].0 == self.entries[i as int].0@);
            if self.entries[i].0 == *key {
                return Some(i);
            }
            i = i + 1;
        }
        None
    }

    /// The value held for `key`, if any, by reference.
    pub fn get_ref(&self, key: &String) -> (r: Option<&V>)
        requires
            self.wf(),
        ensures
            r is Some <==> self.view().contains_key(key@),
            r matches Some(v) ==> *v == self.view()[key@],
    {
        match self.find(key) {
            Some(i) => {
                proof { self.lemma_view_at(i as int); }
                assert(self.pairs()[i as int].1 == self.entries[i as int].1);
                Some(&self.entries[i].1)
            },
            None => None,
        }
    }

    /// The key and value at position `i` of the pairs, by reference.
    pub fn entry_ref_at(&self, i: usize) -> (r: (&String, &V))
        requires
            i < self.pairs().len(),
        ensures
            r.0@ == self.pairs()[i as int].0,
            *r.1 == self.pairs()[i as int].1,
    {
        (&self.entries[i].0, &self.entries[i].1)
    }

    /// Sets the value of `key`, keeping the place of a key already held.
    pub fn insert(&mut self, key: &String, value: V)
        requires
            old(self).wf(),
        ensures
            final(self).wf(),
            final(self).view() == old(self).view().insert(key@, value),
            old(self).view().contains_key(key@) ==> final(self).pairs().len() == old(self).pairs().len(),
            !old(self).view().contains_key(key@) ==> final(self).pairs() == old(self).pairs().push((key@, value)),
            forall|i: int| 0 <= i < old(self).pairs().len() ==> #[trigger] final(self).pairs()[i].0 == old(self).pairs()[i].0,
    {
        let ghost old_pairs = self.pairs();
        match self.find(key) {
            Some(i) => {
                let k = self.entries[i].0.clone();
                self.entries.set(i, (k, value));
                assert(self.pairs() =~= old_pairs.update(i as int, (key@, value)));
                assert(self.view() =~= old(self).view().insert(key@, value)) by {
                    assert forall|k: Seq<char>| #[trigger] self.view().contains_key(k) == old(self).view().insert(key@, value).contains_key(k) by {
                        if self.view().contains_key(k) {
                            let j = choose|j: int| 0 <= j < self.pairs().len() && self.pairs()[j].0 == k;
                            assert(old_pairs[j].0 == k);
                        }
                        if old(self).view().contains_key(k) {
                            let j = choose|j: int| 0 <= j < old_pairs.len() && old_pairs[j].0 == k;
                            assert(self.pairs()[j].0 == k);
                        }
                    }
                    assert forall|k: Seq<char>| #[trigger] self.view().contains_key(k) implies self.view()[k] == old(self).view().insert(key@, value)[k] by {
                        let j = choose|j: int| 0 <= j < self.pairs().len() && self.pairs()[j].0 == k;
                        self.lemma_view_at(j);
                        if j != i as int {
                            old(self).lemma_view_at(j);
                        }
                    }
                }
            },
            None => {
                self.entries.push((key.clone(), value));
                assert(self.pairs() =~= old_pairs.push((key@, value)));
                assert(self.wf()) by {
                    assert forall|i: int, j: int| 0 <= i < j < self.pairs().len() implies #[trigger] self.pairs()[i].0 != #[trigger] self.pairs()[j].0 by {
                        if j == old_pairs.len() {
                            assert(old(self).view().contains_key(old_pairs[i].0));
                        } else {
                            assert(old_pairs[i].0 != old_pairs[j].0);
                        }
                    }
                }
                assert(self.view() =~= old(self).view().insert(key@, value)) by {
                    assert forall|k: Seq<char>| #[trigger] self.view().contains_key(k) == old(self).view().insert(key@, value).contains_key(k) by {
                        if self.view().contains_key(k) && k != key@ {
                            let j = choose|j: int| 0 <= j < self.pairs().len() && self.pairs()[j].0 == k;
                            assert(old_pairs[j].0 == k);
                        }
                        if old(self).view().contains_key(k) {
                            let j = choose|j: int| 0 <= j < old_pairs.len() && old_pairs[j].0 == k;
                            assert(self.pairs()[j].0 == k);
                        }
                        if k == key@ {
                            assert(self.pairs()[old_pairs.len() as int].0 == k);
                        }
                    }
                    assert forall|k: Seq<char>| #[trigger] self.view().contains_key(k) implies self.view()[k] == old(self).view().insert(key@, value)[k] by {
                        let j = choose|j: int| 0 <= j < self.pairs().len() && self.pairs()[j].0 == k;
                        self.lemma_view_at(j);
                        if j != old_pairs.len() as int {
                            old(self).lemma_view_at(j);
                        }
                    }
                }
            },
        }
    }

    /// Takes `key` out, returning the value it had.
    pub fn remove(&mut self, key: &String) -> (r: Option<V>)
        requires
            old(self).wf(),
        ensures
            final(self).wf(),
            final(self).view() == old(self).view().remove(key@),
            r == (if old(self).view().contains_key(key@) { Some(old(self).view()[key@]) } else { None::<V> }),
    {
        let ghost old_pairs = self.pairs();
        match self.find(key) {
            Some(i) => {
                proof { self.lemma_view_at(i as int); }
                let (_, v) = self.entries.remove(i);
                assert(self.pairs() =~= old_pairs.remove(i as int));
                assert(self.wf()) by {
                    assert forall|a: int, b: int| 0 <= a < b < self.pairs().len() implies #[trigger] self.pairs()[a].0 != #[trigger] self.pairs()[b].0 by {
                        let a2 = if a < i { a } else { a + 1 };
                        let b2 = if b < i { b } else { b + 1 };
                        assert(old_pairs[a2].0 != old_pairs[b2].0);
                    }
                }
                assert(self.view() =~= old(self).view().remove(key@)) by {
                    assert forall|k: Seq<char>| #[trigger] self.view().contains_key(k) == old(self).view().remove(key@).contains_key(k) by {
                        if self.view().contains_key(k) {
                            let j = choose|j: int| 0 <= j < self.pairs().len() && self.pairs()[j].0 == k;
                            let j2 = if j < i { j } else { j + 1 };
                            assert(old_pairs[j2].0 == k);
                            if k == key@ {
                                assert(old_pairs[i as int].0 == key@);
                                if j2 < i { assert(old_pairs[j2].0 != old_pairs[i as int].0); }
                                else { assert(old_pairs[i as int].0 != old_pairs[j2].0); }
                            }
                        }
                        if old(self).view().remove(key@).contains_key(k) {
                            let j = choose|j: int| 0 <= j < old_pairs.len() && old_pairs[j].0 == k;
                            assert(j != i);
                            let j2 = if j < i { j } else { j - 1 };
                            assert(self.pairs()[j2].0 == k);
                        }
                    }
                    assert forall|k: Seq<char>| #[trigger] self.view().contains_key(k) implies self.view()[k] == old(self).view().remove(key@)[k] by {
                        let j = choose|j: int| 0 <= j < self.pairs().len() && self.pairs()[j].0 == k;
                        self.lemma_view_at(j);
                        let j2 = if j < i { j } else { j + 1 };
                        old(self).lemma_view_at(j2);
                    }
                }
                Some(v)
            },
            None => {
                assert(self.view() =~= old(self).view().remove(key@));
                None
            },
        }
    }
}

impl<V: Copy> AccountMap<V> {
    /// The value held for `key`, if any.
    pub fn get(&self, key: &String) -> (r: Option<V>)
        requires
            self.wf(),
        ensures
            r == (if self.view().contains_key(key@) { Some(self.view()[key@]) } else { None::<V> }),
    {
        match self.find(key) {
            Some(i) => {
                proof { self.lemma_view_at(i as int); }
                assert(self.pairs()[i as int].1 == self.entries[i as int].1);
                Some(self.entries[i].1)
            },
            None => None,
        }
    }

    /// The key and value at position `i` of the pairs.
    pub fn entry_at(&self, i: usize) -> (r: (&String, V))
        requires
            i < self.pairs().len(),
        ensures
            r.0@ == self.pairs()[i as int].0,
            r.1 == self.pairs()[i as int].1,
    {
        (&self.entries[i].0, self.entries[i].1)
    }
}

} // verus!
