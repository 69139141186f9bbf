//! A small insertion-ordered map keyed by strings.

use vstd::prelude::*;

verus! {

/// A small map from string keys to values that keeps its entries in insertion order.
pub struct KeyedList<V> {
    entries: Vec<(String, V)>,
    map: Ghost<Map<Seq<char>, V>>,
}

impl<V: Copy> KeyedList<V> {
    pub closed spec fn view(&self) -> Map<Seq<char>, V> {
        self.map@
    }

    /// Every key in the map appears in `keys_seq`, once.
    pub proof fn lemma_keys(&self)
        requires
            self.wf(),
        ensures
            forall|k: Seq<char>| #[trigger] self@.contains_key(k) <==> self.keys_seq().contains(k),
            self.keys_seq().len() == self@.len(),
            self.keys_seq().no_duplicates(),
    {
        self.lemma_len();
        assert forall|k: Seq<char>| #[trigger] self@.contains_key(k) <==> self.keys_seq().contains(k) by {
            if self@.contains_key(k) {
                let i = choose|i: int| 0 <= i < self.entries@.len() && self.entries@[i].0@ == k;
                assert(self.keys_seq()[i] == k);
            }
            if self.keys_seq().contains(k) {
                let i = choose|i: int| 0 <= i < self.keys_seq().len() && self.keys_seq()[i] == k;
                assert(self.map@.contains_key(self.entries@[i].0@));
            }
        }
    }

    /// The keys in insertion order.
    pub closed spec fn keys_seq(&self) -> Seq<Seq<char>> {
        self.entries@.map_values(|e: (String, V)| e.0@)
    }

    pub closed spec fn wf(&self) -> bool {
        &&& forall|i: int, j: int|
            0 <= i < j < self.entries@.len() ==> self.entries@[i].0@ != self.entries@[j].0@
        &&& forall|i: int|
            0 <= i < self.entries@.len() ==> #[trigger] self.map@.contains_key(
                self.entries@[i].0@,
            ) && self.map@[self.entries@[i].0@] == self.entries@[i].1
        &&& forall|k: Seq<char>|
            #[trigger] self.map@.contains_key(k) ==> exists|i: int|
                0 <= i < self.entries@.len() && self.entries@[i].0@ == k
    }

    pub fn new() -> (r: Self)
        ensures
            r.wf(),
            r@ == Map::<Seq<char>, V>::empty(),
    {
        KeyedList { entries: Vec::new(), map: Ghost(Map::empty()) }
    }

    pub fn len(&self) -> (r: usize)
        requires
            self.wf(),
        ensures
            r == self@.len(),
            r == self.keys_seq().len(),
    {
        proof {
            self.lemma_len();
        }
        self.entries.len()
    }

    proof fn lemma_len(&self)
        requires
            self.wf(),
        ensures
            self@.len() == self.entries@.len(),
            self.keys_seq().len() == self.entries@.len(),
            forall|i: int| 0 <= i < self.entries@.len() ==> self.keys_seq()[i] == self.entries@[i].0@,
            self.keys_seq().no_duplicates(),
            self@.dom() =~= self.entries@.map_values(|e: (String, V)| e.0@).to_set(),
    {
        let ks = self.entries@.map_values(|e: (String, V)| e.0@);
        assert forall|k: Seq<char>| self@.dom().contains(k) <==> ks.to_set().contains(k) by {
            if self@.dom().contains(k) {
                let i = choose|i: int| 0 <= i < self.entries@.len() && self.entries@[i].0@ == k;
                assert(ks[i] == k);
            }
            if ks.to_set().contains(k) {
                let i = choose|i: int| 0 <= i < ks.len() && ks[i] == k;
                assert(self.map@.contains_key(self.entries@[i].0@));
            }
        }
        assert(self@.dom() =~= ks.to_set());
        assert forall|i: int, j: int| 0 <= i < ks.len() && 0 <= j < ks.len() && i != j implies ks[i]
            != ks[j] by {
            if i < j {
                assert(self.entries@[i].0@ != self.entries@[j].0@);
            } else {
                assert(self.entries@[j].0@ != self.entries@[i].0@);
            }
        }
        assert(ks.no_duplicates());
        ks.unique_seq_to_set();
        assert(self@.len() == self@.dom().len());
    }

    /// The position of `key`, if it is present.
    fn find(&self, key: &String) -> (r: Option<usize>)
        requires
            self.wf(),
        ensures
            r matches Some(i) ==> i < self.entries@.len() && self.entries@[i as int].0@ == key@,
            r is None <==> !self@.contains_key(key@),
    {
        let mut i: usize = 0;
        while i < self.entries.len()
            invariant
                self.wf(),
                0 <= i <= self.entries@.len(),
                forall|j: int| 0 <= j < i ==> self.entries@[j].0@ != key@,
            decreases self.entries@.len() - i,
        {
            if self.entries[i].0 == *key {
                return Some(i);
            }
            i = i + 1;
        }
        None
    }

    pub fn get(&self, key: &String) -> (r: Option<V>)
        requires
            self.wf(),
        ensures
            r == (if self@.contains_key(key@) { Some(self@[key@]) } else { None }),
    {
        match self.find(key) {
            Some(i) => Some(self.entries[i].1),
            None => None,
        }
    }

    pub fn contains_key(&self, key: &String) -> (r: bool)
        requires
            self.wf(),
        ensures
            r == self@.contains_key(key@),
    {
        self.find(key).is_some()
    }

    pub fn insert(&mut self, key: String, value: V)
        requires
            old(self).wf(),
        ensures
            final(self).wf(),
            final(self)@ == old(self)@.insert(key@, value),
            old(self)@.contains_key(key@) ==> final(self).keys_seq() == old(self).keys_seq(),
    {
        match self.find(&key) {
            Some(i) => {
                let ghost k = key@;
                self.entries.set(i, (key, value));
                self.map = Ghost(self.map@.insert(k, value));
                proof {
                    assert(self.keys_seq() =~= old(self).keys_seq());
                    assert forall|a: int, b: int|
                        0 <= a < b < self.entries@.len() implies self.entries@[a].0@
                        != self.entries@[b].0@ by {
                        assert(old(self).entries@[a].0@ != old(self).entries@[b].0@);
                    }
                    assert forall|a: int| 0 <= a < self.entries@.len() implies #[trigger]
                        self.map@.contains_key(self.entries@[a].0@) && self.map@[self.entries@[a].0@]
                            == self.entries@[a].1 by {
                        if a != i {
                            assert(old(self).entries@[a].0@ != old(self).entries@[i as int].0@
                                || a == i);
                        }
                    }
                    assert forall|kk: Seq<char>| #[trigger]
                        self.map@.contains_key(kk) implies exists|j: int|
                        0 <= j < self.entries@.len() && self.entries@[j].0@ == kk by {
                        if kk != k {
                            let j = choose|j: int|
                                0 <= j < old(self).entries@.len() && old(self).entries@[j].0@
                                    == kk;
                            assert(self.entries@[j].0@ == kk);
                        } else {
                            assert(self.entries@[i as int].0@ == kk);
                        }
                    }
                }
            },
            None => {
                let ghost k = key@;
                self.entries.push((key, value));
                self.map = Ghost(self.map@.insert(k, value));
                proof {
                    let n = self.entries@.len() - 1;
                    assert forall|kk: Seq<char>| #[trigger]
                        self.map@.contains_key(kk) implies exists|i: int|
                        0 <= i < self.entries@.len() && self.entries@[i].0@ == kk by {
                        if kk != k {
                            let i = choose|i: int|
                                0 <= i < old(self).entries@.len() && old(self).entries@[i].0@
                                    == kk;
                            assert(self.entries@[i] == old(self).entries@[i]);
                        } else {
                            assert(self.entries@[n].0@ == kk);
                        }
                    }
                }
            },
        }
    }

    pub fn remove(&mut self, key: &String)
        requires
            old(self).wf(),
        ensures
            final(self).wf(),
            final(self)@ == old(self)@.remove(key@),
    {
        match self.find(key) {
            Some(i) => {
                self.entries.remove(i);
                self.map = Ghost(self.map@.remove(key@));
                proof {
                    assert forall|kk: Seq<char>| #[trigger]
                        self.map@.contains_key(kk) implies exists|j: int|
                        0 <= j < self.entries@.len() && self.entries@[j].0@ == kk by {
                        let j = choose|j: int|
                            0 <= j < old(self).entries@.len() && old(self).entries@[j].0@ == kk;
                        if j < i {
                            assert(self.entries@[j] == old(self).entries@[j]);
                        } else {
                            assert(j != i);
                            assert(self.entries@[j - 1] == old(self).entries@[j]);
                        }
                    }
                    assert forall|a: int| 0 <= a < self.entries@.len() implies #[trigger]
                        self.map@.contains_key(self.entries@[a].0@) && self.map@[self.entries@[a].0@]
                            == self.entries@[a].1 by {
                        if a < i {
                            assert(self.entries@[a] == old(self).entries@[a]);
                            assert(old(self).entries@[a].0@ != old(self).entries@[i as int].0@);
                        } else {
                            assert(self.entries@[a] == old(self).entries@[a + 1]);
                            assert(old(self).entries@[a + 1].0@ != old(self).entries@[i as int].0@);
                        }
                    }
                }
            },
            None => {
                assert(self.map@.remove(key@) =~= self.map@);
            },
        }
    }

    /// The key at position `i` in insertion order.
    pub fn key_at(&self, i: usize) -> (r: &String)
        requires
            self.wf(),
            i < self.keys_seq().len(),
        ensures
            self@.contains_key(r@),
            r@ == self.keys_seq()[i as int],
    {
        proof {
            self.lemma_len();
        }
        &self.entries[i].0
    }
}

} // verus!
