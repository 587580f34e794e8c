//! A small map keyed by text, kept as a list of entries in which no key
//! occurs twice. Its model is a `Map` from the key's characters to the value;
//! the order of the entries is the order in which the keys first arrived.

use vstd::prelude::*;

verus! {

pub struct StringMap<V> {
    keys: Vec<String>,
    values: Vec<V>,
}

impl<V> StringMap<V> {
    /// The keys in the order of their first insertion.
    pub closed spec fn key_order(&self) -> Seq<Seq<char>> {
        self.keys@.map_values(|k: String| k@)
    }

    /// The values, in the order of their keys.
    pub closed spec fn value_order(&self) -> Seq<V> {
        self.values@
    }

    /// Every key has one value and occurs once.
    pub closed spec fn wf(&self) -> bool {
        &&& self.keys@.len() == self.values@.len()
        &&& self.key_order().no_duplicates()
    }

    pub open spec fn contains(&self, key: Seq<char>) -> bool {
        self.key_order().contains(key)
    }

    /// The position of a key that the map holds.
    pub open spec fn position(&self, key: Seq<char>) -> int {
        self.key_order().index_of(key)
    }

    pub open spec fn view(&self) -> Map<Seq<char>, V> {
        Map::new(|k: Seq<char>| self.contains(k), |k: Seq<char>| self.value_order()[self.position(k)])
    }

    /// Keys and values run in step, and a position names its own key.
    pub proof fn lemma_positions(&self)
        requires
            self.wf(),
        ensures
            self.key_order().len() == self.value_order().len(),
            self.key_order().no_duplicates(),
            self@.dom().finite(),
            self@.dom() == self.key_order().to_set(),
            self@.dom().len() == self.key_order().len(),
            forall|i: int|
                0 <= i < self.key_order().len() ==> self.contains(#[trigger] self.key_order()[i])
                    && self.position(self.key_order()[i]) == i && self@[self.key_order()[i]]
                    == self.value_order()[i],
            forall|k: Seq<char>|
                self.contains(k) ==> 0 <= #[trigger] self.position(k) < self.key_order().len()
                    && self.key_order()[self.position(k)] == k,
    {
        let ks = self.key_order();
        assert forall|i: int| 0 <= i < ks.len() implies self.contains(#[trigger] ks[i])
            && self.position(ks[i]) == i by {
            assert(ks.contains(ks[i]));
            ks.index_of_first_ensures(ks[i]);
            let j = ks.index_of(ks[i]);
            assert(0 <= j < ks.len() && ks[j] == ks[i]);
        }
        assert forall|k: Seq<char>| self.contains(k) implies 0 <= #[trigger] self.position(k)
            < ks.len() && ks[self.position(k)] == k by {
            let i = choose|i: int| 0 <= i < ks.len() && ks[i] == k;
            assert(self.position(ks[i]) == i);
        }
        assert(self@.dom() =~= ks.to_set());
        ks.unique_seq_to_set();
    }

    pub fn new() -> (m: Self)
        ensures
            m.wf(),
            m@ == Map::<Seq<char>, V>::empty(),
            m.key_order() == Seq::<Seq<char>>::empty(),
    {
        let m = StringMap { keys: Vec::new(), values: Vec::new() };
        assert(m.key_order() =~= Seq::<Seq<char>>::empty());
        assert(m@ =~= Map::<Seq<char>, V>::empty());
        m
    }

    pub fn len(&self) -> (n: usize)
        requires
            self.wf(),
        ensures
            n == self@.dom().len(),
            n == self.key_order().len(),
    {
        proof {
            self.lemma_positions();
        }
        self.keys.len()
    }

    /// The position of `key`, if the map holds it.
    pub fn find(&self, key: &str) -> (r: Option<usize>)
        requires
            self.wf(),
        ensures
            match r {
                Some(i) => self.contains(key@) && i == self.position(key@) && i
                    < self.key_order().len(),
                None => !self.contains(key@),
            },
    {
        let wanted: String = key.to_owned();
        let mut i: usize = 0;
        while i < self.keys.len()
            invariant
                self.wf(),
                i <= self.keys.len(),
                wanted@ == key@,
                forall|j: int| 0 <= j < i ==> self.key_order()[j] != key@,
            decreases self.keys.len() - i,
        {
            if self.keys[i] == wanted {
                proof {
                    assert(self.key_order()[i as int] == key@);
                    self.lemma_positions();
                }
                return Some(i);
            }
            i += 1;
        }
        None
    }

    pub fn contains_key(&self, key: &str) -> (r: bool)
        requires
            self.wf(),
        ensures
            r == self@.dom().contains(key@),
    {
        self.find(key).is_some()
    }

    pub fn get(&self, key: &str) -> (r: Option<&V>)
        requires
            self.wf(),
        ensures
            match r {
                Some(v) => self@.dom().contains(key@) && *v == self@[key@],
                None => !self@.dom().contains(key@),
            },
    {
        match self.find(key) {
            Some(i) => Some(&self.values[i]),
            None => None,
        }
    }

    /// The value of `key`, to be changed in place.
    pub fn get_mut(&mut self, key: &str) -> (r: Option<&mut V>)
        requires
            old(self).wf(),
        ensures
            final(self).wf(),
            final(self).key_order() == old(self).key_order(),
            match r {
                Some(v) => {
                    &&& old(self)@.dom().contains(key@)
                    &&& *v == old(self)@[key@]
                    &&& final(self)@ == old(self)@.insert(key@, *final(v))
                    &&& final(self).value_order() == old(self).value_order().update(
                        old(self).position(key@),
                        *final(v),
                    )
                },
                None => {
                    &&& !old(self)@.dom().contains(key@)
                    &&& final(self)@ == old(self)@
                    &&& final(self).value_order() == old(self).value_order()
                },
            },
    {
        proof {
            self.lemma_positions();
        }
        match self.find(key) {
            Some(i) => {
                let slot = &mut self.values[i];
                Some(slot)
            },
            None => None,
        }
    }

    /// The key and the value at a position in the order of insertion.
    pub fn entry_at(&self, i: usize) -> (r: (&String, &V))
        requires
            self.wf(),
            i < self.key_order().len(),
        ensures
            r.0@ == self.key_order()[i as int],
            *r.1 == self.value_order()[i as int],
            self@.dom().contains(r.0@),
            *r.1 == self@[r.0@],
    {
        proof {
            self.lemma_positions();
        }
        (&self.keys[i], &self.values[i])
    }

    /// Sets the value of `key`, and returns the value that it had.
    pub fn insert(&mut self, key: String, value: V) -> (previous: Option<V>)
        requires
            old(self).wf(),
        ensures
            final(self).wf(),
            final(self)@ == old(self)@.insert(key@, value),
            previous == (if old(self)@.dom().contains(key@) {
                Some(old(self)@[key@])
            } else {
                None
            }),
            final(self).key_order() == (if old(self).contains(key@) {
                old(self).key_order()
            } else {
                old(self).key_order().push(key@)
            }),
            final(self).value_order() == (if old(self).contains(key@) {
                old(self).value_order().update(old(self).position(key@), value)
            } else {
                old(self).value_order().push(value)
            }),
    {
        proof {
            self.lemma_positions();
        }
        match self.find(key.as_str()) {
            Some(i) => {
                let mut slot = value;
                std::mem::swap(&mut self.values[i], &mut slot);
                proof {
                    assert(self.key_order() == old(self).key_order());
                    self.lemma_positions();
                    assert(self@ =~= old(self)@.insert(key@, value));
                }
                Some(slot)
            },
            None => {
                self.keys.push(key);
                self.values.push(value);
                proof {
                    assert(self.key_order() =~= old(self).key_order().push(key@));
                    assert(self.key_order().no_duplicates());
                    self.lemma_positions();
                    let before = old(self).key_order();
                    let after = self.key_order();
                    assert forall|k: Seq<char>| old(self).contains(k) implies (
                    #[trigger] self.contains(k)) && self.position(k) == old(self).position(k) by {
                        let i = old(self).position(k);
                        assert(after[i] == k);
                    }
                    assert(self.contains(key@) && self.position(key@) == before.len()) by {
                        assert(after[before.len() as int] == key@);
                    }
                    assert forall|k: Seq<char>| self.contains(k) implies old(self).contains(k)
                        || k == key@ by {
                        let p = self.position(k);
                        if p < before.len() {
                            assert(before[p] == k);
                        }
                    }
                    assert(self@ =~= old(self)@.insert(key@, value));
                }
                None
            },
        }
    }

    /// Takes `key` and its value out of the map.
    pub fn remove(&mut self, key: &str) -> (previous: Option<V>)
        requires
            old(self).wf(),
        ensures
            final(self).wf(),
            final(self)@ == old(self)@.remove(key@),
            previous == (if old(self)@.dom().contains(key@) {
                Some(old(self)@[key@])
            } else {
                None
            }),
            final(self).key_order() == (if old(self).contains(key@) {
                old(self).key_order().remove(old(self).position(key@))
            } else {
                old(self).key_order()
            }),
            final(self).value_order() == (if old(self).contains(key@) {
                old(self).value_order().remove(old(self).position(key@))
            } else {
                old(self).value_order()
            }),
    {
        proof {
            self.lemma_positions();
        }
        match self.find(key) {
            Some(i) => {
                self.keys.remove(i);
                let value = self.values.remove(i);
                proof {
                    let before = old(self).key_order();
                    let after = self.key_order();
                    assert(after =~= before.remove(i as int));
                    assert(after.no_duplicates());
                    assert(!after.contains(key@)) by {
                        if after.contains(key@) {
                            let j = choose|j: int| 0 <= j < after.len() && after[j] == key@;
                            if j < i {
                                assert(before[j] == key@);
                            } else {
                                assert(before[j + 1] == key@);
                            }
                        }
                    }
                    self.lemma_positions();
                    assert forall|k: Seq<char>| k != key@ && old(self).contains(k) implies (
                    #[trigger] self.contains(k)) && self.value_order()[self.position(k)]
                        == old(self).value_order()[old(self).position(k)] by {
                        let p = old(self).position(k);
                        if p < i {
                            assert(after[p] == k);
                        } else {
                            assert(after[p - 1] == k);
                        }
                    }
                    assert forall|k: Seq<char>| self.contains(k) implies old(self).contains(
                        k,
                    ) by {
                        let p = self.position(k);
                        if p < i {
                            assert(before[p] == k);
                        } else {
                            assert(before[p + 1] == k);
                        }
                    }
                    assert(self@ =~= old(self)@.remove(key@));
                }
                Some(value)
            },
            None => {
                assert(self@ =~= old(self)@.remove(key@));
                None
            },
        }
    }
}

} // verus!
