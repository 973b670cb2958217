//! A table keyed by text: entries in a vector, no key twice.

use vstd::prelude::*;
use crate::text::same;

verus! {

/// A table from texts to values, modelled by a map.
#[derive(Debug)]
pub struct Table<V> {
    entries: Vec<(String, V)>,
}

impl<V> View for Table<V> {
    type V = Map<Seq<char>, V>;

    closed spec fn view(&self) -> Map<Seq<char>, V> {
        Map::new(
            |k: Seq<char>| exists|i: int| self.holds_at(i, k),
            |k: Seq<char>| self.entries@[choose|i: int| self.holds_at(i, k)].1,
        )
    }
}

impl<V> Table<V> {
    spec fn holds_at(self, i: int, k: Seq<char>) -> bool {
        0 <= i < self.entries@.len() && self.entries@[i].0@ == k
    }

    /// No key occurs twice.
    pub closed spec fn wf(self) -> bool {
        forall|i: int, j: int|
            0 <= i < j < self.entries@.len() ==> #[trigger] self.entries@[i].0@
                != #[trigger] self.entries@[j].0@
    }

    /// The keys, in the order in which the entries are kept.
    pub closed spec fn keys(self) -> Seq<Seq<char>> {
        self.entries@.map_values(|e: (String, V)| e.0@)
    }

    /// The keys are those of the map, each once.
    pub proof fn lemma_keys(self)
        requires
            self.wf(),
        ensures
            self.keys().no_duplicates(),
            forall|k: Seq<char>| self.keys().contains(k) <==> self@.dom().contains(k),
            self@.dom().finite(),
            self@.dom().len() == self.keys().len(),
    {
        assert forall|k: Seq<char>| self.keys().contains(k) <==> self@.dom().contains(k) by {
            if self.keys().contains(k) {
                let i = choose|i: int| 0 <= i < self.keys().len() && self.keys()[i] == k;
                assert(self.holds_at(i, k));
            }
            if self@.dom().contains(k) {
                let i = choose|i: int| self.holds_at(i, k);
                assert(self.keys()[i] == k);
            }
        }
        assert(self.keys().to_set() =~= self@.dom());
        self.keys().unique_seq_to_set();
    }

    proof fn lemma_entry(self, i: int)
        requires
            self.wf(),
            0 <= i < self.entries@.len(),
        ensures
            self@.dom().contains(self.entries@[i].0@),
            self@[self.entries@[i].0@] == self.entries@[i].1,
    {
        let k = self.entries@[i].0@;
        assert(self.holds_at(i, k));
        let j = choose|j: int| self.holds_at(j, k);
        assert(i == j);
    }

    /// A table without entries.
    pub fn new() -> (r: Table<V>)
        ensures
            r.wf(),
            r@ == Map::<Seq<char>, V>::empty(),
            r.keys() == Seq::<Seq<char>>::empty(),
    {
        let r = Table { entries: Vec::new() };
        assert(r@ =~= Map::<Seq<char>, V>::empty());
        assert(r.keys() =~= Seq::empty());
        r
    }

    /// The number of entries.
    pub fn len(&self) -> (n: usize)
        ensures
            n == self.keys().len(),
            self.wf() ==> n == self@.dom().len(),
    {
        proof {
            if self.wf() {
                self.lemma_keys();
            }
        }
        self.entries.len()
    }

    /// The entry at a position.
    pub fn at(&self, i: usize) -> (r: (&str, &V))
        requires
            self.wf(),
            i < self.keys().len(),
        ensures
            r.0@ == self.keys()[i as int],
            self@.dom().contains(r.0@),
            *r.1 == self@[r.0@],
    {
        proof {
            self.lemma_entry(i as int);
        }
        (self.entries[i].0.as_str(), &self.entries[i].1)
    }

    /// The position of a key.
    pub fn find(&self, key: &str) -> (r: Option<usize>)
        requires
            self.wf(),
        ensures
            match r {
                Some(i) => i < self.keys().len() && self.keys()[i as int] == key@
                    && self@.dom().contains(key@),
                None => !self@.dom().contains(key@),
            },
    {
        let mut i: usize = 0;
        while i < self.entries.len()
            invariant
                self.wf(),
                i <= self.entries@.len(),
                forall|j: int| 0 <= j < i ==> #[trigger] self.entries@[j].0@ != key@,
            decreases self.entries@.len() - i,
        {
            if same(self.entries[i].0.as_str(), key) {
                proof {
                    self.lemma_entry(i as int);
                }
                return Some(i);
            }
            i += 1;
        }
        None
    }

    /// The value of a key.
    pub fn get(&self, key: &str) -> (r: Option<&V>)
        requires
            self.wf(),
        ensures
            match r {
                Some(v) => self@.dom().contains(key@) && *v == self@[key@],
                None => !self@.dom().contains(key@),
            },
    {
        match self.find(key) {
            Some(i) => Some(self.at(i).1),
            None => None,
        }
    }

    /// Removes the entry at a position; the others keep their order.
    pub fn remove_at(&mut self, i: usize) -> (r: V)
        requires
            old(self).wf(),
            i < old(self).keys().len(),
        ensures
            final(self).wf(),
            final(self)@ == old(self)@.remove(old(self).keys()[i as int]),
            final(self).keys() == old(self).keys().remove(i as int),
            old(self)@.dom().contains(old(self).keys()[i as int]),
            r == old(self)@[old(self).keys()[i as int]],
    {
        proof {
            self.lemma_entry(i as int);
        }
        let (_, v) = self.entries.remove(i);
        proof {
            let before = old(self).entries@;
            let key = before[i as int].0@;
            assert(self.entries@ == before.remove(i as int));
            assert(self.keys() =~= old(self).keys().remove(i as int));
            assert forall|k: Seq<char>|
                self@.dom().contains(k) <==> old(self)@.dom().contains(k) && k != key by {
                if self@.dom().contains(k) {
                    let j = choose|j: int| self.holds_at(j, k);
                    let at = if j < i {
                        j
                    } else {
                        j + 1
                    };
                    assert(before[at].0@ == k);
                    assert(old(self).holds_at(at, k));
                }
                if old(self)@.dom().contains(k) && k != key {
                    let j = choose|j: int| old(self).holds_at(j, k);
                    let at = if j < i {
                        j
                    } else {
                        j - 1
                    };
                    assert(self.holds_at(at, k));
                }
            }
            assert forall|k: Seq<char>| self@.dom().contains(k) implies #[trigger] self@[k]
                == old(self)@[k] by {
                let j = choose|j: int| self.holds_at(j, k);
                let at = if j < i {
                    j
                } else {
                    j + 1
                };
                old(self).lemma_entry(at);
                self.lemma_entry(j);
            }
            assert(self@ =~= old(self)@.remove(key));
        }
        v
    }

    /// Removes a key, and returns its value.
    pub fn remove(&mut self, key: &str) -> (r: Option<V>)
        requires
            old(self).wf(),
        ensures
            final(self).wf(),
            final(self)@ == old(self)@.remove(key@),
            match r {
                Some(v) => old(self)@.dom().contains(key@) && v == old(self)@[key@],
                None => !old(self)@.dom().contains(key@),
            },
    {
        match self.find(key) {
            Some(i) => Some(self.remove_at(i)),
            None => {
                assert(self@ =~= old(self)@.remove(key@));
                None
            },
        }
    }

    /// Gives a key a value, in place of one that it may have.
    pub fn insert(&mut self, key: &str, value: V)
        requires
            old(self).wf(),
        ensures
            final(self).wf(),
            final(self)@ == old(self)@.insert(key@, value),
    {
        let _ = self.remove(key);
        let ghost before = *self;
        self.entries.push((key.to_owned(), value));
        proof {
            let n = before.entries@.len() as int;
            assert forall|i: int| 0 <= i < n implies #[trigger] self.entries@[i].0@ != key@ by {
                before.lemma_entry(i);
            }
            assert(self.wf());
            assert forall|k: Seq<char>|
                self@.dom().contains(k) <==> before@.dom().contains(k) || k == key@ by {
                if self@.dom().contains(k) {
                    let j = choose|j: int| self.holds_at(j, k);
                    if j < n {
                        assert(before.holds_at(j, k));
                    }
                }
                if before@.dom().contains(k) {
                    let j = choose|j: int| before.holds_at(j, k);
                    assert(self.holds_at(j, k));
                }
                assert(self.holds_at(n, key@));
            }
            self.lemma_entry(n);
            assert forall|k: Seq<char>| before@.dom().contains(k) implies #[trigger] self@[k]
                == before@[k] by {
                let j = choose|j: int| before.holds_at(j, k);
                before.lemma_entry(j);
                self.lemma_entry(j);
            }
            assert(self.entries@[n].0@ == key@ && self.entries@[n].1 == value);
            assert(before@.insert(key@, value) =~= old(self)@.insert(key@, value));
            assert(self@ =~= before@.insert(key@, value));
        }
    }
}

} // verus!
