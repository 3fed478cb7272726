//! Tables keyed by names: a vector of entries in which no name occurs twice, seen as a map.

use crate::text;
use crate::text::str_eq;
use vstd::prelude::*;

verus! {

/// A table from names to values.
pub struct Table<T> {
    entries: Vec<(String, T)>,
}

/// Whether `ids` names each element of `names` exactly once.
pub open spec fn enumerates(ids: Seq<Seq<char>>, names: Set<Seq<char>>) -> bool {
    &&& ids.no_duplicates()
    &&& forall|id: Seq<char>| #![trigger names.contains(id)] ids.contains(id) == names.contains(id)
}

impl<T: View> Table<T> {
    /// The names, in the order in which the table is walked.
    pub closed spec fn names(&self) -> Seq<Seq<char>> {
        Seq::new(self.entries@.len(), |i: int| self.entries@[i].0@)
    }

    /// The values, in the order in which the table is walked.
    pub closed spec fn values(&self) -> Seq<T::V> {
        Seq::new(self.entries@.len(), |i: int| self.entries@[i].1@)
    }

    /// No name occurs twice.
    pub open spec fn wf(&self) -> bool {
        self.names().no_duplicates()
    }
}

impl<T: View> View for Table<T> {
    type V = Map<Seq<char>, T::V>;

    open spec fn view(&self) -> Map<Seq<char>, T::V> {
        Map::new(
            |k: Seq<char>| self.names().contains(k),
            |k: Seq<char>| self.values()[self.names().index_of(k)],
        )
    }
}

impl<T: View> Table<T> {
    /// A table holds under each of its names the value at the same place.
    pub proof fn lemma_at(&self, i: int)
        requires
            self.wf(),
            0 <= i < self.names().len(),
        ensures
            self.names().len() == self.values().len(),
            self@.contains_key(self.names()[i]),
            self@[self.names()[i]] == self.values()[i],
    {
        let k = self.names()[i];
        assert(self.names().contains(k));
        let j = self.names().index_of(k);
        assert(self.names()[j] == k && 0 <= j < self.names().len());
        assert(j == i);
    }

    /// The names of a table enumerate what it holds.
    pub proof fn lemma_names(&self)
        requires
            self.wf(),
        ensures
            enumerates(self.names(), self@.dom()),
    {
    }

    /// An empty table.
    pub fn new() -> (t: Table<T>)
        ensures
            t.wf(),
            t@ == Map::<Seq<char>, T::V>::empty(),
    {
        let t = Table { entries: Vec::new() };
        assert(t@ =~= Map::<Seq<char>, T::V>::empty());
        t
    }

    /// How many names the table holds.
    pub fn len(&self) -> (n: usize)
        ensures
            n == self.names().len(),
            n == self.values().len(),
    {
        self.entries.len()
    }

    /// The name at a place.
    pub fn name_at(&self, i: usize) -> (name: &String)
        requires
            i < self.names().len(),
        ensures
            name@ == self.names()[i as int],
    {
        &self.entries[i].0
    }

    /// The value at a place.
    pub fn value_at(&self, i: usize) -> (value: &T)
        requires
            i < self.names().len(),
        ensures
            value@ == self.values()[i as int],
    {
        &self.entries[i].1
    }

    /// The place of a name, where the table holds it.
    pub fn position(&self, name: &str) -> (r: Option<usize>)
        requires
            self.wf(),
        ensures
            match r {
                Some(i) => i < self.names().len() && self.names()[i as int] == name@
                    && self@.contains_key(name@) && self@[name@] == self.values()[i as int],
                None => !self@.contains_key(name@),
            },
    {
        let mut i: usize = 0;
        while i < self.entries.len()
            invariant
                self.wf(),
                i <= self.entries@.len(),
                forall|j: int| 0 <= j < i ==> #[trigger] self.names()[j] != name@,
            decreases self.entries@.len() - i,
        {
            if str_eq(self.entries[i].0.as_str(), name) {
                proof {
                    assert(self.names()[i as int] == name@);
                    self.lemma_at(i as int);
                }
                return Some(i);
            }
            i = i + 1;
        }
        None
    }

    /// Whether the table holds a name.
    pub fn contains(&self, name: &str) -> (r: bool)
        requires
            self.wf(),
        ensures
            r == self@.contains_key(name@),
    {
        match self.position(name) {
            Some(_) => true,
            None => false,
        }
    }

    /// The value under a name.
    pub fn get(&self, name: &str) -> (r: Option<&T>)
        requires
            self.wf(),
        ensures
            match r {
                Some(v) => self@.contains_key(name@) && v@ == self@[name@],
                None => !self@.contains_key(name@),
            },
    {
        match self.position(name) {
            Some(i) => Some(&self.entries[i].1),
            None => None,
        }
    }

    /// Takes a name out of the table, with its value.
    pub fn remove(&mut self, name: &str) -> (r: Option<T>)
        requires
            old(self).wf(),
        ensures
            final(self).wf(),
            final(self)@ == old(self)@.remove(name@),
            match r {
                Some(v) => old(self)@.contains_key(name@) && v@ == old(self)@[name@],
                None => !old(self)@.contains_key(name@),
            },
    {
        match self.position(name) {
            Some(i) => {
                let (_, value) = self.entries.remove(i);
                proof {
                    let before = old(self).names();
                    let after = self.names();
                    assert(after =~= before.remove(i as int));
                    assert(self.values() =~= old(self).values().remove(i as int));
                    assert forall|a: int, b: int|
                        0 <= a < after.len() && 0 <= b < after.len() && a != b implies after[a]
                        != after[b] by {
                        let x = if a < i { a } else { a + 1 };
                        let y = if b < i { b } else { b + 1 };
                        assert(after[a] == before[x]);
                        assert(after[b] == before[y]);
                    }
                    let target = old(self)@.remove(name@);
                    assert forall|k: Seq<char>|
                        #![trigger self@.dom().contains(k)]
                        #![trigger target.dom().contains(k)]
                        self@.dom().contains(k) == target.dom().contains(k) && (
                        self@.dom().contains(k) ==> self@[k] == target[k]) by {
                        if before.contains(k) && k != name@ {
                            let j = before.index_of(k);
                            assert(before[j] == k);
                            let j2 = if j < i { j } else { j - 1 };
                            assert(after[j2] == k);
                            self.lemma_at(j2);
                            old(self).lemma_at(j);
                        }
                        if after.contains(k) {
                            let j = after.index_of(k);
                            assert(after[j] == k);
                            let j2 = if j < i { j } else { j + 1 };
                            assert(before[j2] == k);
                        }
                    }
                    assert(self@ =~= target);
                }
                Some(value)
            },
            None => {
                proof {
                    assert(self@ =~= old(self)@.remove(name@));
                }
                None
            },
        }
    }

    /// Puts a value under a name, in place of the value that was there.
    pub fn insert(&mut self, name: String, value: T)
        requires
            old(self).wf(),
        ensures
            final(self).wf(),
            final(self)@ == old(self)@.insert(name@, value@),
    {
        let _ = self.remove(name.as_str());
        let ghost cut = *self;
        self.entries.push((name, value));
        proof {
            let before = cut.names();
            let after = self.names();
            assert(after =~= before.push(name@));
            assert(self.values() =~= cut.values().push(value@));
            assert(!before.contains(name@)) by {
                assert(!cut@.contains_key(name@));
            }
            assert forall|a: int, b: int|
                0 <= a < after.len() && 0 <= b < after.len() && a != b implies after[a]
                != after[b] by {
                if a < before.len() {
                    assert(before.contains(before[a]));
                }
                if b < before.len() {
                    assert(before.contains(before[b]));
                }
            }
            let target = old(self)@.insert(name@, value@);
            assert forall|k: Seq<char>|
                #![trigger self@.dom().contains(k)]
                #![trigger target.dom().contains(k)]
                self@.dom().contains(k) == target.dom().contains(k) && (self@.dom().contains(k)
                    ==> self@[k] == target[k]) by {
                if k == name@ {
                    assert(after[before.len() as int] == k);
                    self.lemma_at(before.len() as int);
                } else {
                    if before.contains(k) {
                        let j = before.index_of(k);
                        assert(before[j] == k && after[j] == k);
                        self.lemma_at(j);
                        cut.lemma_at(j);
                        assert(cut@.contains_key(k));
                    }
                    if after.contains(k) {
                        let j = after.index_of(k);
                        assert(after[j] == k);
                        assert(before[j] == k);
                        assert(cut@.contains_key(k));
                    }
                    if old(self)@.contains_key(k) {
                        assert(cut@.contains_key(k));
                    }
                }
            }
            assert(self@ =~= target);
        }
    }

    /// Takes each of some names out of the table.
    pub fn remove_all(&mut self, names: &Vec<String>)
        requires
            old(self).wf(),
        ensures
            final(self).wf(),
            final(self)@ == old(self)@.remove_keys(text::texts(names@).to_set()),
    {
        let mut i: usize = 0;
        let ghost all = text::texts(names@);
        proof {
            assert(self@ =~= old(self)@.remove_keys(all.take(0).to_set()));
        }
        while i < names.len()
            invariant
                self.wf(),
                i <= names@.len(),
                all == text::texts(names@),
                self@ == old(self)@.remove_keys(all.take(i as int).to_set()),
            decreases names@.len() - i,
        {
            let ghost before = self@;
            let _ = self.remove(names[i].as_str());
            proof {
                let done = all.take(i as int);
                let next = all.take(i + 1);
                assert(next =~= done.push(all[i as int]));
                assert forall|k: Seq<char>|
                    next.to_set().contains(k) == (done.to_set().contains(k) || k
                        == all[i as int]) by {
                    if done.contains(k) {
                        let j = done.index_of(k);
                        assert(next[j] == k);
                    }
                    if k == all[i as int] {
                        assert(next[i as int] == k);
                    }
                }
                assert(self@ =~= old(self)@.remove_keys(next.to_set()));
            }
            i = i + 1;
        }
        proof {
            assert(all.take(i as int) =~= all);
        }
    }
}

} // verus!
