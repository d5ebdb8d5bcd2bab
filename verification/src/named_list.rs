//! A small map from names to values, kept as two parallel vectors in
//! insertion order. Names are distinct.

use vstd::prelude::*;

use crate::text::str_eq;

verus! {

/// A map from names to values that remembers insertion order.
pub struct NamedList<T> {
    names: Vec<String>,
    values: Vec<T>,
}

impl<T> View for NamedList<T> {
    type V = Map<Seq<char>, T>;

    /// The value stored under each name.
    closed spec fn view(&self) -> Map<Seq<char>, T> {
        Map::new(
            |k: Seq<char>| exists|i: int| 0 <= i < self.names@.len() && #[trigger] self.names@[i]@ == k,
            |k: Seq<char>|
                self.values@[choose|i: int| 0 <= i < self.names@.len() && #[trigger] self.names@[i]@ == k],
        )
    }
}

impl<T> NamedList<T> {
    /// The names, in insertion order.
    pub closed spec fn spec_names(&self) -> Seq<String> {
        self.names@
    }

    /// The values, in the order of their names.
    pub closed spec fn spec_values(&self) -> Seq<T> {
        self.values@
    }

    /// One value per name, and no name twice.
    pub closed spec fn wf(&self) -> bool {
        &&& self.names@.len() == self.values@.len()
        &&& forall|i: int, j: int|
            0 <= i < j < self.names@.len() ==> #[trigger] self.names@[i]@ != #[trigger] self.names@[j]@
    }

    /// The entry at position `i` is what the map holds under its name.
    pub proof fn lemma_entry(&self, i: int)
        requires
            self.wf(),
            0 <= i < self.spec_names().len(),
        ensures
            self.spec_values().len() == self.spec_names().len(),
            self@.dom().contains(self.spec_names()[i]@),
            self@[self.spec_names()[i]@] == self.spec_values()[i],
    {
        let k = self.names@[i]@;
        assert(self.names@[i]@ == k);
        let j = choose|j: int| 0 <= j < self.names@.len() && #[trigger] self.names@[j]@ == k;
        if j < i {
            assert(self.names@[j]@ != self.names@[i]@);
        } else if i < j {
            assert(self.names@[i]@ != self.names@[j]@);
        }
    }

    /// The names of the map, as a set, are its domain.
    pub proof fn lemma_names_are_domain(&self)
        requires
            self.wf(),
        ensures
            forall|k: Seq<char>|
                #![trigger self@.dom().contains(k)]
                self@.dom().contains(k) <==> exists|i: int|
                    0 <= i < self.spec_names().len() && #[trigger] self.spec_names()[i]@ == k,
    {
        assert forall|k: Seq<char>|
            #![trigger self@.dom().contains(k)]
            self@.dom().contains(k) <==> exists|i: int|
                0 <= i < self.spec_names().len() && #[trigger] self.spec_names()[i]@ == k by {
            if self@.dom().contains(k) {
                let j = choose|j: int| 0 <= j < self.names@.len() && #[trigger] self.names@[j]@ == k;
                assert(self.spec_names()[j]@ == k);
            }
            if exists|i: int| 0 <= i < self.spec_names().len() && #[trigger] self.spec_names()[i]@ == k {
                let j = choose|j: int| 0 <= j < self.spec_names().len() && #[trigger] self.spec_names()[j]@ == k;
                assert(self.names@[j]@ == k);
            }
        }
    }

    /// No name occurs twice.
    pub proof fn lemma_distinct_names(&self)
        requires
            self.wf(),
        ensures
            self.spec_values().len() == self.spec_names().len(),
            forall|i: int, j: int|
                0 <= i < j < self.spec_names().len() ==> #[trigger] self.spec_names()[i]@
                    != #[trigger] self.spec_names()[j]@,
    {
    }

    /// An empty map.
    pub fn new() -> (r: Self)
        ensures
            r.wf(),
            r@ == Map::<Seq<char>, T>::empty(),
            r.spec_names().len() == 0,
    {
        let r = NamedList { names: Vec::new(), values: Vec::new() };
        assert(r@ =~= Map::<Seq<char>, T>::empty());
        r
    }

    /// Number of entries.
    pub fn len(&self) -> (n: usize)
        requires
            self.wf(),
        ensures
            n == self.spec_names().len(),
    {
        self.names.len()
    }

    /// Position of `key`, if present.
    pub fn find(&self, key: &str) -> (r: Option<usize>)
        requires
            self.wf(),
        ensures
            r is Some <==> self@.dom().contains(key@),
            r matches Some(i) ==> i < self.spec_names().len() && self.spec_names()[i as int]@
                == key@,
    {
        let mut i: usize = 0;
        while i < self.names.len()
            invariant
                self.wf(),
                i <= self.names@.len(),
                forall|j: int| 0 <= j < i ==> #[trigger] self.names@[j]@ != key@,
            decreases self.names@.len() - i,
        {
            if str_eq(self.names[i].as_str(), key) {
                assert(self.names@[i as int]@ == key@);
                return Some(i);
            }
            i += 1;
        }
        proof {
            if self@.dom().contains(key@) {
                let j = choose|j: int| 0 <= j < self.names@.len() && #[trigger] self.names@[j]@ == key@;
                assert(self.names@[j]@ != key@);
            }
        }
        None
    }

    /// Whether `key` is present.
    pub fn contains(&self, key: &str) -> (r: bool)
        requires
            self.wf(),
        ensures
            r == self@.dom().contains(key@),
    {
        self.find(key).is_some()
    }

    /// The value under `key`, if present.
    pub fn get(&self, key: &str) -> (r: Option<&T>)
        requires
            self.wf(),
        ensures
            r is Some <==> self@.dom().contains(key@),
            r matches Some(v) ==> *v == self@[key@],
    {
        match self.find(key) {
            Some(i) => {
                proof {
                    self.lemma_entry(i as int);
                }
                Some(&self.values[i])
            },
            None => None,
        }
    }

    /// The name and value at position `i`.
    pub fn entry(&self, i: usize) -> (r: (&String, &T))
        requires
            self.wf(),
            i < self.spec_names().len(),
        ensures
            *r.0 == self.spec_names()[i as int],
            *r.1 == self.spec_values()[i as int],
    {
        (&self.names[i], &self.values[i])
    }

    /// Exchange the value at position `i` with `v`.
    pub fn swap_at(&mut self, i: usize, v: &mut T)
        requires
            old(self).wf(),
            i < old(self).spec_names().len(),
        ensures
            final(self).wf(),
            final(self).spec_names() == old(self).spec_names(),
            final(self).spec_values() == old(self).spec_values().update(i as int, *old(v)),
            *final(v) == old(self).spec_values()[i as int],
            final(self)@ == old(self)@.insert(old(self).spec_names()[i as int]@, *old(v)),
    {
        let ghost old_self = *self;
        self.values.set_and_swap(i, v);
        proof {
            let k = self.names@[i as int]@;
            assert forall|q: Seq<char>| #[trigger] self@.dom().contains(q) == old_self@.insert(k, *old(v)).dom().contains(q) by {}
            assert forall|q: Seq<char>| self@.dom().contains(q) implies #[trigger] self@[q] == old_self@.insert(k, *old(v))[q] by {
                let j = choose|j: int| 0 <= j < self.names@.len() && #[trigger] self.names@[j]@ == q;
                self.lemma_entry(j);
                if q != k {
                    old_self.lemma_entry(j);
                } else {
                    self.lemma_entry(i as int);
                }
            }
            assert(self@ =~= old_self@.insert(k, *old(v)));
        }
    }

    /// Store `v` under `key`, replacing what was there.
    pub fn insert(&mut self, key: String, v: T)
        requires
            old(self).wf(),
        ensures
            final(self).wf(),
            final(self)@ == old(self)@.insert(key@, v),
            old(self)@.dom().contains(key@) ==> final(self).spec_names() == old(self).spec_names(),
            !old(self)@.dom().contains(key@) ==> final(self).spec_names() == old(self).spec_names().push(key),
    {
        match self.find(key.as_str()) {
            Some(i) => {
                let mut v = v;
                self.swap_at(i, &mut v);
            },
            None => {
                let ghost old_self = *self;
                let ghost k = key@;
                self.names.push(key);
                self.values.push(v);
                proof {
                    assert forall|a: int, b: int|
                        0 <= a < b < self.names@.len() implies #[trigger] self.names@[a]@
                        != #[trigger] self.names@[b]@ by {
                        if b == self.names@.len() - 1 {
                            if old_self.names@[a]@ == k {
                                assert(old_self@.dom().contains(k));
                            }
                        } else {
                            assert(old_self.names@[a] == self.names@[a]);
                            assert(old_self.names@[b] == self.names@[b]);
                        }
                    }
                    assert forall|q: Seq<char>| #[trigger] self@.dom().contains(q) == old_self@.insert(k, v).dom().contains(q) by {
                        if q == k {
                            assert(self.names@[self.names@.len() - 1]@ == k);
                        }
                        if old_self@.dom().contains(q) {
                            let j = choose|j: int| 0 <= j < old_self.names@.len() && #[trigger] old_self.names@[j]@ == q;
                            assert(self.names@[j]@ == q);
                        }
                        if self@.dom().contains(q) && q != k {
                            let j = choose|j: int| 0 <= j < self.names@.len() && #[trigger] self.names@[j]@ == q;
                            assert(old_self.names@[j]@ == q);
                        }
                    }
                    assert forall|q: Seq<char>| self@.dom().contains(q) implies #[trigger] self@[q] == old_self@.insert(k, v)[q] by {
                        let j = choose|j: int| 0 <= j < self.names@.len() && #[trigger] self.names@[j]@ == q;
                        self.lemma_entry(j);
                        if q != k {
                            old_self.lemma_entry(j);
                        }
                    }
                    assert(self@ =~= old_self@.insert(k, v));
                }
            },
        }
    }

    /// Remove the entry under `key`, returning its value if it was present.
    /// The remaining entries keep their order.
    pub fn remove(&mut self, key: &str) -> (r: Option<T>)
        requires
            old(self).wf(),
        ensures
            final(self).wf(),
            final(self)@ == old(self)@.remove(key@),
            r is Some <==> old(self)@.dom().contains(key@),
            r matches Some(v) ==> v == old(self)@[key@],
            r is None ==> final(self).spec_names() == old(self).spec_names(),
            r is Some ==> exists|i: int|
                0 <= i < old(self).spec_names().len() && #[trigger] old(self).spec_names()[i]@ == key@
                    && final(self).spec_names() == old(self).spec_names().remove(i),
    {
        match self.find(key) {
            Some(i) => {
                let ghost old_self = *self;
                proof {
                    old_self.lemma_entry(i as int);
                }
                self.names.remove(i);
                let v = self.values.remove(i);
                proof {
                    let k = key@;
                    assert forall|a: int, b: int|
                        0 <= a < b < self.names@.len() implies #[trigger] self.names@[a]@
                        != #[trigger] self.names@[b]@ by {
                        let a2 = if a < i { a } else { a + 1 };
                        let b2 = if b < i { b } else { b + 1 };
                        assert(self.names@[a] == old_self.names@[a2]);
                        assert(self.names@[b] == old_self.names@[b2]);
                    }
                    assert forall|q: Seq<char>| #[trigger] self@.dom().contains(q) == old_self@.remove(k).dom().contains(q) by {
                        if self@.dom().contains(q) {
                            let j = choose|j: int| 0 <= j < self.names@.len() && #[trigger] self.names@[j]@ == q;
                            let j2 = if j < i { j } else { j + 1 };
                            assert(old_self.names@[j2]@ == q);
                            assert(j2 != i);
                        }
                        if old_self@.dom().contains(q) && q != k {
                            let j = choose|j: int| 0 <= j < old_self.names@.len() && #[trigger] old_self.names@[j]@ == q;
                            assert(j != i);
                            let j2 = if j < i { j } else { j - 1 };
                            assert(self.names@[j2]@ == q);
                        }
                    }
                    assert forall|q: Seq<char>| self@.dom().contains(q) implies #[trigger] self@[q] == old_self@.remove(k)[q] by {
                        let j = choose|j: int| 0 <= j < self.names@.len() && #[trigger] self.names@[j]@ == q;
                        self.lemma_entry(j);
                        let j2 = if j < i { j } else { j + 1 };
                        old_self.lemma_entry(j2);
                    }
                    assert(self@ =~= old_self@.remove(k));
                    assert(old_self.spec_names()[i as int]@ == k);
                }
                Some(v)
            },
            None => {
                assert(self@ =~= self@.remove(key@));
                None
            },
        }
    }
}

} // verus!
