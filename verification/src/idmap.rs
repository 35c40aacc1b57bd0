//! A map keyed by [`Id`], stored as an association vector with distinct
//! keys. Lookups are specified by `assoc_get`, a first-match recursion over
//! the entries; the lemmas here relate it to indexing and to the push,
//! update and remove operations the methods compile to.

use vstd::prelude::*;

verus! {

use crate::ids::Id;

/// First entry whose key has these bytes, if any.
pub open spec fn assoc_get<V>(s: Seq<(Id, V)>, k: Seq<u8>) -> Option<V>
    decreases s.len(),
{
    if s.len() == 0 {
        None
    } else if s[0].0@ == k {
        Some(s[0].1)
    } else {
        assoc_get(s.drop_first(), k)
    }
}

/// No two entries share a key.
pub open spec fn assoc_distinct<V>(s: Seq<(Id, V)>) -> bool {
    forall|i: int, j: int| 0 <= i < j < s.len() ==> s[i].0@ != s[j].0@
}

/// A lookup succeeds exactly when some entry has the key, and then returns
/// an entry's value.
pub proof fn lemma_assoc_get_index<V>(s: Seq<(Id, V)>, k: Seq<u8>)
    ensures
        (assoc_get(s, k) is Some) <==> exists|i: int| 0 <= i < s.len() && s[i].0@ == k,
        assoc_get(s, k) is Some ==> exists|i: int|
            0 <= i < s.len() && s[i].0@ == k && assoc_get(s, k) == Some(s[i].1),
    decreases s.len(),
{
    if s.len() == 0 {
    } else if s[0].0@ == k {
        assert(0 <= 0 < s.len() && s[0].0@ == k && assoc_get(s, k) == Some(s[0].1));
    } else {
        lemma_assoc_get_index(s.drop_first(), k);
        if exists|i: int| 0 <= i < s.len() && s[i].0@ == k {
            let i = choose|i: int| 0 <= i < s.len() && s[i].0@ == k;
            assert(i != 0);
            assert(s.drop_first()[i - 1].0@ == k);
        }
        if assoc_get(s.drop_first(), k) is Some {
            let i = choose|i: int|
                0 <= i < s.drop_first().len() && s.drop_first()[i].0@ == k && assoc_get(
                    s.drop_first(),
                    k,
                ) == Some(s.drop_first()[i].1);
            assert(s[i + 1].0@ == k && assoc_get(s, k) == Some(s[i + 1].1));
        }
    }
}

/// With distinct keys, looking up an entry's own key returns its value.
pub proof fn lemma_assoc_get_at<V>(s: Seq<(Id, V)>, i: int)
    requires
        assoc_distinct(s),
        0 <= i < s.len(),
    ensures
        assoc_get(s, s[i].0@) == Some(s[i].1),
{
    let k = s[i].0@;
    lemma_assoc_get_index(s, k);
    let j = choose|j: int| 0 <= j < s.len() && s[j].0@ == k && assoc_get(s, k) == Some(s[j].1);
    if i != j {
        assert(s[i].0@ != s[j].0@);
    }
}

/// Appending an entry with a fresh key adds exactly that binding.
pub proof fn lemma_assoc_get_push<V>(s: Seq<(Id, V)>, id: Id, v: V, k: Seq<u8>)
    ensures
        assoc_get(s.push((id, v)), k) == if k == id@ && assoc_get(s, k) is None {
            Some(v)
        } else {
            assoc_get(s, k)
        },
    decreases s.len(),
{
    if s.len() == 0 {
        assert(s.push((id, v))[0] == (id, v));
        assert(s.push((id, v)).drop_first() =~= Seq::<(Id, V)>::empty());
    } else {
        assert(s.push((id, v))[0] == s[0]);
        assert(s.push((id, v)).drop_first() =~= s.drop_first().push((id, v)));
        lemma_assoc_get_push(s.drop_first(), id, v, k);
    }
}

/// Replacing the entry at an index rebinds its key and leaves the rest.
pub proof fn lemma_assoc_get_update<V>(s: Seq<(Id, V)>, i: int, id: Id, v: V, k: Seq<u8>)
    requires
        assoc_distinct(s),
        0 <= i < s.len(),
        s[i].0@ == id@,
    ensures
        assoc_get(s.update(i, (id, v)), k) == if k == id@ {
            Some(v)
        } else {
            assoc_get(s, k)
        },
        assoc_distinct(s.update(i, (id, v))),
    decreases s.len(),
{
    let s2 = s.update(i, (id, v));
    assert forall|a: int, b: int| 0 <= a < b < s2.len() implies s2[a].0@ != s2[b].0@ by {
        assert(s[a].0@ != s[b].0@);
    }
    if i == 0 {
        assert(s2[0] == (id, v));
        assert(s2.drop_first() =~= s.drop_first());
    } else {
        assert(s2[0] == s[0]);
        assert(s2.drop_first() =~= s.drop_first().update(i - 1, (id, v)));
        assert(assoc_distinct(s.drop_first()));
        lemma_assoc_get_update(s.drop_first(), i - 1, id, v, k);
        if k == id@ {
            assert(s[0].0@ != s[i].0@);
        }
    }
}

/// Removing the entry at an index unbinds its key and leaves the rest.
pub proof fn lemma_assoc_get_remove<V>(s: Seq<(Id, V)>, i: int, k: Seq<u8>)
    requires
        assoc_distinct(s),
        0 <= i < s.len(),
    ensures
        assoc_get(s.remove(i), k) == if k == s[i].0@ {
            None
        } else {
            assoc_get(s, k)
        },
        assoc_distinct(s.remove(i)),
    decreases s.len(),
{
    let s2 = s.remove(i);
    assert forall|a: int, b: int| 0 <= a < b < s2.len() implies s2[a].0@ != s2[b].0@ by {
        let a0 = if a < i {
            a
        } else {
            a + 1
        };
        let b0 = if b < i {
            b
        } else {
            b + 1
        };
        assert(s2[a] == s[a0] && s2[b] == s[b0]);
        assert(s[a0].0@ != s[b0].0@);
    }
    if i == 0 {
        assert(s2 =~= s.drop_first());
        if k == s[0].0@ {
            lemma_assoc_get_index(s.drop_first(), k);
            if assoc_get(s.drop_first(), k) is Some {
                let j = choose|j: int| 0 <= j < s.drop_first().len() && s.drop_first()[j].0@ == k;
                assert(s[j + 1].0@ == k);
                assert(s[0].0@ != s[j + 1].0@);
            }
        }
    } else {
        assert(s2[0] == s[0]);
        assert(s2.drop_first() =~= s.drop_first().remove(i - 1));
        assert(assoc_distinct(s.drop_first()));
        lemma_assoc_get_remove(s.drop_first(), i - 1, k);
        if k == s[i].0@ {
            assert(s[0].0@ != s[i].0@);
        }
    }
}

/// Filtering one more element of a prefix appends it exactly when it
/// satisfies the predicate.
pub proof fn lemma_filter_take_step<T>(s: Seq<T>, i: int, pred: spec_fn(T) -> bool)
    requires
        0 <= i < s.len(),
    ensures
        s.take(i + 1).filter(pred) == if pred(s[i]) {
            s.take(i).filter(pred).push(s[i])
        } else {
            s.take(i).filter(pred)
        },
{
    reveal(Seq::filter);
    assert(s.take(i + 1).drop_last() =~= s.take(i));
    assert(s.take(i + 1).last() == s[i]);
    if pred(s[i]) {
        assert(s.take(i + 1).filter(pred) =~= s.take(i).filter(pred).push(s[i]));
    } else {
        assert(s.take(i + 1).filter(pred) =~= s.take(i).filter(pred));
    }
}

/// Filtering the empty prefix yields nothing.
pub proof fn lemma_filter_take_zero<T>(s: Seq<T>, pred: spec_fn(T) -> bool)
    ensures
        s.take(0).filter(pred) == Seq::<T>::empty(),
{
    reveal(Seq::filter);
    assert(s.take(0) =~= Seq::<T>::empty());
    assert(s.take(0).filter(pred) =~= Seq::<T>::empty());
}

/// A map from identifiers to records, with per-key lookup, overwrite,
/// removal and enumeration. Insertion order of fresh keys is kept.
pub struct IdMap<V> {
    pub entries: Vec<(Id, V)>,
}

impl<V> IdMap<V> {
    /// Well-formed: keys are distinct.
    pub open spec fn wf(self) -> bool {
        assoc_distinct(self.entries@)
    }

    /// The value bound to a key, if any.
    pub open spec fn get(self, k: Seq<u8>) -> Option<V> {
        assoc_get(self.entries@, k)
    }

    /// Whether a key is bound.
    pub open spec fn contains(self, k: Seq<u8>) -> bool {
        self.get(k) is Some
    }

    /// The empty map.
    pub fn new() -> (r: IdMap<V>)
        ensures
            r.wf(),
            r.entries@.len() == 0,
            forall|k: Seq<u8>| r.get(k) is None,
    {
        IdMap { entries: Vec::new() }
    }

    /// Number of bindings.
    pub fn len(&self) -> (r: usize)
        ensures
            r == self.entries@.len(),
    {
        self.entries.len()
    }

    /// Index of the entry with this key, if any.
    pub fn index_of(&self, k: &Id) -> (r: Option<usize>)
        requires
            self.wf(),
        ensures
            match r {
                Some(i) => i < self.entries@.len() && self.entries@[i as int].0@ == k@ && self.get(
                    k@,
                ) == Some(self.entries@[i as int].1),
                None => self.get(k@) is None,
            },
    {
        let mut i: usize = 0;
        while i < self.entries.len()
            invariant
                self.wf(),
                i <= self.entries@.len(),
                forall|j: int| 0 <= j < i ==> self.entries@[j].0@ != k@,
            decreases self.entries@.len() - i,
        {
            if self.entries[i].0 == *k {
                proof {
                    lemma_assoc_get_at(self.entries@, i as int);
                }
                return Some(i);
            }
            i = i + 1;
        }
        proof {
            lemma_assoc_get_index(self.entries@, k@);
        }
        None
    }

    /// Borrow of the value bound to a key, if any.
    pub fn get_ref<'a>(&'a self, k: &Id) -> (r: Option<&'a V>)
        requires
            self.wf(),
        ensures
            match r {
                Some(v) => self.get(k@) == Some(*v),
                None => self.get(k@) is None,
            },
    {
        match self.index_of(k) {
            Some(i) => Some(&self.entries[i].1),
            None => None,
        }
    }

    /// Binds a key to a value, overwriting any earlier binding; all other
    /// bindings are untouched, and a fresh key goes to the end.
    pub fn insert(&mut self, id: Id, v: V)
        requires
            old(self).wf(),
        ensures
            final(self).wf(),
            final(self).get(id@) == Some(v),
            forall|k2: Seq<u8>| k2 != id@ ==> final(self).get(k2) == old(self).get(k2),
            final(self).entries@.len() <= old(self).entries@.len() + 1,
    {
        let ghost k = id@;
        match self.index_of(&id) {
            Some(i) => {
                proof {
                    assert forall|k2: Seq<u8>| true implies assoc_get(
                        self.entries@.update(i as int, (id, v)),
                        k2,
                    ) == if k2 == k {
                        Some(v)
                    } else {
                        assoc_get(self.entries@, k2)
                    } by {
                        lemma_assoc_get_update(self.entries@, i as int, id, v, k2);
                    }
                }
                self.entries[i] = (id, v);
            },
            None => {
                proof {
                    assert forall|k2: Seq<u8>| true implies assoc_get(
                        self.entries@.push((id, v)),
                        k2,
                    ) == if k2 == k && assoc_get(self.entries@, k2) is None {
                        Some(v)
                    } else {
                        assoc_get(self.entries@, k2)
                    } by {
                        lemma_assoc_get_push(self.entries@, id, v, k2);
                    }
                    lemma_assoc_get_index(self.entries@, k);
                    assert(assoc_distinct(self.entries@.push((id, v)))) by {
                        let s2 = self.entries@.push((id, v));
                        assert forall|a: int, b: int| 0 <= a < b < s2.len() implies s2[a].0@
                            != s2[b].0@ by {
                            if b < s2.len() - 1 {
                                assert(s2[a] == self.entries@[a] && s2[b] == self.entries@[b]);
                            } else {
                                assert(s2[a] == self.entries@[a]);
                                assert(s2[b] == (id, v));
                            }
                        }
                    }
                }
                self.entries.push((id, v));
            },
        }
    }

    /// Unbinds a key; all other bindings are untouched.
    pub fn remove_key(&mut self, k: &Id)
        requires
            old(self).wf(),
        ensures
            final(self).wf(),
            final(self).get(k@) is None,
            forall|k2: Seq<u8>| k2 != k@ ==> final(self).get(k2) == old(self).get(k2),
    {
        match self.index_of(k) {
            Some(i) => {
                proof {
                    assert forall|k2: Seq<u8>| true implies assoc_get(
                        self.entries@.remove(i as int),
                        k2,
                    ) == if k2 == k@ {
                        None
                    } else {
                        assoc_get(self.entries@, k2)
                    } by {
                        lemma_assoc_get_remove(self.entries@, i as int, k2);
                    }
                }
                let _ = self.entries.remove(i);
            },
            None => {},
        }
    }

    /// Drops every binding.
    pub fn clear_all(&mut self)
        ensures
            final(self).wf(),
            final(self).entries@.len() == 0,
            forall|k2: Seq<u8>| final(self).get(k2) is None,
    {
        self.entries.clear();
    }
}

} // verus!
