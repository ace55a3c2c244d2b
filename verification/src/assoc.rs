//! A verified association list from byte-string names to owned values.
//!
//! The engine hands out one opaque handle per registered name, and the client
//! layer must keep its own name-to-handle mapping consistent with the native
//! state.  The mapping is held as a vector of pairs with pairwise-distinct
//! keys and is viewed as a `Map` from key bytes to the value's view.

use vstd::prelude::*;

use crate::bytes::bytes_eq;

verus! {

/// An ordered list of `(name, value)` pairs with pairwise-distinct names,
/// abstracted as a map from name bytes to the value's view.
pub struct AssocList<V> {
    entries: Vec<(Vec<u8>, V)>,
}

/// The map abstraction of a list of entries: later entries win, though under
/// `wf` every key occurs at most once.
pub open spec fn entries_to_map<V: View>(s: Seq<(Vec<u8>, V)>) -> Map<Seq<u8>, <V as View>::V>
    decreases s.len(),
{
    if s.len() == 0 {
        Map::empty()
    } else {
        entries_to_map(s.drop_last()).insert(s.last().0@, s.last().1@)
    }
}

impl<V: View> View for AssocList<V> {
    type V = Map<Seq<u8>, <V as View>::V>;

    closed spec fn view(&self) -> Map<Seq<u8>, <V as View>::V> {
        entries_to_map(self.entries@)
    }
}

/// Whether the entries carry pairwise-distinct keys.
pub open spec fn distinct_keys<V>(s: Seq<(Vec<u8>, V)>) -> bool {
    forall|i: int, j: int| 0 <= i < j < s.len() ==> s[i].0@ != s[j].0@
}

proof fn lemma_contains<V: View>(s: Seq<(Vec<u8>, V)>, k: Seq<u8>)
    ensures
        entries_to_map(s).contains_key(k) <==> exists|i: int| 0 <= i < s.len() && s[i].0@ == k,
    decreases s.len(),
{
    if s.len() > 0 {
        lemma_contains(s.drop_last(), k);
        if s.last().0@ == k {
            assert(s[s.len() - 1].0@ == k);
        } else {
            if entries_to_map(s).contains_key(k) {
                let i = choose|i: int| 0 <= i < s.drop_last().len() && s.drop_last()[i].0@ == k;
                assert(s[i].0@ == k);
            }
            if exists|i: int| 0 <= i < s.len() && s[i].0@ == k {
                let i = choose|i: int| 0 <= i < s.len() && s[i].0@ == k;
                assert(i < s.len() - 1);
                assert(s.drop_last()[i].0@ == k);
            }
        }
    }
}

proof fn lemma_index<V: View>(s: Seq<(Vec<u8>, V)>, i: int)
    requires
        distinct_keys(s),
        0 <= i < s.len(),
    ensures
        entries_to_map(s).contains_key(s[i].0@),
        entries_to_map(s)[s[i].0@] == s[i].1@,
    decreases s.len(),
{
    if i == s.len() - 1 {
    } else {
        assert(distinct_keys(s.drop_last()));
        assert(s.drop_last()[i] == s[i]);
        lemma_index(s.drop_last(), i);
        assert(s[i].0@ != s.last().0@);
    }
}

proof fn lemma_remove_entry<V: View>(s: Seq<(Vec<u8>, V)>, i: int)
    requires
        distinct_keys(s),
        0 <= i < s.len(),
    ensures
        entries_to_map(s.remove(i)) == entries_to_map(s).remove(s[i].0@),
    decreases s.len(),
{
    if i == s.len() - 1 {
        assert(s.remove(i) =~= s.drop_last());
        lemma_contains(s.drop_last(), s[i].0@);
        assert(forall|j: int|
            0 <= j < s.drop_last().len() ==> #[trigger] s.drop_last()[j].0@ != s[i].0@);
        assert(!entries_to_map(s.drop_last()).contains_key(s[i].0@));
        assert(entries_to_map(s).remove(s[i].0@) =~= entries_to_map(s.drop_last()));
    } else {
        assert(s.remove(i).drop_last() =~= s.drop_last().remove(i));
        assert(s.remove(i).last() == s.last());
        assert(distinct_keys(s.drop_last()));
        assert(s.drop_last()[i] == s[i]);
        lemma_remove_entry(s.drop_last(), i);
        assert(s[i].0@ != s.last().0@);
        assert(entries_to_map(s.remove(i)) == entries_to_map(s.drop_last()).remove(
            s[i].0@,
        ).insert(s.last().0@, s.last().1@));
        assert(entries_to_map(s.drop_last()).remove(s[i].0@).insert(s.last().0@, s.last().1@)
            =~= entries_to_map(s.drop_last()).insert(s.last().0@, s.last().1@).remove(s[i].0@));
    }
}

impl<V: View> AssocList<V> {
    /// Whether the list keeps every key at most once.
    pub closed spec fn wf(&self) -> bool {
        distinct_keys(self.entries@)
    }

    /// An empty mapping.
    pub fn new() -> (r: Self)
        ensures
            r.wf(),
            r@ == Map::<Seq<u8>, <V as View>::V>::empty(),
    {
        AssocList { entries: Vec::new() }
    }

    fn find(&self, key: &[u8]) -> (r: Option<usize>)
        ensures
            match r {
                Some(i) => 0 <= i < self.entries@.len() && self.entries@[i as int].0@ == key@,
                None => forall|j: int|
                    0 <= j < self.entries@.len() ==> self.entries@[j].0@ != key@,
            },
    {
        let n = self.entries.len();
        let mut i: usize = 0;
        while i < n
            invariant
                n == self.entries@.len(),
                0 <= i <= n,
                forall|j: int| 0 <= j < i ==> self.entries@[j].0@ != key@,
            decreases n - i,
        {
            if bytes_eq(self.entries[i].0.as_slice(), key) {
                return Some(i);
            }
            i += 1;
        }
        None
    }

    /// Looks the name up and returns a reference to its value, if registered.
    pub fn get(&self, key: &[u8]) -> (r: Option<&V>)
        requires
            self.wf(),
        ensures
            match r {
                Some(v) => self@.contains_key(key@) && v@ == self@[key@],
                None => !self@.contains_key(key@),
            },
    {
        proof {
            lemma_contains(self.entries@, key@);
        }
        match self.find(key) {
            Some(i) => {
                proof {
                    lemma_index(self.entries@, i as int);
                }
                Some(&self.entries[i].1)
            },
            None => None,
        }
    }

    /// Whether the name is registered.
    pub fn contains_key(&self, key: &[u8]) -> (r: bool)
        requires
            self.wf(),
        ensures
            r == self@.contains_key(key@),
    {
        self.get(key).is_some()
    }

    /// Binds the name to the value, replacing any previous binding.
    pub fn insert(&mut self, key: Vec<u8>, value: V)
        requires
            old(self).wf(),
        ensures
            final(self).wf(),
            final(self)@ == old(self)@.insert(key@, value@),
    {
        proof {
            lemma_contains(self.entries@, key@);
        }
        match self.find(key.as_slice()) {
            Some(i) => {
                proof {
                    lemma_remove_entry(self.entries@, i as int);
                }
                let ghost removed = self.entries@.remove(i as int);
                self.entries.remove(i);
                proof {
                    assert(forall|j: int|
                        0 <= j < removed.len() ==> #[trigger] removed[j].0@ != key@);
                    assert(distinct_keys(removed));
                }
                self.entries.push((key, value));
                proof {
                    assert(self.entries@.drop_last() =~= removed);
                    assert(final(self)@ =~= old(self)@.insert(key@, value@));
                }
            },
            None => {
                self.entries.push((key, value));
                proof {
                    assert(self.entries@.drop_last() =~= old(self).entries@);
                }
            },
        }
    }

    /// Unbinds the name; a name that is not registered leaves the mapping
    /// unchanged.
    pub fn remove(&mut self, key: &[u8])
        requires
            old(self).wf(),
        ensures
            final(self).wf(),
            final(self)@ == old(self)@.remove(key@),
    {
        proof {
            lemma_contains(self.entries@, key@);
        }
        match self.find(key) {
            Some(i) => {
                proof {
                    lemma_remove_entry(self.entries@, i as int);
                    let ghost removed = self.entries@.remove(i as int);
                    assert(distinct_keys(removed));
                }
                self.entries.remove(i);
            },
            None => {
                proof {
                    assert(!old(self)@.contains_key(key@));
                    assert(old(self)@.remove(key@) =~= old(self)@);
                }
            },
        }
    }
}

impl AssocList<Vec<u8>> {
    /// An independent copy holding the same bindings.
    pub fn duplicate(&self) -> (r: Self)
        requires
            self.wf(),
        ensures
            r.wf(),
            r@ == self@,
    {
        let n = self.entries.len();
        let mut out: Vec<(Vec<u8>, Vec<u8>)> = Vec::new();
        let mut i: usize = 0;
        while i < n
            invariant
                n == self.entries@.len(),
                0 <= i <= n,
                out@.len() == i,
                forall|j: int|
                    0 <= j < i ==> #[trigger] out@[j].0@ == self.entries@[j].0@ && out@[j].1@
                        == self.entries@[j].1@,
            decreases n - i,
        {
            let k = vstd::slice::slice_to_vec(self.entries[i].0.as_slice());
            let v = vstd::slice::slice_to_vec(self.entries[i].1.as_slice());
            out.push((k, v));
            i += 1;
        }
        proof {
            lemma_congruent(out@, self.entries@);
        }
        AssocList { entries: out }
    }
}

proof fn lemma_congruent(s1: Seq<(Vec<u8>, Vec<u8>)>, s2: Seq<(Vec<u8>, Vec<u8>)>)
    requires
        s1.len() == s2.len(),
        forall|j: int| 0 <= j < s1.len() ==> #[trigger] s1[j].0@ == s2[j].0@ && s1[j].1@ == s2[j].1@,
    ensures
        entries_to_map(s1) == entries_to_map(s2),
        distinct_keys(s2) ==> distinct_keys(s1),
    decreases s1.len(),
{
    if s1.len() > 0 {
        assert(forall|j: int|
            0 <= j < s1.drop_last().len() ==> #[trigger] s1.drop_last()[j].0@
                == s2.drop_last()[j].0@ && s1.drop_last()[j].1@ == s2.drop_last()[j].1@);
        lemma_congruent(s1.drop_last(), s2.drop_last());
        assert(s1.last().0@ == s2.last().0@ && s1.last().1@ == s2.last().1@);
    }
}

} // verus!
