//! String-keyed storage used by every module for its own state slice.
//!
//! `StorageMap` is a small association-list map whose abstract meaning is a
//! `Map<Seq<char>, V>` from key contents to stored values. A type invariant
//! keeps the listed keys pairwise distinct, so each key names at most one
//! entry and the list determines the abstract map exactly.

use vstd::prelude::*;

verus! {

use vstd::pervasive::VecAdditionalExecFns;

/// No two entries of `s` share a key.
pub open spec fn distinct_keys<V>(s: Seq<(Seq<char>, V)>) -> bool {
    forall|i: int, j: int| 0 <= i < j < s.len() ==> s[i].0 != s[j].0
}

/// The abstract map described by a list of key/value pairs; on duplicate
/// keys the later entry wins.
pub open spec fn map_of<V>(s: Seq<(Seq<char>, V)>) -> Map<Seq<char>, V>
    decreases s.len(),
{
    if s.len() == 0 {
        Map::empty()
    } else {
        map_of(s.drop_last()).insert(s.last().0, s.last().1)
    }
}

/// A key is in the abstract map exactly when some entry lists it.
pub proof fn lemma_map_of_contains<V>(s: Seq<(Seq<char>, V)>, k: Seq<char>)
    ensures
        map_of(s).contains_key(k) <==> exists|i: int| 0 <= i < s.len() && s[i].0 == k,
    decreases s.len(),
{
    if s.len() > 0 {
        lemma_map_of_contains(s.drop_last(), k);
        if s.last().0 == k {
            assert(s[s.len() - 1].0 == k);
        } else if map_of(s).contains_key(k) {
            let i = choose|i: int| 0 <= i < s.drop_last().len() && s.drop_last()[i].0 == k;
            assert(s[i].0 == k);
        } else if exists|i: int| 0 <= i < s.len() && s[i].0 == k {
            let i = choose|i: int| 0 <= i < s.len() && s[i].0 == k;
            assert(s.drop_last()[i].0 == k);
        }
    }
}

/// With distinct keys, each entry gives the abstract map's value at its key.
pub proof fn lemma_map_of_index<V>(s: Seq<(Seq<char>, V)>, i: int)
    requires
        distinct_keys(s),
        0 <= i < s.len(),
    ensures
        map_of(s).contains_key(s[i].0),
        map_of(s)[s[i].0] == s[i].1,
    decreases s.len(),
{
    if i == s.len() - 1 {
    } else {
        assert(s.drop_last()[i] == s[i]);
        lemma_map_of_index(s.drop_last(), i);
        assert(s[i].0 != s.last().0);
    }
}

/// Replacing the value at entry `i` updates the abstract map at that key.
pub proof fn lemma_map_of_update<V>(s: Seq<(Seq<char>, V)>, i: int, v: V)
    requires
        distinct_keys(s),
        0 <= i < s.len(),
    ensures
        map_of(s.update(i, (s[i].0, v))) =~= map_of(s).insert(s[i].0, v),
    decreases s.len(),
{
    let t = s.update(i, (s[i].0, v));
    if i == s.len() - 1 {
        assert(t.drop_last() =~= s.drop_last());
        assert(t.last() == (s[i].0, v));
    } else {
        assert(t.drop_last() =~= s.drop_last().update(i, (s[i].0, v)));
        assert(s.drop_last()[i] == s[i]);
        lemma_map_of_update(s.drop_last(), i, v);
        assert(t.last() == s.last());
        assert(s[i].0 != s.last().0);
    }
}

/// With distinct keys, the abstract map has exactly one key per entry.
pub proof fn lemma_map_of_dom_len<V>(s: Seq<(Seq<char>, V)>)
    requires
        distinct_keys(s),
    ensures
        map_of(s).dom().finite(),
        map_of(s).dom().len() == s.len(),
    decreases s.len(),
{
    if s.len() > 0 {
        lemma_map_of_dom_len(s.drop_last());
        lemma_map_of_contains(s.drop_last(), s.last().0);
        assert(forall|j: int|
            0 <= j < s.drop_last().len() ==> s.drop_last()[j] == s[j] && s[j].0 != s.last().0);
        assert(!map_of(s.drop_last()).contains_key(s.last().0));
        assert(map_of(s).dom() =~= map_of(s.drop_last()).dom().insert(s.last().0));
        vstd::set::axiom_set_insert_len(map_of(s.drop_last()).dom(), s.last().0);
    }
}

/// Removing entry `i` removes its key from the abstract map.
pub proof fn lemma_map_of_remove<V>(s: Seq<(Seq<char>, V)>, i: int)
    requires
        distinct_keys(s),
        0 <= i < s.len(),
    ensures
        map_of(s.remove(i)) =~= map_of(s).remove(s[i].0),
    decreases s.len(),
{
    if i == s.len() - 1 {
        assert(s.remove(i) =~= s.drop_last());
        lemma_map_of_contains(s.drop_last(), s[i].0);
        assert(forall|j: int|
            0 <= j < s.drop_last().len() ==> s.drop_last()[j] == s[j] && s[j].0 != s[i].0);
        assert(!map_of(s.drop_last()).contains_key(s[i].0));
    } else {
        let t = s.remove(i);
        assert(t.drop_last() =~= s.drop_last().remove(i));
        assert(s.drop_last()[i] == s[i]);
        lemma_map_of_remove(s.drop_last(), i);
        assert(t.last() == s.last());
        assert(s[i].0 != s.last().0);
    }
}

/// Module-owned storage: a mapping from string keys to values of type `V`.
#[derive(Debug)]
pub struct StorageMap<V> {
    entries: Vec<(String, V)>,
}

impl<V> View for StorageMap<V> {
    type V = Map<Seq<char>, V>;

    open spec fn view(&self) -> Map<Seq<char>, V> {
        map_of(self.pairs())
    }
}

impl<V> StorageMap<V> {
    /// The stored key/value pairs, keys by contents, in storage order.
    pub closed spec fn pairs(self) -> Seq<(Seq<char>, V)> {
        self.entries@.map_values(|e: (String, V)| (e.0@, e.1))
    }

    #[verifier::type_invariant]
    pub open spec fn inv(self) -> bool {
        distinct_keys(self.pairs())
    }

    /// An empty storage map.
    pub fn new() -> (r: Self)
        ensures
            r@ == Map::<Seq<char>, V>::empty(),
            r.pairs() == Seq::<(Seq<char>, V)>::empty(),
    {
        let r = StorageMap { entries: Vec::new() };
        proof {
            assert(r.pairs() =~= Seq::<(Seq<char>, V)>::empty());
        }
        r
    }

    /// How many keys are stored.
    pub fn len(&self) -> (r: usize)
        ensures
            r == self@.dom().len(),
            r == self.pairs().len(),
    {
        proof {
            use_type_invariant(&*self);
            lemma_map_of_dom_len(self.pairs());
        }
        self.entries.len()
    }

    /// Index of the entry listing `key`, or the entry count if there is none.
    fn find(&self, key: &String) -> (r: usize)
        ensures
            r <= self.pairs().len(),
            r < self.pairs().len() ==> self.pairs()[r as int].0 == key@,
            r == self.pairs().len() ==> forall|j: int|
                0 <= j < self.pairs().len() ==> self.pairs()[j].0 != key@,
    {
        let n = self.entries.len();
        let mut i: usize = 0;
        while i < n
            invariant
                n == self.entries.len(),
                i <= n,
                forall|j: int| 0 <= j < i ==> self.pairs()[j].0 != key@,
            decreases n - i,
        {
            if self.entries[i].0 == *key {
                return i;
            }
            assert(self.pairs()[i as int].0 != key@);
            i = i + 1;
        }
        i
    }

    /// Look up the value stored under `key`, if any.
    pub fn get(&self, key: &String) -> (r: Option<&V>)
        ensures
            match r {
                Some(v) => self@.contains_key(key@) && *v == self@[key@],
                None => !self@.contains_key(key@),
            },
    {
        proof {
            use_type_invariant(&*self);
        }
        let i = self.find(key);
        if i < self.entries.len() {
            proof {
                lemma_map_of_index(self.pairs(), i as int);
            }
            Some(&self.entries[i].1)
        } else {
            proof {
                lemma_map_of_contains(self.pairs(), key@);
            }
            None
        }
    }

    /// Store `value` under `key`, overwriting any earlier value. The set of
    /// stored keys only grows.
    pub fn insert(&mut self, key: String, value: V)
        ensures
            final(self)@ == old(self)@.insert(key@, value),
            old(self)@.contains_key(key@) ==> exists|i: int|
                0 <= i < old(self).pairs().len() && old(self).pairs()[i].0 == key@
                    && final(self).pairs() == old(self).pairs().update(i, (key@, value)),
            !old(self)@.contains_key(key@) ==> final(self).pairs() == old(self).pairs().push(
                (key@, value),
            ),
    {
        proof {
            use_type_invariant(&*self);
            lemma_map_of_contains(old(self).pairs(), key@);
        }
        let ghost old_pairs = self.pairs();
        let idx = self.find(&key);
        let mut entries: Vec<(String, V)> = Vec::new();
        core::mem::swap(&mut entries, &mut self.entries);
        if idx < entries.len() {
            entries.set(idx, (key, value));
            proof {
                assert(entries@.map_values(|e: (String, V)| (e.0@, e.1)) =~= old_pairs.update(
                    idx as int,
                    (old_pairs[idx as int].0, value),
                ));
                lemma_map_of_update(old_pairs, idx as int, value);
                lemma_map_of_index(old_pairs, idx as int);
            }
        } else {
            entries.push((key, value));
            proof {
                let new_pairs = entries@.map_values(|e: (String, V)| (e.0@, e.1));
                assert(new_pairs =~= old_pairs.push((key@, value)));
                assert(new_pairs.drop_last() =~= old_pairs);
            }
        }
        self.entries = entries;
        proof {
            assert(final(self)@ =~= old(self)@.insert(key@, value));
        }
    }

    /// Drop the entry stored under `key`; without one, leave the map as it
    /// stands.
    pub fn remove(&mut self, key: &String)
        ensures
            final(self)@ == old(self)@.remove(key@),
            old(self)@.contains_key(key@) ==> exists|i: int|
                0 <= i < old(self).pairs().len() && old(self).pairs()[i].0 == key@
                    && final(self).pairs() == old(self).pairs().remove(i),
            !old(self)@.contains_key(key@) ==> *final(self) == *old(self),
    {
        proof {
            use_type_invariant(&*self);
            lemma_map_of_contains(old(self).pairs(), key@);
        }
        let ghost old_pairs = self.pairs();
        let idx = self.find(key);
        if idx < self.entries.len() {
            let mut entries: Vec<(String, V)> = Vec::new();
            core::mem::swap(&mut entries, &mut self.entries);
            let _ = entries.remove(idx);
            proof {
                assert(entries@.map_values(|e: (String, V)| (e.0@, e.1)) =~= old_pairs.remove(
                    idx as int,
                ));
                lemma_map_of_remove(old_pairs, idx as int);
            }
            self.entries = entries;
            proof {
                assert(final(self)@ =~= old(self)@.remove(key@));
            }
        } else {
            proof {
                assert(old(self)@ =~= old(self)@.remove(key@));
            }
        }
    }
}

} // verus!
