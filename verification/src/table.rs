use crate::hashing::HasherPair;
use vstd::map::*;
use vstd::prelude::*;

verus! {

/// The map denoted by a sequence of key/value entries: each entry taken in
/// order. The table below keeps keys unique, so no entry ever shadows another.
pub open spec fn entries_map<T>(s: Seq<(u64, T)>) -> Map<u64, T>
    decreases s.len(),
{
    if s.len() == 0 {
        Map::empty()
    } else {
        entries_map(s.drop_last()).insert(s.last().0, s.last().1)
    }
}

/// Every key occurs at most once among the entries.
pub open spec fn unique_keys<T>(s: Seq<(u64, T)>) -> bool {
    forall|i: int, j: int| 0 <= i < j < s.len() ==> (#[trigger] s[i]).0 != (#[trigger] s[j]).0
}

proof fn lemma_entries_map_finite<T>(s: Seq<(u64, T)>)
    ensures
        entries_map(s).dom().finite(),
    decreases s.len(),
{
    if s.len() > 0 {
        lemma_entries_map_finite(s.drop_last());
    }
}

proof fn lemma_entries_map_contains<T>(s: Seq<(u64, T)>, key: u64)
    ensures
        entries_map(s).dom().contains(key) <==> exists|i: int|
            0 <= i < s.len() && (#[trigger] s[i]).0 == key,
    decreases s.len(),
{
    if s.len() > 0 {
        let sub = s.drop_last();
        lemma_entries_map_contains(sub, key);
        if s.last().0 == key {
            assert((s[s.len() - 1]).0 == key);
        } else {
            if entries_map(s).dom().contains(key) {
                let i = choose|i: int| 0 <= i < sub.len() && (#[trigger] sub[i]).0 == key;
                assert((s[i]).0 == key);
            }
            if exists|i: int| 0 <= i < s.len() && (#[trigger] s[i]).0 == key {
                let i = choose|i: int| 0 <= i < s.len() && (#[trigger] s[i]).0 == key;
                assert(i < s.len() - 1);
                assert((sub[i]).0 == key);
            }
        }
    }
}

proof fn lemma_unique_drop_last<T>(s: Seq<(u64, T)>)
    requires
        unique_keys(s),
        s.len() > 0,
    ensures
        unique_keys(s.drop_last()),
{
    let sub = s.drop_last();
    assert forall|i: int, j: int| 0 <= i < j < sub.len() implies (#[trigger] sub[i]).0 != (
    #[trigger] sub[j]).0 by {
        assert(sub[i] == s[i]);
        assert(sub[j] == s[j]);
    }
}

proof fn lemma_entries_map_value<T>(s: Seq<(u64, T)>, i: int)
    requires
        unique_keys(s),
        0 <= i < s.len(),
    ensures
        entries_map(s).dom().contains((s[i]).0),
        entries_map(s)[(s[i]).0] == (s[i]).1,
    decreases s.len(),
{
    if i == s.len() - 1 {
        assert(s.last() == s[i]);
    } else {
        let sub = s.drop_last();
        lemma_unique_drop_last(s);
        assert(sub[i] == s[i]);
        lemma_entries_map_value(sub, i);
        assert((s[i]).0 != (s[s.len() - 1]).0);
    }
}

proof fn lemma_entries_map_len<T>(s: Seq<(u64, T)>)
    requires
        unique_keys(s),
    ensures
        entries_map(s).dom().len() == s.len(),
    decreases s.len(),
{
    if s.len() == 0 {
        assert(entries_map(s).dom() =~= Set::<u64>::empty());
    } else {
        let sub = s.drop_last();
        lemma_unique_drop_last(s);
        lemma_entries_map_len(sub);
        lemma_entries_map_finite(sub);
        lemma_entries_map_contains(sub, s.last().0);
        assert forall|i: int| 0 <= i < sub.len() implies (#[trigger] sub[i]).0 != s.last().0 by {
            assert(sub[i] == s[i]);
            assert((s[i]).0 != (s[s.len() - 1]).0);
        }
        assert(!entries_map(sub).dom().contains(s.last().0));
        assert(entries_map(s).dom() =~= entries_map(sub).dom().insert(s.last().0));
    }
}

proof fn lemma_entries_map_remove<T>(s0: Seq<(u64, T)>, gi: int)
    requires
        unique_keys(s0),
        0 <= gi < s0.len(),
    ensures
        unique_keys(s0.remove(gi)),
        entries_map(s0.remove(gi)) == entries_map(s0).remove((s0[gi]).0),
{
    let key = (s0[gi]).0;
    let se = s0.remove(gi);
    s0.remove_ensures(gi);
    assert forall|a: int, b: int| 0 <= a < b < se.len() implies (#[trigger] se[a]).0 != (
    #[trigger] se[b]).0 by {
        let a0: int = if a < gi {
            a
        } else {
            a + 1
        };
        let b0: int = if b < gi {
            b
        } else {
            b + 1
        };
        assert(se[a] == s0[a0]);
        assert(se[b] == s0[b0]);
        assert((s0[a0]).0 != (s0[b0]).0);
    }
    assert_maps_equal!(entries_map(se), entries_map(s0).remove(key), k => {
        lemma_entries_map_contains(se, k);
        lemma_entries_map_contains(s0, k);
        if entries_map(se).dom().contains(k) {
            let j = choose|j: int| 0 <= j < se.len() && (#[trigger] se[j]).0 == k;
            lemma_entries_map_value(se, j);
            let j0: int = if j < gi { j } else { j + 1 };
            assert(se[j] == s0[j0]);
            assert((s0[j0]).0 != (s0[gi]).0);
            lemma_entries_map_value(s0, j0);
        }
        if entries_map(s0).dom().contains(k) && k != key {
            let j0 = choose|j0: int| 0 <= j0 < s0.len() && (#[trigger] s0[j0]).0 == k;
            assert(j0 != gi);
            let j: int = if j0 < gi { j0 } else { j0 - 1 };
            assert(se[j] == s0[j0]);
        }
    });
}

/// One native-style table: the storage behind one collision-resolution
/// backend. It owns every currently stored value, keyed by u64, and carries
/// the hasher pair registered at construction. The strategies' internal
/// probing and resizing layouts are backend-private; what this type pins down
/// is their uniform observable contract: a finite map from keys to owned
/// values, with duplicate inserts rejected.
pub struct NativeTable<T> {
    #[allow(dead_code)]
    hashers: HasherPair,
    entries: Vec<(u64, T)>,
}

impl<T> View for NativeTable<T> {
    type V = Map<u64, T>;

    closed spec fn view(&self) -> Map<u64, T> {
        entries_map(self.entries@)
    }
}

impl<T> NativeTable<T> {
    #[verifier::type_invariant]
    spec fn wf(self) -> bool {
        unique_keys(self.entries@)
    }

    /// Allocate an empty table with the given registered hasher pair.
    pub fn new(hashers: HasherPair) -> (r: Self)
        ensures
            r@ == Map::<u64, T>::empty(),
    {
        NativeTable { hashers, entries: Vec::new() }
    }

    fn find_index(&self, key: u64) -> (r: Option<usize>)
        ensures
            match r {
                Some(i) => i < self.entries@.len() && (self.entries@[i as int]).0 == key,
                None => forall|i: int|
                    0 <= i < self.entries@.len() ==> (#[trigger] self.entries@[i]).0 != key,
            },
    {
        let mut i: usize = 0;
        while i < self.entries.len()
            invariant
                i <= self.entries@.len(),
                forall|j: int| 0 <= j < i ==> (#[trigger] self.entries@[j]).0 != key,
            decreases self.entries@.len() - i,
        {
            if self.entries[i].0 == key {
                return Some(i);
            }
            i = i + 1;
        }
        None
    }

    /// Borrow the value stored at `key` without transferring ownership;
    /// absent keys yield `None`, never an error.
    pub fn get(&self, key: u64) -> (r: Option<&T>)
        ensures
            match r {
                Some(v) => self@.dom().contains(key) && *v == self@[key],
                None => !self@.dom().contains(key),
            },
    {
        proof {
            use_type_invariant(&*self);
        }
        match self.find_index(key) {
            Some(i) => {
                proof {
                    lemma_entries_map_value(self.entries@, i as int);
                }
                Some(&self.entries[i].1)
            },
            None => {
                proof {
                    lemma_entries_map_contains(self.entries@, key);
                }
                None
            },
        }
    }

    /// Transfer ownership of `value` into the table at `key`. A key that is
    /// already live is rejected: the table keeps its old value unchanged and
    /// the offered value is destroyed here, never stored half-way and never
    /// leaked.
    pub fn insert(&mut self, key: u64, value: T) -> (r: bool)
        ensures
            r == !old(self)@.dom().contains(key),
            final(self)@ == if old(self)@.dom().contains(key) {
                old(self)@
            } else {
                old(self)@.insert(key, value)
            },
    {
        proof {
            use_type_invariant(&*self);
        }
        let ghost s0 = self.entries@;
        match self.find_index(key) {
            Some(i) => {
                proof {
                    assert((s0[i as int]).0 == key);
                    lemma_entries_map_contains(s0, key);
                }
                false
            },
            None => {
                proof {
                    lemma_entries_map_contains(s0, key);
                }
                let mut es: Vec<(u64, T)> = Vec::new();
                core::mem::swap(&mut es, &mut self.entries);
                es.push((key, value));
                proof {
                    assert(es@.drop_last() == s0);
                    assert forall|a: int, b: int| 0 <= a < b < es@.len() implies (
                    #[trigger] es@[a]).0 != (#[trigger] es@[b]).0 by {
                        if b < es@.len() - 1 {
                            assert(es@[a] == s0[a]);
                            assert(es@[b] == s0[b]);
                        } else {
                            assert(es@[a] == s0[a]);
                            assert((s0[a]).0 != key);
                        }
                    }
                }
                self.entries = es;
                true
            },
        }
    }

    /// Remove the entry at `key` if one is live. The removed value is
    /// destroyed exactly once, by this call; an absent key is a no-op.
    pub fn delete(&mut self, key: u64) -> (r: bool)
        ensures
            r == old(self)@.dom().contains(key),
            final(self)@ == old(self)@.remove(key),
    {
        proof {
            use_type_invariant(&*self);
        }
        let ghost s0 = self.entries@;
        match self.find_index(key) {
            None => {
                proof {
                    lemma_entries_map_contains(s0, key);
                    assert(old(self)@.remove(key) =~= old(self)@);
                }
                false
            },
            Some(i) => {
                proof {
                    assert((s0[i as int]).0 == key);
                    lemma_entries_map_contains(s0, key);
                }
                let mut es: Vec<(u64, T)> = Vec::new();
                core::mem::swap(&mut es, &mut self.entries);
                let _removed = es.remove(i);
                proof {
                    lemma_entries_map_remove(s0, i as int);
                    assert(es@ == s0.remove(i as int));
                }
                self.entries = es;
                true
            },
        }
    }

    /// Remove and destroy every live entry; the table stays usable and later
    /// inserts succeed normally.
    pub fn clear(&mut self)
        ensures
            final(self)@ == Map::<u64, T>::empty(),
    {
        let mut es: Vec<(u64, T)> = Vec::new();
        core::mem::swap(&mut es, &mut self.entries);
    }

    /// The number of live entries.
    pub fn len(&self) -> (r: usize)
        ensures
            r == self@.len(),
    {
        proof {
            use_type_invariant(&*self);
            lemma_entries_map_len(self.entries@);
        }
        self.entries.len()
    }
}

} // verus!
