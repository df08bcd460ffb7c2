use crate::hashing::HasherPair;
use crate::table::NativeTable;
use vstd::prelude::*;

verus! {

broadcast use vstd::std_specs::hash::group_hash_axioms;

/// The default hash seed: explicit per-process configuration, fixed at
/// construction time so each registered hash function is a pure function of
/// the key for the lifetime of its table.
pub const DEFAULT_SEED: u64 = 0x9E37_79B9_7F4A_7C15;

/// The collision-resolution strategy a handle is constructed with: four
/// native strategies plus the in-process reference container.
#[derive(Clone, Copy, PartialEq, Eq, Structural, Debug)]
pub enum Strategy {
    SeparateChaining,
    LinearProbing,
    QuadraticProbing,
    DoubleHashing,
    Std,
}

/// What a lookup observes of a table state: the stored value, or absent.
pub open spec fn find_spec<T>(m: Map<u64, T>, key: u64) -> Option<T> {
    if m.dom().contains(key) {
        Some(m[key])
    } else {
        None
    }
}

/// Whether an insert is accepted: an absent key always is; a live key only
/// under an overwriting duplicate policy.
pub open spec fn insert_accepted<T>(m: Map<u64, T>, key: u64, overwrites: bool) -> bool {
    overwrites || !m.dom().contains(key)
}

/// The table state after an insert under the given duplicate policy: the new
/// binding when the insert is accepted, the old state unchanged otherwise.
pub open spec fn insert_spec<T>(m: Map<u64, T>, key: u64, value: T, overwrites: bool) -> Map<
    u64,
    T,
> {
    if insert_accepted(m, key, overwrites) {
        m.insert(key, value)
    } else {
        m
    }
}

enum Repr<T> {
    SeparateChaining(NativeTable<T>),
    LinearProbing(NativeTable<T>),
    QuadraticProbing(NativeTable<T>),
    DoubleHashing(NativeTable<T>),
    Std(std::collections::HashMap<u64, T>),
}

/// A handle on one instantiated backend: a closed sum over the five
/// interchangeable backends, dispatched once at construction, exposing one
/// uniform operation set. The handle owns every currently stored value.
pub struct HashMap<T>(Repr<T>);

/// The display label of each strategy, as the report surface prints it.
pub open spec fn label_spec(strategy: Strategy) -> Seq<char> {
    match strategy {
        Strategy::SeparateChaining => "Separate chaining"@,
        Strategy::LinearProbing => "Linear probing"@,
        Strategy::QuadraticProbing => "Quadratic probing"@,
        Strategy::DoubleHashing => "Double hashing"@,
        Strategy::Std => "Rust HashMap"@,
    }
}

impl<T> View for HashMap<T> {
    type V = Map<u64, T>;

    closed spec fn view(&self) -> Map<u64, T> {
        match self.0 {
            Repr::SeparateChaining(t) => t@,
            Repr::LinearProbing(t) => t@,
            Repr::QuadraticProbing(t) => t@,
            Repr::DoubleHashing(t) => t@,
            Repr::Std(m) => m@,
        }
    }
}

impl<T> HashMap<T> {
    /// The strategy this handle was constructed with.
    pub closed spec fn strategy(&self) -> Strategy {
        match self.0 {
            Repr::SeparateChaining(_) => Strategy::SeparateChaining,
            Repr::LinearProbing(_) => Strategy::LinearProbing,
            Repr::QuadraticProbing(_) => Strategy::QuadraticProbing,
            Repr::DoubleHashing(_) => Strategy::DoubleHashing,
            Repr::Std(_) => Strategy::Std,
        }
    }

    /// The duplicate-key policy is per-backend configuration, not a uniform
    /// guarantee: the reference container overwrites a live key, the native
    /// strategies reject the insert.
    pub open spec fn overwrites(&self) -> bool {
        self.strategy() == Strategy::Std
    }

    /// Allocate an empty table of the requested strategy, registering the
    /// primary hash function and, for double hashing, the derived secondary
    /// step function, both seeded by the given explicit configuration.
    pub fn construct(strategy: Strategy, seed: u64) -> (r: Self)
        ensures
            r@ == Map::<u64, T>::empty(),
            r.strategy() == strategy,
    {
        let hashers = HasherPair::new(seed);
        match strategy {
            Strategy::SeparateChaining => HashMap(Repr::SeparateChaining(NativeTable::new(hashers))),
            Strategy::LinearProbing => HashMap(Repr::LinearProbing(NativeTable::new(hashers))),
            Strategy::QuadraticProbing => HashMap(Repr::QuadraticProbing(NativeTable::new(hashers))),
            Strategy::DoubleHashing => HashMap(Repr::DoubleHashing(NativeTable::new(hashers))),
            Strategy::Std => HashMap(Repr::Std(std::collections::HashMap::new())),
        }
    }

    /// An empty separate-chaining handle under the default seed.
    pub fn separate_chaining() -> (r: Self)
        ensures
            r@ == Map::<u64, T>::empty(),
            r.strategy() == Strategy::SeparateChaining,
    {
        Self::construct(Strategy::SeparateChaining, DEFAULT_SEED)
    }

    /// An empty linear-probing handle under the default seed.
    pub fn linear_probing() -> (r: Self)
        ensures
            r@ == Map::<u64, T>::empty(),
            r.strategy() == Strategy::LinearProbing,
    {
        Self::construct(Strategy::LinearProbing, DEFAULT_SEED)
    }

    /// An empty quadratic-probing handle under the default seed.
    pub fn quadratic_probing() -> (r: Self)
        ensures
            r@ == Map::<u64, T>::empty(),
            r.strategy() == Strategy::QuadraticProbing,
    {
        Self::construct(Strategy::QuadraticProbing, DEFAULT_SEED)
    }

    /// An empty double-hashing handle under the default seed; its secondary
    /// step function is derived from the primary hash and is never zero.
    pub fn double_hashing() -> (r: Self)
        ensures
            r@ == Map::<u64, T>::empty(),
            r.strategy() == Strategy::DoubleHashing,
    {
        Self::construct(Strategy::DoubleHashing, DEFAULT_SEED)
    }

    /// An empty handle on the in-process reference container.
    pub fn reference() -> (r: Self)
        ensures
            r@ == Map::<u64, T>::empty(),
            r.strategy() == Strategy::Std,
    {
        Self::construct(Strategy::Std, DEFAULT_SEED)
    }

    /// The display label of this handle's backend.
    pub fn label(&self) -> (r: &'static str)
        ensures
            r@ == label_spec(self.strategy()),
    {
        match &self.0 {
            Repr::SeparateChaining(_) => "Separate chaining",
            Repr::LinearProbing(_) => "Linear probing",
            Repr::QuadraticProbing(_) => "Quadratic probing",
            Repr::DoubleHashing(_) => "Double hashing",
            Repr::Std(_) => "Rust HashMap",
        }
    }

    /// Transfer ownership of `value` into the table at `key`. Returns whether
    /// the backend accepted the insert; a rejected insert leaves the table
    /// unchanged, never in a mixed state.
    pub fn insert(&mut self, key: u64, value: T) -> (r: bool)
        ensures
            final(self).strategy() == old(self).strategy(),
            r == insert_accepted(old(self)@, key, old(self).overwrites()),
            final(self)@ == insert_spec(old(self)@, key, value, old(self).overwrites()),
    {
        match &mut self.0 {
            Repr::SeparateChaining(t) => t.insert(key, value),
            Repr::LinearProbing(t) => t.insert(key, value),
            Repr::QuadraticProbing(t) => t.insert(key, value),
            Repr::DoubleHashing(t) => t.insert(key, value),
            Repr::Std(m) => {
                m.insert(key, value);
                true
            },
        }
    }

    /// Borrow the value stored at `key`, without transferring ownership and
    /// without removing the entry; a never-inserted key is absent, not an
    /// error.
    pub fn find(&self, key: u64) -> (r: Option<&T>)
        ensures
            match r {
                Some(v) => find_spec(self@, key) == Some(*v),
                None => find_spec(self@, key) == None::<T>,
            },
    {
        match &self.0 {
            Repr::SeparateChaining(t) => t.get(key),
            Repr::LinearProbing(t) => t.get(key),
            Repr::QuadraticProbing(t) => t.get(key),
            Repr::DoubleHashing(t) => t.get(key),
            Repr::Std(m) => m.get(&key),
        }
    }

    /// Remove the entry at `key` if one is live, destroying the removed value
    /// exactly once; returns whether an entry was removed.
    pub fn delete(&mut self, key: u64) -> (r: bool)
        ensures
            final(self).strategy() == old(self).strategy(),
            r == old(self)@.dom().contains(key),
            final(self)@ == old(self)@.remove(key),
    {
        match &mut self.0 {
            Repr::SeparateChaining(t) => t.delete(key),
            Repr::LinearProbing(t) => t.delete(key),
            Repr::QuadraticProbing(t) => t.delete(key),
            Repr::DoubleHashing(t) => t.delete(key),
            Repr::Std(m) => m.remove(&key).is_some(),
        }
    }

    /// Remove and destroy every live entry; the handle remains usable for
    /// further inserts.
    pub fn clear(&mut self)
        ensures
            final(self).strategy() == old(self).strategy(),
            final(self)@ == Map::<u64, T>::empty(),
    {
        match &mut self.0 {
            Repr::SeparateChaining(t) => t.clear(),
            Repr::LinearProbing(t) => t.clear(),
            Repr::QuadraticProbing(t) => t.clear(),
            Repr::DoubleHashing(t) => t.clear(),
            Repr::Std(m) => m.clear(),
        }
    }

    /// The number of live entries.
    pub fn len(&self) -> (r: usize)
        ensures
            r == self@.len(),
    {
        match &self.0 {
            Repr::SeparateChaining(t) => t.len(),
            Repr::LinearProbing(t) => t.len(),
            Repr::QuadraticProbing(t) => t.len(),
            Repr::DoubleHashing(t) => t.len(),
            Repr::Std(m) => m.len(),
        }
    }

    /// Clear, then release the handle's backing storage: every still-live
    /// value's destructor runs exactly once, and a handle that is already
    /// empty is released safely with nothing to destroy.
    pub fn destroy(self) {
        match self.0 {
            Repr::SeparateChaining(mut t) => t.clear(),
            Repr::LinearProbing(mut t) => t.clear(),
            Repr::QuadraticProbing(mut t) => t.clear(),
            Repr::DoubleHashing(mut t) => t.clear(),
            Repr::Std(_) => (),
        }
    }
}

/// Round-trip law: an accepted insert of `value` at `key` makes a lookup of
/// `key` observe exactly `value`, until the entry is deleted or cleared.
pub proof fn lemma_round_trip<T>(m: Map<u64, T>, key: u64, value: T, overwrites: bool)
    requires
        insert_accepted(m, key, overwrites),
    ensures
        find_spec(insert_spec(m, key, value, overwrites), key) == Some(value),
{
}

/// Uniqueness law: two inserts at one key leave the lookup consistent with
/// the backend's duplicate policy — the second value under an overwriting
/// policy, the surviving first binding otherwise; never a mixed state.
pub proof fn lemma_duplicate_insert<T>(m: Map<u64, T>, key: u64, v1: T, v2: T, overwrites: bool)
    ensures
        find_spec(insert_spec(insert_spec(m, key, v1, overwrites), key, v2, overwrites), key) == (
        if overwrites {
            Some(v2)
        } else if m.dom().contains(key) {
            find_spec(m, key)
        } else {
            Some(v1)
        }),
{
}

/// Deletion completeness law: after a delete of `key`, a lookup of `key` is
/// absent, and every other key still observes its previous value.
pub proof fn lemma_delete_completeness<T>(m: Map<u64, T>, key: u64, other: u64)
    ensures
        find_spec(m.remove(key), key) == None::<T>,
        other != key ==> find_spec(m.remove(key), other) == find_spec(m, other),
{
}

/// Clear completeness law: after a clear, every key is absent and a
/// subsequent insert of any key is accepted under either duplicate policy.
pub proof fn lemma_clear_completeness<T>(key: u64, overwrites: bool)
    ensures
        find_spec(Map::<u64, T>::empty(), key) == None::<T>,
        insert_accepted(Map::<u64, T>::empty(), key, overwrites),
{
}

} // verus!
