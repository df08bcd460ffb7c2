use vstd::prelude::*;

verus! {

/// What the primary hash function returns: a mix of the seed into the key,
/// a pure function of both for the whole run.
pub open spec fn primary_hash(seed: u64, key: u64) -> u64 {
    (key ^ seed) ^ ((key ^ seed) >> 31)
}

/// What the secondary step function returns: derived deterministically from
/// the primary hash, and never zero (a zero step would make an open-addressing
/// probe loop forever).
pub open spec fn secondary_hash(seed: u64, key: u64) -> u64 {
    ((primary_hash(seed, key) << 2) + 1) as u64
}

/// A primary hash function and, for double hashing, the secondary step
/// function derived from it. The seed is explicit configuration, fixed once
/// when a table is constructed, so both functions are pure for the lifetime
/// of the table that registered them.
pub struct HasherPair {
    seed: u64,
}

impl HasherPair {
    pub closed spec fn seed(&self) -> u64 {
        self.seed
    }

    pub fn new(seed: u64) -> (r: Self)
        ensures
            r.seed() == seed,
    {
        HasherPair { seed }
    }

    /// The primary hash of a key under this pair's seed.
    pub fn primary(&self, key: u64) -> (r: u64)
        ensures
            r == primary_hash(self.seed(), key),
    {
        let x = key ^ self.seed;
        x ^ (x >> 31)
    }

    /// The secondary probe step of a key: derived from the primary hash and
    /// provably never zero.
    pub fn secondary(&self, key: u64) -> (r: u64)
        ensures
            r == secondary_hash(self.seed(), key),
            r != 0,
    {
        let h = self.primary(key);
        let s = h << 2u64;
        proof {
            assert(h << 2u64 != 0xFFFF_FFFF_FFFF_FFFFu64) by (bit_vector);
        }
        s + 1
    }
}

} // verus!
