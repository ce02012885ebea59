//! Identity hasher for memoized cache keys.
use vstd::prelude::*;

verus! {

/// Since the cache key is memoized, use an identity hasher to avoid double hashing: the hash
/// is the last `u64` written.
#[derive(Default)]
pub struct IdentityHasher(pub u64);

impl IdentityHasher {
    /// Records `n` as the hash.
    pub fn write_u64(&mut self, n: u64)
        ensures
            final(self).0 == n,
    {
        self.0 = n;
    }

    /// The hash: the last `u64` written, or 0.
    pub fn finish(&self) -> (r: u64)
        ensures
            r == self.0,
    {
        self.0
    }
}

} // verus!
