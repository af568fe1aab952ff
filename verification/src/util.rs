//! Miscellaneous helpers: a small deterministic pseudo-random generator.

use vstd::prelude::*;

verus! {

/// One update of the XorShift64* state: three shift-xor steps followed by a
/// wrapping multiplication with the standard odd constant.
pub open spec fn spec_xorshift_step(x: u64) -> u64 {
    let a = x ^ (x >> 12);
    let b = a ^ (a << 25);
    let c = b ^ (b >> 27);
    c.wrapping_mul(0x2545f4914f6cdd1d)
}

/// The generator state after `k` updates from `seed`: the whole stream of
/// draws is a function of the seed alone.
pub open spec fn spec_rng_iter(seed: u64, k: nat) -> u64
    decreases k,
{
    if k == 0 {
        seed
    } else {
        spec_xorshift_step(spec_rng_iter(seed, (k - 1) as nat))
    }
}

/// XorShift64* pseudo-random number generator.
///
/// The quality of randomness does not matter much here: the generator only
/// scrambles pointer mazes, and any full-period sequence will do. Do not use
/// it where real randomness is needed. Seeding (for example from the
/// timestamp counter) is the caller's concern.
pub struct Xorshift64 {
    pub val: u64,
}

impl Xorshift64 {
    /// Create a new generator from an explicit seed.
    pub fn from_seed(seed: u64) -> (r: Self)
        ensures
            r.val == seed,
    {
        Self { val: seed }
    }

    /// Update the state of the generator and return the next value.
    pub fn next(&mut self) -> (r: u64)
        ensures
            r == spec_xorshift_step(old(self).val),
            final(self).val == r,
    {
        let mut next: u64 = self.val;
        next = next ^ (next >> 12);
        next = next ^ (next << 25);
        next = next ^ (next >> 27);
        next = next.wrapping_mul(0x2545f4914f6cdd1d);
        self.val = next;
        next
    }
}

} // verus!
