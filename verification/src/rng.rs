//! Deterministic xorshift64* generator for the bootstrap: seeded
//! explicitly so calibration runs are reproducible.

use vstd::prelude::*;

verus! {

/// The xorshift step applied to the state before each output.
pub open spec fn xorshift(x: u64) -> u64 {
    let a = x ^ (x >> 12u64);
    let b = a ^ (a << 25u64);
    b ^ (b >> 27u64)
}

pub open spec fn multiplier() -> u64 {
    0x2545F4914F6CDD1Du64
}

/// A xorshift64* generator, seeded explicitly.
pub struct XorShift64(u64);

impl XorShift64 {
    pub closed spec fn state(&self) -> u64 {
        self.0
    }

    /// A generator seeded with `seed` (a zero seed becomes 1: the all-zero
    /// state would never leave zero).
    pub fn new(seed: u64) -> (r: Self)
        ensures
            r.state() == if seed == 0 {
                1u64
            } else {
                seed
            },
    {
        XorShift64(if seed < 1 {
            1
        } else {
            seed
        })
    }

    /// The next output: the advanced state times the xorshift64* multiplier,
    /// modulo 2^64.
    pub fn next_u64(&mut self) -> (r: u64)
        ensures
            final(self).state() == xorshift(old(self).state()),
            r == xorshift(old(self).state()).wrapping_mul(multiplier()),
    {
        let mut x = self.0;
        x ^= x >> 12;
        x ^= x << 25;
        x ^= x >> 27;
        self.0 = x;
        x.wrapping_mul(0x2545F4914F6CDD1D)
    }

    /// A draw in `0..n`: the next output modulo `n`.
    pub fn index(&mut self, n: usize) -> (r: usize)
        requires
            n > 0,
        ensures
            final(self).state() == xorshift(old(self).state()),
            r < n,
            r as int == xorshift(old(self).state()).wrapping_mul(multiplier()) as int % n as int,
    {
        (self.next_u64() % n as u64) as usize
    }
}

} // verus!
