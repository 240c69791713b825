//! Uniform draws from the Java-compatible pseudorandom generator.
//!
//! A draw is the numerator of a dyadic rational with denominator 2^53: the
//! exact value that `java.util.Random::nextDouble` would return, built from
//! the same two generator steps (the top 26 bits of one and the top 27 bits
//! of the next).
use vstd::prelude::*;

use jandom::Random;

verus! {

/// The denominator of every draw: 2^53.
pub const DRAW_DEN: u64 = 9_007_199_254_740_992;

#[verifier::external_type_specification]
#[verifier::external_body]
pub struct ExRandom(Random);

/// Relies on jandom::Random::new: a generator seeded as java.util.Random
/// seeds from the given value.
pub assume_specification [ Random::new ](seed: i64) -> Random;

/// Relies on jandom::Random::next_i32: one step of the java.util.Random
/// linear congruential generator, returning its top 32 bits.
pub assume_specification [ Random::next_i32 ](rng: &mut Random) -> i32;

/// Relies on jandom::Random::default: a generator seeded from the clock
/// and a process-wide uniquifier, as the parameterless java.util.Random
/// constructor does.
#[verifier::external_body]
pub fn new_rng() -> Random {
    Random::default()
}

/// One uniform draw: a numerator below 2^53, distributed as
/// java.util.Random::nextDouble times 2^53.
pub fn rand_draw(rng: &mut Random) -> (r: u64)
    ensures
        r < DRAW_DEN,
{
    let first: i32 = rng.next_i32();
    let second: i32 = rng.next_i32();
    let hi: u32 = (#[verifier::truncate] (first as u32)) >> 6u32;
    let lo: u32 = (#[verifier::truncate] (second as u32)) >> 5u32;
    proof {
        assert(forall|x: u32| (x >> 6u32) < 0x400_0000u32) by (bit_vector);
        assert(forall|x: u32| (x >> 5u32) < 0x800_0000u32) by (bit_vector);
    }
    (hi as u64) * 0x800_0000u64 + (lo as u64)
}

/// A whole run's worth of uniform draws, one per roll.
pub fn gen_draws(rng: &mut Random, rolls: usize) -> (r: Vec<u64>)
    ensures
        r@.len() == rolls,
        forall|i: int| 0 <= i < r@.len() ==> r@[i] < DRAW_DEN,
{
    let mut draws: Vec<u64> = Vec::new();
    let mut k: usize = 0;
    while k < rolls
        invariant
            k <= rolls,
            draws@.len() == k,
            forall|i: int| 0 <= i < draws@.len() ==> draws@[i] < DRAW_DEN,
        decreases rolls - k,
    {
        let d = rand_draw(rng);
        draws.push(d);
        k = k + 1;
    }
    draws
}

} // verus!
