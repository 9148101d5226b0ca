//! A small deterministic pseudo-random source.
//!
//! Each ant's draw for a tick is derived from the engine seed, the tick
//! number and the ant's index alone, so a run replays exactly from its seed
//! and no ant's draw depends on any other ant.

use vstd::prelude::*;

verus! {

/// Addition on `u64` modulo `2^64`.
pub open spec fn wrap_add64(a: u64, b: u64) -> u64 {
    ((a + b) % 0x1_0000_0000_0000_0000) as u64
}

/// Multiplication on `u64` modulo `2^64`.
pub open spec fn wrap_mul64(a: u64, b: u64) -> u64 {
    ((a * b) % 0x1_0000_0000_0000_0000) as u64
}

/// A 64-bit finalizer-style mixer: bijective shuffling of the input bits.
pub open spec fn mix64(x: u64) -> u64 {
    let a = wrap_add64(x, 0x9E3779B97F4A7C15);
    let b = wrap_mul64(a ^ (a >> 30), 0xBF58476D1CE4E5B9);
    let c = wrap_mul64(b ^ (b >> 27), 0x94D049BB133111EB);
    c ^ (c >> 31)
}

/// The random draw ant `i` uses on tick `t` of a run seeded with `seed`.
pub open spec fn ant_rand(seed: u64, t: u64, i: u64) -> u64 {
    mix64(wrap_add64(mix64(wrap_add64(mix64(seed), t)), i))
}

/// Executable wrapping addition, computed through `u128`.
pub fn wrap_add64_exec(a: u64, b: u64) -> (r: u64)
    ensures
        r == wrap_add64(a, b),
{
    let s: u128 = a as u128 + b as u128;
    (s % 0x1_0000_0000_0000_0000u128) as u64
}

/// Executable wrapping multiplication, computed through `u128`.
pub fn wrap_mul64_exec(a: u64, b: u64) -> (r: u64)
    ensures
        r == wrap_mul64(a, b),
{
    proof {
        assert((a as int) * (b as int) < 0x1_0000_0000_0000_0000_0000_0000_0000_0000int)
            by (nonlinear_arith)
            requires
                a <= 0xFFFF_FFFF_FFFF_FFFFu64,
                b <= 0xFFFF_FFFF_FFFF_FFFFu64,
        ;
    }
    let p: u128 = a as u128 * b as u128;
    (p % 0x1_0000_0000_0000_0000u128) as u64
}

/// Executable bit mixer, equal to the `mix64` specification.
pub fn mix64_exec(x: u64) -> (r: u64)
    ensures
        r == mix64(x),
{
    let a = wrap_add64_exec(x, 0x9E3779B97F4A7C15);
    let b = wrap_mul64_exec(a ^ (a >> 30), 0xBF58476D1CE4E5B9);
    let c = wrap_mul64_exec(b ^ (b >> 27), 0x94D049BB133111EB);
    c ^ (c >> 31)
}

/// Executable per-ant draw, equal to the `ant_rand` specification.
pub fn ant_rand_exec(seed: u64, t: u64, i: u64) -> (r: u64)
    ensures
        r == ant_rand(seed, t, i),
{
    mix64_exec(wrap_add64_exec(mix64_exec(wrap_add64_exec(mix64_exec(seed), t)), i))
}

} // verus!
