//! Random draws from macroquad's generator (quad-rand's global state).

use vstd::prelude::*;

verus! {

/// Seeds the generator: `macroquad::rand::srand`. Nothing is stated of what
/// later draws give.
#[verifier::external_body]
pub(crate) fn seed_random(seed: u64) {
    macroquad::rand::srand(seed)
}

/// A random index: `macroquad::rand::gen_range::<usize>(low, high)`.
/// quad-rand scales a 32-bit draw `k` to `low + (high - low) * k / 2^32`
/// and truncates; for ranges that end at or below `2^20` this lies in
/// `[low, high)`. Which index comes out is not stated.
#[verifier::external_body]
pub(crate) fn random_index(low: usize, high: usize) -> (r: usize)
    requires
        low < high,
        high <= 0x10_0000,
    ensures
        low <= r < high,
{
    macroquad::rand::gen_range(low, high)
}

/// A random byte: `macroquad::rand::gen_range::<u8>(low, high)`.
/// quad-rand computes `low + (high - low) * k / 2^32` in `f64` from a 32-bit
/// draw `k` and truncates: for `low < high` this lies in `[low, high)`, and
/// for `low == high` it is `low`. Which byte comes out is not stated.
#[verifier::external_body]
pub(crate) fn random_byte(low: u8, high: u8) -> (r: u8)
    requires
        low <= high,
    ensures
        low < high ==> low <= r < high,
        low == high ==> r == low,
{
    macroquad::rand::gen_range(low, high)
}

} // verus!
