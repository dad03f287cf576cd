//! The random draws that template rendering and data-set selection make,
//! each one call into the `rand` crate through its thread-local generator.
//! What the draws give depends on chance: each contract states what holds
//! of every outcome.
use vstd::prelude::*;
use rand::Rng;
use crate::text::is_alnum;

verus! {

/// `Rng::sample(Alphanumeric)` on the thread-local generator, as a `char`.
/// rand's source draws from `A-Z`, `a-z` and `0-9`.
#[verifier::external_body]
pub(crate) fn random_alnum_char() -> (c: char)
    ensures
        is_alnum(c),
{
    rand::thread_rng().sample(rand::distributions::Alphanumeric) as char
}

/// `Rng::gen_range(low..=high)` on `i64`: some value between both bounds.
/// The range is not empty (rand panics on an empty range).
#[verifier::external_body]
pub(crate) fn random_i64_between(low: i64, high: i64) -> (r: i64)
    requires
        low <= high,
    ensures
        low <= r <= high,
{
    rand::thread_rng().gen_range(low..=high)
}

/// `Rng::gen_range(0..n)` on `usize`: some index below `n` (`n > 0`, as
/// rand panics on an empty range).
#[verifier::external_body]
pub(crate) fn random_index(n: usize) -> (r: usize)
    requires
        n > 0,
    ensures
        r < n,
{
    rand::thread_rng().gen_range(0..n)
}

/// `Rng::fill` of sixteen bytes: any bytes at all.
#[verifier::external_body]
pub(crate) fn random_bytes16() -> (r: [u8; 16]) {
    let mut bytes = [0u8; 16];
    rand::thread_rng().fill(&mut bytes[..]);
    bytes
}

} // verus!
