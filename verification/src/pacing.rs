//! The pauses between requests.

use rand::Rng;
use vstd::prelude::*;

verus! {

/// The shortest pause after a slot, in milliseconds.
pub const SHORTEST_PAUSE_MS: u64 = 300;

/// The longest pause after a slot, in milliseconds.
pub const LONGEST_PAUSE_MS: u64 = 600;

/// The further pause after a slot without a block, in milliseconds.
pub const MISSING_BLOCK_PAUSE_MS: u64 = 300;

/// Calls `random_range` of the generator that `rand::rng` returns.
///
/// Trusted: the number lies between the two bounds, both included. Which one it
/// is, is left to chance.
#[verifier::external_body]
fn random_between(low: u64, high: u64) -> (number: u64)
    requires
        low <= high,
    ensures
        low <= number <= high,
{
    rand::rng().random_range(low..=high)
}

/// A pause after a slot, in milliseconds, drawn anew each time.
pub fn jitter_ms() -> (pause: u64)
    ensures
        SHORTEST_PAUSE_MS <= pause <= LONGEST_PAUSE_MS,
        300 <= pause <= 600,
{
    random_between(SHORTEST_PAUSE_MS, LONGEST_PAUSE_MS)
}

} // verus!
