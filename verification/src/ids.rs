//! Candidates for the ids of new records, drawn at random.

use vstd::prelude::*;

verus! {

/// The smallest candidate that is drawn.
pub const MIN_RANDOM_ID: u64 = 1;

/// The largest candidate that is drawn.
pub const MAX_RANDOM_ID: u64 = 100000;

/// Draws a number with `rand`'s thread-local generator: `gen_range` on the
/// inclusive range from `low` to `high`. The range must not be empty, on
/// which `gen_range` panics; the number drawn lies in it. Which number comes
/// is left open: two calls may differ.
#[verifier::external_body]
fn random_between(low: u64, high: u64) -> (r: u64)
    requires
        low <= high,
    ensures
        low <= r <= high,
{
    rand::Rng::gen_range(&mut rand::thread_rng(), low..=high)
}

/// Draws a candidate for the id of a new record. A candidate may collide with
/// an id that is in use: [`crate::records::unused_id`] settles that.
pub fn generate_random_id() -> (id: u64)
    ensures
        MIN_RANDOM_ID <= id <= MAX_RANDOM_ID,
{
    random_between(MIN_RANDOM_ID, MAX_RANDOM_ID)
}

} // verus!
