//! The source of chance.

use vstd::prelude::*;
use rand::Rng;
use crate::config::{BOMB_DELAY_MAX, BOMB_DELAY_MIN, UNIT, WIDTH};
use crate::input::SpawnDraw;

verus! {

/// Draws a number from the thread's random number generator with
/// `rand::Rng::gen_range`. Assumed, not proved: the number is at least `low`
/// and less than `high`, as the documentation of `gen_range` says. The call
/// panics unless `low < high`, so that is required.
#[verifier::external_body]
fn random_in_range(low: i32, high: i32) -> (n: i32)
    requires
        low < high,
    ensures
        low <= n < high,
{
    rand::thread_rng().gen_range(low, high)
}

impl SpawnDraw {
    /// Draws the delay and the column for the next bomb at random.
    pub fn random() -> (draw: SpawnDraw)
        ensures
            draw.valid(),
            draw.delay < BOMB_DELAY_MAX,
    {
        let delay: i32 = random_in_range(BOMB_DELAY_MIN, BOMB_DELAY_MAX);
        let column: i32 = random_in_range(0, WIDTH / UNIT);
        SpawnDraw { delay, column }
    }
}

} // verus!
