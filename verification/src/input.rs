//! What reaches the simulation from outside: the state of the fire controls,
//! pointer events, and the two numbers that chance contributes to a tick.

use vstd::prelude::*;
use crate::config::{BOMB_DELAY_MAX, BOMB_DELAY_MIN, UNIT, WIDTH};
use crate::geom::Vector;

verus! {

/// The fire controls as they are held during one tick.
#[derive(Clone, Copy, Debug, PartialEq, Eq, Structural)]
pub struct Input {
    /// The fire key is down.
    pub key_down: bool,
    /// The fire button of the pointer is down.
    pub button_down: bool,
}

/// An event from the presentation layer.
#[derive(Clone, Copy, Debug, PartialEq, Eq, Structural)]
pub enum Event {
    /// The pointer has moved to the given place.
    MouseMoved(Vector),
    /// Anything else; the game takes no notice.
    Other,
}

/// What chance decides when a bomb is dropped: the number of ticks until the
/// next one, and the screen column, in whole pixels, of this one.
#[derive(Clone, Copy, Debug, PartialEq, Eq, Structural)]
pub struct SpawnDraw {
    pub delay: i32,
    pub column: i32,
}

impl Input {
    /// The player asks for a shot: either control is held.
    pub open spec fn spec_fire_held(self) -> bool {
        self.key_down || self.button_down
    }

    /// Tells whether the player asks for a shot.
    pub fn fire_held(self) -> (held: bool)
        ensures
            held == self.spec_fire_held(),
    {
        self.key_down || self.button_down
    }
}

impl SpawnDraw {
    /// The delay lies in the configured range and the column on the screen.
    pub open spec fn valid(self) -> bool {
        &&& BOMB_DELAY_MIN <= self.delay <= BOMB_DELAY_MAX
        &&& 0 <= self.column < WIDTH / UNIT
    }

    /// Tells whether the draw is one that the game accepts.
    pub fn is_valid(self) -> (ok: bool)
        ensures
            ok == self.valid(),
    {
        BOMB_DELAY_MIN <= self.delay && self.delay <= BOMB_DELAY_MAX && 0 <= self.column
            && self.column < WIDTH / UNIT
    }
}

} // verus!
