//! State that the whole game shares: where the cursor points and how much
//! health the player has left.
use crate::constants::PLAYER_HEALTH;
use crate::vector::Vec2;
use vstd::prelude::*;

verus! {

/// The point of the world under the cursor, or `None` while the cursor is
/// outside the view.
#[derive(Clone, Copy, Debug, PartialEq, Eq, Structural)]
pub struct CursorPos(pub Option<Vec2>);

/// The player's health.
#[derive(Clone, Copy, Debug, PartialEq, Eq, Structural)]
pub struct PlayerHealth {
    pub value: i64,
}

impl CursorPos {
    /// The point to aim at from `fallback`: the cursor's, or `fallback` itself
    /// while there is no cursor.
    pub open spec fn target_from(self, fallback: Vec2) -> Vec2 {
        match self.0 {
            Some(point) => point,
            None => fallback,
        }
    }

    /// The point to aim at from `fallback`.
    pub fn target(&self, fallback: Vec2) -> (point: Vec2)
        ensures
            point == self.target_from(fallback),
    {
        match self.0 {
            Some(point) => point,
            None => fallback,
        }
    }
}

impl PlayerHealth {
    /// Full health, as at the start of a game.
    pub fn new() -> (health: PlayerHealth)
        ensures
            health.value == PLAYER_HEALTH,
    {
        PlayerHealth { value: PLAYER_HEALTH }
    }
}

} // verus!
