//! The stages a game goes through.
use vstd::prelude::*;

verus! {

/// The stage the game is in.
#[derive(Clone, Copy, Debug, PartialEq, Eq, Structural)]
pub enum GameState {
    /// Sprite sheets are being loaded.
    Loading,
    /// The world is being set up.
    GameInit,
    /// The game runs.
    InGame,
}

impl Default for GameState {
    /// A game starts by loading.
    fn default() -> (state: GameState)
        ensures
            state == GameState::Loading,
    {
        GameState::Loading
    }
}

} // verus!
