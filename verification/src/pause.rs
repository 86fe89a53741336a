//! The pause toggle: pressing pause in game pauses, pressing it again
//! resumes, and the splash screen ignores it.

use vstd::prelude::*;
use crate::states::GameState;

verus! {

/// The state to switch to when the pause key is pressed in `current`,
/// or `None` when the press changes nothing.
pub fn pause(current: GameState) -> (r: Option<GameState>)
    ensures
        current is Game ==> r == Some(GameState::Pause),
        current is Pause ==> r == Some(GameState::Game),
        current is Splash ==> r is None,
{
    match current {
        GameState::Game => Some(GameState::Pause),
        GameState::Pause => Some(GameState::Game),
        GameState::Splash => None,
    }
}

} // verus!
