//! Top-level game states and the transitions between them.

use vstd::prelude::*;
use crate::timer::Timer;

verus! {

#[derive(Clone, Copy, PartialEq, Eq, Structural, Debug, Hash)]
pub enum GameState {
    Splash,
    Pause,
    Game,
}

/// The state the splash countdown moves to once its timer fires.
///
/// Ticks the splash timer by `delta_ms`; on the tick that completes it,
/// the game leaves the splash screen.
pub fn countdown(timer: &mut Timer, delta_ms: u64) -> (r: Option<GameState>)
    requires
        old(timer).wf(),
        delta_ms <= crate::timer::MAX_TICK_MS,
    ensures
        *final(timer) == crate::timer::spec_tick(*old(timer), delta_ms as int),
        r == (if final(timer).just_finished {
            Some(GameState::Game)
        } else {
            None::<GameState>
        }),
{
    timer.tick(delta_ms);
    if timer.just_finished() {
        Some(GameState::Game)
    } else {
        None
    }
}

} // verus!
