//! Pausing the run and taking it up again.

use vstd::prelude::*;

use crate::game::GameState;
use crate::player::{Action, ActionState};

verus! {

/// The state after the pause action: a running game pauses, a paused one
/// runs again, a finished one stays finished.
pub open spec fn toggled(state: GameState) -> GameState {
    match state {
        GameState::GameOver => GameState::GameOver,
        GameState::InGame => GameState::Pause,
        GameState::Pause => GameState::InGame,
    }
}

/// The state that follows `state` at a tick with the actions `input`: the
/// other of `InGame` and `Pause` when the pause action has just been
/// pressed, else the same.
pub fn pause(input: &ActionState, state: GameState) -> (next: GameState)
    ensures
        next == if input.just_pressed.has(Action::Pause) {
            toggled(state)
        } else {
            state
        },
{
    if input.just_pressed(Action::Pause) {
        match state {
            GameState::GameOver => GameState::GameOver,
            GameState::InGame => GameState::Pause,
            GameState::Pause => GameState::InGame,
        }
    } else {
        state
    }
}

/// Pausing twice gives the state back, and no pause leads out of `GameOver`.
pub proof fn lemma_pause_twice(state: GameState)
    ensures
        toggled(toggled(state)) == state,
        toggled(state) == GameState::GameOver <==> state == GameState::GameOver,
{
}

} // verus!
