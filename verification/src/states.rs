//! The phases the program moves through, from loading assets to play.

use vstd::prelude::*;

verus! {

/// One phase of the program. Systems are registered against a phase and run
/// only while it is the current one.
#[derive(Debug, Clone, Copy, PartialEq, Eq, Hash, Structural)]
pub enum AppState {
    AssetLoad,
    MainMenu,
    NewGame,
    LoadGame,
    GameLoad,
    InGame,
    Save,
}

/// The phase that follows `current` once the world has been set up:
/// play starts out of `GameLoad`, and out of nothing else.
pub open spec fn entered_from(current: AppState) -> Option<AppState> {
    if current == AppState::GameLoad {
        Some(AppState::InGame)
    } else {
        None
    }
}

/// Decides the change of phase at the end of world set-up. `Some` holds the
/// phase to switch to; `None` leaves the current phase in place.
pub fn enter_game(current: AppState) -> (next: Option<AppState>)
    ensures
        next == entered_from(current),
{
    if current == AppState::GameLoad {
        Some(AppState::InGame)
    } else {
        None
    }
}

} // verus!
