//! The game's loading phase: which scenes still wait for their asset, and
//! when play begins.

use vstd::prelude::*;

verus! {

#[derive(Clone, Copy, PartialEq, Eq, Structural, Debug, Hash)]
pub enum GameState {
    Loading,
    Playing,
}

impl Default for GameState {
    fn default() -> (r: Self)
        ensures
            r == GameState::Loading,
    {
        GameState::Loading
    }
}

/// The scenes whose asset has not been spawned yet.
#[derive(Clone, Copy, PartialEq, Eq, Structural, Debug)]
pub struct WaitForResource {
    pub world: bool,
    pub main_character: bool,
}

/// What one loading frame does: which scenes to spawn, what still waits,
/// and the state that follows.
#[derive(Clone, Copy, PartialEq, Eq, Structural, Debug)]
pub struct LoadingStep {
    pub spawn_world: bool,
    pub spawn_main_character: bool,
    pub waiting: WaitForResource,
    pub next_state: GameState,
}

impl WaitForResource {
    /// Both scenes wait, as when loading starts.
    pub fn new() -> (r: Self)
        ensures
            r.world && r.main_character,
    {
        WaitForResource { world: true, main_character: true }
    }

    /// One loading frame, given which assets have finished loading: every
    /// loaded scene is spawned and stops waiting, and play begins once
    /// nothing waits.
    pub fn step(self, world_loaded: bool, main_character_loaded: bool) -> (r: LoadingStep)
        ensures
            r.spawn_world == world_loaded,
            r.spawn_main_character == main_character_loaded,
            r.waiting.world == (self.world && !world_loaded),
            r.waiting.main_character == (self.main_character && !main_character_loaded),
            r.next_state == if r.waiting.world || r.waiting.main_character {
                GameState::Loading
            } else {
                GameState::Playing
            },
    {
        let waiting = WaitForResource {
            world: self.world && !world_loaded,
            main_character: self.main_character && !main_character_loaded,
        };
        let next_state = if waiting.world || waiting.main_character {
            GameState::Loading
        } else {
            GameState::Playing
        };
        LoadingStep {
            spawn_world: world_loaded,
            spawn_main_character: main_character_loaded,
            waiting,
            next_state,
        }
    }
}

} // verus!
