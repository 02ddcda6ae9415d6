//! What a player or an AI asks a unit to do.

use vstd::prelude::*;
use crate::components::{CastAbility, ChannelAbility, Coords};

verus! {

/// An intent: what to do, and the place in the world that it aims at.
#[derive(PartialEq, Eq, Structural, Clone, Copy, Debug)]
pub struct PlayerAction {
    pub action: Action,
    pub mouse_coords: Coords,
}

#[derive(PartialEq, Eq, Structural, Clone, Copy, Debug)]
pub enum Action {
    Move,
    Cast(CastAbility),
    Channel(ChannelAbility),
}

impl PlayerAction {
    pub fn new(action: Action, mouse_coords: Coords) -> (intent: Self)
        ensures
            intent == (PlayerAction { action, mouse_coords }),
    {
        Self { action, mouse_coords }
    }
}

} // verus!
