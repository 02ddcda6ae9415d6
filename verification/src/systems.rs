//! What is worked out for each unit at each tick: intents first, then movement, then ability
//! timers, then the decisions of AI-driven units.

pub mod abilities;
pub mod mob_ai;
pub mod movement;
pub mod player_action;
