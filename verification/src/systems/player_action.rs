//! Intents and the states that let them through.

use vstd::prelude::*;
use crate::components::{CharState, CharStateView, lemma_from_action};
use crate::events::{Action, PlayerAction};

verus! {

/// How near to the place a unit is bound for a new move must be to be held back, in world
/// units, where nothing else is chosen.
pub const MOVE_TOLERANCE: u32 = 50;

/// What became of an intent.
#[derive(PartialEq, Eq, Structural, Clone, Copy, Debug)]
pub enum Outcome {
    /// The unit took the state that the intent asks for.
    Applied,
    /// The state of the unit does not allow the intent, or the intent is one that only an AI
    /// gives: nothing changed.
    Dropped,
    /// The unit is already on its way to a place within the tolerance of the new one: the
    /// move is ignored and the unit keeps its route.
    Held,
}

/// Whether a move intent only repeats where the unit is going: the unit is on its way to a
/// place less than `tolerance` from the new one.
pub open spec fn repeats_move(state: CharStateView, intent: PlayerAction, tolerance: int) -> bool {
    intent.action is Move && state is Moving && state->Moving_0.spec_nearer_than(
        intent.mouse_coords,
        tolerance,
    )
}

/// Whether the state lets the intent through.
pub open spec fn gate_open(state: CharStateView, intent: PlayerAction) -> bool {
    match intent.action {
        Action::Move => state.can_move(),
        Action::Cast(_) => state.can_cast(),
        Action::Channel(_) => false,
    }
}

/// The state after one intent, and what became of the intent.
pub open spec fn spec_dispatch(state: CharStateView, intent: PlayerAction, tolerance: int) -> (
    CharStateView,
    Outcome,
) {
    if !gate_open(state, intent) {
        (state, Outcome::Dropped)
    } else if repeats_move(state, intent, tolerance) {
        (state, Outcome::Held)
    } else {
        (CharStateView::from_action(intent), Outcome::Applied)
    }
}

/// The state after the intents of one tick, each put to the state that the one before it left.
pub open spec fn spec_player_actions(
    state: CharStateView,
    intents: Seq<PlayerAction>,
    tolerance: int,
) -> CharStateView
    decreases intents.len(),
{
    if intents.len() == 0 {
        state
    } else {
        spec_player_actions(
            spec_dispatch(state, intents[0], tolerance).0,
            intents.drop_first(),
            tolerance,
        )
    }
}

/// Puts one intent to the state of a unit. A move is let through while the unit is idle or on
/// its way, a cast unless the unit is casting, a channel never. A move to within `tolerance` of
/// where the unit is already going is held back, so that a route is not sought again and again
/// while a command is held down.
pub fn dispatch(state: &mut CharState, intent: PlayerAction, tolerance: u32) -> (outcome: Outcome)
    ensures
        (final(state)@, outcome) == spec_dispatch(old(state)@, intent, tolerance as int),
{
    proof {
        lemma_from_action(intent);
    }
    match intent.action {
        Action::Move => {
            if state.can_move() {
                if let CharState::Moving(destination, _) = &*state {
                    if destination.nearer_than(intent.mouse_coords, tolerance as i64) {
                        return Outcome::Held;
                    }
                }
                *state = CharState::from(intent);
                Outcome::Applied
            } else {
                Outcome::Dropped
            }
        },
        Action::Cast(_) => {
            if state.can_cast() {
                *state = CharState::from(intent);
                Outcome::Applied
            } else {
                Outcome::Dropped
            }
        },
        Action::Channel(_) => Outcome::Dropped,
    }
}

/// Puts the intents of one tick to the state of a unit, in order. An intent that is dropped or
/// held back changes nothing, and the intents behind it are put to the state all the same.
pub fn player_action_system(state: &mut CharState, intents: &Vec<PlayerAction>, tolerance: u32)
    ensures
        final(state)@ == spec_player_actions(old(state)@, intents@, tolerance as int),
{
    let mut i: usize = 0;
    assert(intents@.skip(0) == intents@);
    while i < intents.len()
        invariant
            0 <= i <= intents.len(),
            spec_player_actions(old(state)@, intents@, tolerance as int) == spec_player_actions(
                state@,
                intents@.skip(i as int),
                tolerance as int,
            ),
        decreases intents.len() - i,
    {
        proof {
            assert(intents@.skip(i as int)[0] == intents@[i as int]);
            assert(intents@.skip(i as int).drop_first() == intents@.skip(i + 1));
        }
        dispatch(state, intents[i], tolerance);
        i = i + 1;
    }
}

/// An intent is applied exactly where the state lets it through: a move where the unit can
/// move, a cast where it can cast; and an intent that is not applied leaves the state as it
/// was. The one exception is left out: a move that only repeats where the unit is going.
pub proof fn lemma_state_gate(state: CharStateView, intent: PlayerAction, tolerance: int)
    requires
        !repeats_move(state, intent, tolerance),
    ensures
        intent.action is Move ==> (spec_dispatch(state, intent, tolerance).1 is Applied
            <==> state.can_move()),
        intent.action is Cast ==> (spec_dispatch(state, intent, tolerance).1 is Applied
            <==> state.can_cast()),
        spec_dispatch(state, intent, tolerance).1 is Applied ==> spec_dispatch(
            state,
            intent,
            tolerance,
        ).0 == CharStateView::from_action(intent),
        !(spec_dispatch(state, intent, tolerance).1 is Applied) ==> spec_dispatch(
            state,
            intent,
            tolerance,
        ).0 == state,
{
}

} // verus!
