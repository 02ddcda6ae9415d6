//! Charges that come back with time, and the cast of the dash.

use vstd::prelude::*;
use crate::components::{CastAbility, CastTime, CastTimer, CharState, CharStateView, Charges,
    Cooldown, CooldownTimer, Coords, MaxCharges, Timer};

verus! {

/// The charges of an ability are in order when there are none below zero and none above the
/// most it can hold, and its cooldown timer is stopped exactly when it holds the most.
pub open spec fn charges_in_order(charges: Charges, max_charges: MaxCharges, timer: CooldownTimer) -> bool {
    &&& 0 <= charges.0 <= max_charges.0
    &&& timer.0 is Stopped <==> charges.0 == max_charges.0
}

/// The cooldown timer and the charges after `delta` time units. While a charge is missing the
/// timer counts; each time it completes, one charge comes back, and with the last one the timer
/// stops.
pub open spec fn spec_charges_cooldown(
    timer: CooldownTimer,
    cooldown: Cooldown,
    charges: Charges,
    max_charges: MaxCharges,
    delta: u64,
) -> (CooldownTimer, Charges) {
    if charges.0 < max_charges.0 {
        let (ticked, completed) = timer.0.spec_tick_repeating(delta, cooldown.0);
        if !completed {
            (CooldownTimer(ticked), charges)
        } else if charges.0 + 1 == max_charges.0 {
            (CooldownTimer(Timer::Stopped), Charges((charges.0 + 1) as i64))
        } else {
            (CooldownTimer(ticked), Charges((charges.0 + 1) as i64))
        }
    } else {
        (timer, charges)
    }
}

/// Lets `delta` time units pass for the charges of one ability.
pub fn charges_cooldown_system(
    delta: u64,
    timer: &mut CooldownTimer,
    cooldown: &Cooldown,
    charges: &mut Charges,
    max_charges: &MaxCharges,
)
    ensures
        (*final(timer), *final(charges)) == spec_charges_cooldown(
            *old(timer),
            *cooldown,
            *old(charges),
            *max_charges,
            delta,
        ),
        charges_in_order(*old(charges), *max_charges, *old(timer)) ==> charges_in_order(
            *final(charges),
            *max_charges,
            *final(timer),
        ),
{
    if charges.0 < max_charges.0 {
        let completed = timer.0.tick_repeating(delta, cooldown.0);
        if completed {
            charges.0 = charges.0 + 1;
            if charges.0 == max_charges.0 {
                timer.0 = Timer::Stopped;
            }
        }
    }
}

/// How far a dash carries, in world units, where nothing else is chosen.
pub const DASH_RANGE: u32 = 400;

/// Where a dash takes the unit.
#[derive(PartialEq, Eq, Structural, Clone, Copy, Debug)]
pub enum Leap {
    /// Onto the target, which is within range.
    Reach(Coords),
    /// The given distance toward the target, which lies elsewhere and out of range.
    Lunge(Coords, u32),
}

/// What the dash of a unit consists of, beside where the unit is.
pub struct DashView {
    pub state: CharStateView,
    pub charges: Charges,
    pub cooldown_timer: CooldownTimer,
    pub cast_timer: CastTimer,
}

/// Where a dash from `position` at `target` leads. A dash at the place where the unit is leads
/// nowhere else.
pub open spec fn spec_leap(position: Coords, target: Coords, dash_range: u32) -> Leap {
    if position == target || position.spec_nearer_than(target, dash_range as int) {
        Leap::Reach(target)
    } else {
        Leap::Lunge(target, dash_range)
    }
}

/// One tick of the dash. It concerns a unit that is casting the dash, and no other.
/// Without a charge the unit walks to the target instead. With the cast timer stopped the cast
/// begins: a charge is spent, the cast timer starts, and so does a stopped cooldown timer.
/// With the cast timer completed the unit leaps, the cast timer stops for the next cast, and
/// the unit walks on to the target. Otherwise the cast timer counts.
pub open spec fn spec_dash(
    before: DashView,
    cast_time: CastTime,
    position: Coords,
    delta: u64,
    dash_range: u32,
) -> (DashView, Option<Leap>) {
    match before.state {
        CharStateView::Casting(CastAbility::Dash, target) => {
            if before.charges.0 == 0 {
                (DashView { state: CharStateView::Moving(target, None), ..before }, None)
            } else if before.cast_timer.0 is Stopped && before.charges.0 > 0 {
                (
                    DashView {
                        state: before.state,
                        charges: Charges((before.charges.0 - 1) as i64),
                        cooldown_timer: CooldownTimer(before.cooldown_timer.0.spec_unpause()),
                        cast_timer: CastTimer(Timer::Running(0)),
                    },
                    None,
                )
            } else if before.cast_timer.0 is Completed {
                (
                    DashView {
                        state: CharStateView::Moving(target, None),
                        cast_timer: CastTimer(Timer::Stopped),
                        ..before
                    },
                    Some(spec_leap(position, target, dash_range)),
                )
            } else {
                (
                    DashView {
                        cast_timer: CastTimer(before.cast_timer.0.spec_tick(delta, cast_time.0)),
                        ..before
                    },
                    None,
                )
            }
        },
        _ => (before, None),
    }
}

/// Where a dash from `position` at `target` leads: onto the target where it is less than
/// `dash_range` away, else `dash_range` toward it.
pub fn leap(position: Coords, target: Coords, dash_range: u32) -> (to: Leap)
    ensures
        to == spec_leap(position, target, dash_range),
{
    if (position.x == target.x && position.y == target.y && position.z == target.z)
        || position.nearer_than(target, dash_range as i64) {
        Leap::Reach(target)
    } else {
        Leap::Lunge(target, dash_range)
    }
}

/// One tick of the dash of the unit at `position`. Returns where the unit leaps in this tick,
/// if it does.
pub fn dash(
    state: &mut CharState,
    charges: &mut Charges,
    cooldown_timer: &mut CooldownTimer,
    cast_timer: &mut CastTimer,
    cast_time: &CastTime,
    position: Coords,
    delta: u64,
    dash_range: u32,
) -> (leapt: Option<Leap>)
    ensures
        (
            DashView {
                state: final(state)@,
                charges: *final(charges),
                cooldown_timer: *final(cooldown_timer),
                cast_timer: *final(cast_timer),
            },
            leapt,
        ) == spec_dash(
            DashView {
                state: old(state)@,
                charges: *old(charges),
                cooldown_timer: *old(cooldown_timer),
                cast_timer: *old(cast_timer),
            },
            *cast_time,
            position,
            delta,
            dash_range,
        ),
{
    let target: Coords = match &*state {
        CharState::Casting((CastAbility::Dash, target)) => *target,
        _ => {
            return None;
        },
    };
    if charges.0 == 0 {
        *state = CharState::Moving(target, None);
        None
    } else if cast_timer.0.paused() && charges.0 > 0 {
        charges.0 = charges.0 - 1;
        cast_timer.0.unpause();
        if cooldown_timer.0.paused() {
            cooldown_timer.0.unpause();
        }
        None
    } else if cast_timer.0.finished() {
        cast_timer.0 = Timer::Stopped;
        *state = CharState::Moving(target, None);
        Some(leap(position, target, dash_range))
    } else {
        cast_timer.0.tick(delta, cast_time.0);
        None
    }
}

/// One thing that happens to the dash of a unit.
pub enum AbilityStep {
    /// The given time passes for its charges.
    Cooldown(u64),
    /// The dash is ticked while the unit, at the given place, is in the given state, for the
    /// given time.
    Dash(CharStateView, Coords, u64),
}

/// The dash after one step.
pub open spec fn spec_ability_step(
    before: DashView,
    step: AbilityStep,
    cooldown: Cooldown,
    max_charges: MaxCharges,
    cast_time: CastTime,
    dash_range: u32,
) -> DashView {
    match step {
        AbilityStep::Cooldown(delta) => {
            let (cooldown_timer, charges) = spec_charges_cooldown(
                before.cooldown_timer,
                cooldown,
                before.charges,
                max_charges,
                delta,
            );
            DashView { cooldown_timer, charges, ..before }
        },
        AbilityStep::Dash(state, position, delta) => spec_dash(
            DashView { state, ..before },
            cast_time,
            position,
            delta,
            dash_range,
        ).0,
    }
}

/// The dash after the given steps, in their order.
pub open spec fn spec_ability_steps(
    before: DashView,
    steps: Seq<AbilityStep>,
    cooldown: Cooldown,
    max_charges: MaxCharges,
    cast_time: CastTime,
    dash_range: u32,
) -> DashView
    decreases steps.len(),
{
    if steps.len() == 0 {
        before
    } else {
        spec_ability_steps(
            spec_ability_step(before, steps[0], cooldown, max_charges, cast_time, dash_range),
            steps.drop_first(),
            cooldown,
            max_charges,
            cast_time,
            dash_range,
        )
    }
}

/// Whatever happens to a dash and in whatever order, time passing or the dash being ticked in
/// whatever state its unit is in, its charges stay in order: there are never fewer than none
/// nor more than the ability can hold, and the cooldown timer is stopped exactly while it holds
/// the most.
pub proof fn lemma_charges_stay_in_order(
    before: DashView,
    steps: Seq<AbilityStep>,
    cooldown: Cooldown,
    max_charges: MaxCharges,
    cast_time: CastTime,
    dash_range: u32,
)
    requires
        charges_in_order(before.charges, max_charges, before.cooldown_timer),
    ensures
        charges_in_order(
            spec_ability_steps(before, steps, cooldown, max_charges, cast_time, dash_range).charges,
            max_charges,
            spec_ability_steps(
                before,
                steps,
                cooldown,
                max_charges,
                cast_time,
                dash_range,
            ).cooldown_timer,
        ),
    decreases steps.len(),
{
    if steps.len() > 0 {
        lemma_charges_stay_in_order(
            spec_ability_step(before, steps[0], cooldown, max_charges, cast_time, dash_range),
            steps.drop_first(),
            cooldown,
            max_charges,
            cast_time,
            dash_range,
        );
    }
}

} // verus!
