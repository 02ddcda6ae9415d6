//! The decisions of the eye mob: close in, take aim, fire, and again.

use vstd::prelude::*;
use crate::components::{CastAbility, CastTime, CastTimer, ChannelAbility, ChannelTime,
    ChannelTimer, CharState, CharStateView, Coords, LaserEntity, Timer};

verus! {

/// What the beam of a unit is to show.
#[derive(PartialEq, Eq, Structural, Clone, Copy, Debug)]
pub enum LaserEvent {
    /// The beam of the entity is on, from the first place to the second.
    On(LaserEntity, Coords, Coords),
    /// The beam of the entity is off.
    Off(LaserEntity),
}

/// The distances that rule how an eye mob engages its target, in world units.
#[derive(PartialEq, Eq, Structural, Clone, Copy, Debug)]
pub struct Engagement {
    /// How far the mob can aim and fire.
    pub range: u32,
    /// How much nearer than its range the mob comes before it takes aim.
    pub buffer: u32,
    /// How far the mob may be from the place it is bound for before it is sent after its
    /// target anew.
    pub drift: u32,
}

impl Engagement {
    /// The distances of the eye mob where nothing else is chosen.
    pub fn eye_mob() -> (engagement: Self)
        ensures
            engagement == (Engagement { range: 800, buffer: 250, drift: 100 }),
    {
        Engagement { range: 800, buffer: 250, drift: 100 }
    }
}

/// What the engagement of an eye mob consists of, beside where it and its target are.
pub struct MobView {
    pub state: CharStateView,
    pub channel_timer: ChannelTimer,
    pub cast_timer: CastTimer,
}

/// At most one of the two timers of a mob counts: the cast timer only while the mob fires,
/// and the channel timer never while it does.
pub open spec fn one_timer_at_a_time(mob: MobView) -> bool {
    if mob.state is Casting {
        !(mob.channel_timer.0 is Running)
    } else {
        !(mob.cast_timer.0 is Running)
    }
}

/// The state of a mob that goes after its target.
pub open spec fn pursuing(player: Coords) -> CharStateView {
    CharStateView::Moving(player, None)
}

/// The state of a mob that takes aim at its target.
pub open spec fn aiming(player: Coords) -> CharStateView {
    CharStateView::Channeling(ChannelAbility::EyeMobTarget, player)
}

/// The state of a mob that fires at its target.
pub open spec fn firing(player: Coords) -> CharStateView {
    CharStateView::Casting(CastAbility::EyeMobZap, player)
}

/// One tick of an eye mob at `mob` whose target is at `player`.
///
/// An idle mob goes after its target. A mob on its way takes aim once it is nearer to the
/// target than its range less its buffer; else, where it is farther than its drift from the
/// place it is bound for, it goes after the target anew. A mob that takes aim goes after the
/// target once the target is out of range, with its beam off; else its channel timer counts,
/// its beam is on, and with the timer completed it fires. A mob that fires lets its cast timer
/// count; with the timer completed it takes aim again, or, with the target out of range, goes
/// after it with its beam off.
pub open spec fn spec_eye_mob(
    before: MobView,
    mob: Coords,
    player: Coords,
    channel_time: ChannelTime,
    cast_time: CastTime,
    laser_entity: LaserEntity,
    delta: u64,
    engagement: Engagement,
) -> (MobView, Option<LaserEvent>) {
    match before.state {
        CharStateView::Moving(destination, _) => {
            if mob.spec_nearer_than(player, engagement.range - engagement.buffer) {
                (
                    MobView {
                        state: aiming(player),
                        channel_timer: ChannelTimer(Timer::Running(0)),
                        ..before
                    },
                    None,
                )
            } else if destination.spec_farther_than(mob, engagement.drift as int) {
                (MobView { state: pursuing(player), ..before }, None)
            } else {
                (before, None)
            }
        },
        CharStateView::Casting(_, _) => {
            let ticked = before.cast_timer.0.spec_tick(delta, cast_time.0);
            if !(ticked is Completed) {
                (MobView { cast_timer: CastTimer(ticked), ..before }, None)
            } else if mob.spec_farther_than(player, engagement.range as int) {
                (
                    MobView { state: pursuing(player), cast_timer: CastTimer(ticked), ..before },
                    Some(LaserEvent::Off(laser_entity)),
                )
            } else {
                (
                    MobView {
                        state: aiming(player),
                        channel_timer: ChannelTimer(Timer::Running(0)),
                        cast_timer: CastTimer(ticked),
                    },
                    None,
                )
            }
        },
        CharStateView::Channeling(_, _) => {
            if mob.spec_farther_than(player, engagement.range as int) {
                (MobView { state: pursuing(player), ..before }, Some(LaserEvent::Off(laser_entity)))
            } else {
                let ticked = before.channel_timer.0.spec_tick(delta, channel_time.0);
                let beam = Some(LaserEvent::On(laser_entity, mob, player));
                if ticked is Completed {
                    (
                        MobView {
                            state: firing(player),
                            channel_timer: ChannelTimer(ticked),
                            cast_timer: CastTimer(Timer::Running(0)),
                        },
                        beam,
                    )
                } else {
                    (MobView { channel_timer: ChannelTimer(ticked), ..before }, beam)
                }
            }
        },
        CharStateView::Idle => (MobView { state: pursuing(player), ..before }, None),
    }
}

/// One tick of the eye mob at `mob_coords` whose target is at `player_coords`. Returns what
/// its beam is to show, where that changes or the beam is on.
pub fn eye_mob_ai_system(
    mob_coords: Coords,
    player_coords: Coords,
    mob_state: &mut CharState,
    channel_time: &ChannelTime,
    channel_timer: &mut ChannelTimer,
    cast_time: &CastTime,
    cast_timer: &mut CastTimer,
    laser_entity: LaserEntity,
    delta: u64,
    engagement: Engagement,
) -> (beam: Option<LaserEvent>)
    ensures
        (
            MobView {
                state: final(mob_state)@,
                channel_timer: *final(channel_timer),
                cast_timer: *final(cast_timer),
            },
            beam,
        ) == spec_eye_mob(
            MobView {
                state: old(mob_state)@,
                channel_timer: *old(channel_timer),
                cast_timer: *old(cast_timer),
            },
            mob_coords,
            player_coords,
            *channel_time,
            *cast_time,
            laser_entity,
            delta,
            engagement,
        ),
{
    match &*mob_state {
        CharState::Moving(destination, _) => {
            if mob_coords.nearer_than(
                player_coords,
                engagement.range as i64 - engagement.buffer as i64,
            ) {
                channel_timer.0 = Timer::Running(0);
                *mob_state =
                CharState::Channeling((ChannelAbility::EyeMobTarget, player_coords));
            } else if destination.farther_than(mob_coords, engagement.drift as i64) {
                *mob_state = CharState::Moving(player_coords, None);
            }
            None
        },
        CharState::Casting(_) => {
            cast_timer.0.tick(delta, cast_time.0);
            if cast_timer.0.finished() {
                if mob_coords.farther_than(player_coords, engagement.range as i64) {
                    *mob_state = CharState::Moving(player_coords, None);
                    Some(LaserEvent::Off(laser_entity))
                } else {
                    channel_timer.0 = Timer::Running(0);
                    *mob_state =
                    CharState::Channeling((ChannelAbility::EyeMobTarget, player_coords));
                    None
                }
            } else {
                None
            }
        },
        CharState::Channeling(_) => {
            if mob_coords.farther_than(player_coords, engagement.range as i64) {
                *mob_state = CharState::Moving(player_coords, None);
                Some(LaserEvent::Off(laser_entity))
            } else {
                channel_timer.0.tick(delta, channel_time.0);
                if channel_timer.0.finished() {
                    cast_timer.0 = Timer::Running(0);
                    *mob_state = CharState::Casting((CastAbility::EyeMobZap, player_coords));
                }
                Some(LaserEvent::On(laser_entity, mob_coords, player_coords))
            }
        },
        CharState::Idle => {
            *mob_state = CharState::Moving(player_coords, None);
            None
        },
    }
}

/// No tick of an eye mob sets both of its timers counting.
pub proof fn lemma_one_timer_at_a_time(
    before: MobView,
    mob: Coords,
    player: Coords,
    channel_time: ChannelTime,
    cast_time: CastTime,
    laser_entity: LaserEntity,
    delta: u64,
    engagement: Engagement,
)
    requires
        one_timer_at_a_time(before),
    ensures
        one_timer_at_a_time(
            spec_eye_mob(
                before,
                mob,
                player,
                channel_time,
                cast_time,
                laser_entity,
                delta,
                engagement,
            ).0,
        ),
{
}

} // verus!
