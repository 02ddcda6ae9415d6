//! What a unit and an ability start out with.

use vstd::prelude::*;
use crate::components::{CastAbility, CastTime, CastTimer, ChannelTime, ChannelTimer, CharState,
    CharStateView, Charges, Cooldown, CooldownTimer, LaserEntity, MaxCharges, Timer};
use crate::systems::abilities::charges_in_order;
use crate::systems::mob_ai::{one_timer_at_a_time, MobView};

verus! {

/// The dash of a unit: its charges, and the timers of its cooldown and of its cast.
pub struct DashBundle {
    pub ability_class: CastAbility,
    pub cooldown: Cooldown,
    pub cooldown_timer: CooldownTimer,
    pub charges: Charges,
    pub max_charges: MaxCharges,
    pub cast_time: CastTime,
    pub cast_timer: CastTimer,
}

impl DashBundle {
    /// A dash with all its charges, of which none is being cast and none is coming back.
    pub fn new(cooldown: Cooldown, max_charges: MaxCharges, cast_time: CastTime) -> (dash: Self)
        ensures
            dash.ability_class == CastAbility::Dash,
            dash.cooldown == cooldown,
            dash.max_charges == max_charges,
            dash.cast_time == cast_time,
            dash.charges == Charges(max_charges.0),
            dash.cooldown_timer == CooldownTimer(Timer::Stopped),
            dash.cast_timer == CastTimer(Timer::Stopped),
            max_charges.0 >= 0 ==> charges_in_order(
                dash.charges,
                dash.max_charges,
                dash.cooldown_timer,
            ),
    {
        DashBundle {
            ability_class: CastAbility::Dash,
            cooldown,
            cooldown_timer: CooldownTimer(Timer::Stopped),
            charges: Charges(max_charges.0),
            max_charges,
            cast_time,
            cast_timer: CastTimer(Timer::Stopped),
        }
    }
}

/// An eye mob: its state, the entity that draws its beam, and the timers of its aim and of
/// its fire.
pub struct MobBundle {
    pub mob_state: CharState,
    pub laser_entity: LaserEntity,
    pub cast_time: CastTime,
    pub cast_timer: CastTimer,
    pub channel_time: ChannelTime,
    pub channel_timer: ChannelTimer,
}

impl MobBundle {
    /// An idle eye mob, neither of whose timers counts.
    pub fn new(laser_entity: LaserEntity, channel_time: ChannelTime, cast_time: CastTime) -> (mob:
        Self)
        ensures
            mob.mob_state@ == CharStateView::Idle,
            mob.laser_entity == laser_entity,
            mob.channel_time == channel_time,
            mob.cast_time == cast_time,
            mob.channel_timer == ChannelTimer(Timer::Stopped),
            mob.cast_timer == CastTimer(Timer::Stopped),
            one_timer_at_a_time(
                MobView {
                    state: mob.mob_state@,
                    channel_timer: mob.channel_timer,
                    cast_timer: mob.cast_timer,
                },
            ),
    {
        MobBundle {
            mob_state: CharState::Idle,
            laser_entity,
            cast_time,
            cast_timer: CastTimer(Timer::Stopped),
            channel_time,
            channel_timer: ChannelTimer(Timer::Stopped),
        }
    }
}

} // verus!
