//! What a unit is made of: its place, its state, and the charges and timers of its abilities.

use vstd::prelude::*;
use std::collections::VecDeque;
use vstd::std_specs::convert::FromSpec;
use crate::events::{Action, PlayerAction};
use crate::hex::Tile;

verus! {

#[derive(PartialEq, Eq, Structural, Clone, Copy, Debug)]
pub enum CastAbility {
    Dash,
    Shoot,
    EyeMobZap,
}

#[derive(PartialEq, Eq, Structural, Clone, Copy, Debug)]
pub enum ChannelAbility {
    Laser,
    EyeMobTarget,
}

/// The uses of an ability that are left.
#[derive(PartialEq, Eq, Structural, Clone, Copy, Debug)]
pub struct Charges(pub i64);

/// The most uses that an ability can hold.
#[derive(PartialEq, Eq, Structural, Clone, Copy, Debug)]
pub struct MaxCharges(pub i64);

/// How long a cast takes, in time units.
#[derive(PartialEq, Eq, Structural, Clone, Copy, Debug)]
pub struct CastTime(pub u64);

#[derive(PartialEq, Eq, Structural, Clone, Copy, Debug)]
pub struct CastTimer(pub Timer);

/// How long a channel takes, in time units.
#[derive(PartialEq, Eq, Structural, Clone, Copy, Debug)]
pub struct ChannelTime(pub u64);

#[derive(PartialEq, Eq, Structural, Clone, Copy, Debug)]
pub struct ChannelTimer(pub Timer);

/// How long one charge takes to come back, in time units.
#[derive(PartialEq, Eq, Structural, Clone, Copy, Debug)]
pub struct Cooldown(pub u64);

#[derive(PartialEq, Eq, Structural, Clone, Copy, Debug)]
pub struct CooldownTimer(pub Timer);

/// The entity that draws the beam of a unit, by its number.
#[derive(PartialEq, Eq, Structural, Clone, Copy, Debug)]
pub struct LaserEntity(pub u64);

/// A point of the world, in whole world units.
#[derive(PartialEq, Eq, Structural, Clone, Copy, Debug)]
pub struct Coords {
    pub x: i32,
    pub y: i32,
    pub z: i32,
}

/// How far two coordinates are apart.
fn gap(a: i32, b: i32) -> (apart: u128)
    ensures
        apart == a - b || apart == b - a,
        0 <= apart <= 0xffff_ffff,
{
    if a >= b {
        (a as i64 - b as i64) as u128
    } else {
        (b as i64 - a as i64) as u128
    }
}

impl Coords {
    /// The square of the straight-line distance between two points.
    pub open spec fn spec_distance_squared(self, other: Coords) -> int {
        (self.x - other.x) * (self.x - other.x) + (self.y - other.y) * (self.y - other.y) + (self.z
            - other.z) * (self.z - other.z)
    }

    /// The two points are less than `reach` apart.
    pub open spec fn spec_nearer_than(self, other: Coords, reach: int) -> bool {
        reach > 0 && self.spec_distance_squared(other) < reach * reach
    }

    /// The two points are more than `reach` apart.
    pub open spec fn spec_farther_than(self, other: Coords, reach: int) -> bool {
        reach < 0 || self.spec_distance_squared(other) > reach * reach
    }

    pub fn distance_squared(self, other: Coords) -> (squared: u128)
        ensures
            squared == self.spec_distance_squared(other),
    {
        let dx: u128 = gap(self.x, other.x);
        let dy: u128 = gap(self.y, other.y);
        let dz: u128 = gap(self.z, other.z);
        assert(dx * dx == (self.x - other.x) * (self.x - other.x)) by (nonlinear_arith)
            requires
                dx == self.x - other.x || dx == other.x - self.x,
        ;
        assert(dy * dy == (self.y - other.y) * (self.y - other.y)) by (nonlinear_arith)
            requires
                dy == self.y - other.y || dy == other.y - self.y,
        ;
        assert(dz * dz == (self.z - other.z) * (self.z - other.z)) by (nonlinear_arith)
            requires
                dz == self.z - other.z || dz == other.z - self.z,
        ;
        assert(dx * dx <= 0xffff_ffff * 0xffff_ffff) by (nonlinear_arith)
            requires
                0 <= dx <= 0xffff_ffff,
        ;
        assert(dy * dy <= 0xffff_ffff * 0xffff_ffff) by (nonlinear_arith)
            requires
                0 <= dy <= 0xffff_ffff,
        ;
        assert(dz * dz <= 0xffff_ffff * 0xffff_ffff) by (nonlinear_arith)
            requires
                0 <= dz <= 0xffff_ffff,
        ;
        dx * dx + dy * dy + dz * dz
    }

    /// Whether the two points are less than `reach` apart. A reach of zero or less holds no
    /// point.
    pub fn nearer_than(self, other: Coords, reach: i64) -> (near: bool)
        ensures
            near == self.spec_nearer_than(other, reach as int),
    {
        if reach <= 0 {
            false
        } else {
            let r: u128 = reach as u128;
            assert(r * r <= 0x7fff_ffff_ffff_ffff * 0x7fff_ffff_ffff_ffff) by (nonlinear_arith)
                requires
                    0 <= r <= 0x7fff_ffff_ffff_ffff,
            ;
            self.distance_squared(other) < r * r
        }
    }

    /// Whether the two points are more than `reach` apart. Every two points are more than a
    /// negative reach apart.
    pub fn farther_than(self, other: Coords, reach: i64) -> (far: bool)
        ensures
            far == self.spec_farther_than(other, reach as int),
    {
        if reach < 0 {
            true
        } else {
            let r: u128 = reach as u128;
            assert(r * r <= 0x7fff_ffff_ffff_ffff * 0x7fff_ffff_ffff_ffff) by (nonlinear_arith)
                requires
                    0 <= r <= 0x7fff_ffff_ffff_ffff,
            ;
            self.distance_squared(other) > r * r
        }
    }
}

/// A timer in one of three states. It holds no duration of its own: the duration is handed to
/// it with each tick.
#[derive(PartialEq, Eq, Structural, Clone, Copy, Debug)]
pub enum Timer {
    /// Not counting: time passes it by.
    Stopped,
    /// Counting, with the time that has passed since it was started.
    Running(u64),
    /// Its duration has passed.
    Completed,
}

impl Timer {
    pub open spec fn spec_paused(&self) -> bool {
        self is Stopped
    }

    pub open spec fn spec_finished(&self) -> bool {
        self is Completed
    }

    /// A stopped timer starts to count from zero; any other stays as it is.
    pub open spec fn spec_unpause(self) -> Timer {
        match self {
            Timer::Stopped => Timer::Running(0),
            _ => self,
        }
    }

    /// A running timer after `delta` more time units: completed once `duration` has passed.
    /// A stopped or completed timer stays as it is.
    pub open spec fn spec_tick(self, delta: u64, duration: u64) -> Timer {
        match self {
            Timer::Running(elapsed) => if elapsed + delta >= duration {
                Timer::Completed
            } else {
                Timer::Running((elapsed + delta) as u64)
            },
            _ => self,
        }
    }

    /// The time that a repeating timer carries into its next round.
    pub open spec fn spec_carry(total: int, duration: u64) -> u64 {
        if duration == 0 {
            0
        } else {
            (total % (duration as int)) as u64
        }
    }

    /// A repeating timer after `delta` more time units, and whether it completed a round. On
    /// completion it goes on counting, with the time by which it overshot. A completed timer
    /// counts as one that has just begun a round. A stopped timer stays as it is.
    pub open spec fn spec_tick_repeating(self, delta: u64, duration: u64) -> (Timer, bool) {
        match self {
            Timer::Stopped => (self, false),
            Timer::Running(elapsed) => if elapsed + delta >= duration {
                (Timer::Running(Self::spec_carry(elapsed + delta, duration)), true)
            } else {
                (Timer::Running((elapsed + delta) as u64), false)
            },
            Timer::Completed => if delta >= duration {
                (Timer::Running(Self::spec_carry(delta as int, duration)), true)
            } else {
                (Timer::Running(delta), false)
            },
        }
    }

    #[verifier::when_used_as_spec(spec_paused)]
    pub fn paused(&self) -> (stopped: bool)
        ensures
            stopped == self.spec_paused(),
    {
        match self {
            Timer::Stopped => true,
            _ => false,
        }
    }

    #[verifier::when_used_as_spec(spec_finished)]
    pub fn finished(&self) -> (done: bool)
        ensures
            done == self.spec_finished(),
    {
        match self {
            Timer::Completed => true,
            _ => false,
        }
    }

    pub fn unpause(&mut self)
        ensures
            *final(self) == old(self).spec_unpause(),
    {
        if self.paused() {
            *self = Timer::Running(0);
        }
    }

    pub fn tick(&mut self, delta: u64, duration: u64)
        ensures
            *final(self) == old(self).spec_tick(delta, duration),
    {
        if let Timer::Running(elapsed) = *self {
            if elapsed >= duration || delta >= duration - elapsed {
                *self = Timer::Completed;
            } else {
                *self = Timer::Running(elapsed + delta);
            }
        }
    }

    pub fn tick_repeating(&mut self, delta: u64, duration: u64) -> (completed: bool)
        ensures
            (*final(self), completed) == old(self).spec_tick_repeating(delta, duration),
    {
        let elapsed: u64 = match *self {
            Timer::Stopped => {
                return false;
            },
            Timer::Running(elapsed) => elapsed,
            Timer::Completed => 0,
        };
        if elapsed >= duration || delta >= duration - elapsed {
            let carry: u64 = if duration == 0 {
                0
            } else {
                ((elapsed as u128 + delta as u128) % (duration as u128)) as u64
            };
            *self = Timer::Running(carry);
            true
        } else {
            *self = Timer::Running(elapsed + delta);
            false
        }
    }
}

/// What a unit is doing. Exactly one of the four holds at a time, and it decides what the unit
/// may do next.
#[derive(PartialEq, Eq, Debug)]
pub enum CharState {
    Casting((CastAbility, Coords)),
    /// On the way to a place: the place, and the tiles still to be entered once a route has
    /// been found.
    Moving(Coords, Option<VecDeque<Tile>>),
    Channeling((ChannelAbility, Coords)),
    Idle,
}

/// A state with the tiles of its route as a sequence.
pub enum CharStateView {
    Casting(CastAbility, Coords),
    Moving(Coords, Option<Seq<Tile>>),
    Channeling(ChannelAbility, Coords),
    Idle,
}

impl View for CharState {
    type V = CharStateView;

    open spec fn view(&self) -> CharStateView {
        match self {
            CharState::Casting((ability, target)) => CharStateView::Casting(*ability, *target),
            CharState::Moving(target, None) => CharStateView::Moving(*target, None),
            CharState::Moving(target, Some(path)) => CharStateView::Moving(*target, Some(path@)),
            CharState::Channeling((ability, target)) => CharStateView::Channeling(
                *ability,
                *target,
            ),
            CharState::Idle => CharStateView::Idle,
        }
    }
}

impl CharStateView {
    /// A unit may start a cast unless it is casting.
    pub open spec fn can_cast(self) -> bool {
        !(self is Casting)
    }

    /// A unit may be sent somewhere while it is idle or on its way.
    pub open spec fn can_move(self) -> bool {
        self is Idle || self is Moving
    }

    /// The state that an intent asks for.
    pub open spec fn from_action(action: PlayerAction) -> CharStateView {
        match action.action {
            Action::Move => CharStateView::Moving(action.mouse_coords, None),
            Action::Cast(ability) => CharStateView::Casting(ability, action.mouse_coords),
            Action::Channel(ability) => CharStateView::Channeling(ability, action.mouse_coords),
        }
    }
}

impl CharState {
    pub open spec fn spec_can_cast(&self) -> bool {
        self@.can_cast()
    }

    pub open spec fn spec_can_move(&self) -> bool {
        self@.can_move()
    }

    #[verifier::when_used_as_spec(spec_can_cast)]
    pub fn can_cast(&self) -> (allowed: bool)
        ensures
            allowed == self@.can_cast(),
    {
        match self {
            Self::Casting(_) => false,
            Self::Moving(..) => true,
            Self::Channeling(_) => true,
            Self::Idle => true,
        }
    }

    #[verifier::when_used_as_spec(spec_can_move)]
    pub fn can_move(&self) -> (allowed: bool)
        ensures
            allowed == self@.can_move(),
    {
        match self {
            Self::Casting(_) => false,
            Self::Moving(..) => true,
            Self::Channeling(_) => false,
            Self::Idle => true,
        }
    }
}

impl From<PlayerAction> for CharState {
    fn from(action: PlayerAction) -> (state: Self) {
        match action.action {
            Action::Move => CharState::Moving(action.mouse_coords, None),
            Action::Cast(ability) => CharState::Casting((ability, action.mouse_coords)),
            Action::Channel(ability) => CharState::Channeling((ability, action.mouse_coords)),
        }
    }
}

impl vstd::std_specs::convert::FromSpecImpl<PlayerAction> for CharState {
    open spec fn obeys_from_spec() -> bool {
        true
    }

    open spec fn from_spec(action: PlayerAction) -> Self {
        match action.action {
            Action::Move => CharState::Moving(action.mouse_coords, None),
            Action::Cast(ability) => CharState::Casting((ability, action.mouse_coords)),
            Action::Channel(ability) => CharState::Channeling((ability, action.mouse_coords)),
        }
    }
}

/// The state made from an intent is the state that the intent asks for.
pub proof fn lemma_from_action(action: PlayerAction)
    ensures
        <CharState as FromSpec<PlayerAction>>::from_spec(action)@ == CharStateView::from_action(
            action,
        ),
{
}

} // verus!
