use hex_arena::components::{CastAbility, ChannelAbility, CharState, Coords, Timer};
use hex_arena::events::{Action, PlayerAction};
use std::collections::VecDeque;

fn at(x: i32, y: i32, z: i32) -> Coords {
    Coords { x, y, z }
}

#[test]
fn distance_squared_is_exact() {
    assert_eq!(at(0, 0, 0).distance_squared(at(3, 4, 0)), 25);
    assert_eq!(at(3, 4, 0).distance_squared(at(0, 0, 0)), 25);
    assert_eq!(at(1, 2, 3).distance_squared(at(1, 2, 3)), 0);
    assert_eq!(at(-1, -2, -3).distance_squared(at(1, 2, 3)), 4 + 16 + 36);
}

#[test]
fn distance_squared_at_the_ends_of_the_range() {
    let low = at(i32::MIN, i32::MIN, i32::MIN);
    let high = at(i32::MAX, i32::MAX, i32::MAX);
    let side: u128 = 4294967295;
    assert_eq!(low.distance_squared(high), 3 * side * side);
}

#[test]
fn nearer_than_is_strict() {
    let origin = at(0, 0, 0);
    assert!(origin.nearer_than(at(30, 40, 0), 51));
    assert!(!origin.nearer_than(at(30, 40, 0), 50));
    assert!(!origin.nearer_than(at(30, 40, 0), 49));
    assert!(origin.nearer_than(origin, 1));
    assert!(!origin.nearer_than(origin, 0));
    assert!(!origin.nearer_than(origin, -5));
}

#[test]
fn farther_than_is_strict() {
    let origin = at(0, 0, 0);
    assert!(origin.farther_than(at(30, 40, 0), 49));
    assert!(!origin.farther_than(at(30, 40, 0), 50));
    assert!(!origin.farther_than(at(30, 40, 0), 51));
    assert!(!origin.farther_than(origin, 0));
    assert!(origin.farther_than(origin, -1));
}

#[test]
fn timer_states() {
    assert!(Timer::Stopped.paused());
    assert!(!Timer::Running(0).paused());
    assert!(!Timer::Completed.paused());
    assert!(Timer::Completed.finished());
    assert!(!Timer::Running(7).finished());
    assert!(!Timer::Stopped.finished());
}

#[test]
fn unpause_starts_a_stopped_timer_only() {
    let mut timer = Timer::Stopped;
    timer.unpause();
    assert_eq!(timer, Timer::Running(0));
    let mut running = Timer::Running(40);
    running.unpause();
    assert_eq!(running, Timer::Running(40));
    let mut done = Timer::Completed;
    done.unpause();
    assert_eq!(done, Timer::Completed);
}

#[test]
fn tick_counts_up_to_the_duration() {
    let mut timer = Timer::Running(0);
    timer.tick(30, 100);
    assert_eq!(timer, Timer::Running(30));
    timer.tick(69, 100);
    assert_eq!(timer, Timer::Running(99));
    timer.tick(1, 100);
    assert_eq!(timer, Timer::Completed);
    timer.tick(500, 100);
    assert_eq!(timer, Timer::Completed);
}

#[test]
fn tick_passes_a_stopped_timer_by() {
    let mut timer = Timer::Stopped;
    timer.tick(1000, 100);
    assert_eq!(timer, Timer::Stopped);
}

#[test]
fn tick_edge_cases() {
    let mut no_time = Timer::Running(0);
    no_time.tick(0, 0);
    assert_eq!(no_time, Timer::Completed);
    let mut standing = Timer::Running(5);
    standing.tick(0, 10);
    assert_eq!(standing, Timer::Running(5));
    let mut long = Timer::Running(u64::MAX - 1);
    long.tick(u64::MAX, u64::MAX);
    assert_eq!(long, Timer::Completed);
    let mut late = Timer::Running(200);
    late.tick(0, 100);
    assert_eq!(late, Timer::Completed);
}

#[test]
fn tick_repeating_carries_the_overshoot() {
    let mut timer = Timer::Running(0);
    assert!(!timer.tick_repeating(2900, 3000));
    assert_eq!(timer, Timer::Running(2900));
    assert!(timer.tick_repeating(250, 3000));
    assert_eq!(timer, Timer::Running(150));
    assert!(timer.tick_repeating(2850, 3000));
    assert_eq!(timer, Timer::Running(0));
    assert!(timer.tick_repeating(7000, 3000));
    assert_eq!(timer, Timer::Running(1000));
}

#[test]
fn tick_repeating_edge_cases() {
    let mut stopped = Timer::Stopped;
    assert!(!stopped.tick_repeating(9000, 3000));
    assert_eq!(stopped, Timer::Stopped);
    let mut done = Timer::Completed;
    assert!(!done.tick_repeating(10, 3000));
    assert_eq!(done, Timer::Running(10));
    let mut done_again = Timer::Completed;
    assert!(done_again.tick_repeating(3010, 3000));
    assert_eq!(done_again, Timer::Running(10));
    let mut no_time = Timer::Running(0);
    assert!(no_time.tick_repeating(5, 0));
    assert_eq!(no_time, Timer::Running(0));
    let mut long = Timer::Running(u64::MAX - 1);
    assert!(long.tick_repeating(u64::MAX, u64::MAX));
    assert_eq!(long, Timer::Running(u64::MAX - 1));
}

#[test]
fn can_cast_in_every_state_but_casting() {
    let target = at(1, 2, 1);
    assert!(!CharState::Casting((CastAbility::Dash, target)).can_cast());
    assert!(CharState::Moving(target, None).can_cast());
    assert!(CharState::Moving(target, Some(VecDeque::new())).can_cast());
    assert!(CharState::Channeling((ChannelAbility::Laser, target)).can_cast());
    assert!(CharState::Idle.can_cast());
}

#[test]
fn can_move_while_idle_or_moving() {
    let target = at(1, 2, 1);
    assert!(!CharState::Casting((CastAbility::Shoot, target)).can_move());
    assert!(CharState::Moving(target, None).can_move());
    assert!(CharState::Moving(target, Some(VecDeque::from(vec![(0, 0, 0)]))).can_move());
    assert!(!CharState::Channeling((ChannelAbility::EyeMobTarget, target)).can_move());
    assert!(CharState::Idle.can_move());
}

#[test]
fn state_from_an_intent() {
    let target = at(7, -3, 1);
    assert_eq!(
        CharState::from(PlayerAction::new(Action::Move, target)),
        CharState::Moving(target, None)
    );
    assert_eq!(
        CharState::from(PlayerAction::new(Action::Cast(CastAbility::Dash), target)),
        CharState::Casting((CastAbility::Dash, target))
    );
    assert_eq!(
        CharState::from(PlayerAction::new(Action::Channel(ChannelAbility::Laser), target)),
        CharState::Channeling((ChannelAbility::Laser, target))
    );
}

#[test]
fn new_intent_holds_what_it_was_given() {
    let target = at(7, -3, 1);
    let intent = PlayerAction::new(Action::Cast(CastAbility::Shoot), target);
    assert_eq!(intent.action, Action::Cast(CastAbility::Shoot));
    assert_eq!(intent.mouse_coords, target);
}
