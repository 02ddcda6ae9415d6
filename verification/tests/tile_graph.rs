use hex_arena::components::{CharState, Coords};
use hex_arena::occupancy::StepCosts;
use hex_arena::systems::movement::{attach_path, movement_system, waypoint, TileGraph};
use std::collections::VecDeque;

fn norm(t: (i32, i32, i32)) -> i32 {
    t.0.abs().max(t.1.abs()).max(t.2.abs())
}

fn distance(a: (i32, i32, i32), b: (i32, i32, i32)) -> usize {
    norm((b.0 - a.0, b.1 - a.1, b.2 - a.2)) as usize
}

fn tiles_within(radius: i32) -> Vec<(i32, i32, i32)> {
    let mut tiles = Vec::new();
    for x in -radius..=radius {
        for y in -radius..=radius {
            let z = -x - y;
            if z.abs() <= radius {
                tiles.push((x, y, z));
            }
        }
    }
    tiles
}

fn adjacent(a: (i32, i32, i32), b: (i32, i32, i32)) -> bool {
    a.0 + a.1 + a.2 == b.0 + b.1 + b.2 && distance(a, b) == 1
}

fn place(x: i32, y: i32) -> Coords {
    Coords { x, y, z: 1 }
}

#[test]
fn graph_changes_between_cube_and_axial_coordinates() {
    assert_eq!(TileGraph::cube_to_axial((3, -5, 2)), (3, 2));
    assert_eq!(TileGraph::axial_to_cube((3, 2)), (3, -5, 2));
    for tile in tiles_within(4) {
        assert_eq!(TileGraph::axial_to_cube(TileGraph::cube_to_axial(tile)), tile);
    }
}

#[test]
fn new_graph_holds_the_tiles_of_the_map_and_no_other() {
    let graph = TileGraph::new(2);
    assert_eq!(graph.map_size(), 2);
    let mut count = 0;
    for x in -5..=5 {
        for y in -5..=5 {
            for z in -5..=5 {
                let expected = x + y + z == 0 && norm((x, y, z)) <= 2;
                assert_eq!(graph.contains((x, y, z)), expected, "{:?}", (x, y, z));
                if expected {
                    count += 1;
                }
            }
        }
    }
    assert_eq!(count, 3 * 2 * 2 + 3 * 2 + 1);
}

#[test]
fn new_graph_of_size_ten_has_its_331_tiles() {
    let graph = TileGraph::new(10);
    let held = tiles_within(12).into_iter().filter(|t| graph.contains(*t)).count();
    assert_eq!(held, 331);
    assert!(graph.contains((10, -10, 0)));
    assert!(!graph.contains((11, -11, 0)));
    assert!(!graph.contains((11, -10, -1)));
}

#[test]
fn new_graph_of_size_zero_is_one_tile() {
    let graph = TileGraph::new(0);
    assert!(graph.contains((0, 0, 0)));
    assert!(!graph.contains((1, -1, 0)));
    assert!(!graph.contains((0, -1, 1)));
    assert!(!graph.contains((1, 0, 0)));
    assert_eq!(graph.path((0, 0, 0), (0, 0, 0)), Some(VecDeque::new()));
    assert_eq!(graph.path((0, 0, 0), (1, -1, 0)), None);
}

#[test]
fn new_graph_of_negative_size_is_empty() {
    let graph = TileGraph::new(-1);
    assert!(!graph.contains((0, 0, 0)));
    assert_eq!(graph.path((0, 0, 0), (1, -1, 0)), None);
    let far = TileGraph::new(i32::MIN);
    assert!(!far.contains((0, 0, 0)));
}

#[test]
fn new_graph_has_the_standard_step_costs() {
    assert_eq!(TileGraph::new(2).step_costs(), StepCosts { free: 1, occupied: 10000 });
}

#[test]
fn graph_with_costs_of_the_callers_choice() {
    let costs = StepCosts { free: 2, occupied: 5 };
    let graph = TileGraph::with_costs(2, costs).expect("the costs are in order");
    assert_eq!(graph.step_costs(), costs);
    assert_eq!(graph.map_size(), 2);
    assert!(graph.contains((2, -2, 0)));
    assert!(!graph.contains((3, -3, 0)));
    assert!(!graph.is_occupied((0, 0, 0)));
}

#[test]
fn no_graph_with_costs_out_of_order() {
    assert!(TileGraph::with_costs(2, StepCosts { free: 0, occupied: 10 }).is_none());
    assert!(TileGraph::with_costs(2, StepCosts { free: 11, occupied: 10 }).is_none());
    assert!(TileGraph::with_costs(2, StepCosts { free: 10, occupied: 10 }).is_some());
}

#[test]
fn cheap_occupied_tiles_are_not_worth_a_detour() {
    // From (0,0,0) to (2,-2,0) the straight way enters one tile in between; every way round
    // it enters two. With an occupied tile costing no more than two free ones, the route goes
    // through; with it costing more than two free ones, the route goes round.
    let start = (0, 0, 0);
    let end = (2, -2, 0);
    let between = (1, -1, 0);
    let mut through = TileGraph::with_costs(3, StepCosts { free: 2, occupied: 3 }).unwrap();
    through.occupy(between);
    assert_eq!(through.path(start, end), Some(VecDeque::from(vec![between, end])));
    let mut round = TileGraph::with_costs(3, StepCosts { free: 2, occupied: 5 }).unwrap();
    round.occupy(between);
    let path = round.path(start, end).unwrap();
    assert_eq!(path.len(), 3);
    assert!(!path.contains(&between));
}

#[test]
fn new_graph_has_no_unit_on_it() {
    let graph = TileGraph::new(2);
    for tile in tiles_within(3) {
        assert!(!graph.is_occupied(tile));
    }
}

#[test]
fn occupy_and_vacate_change_one_tile() {
    let mut graph = TileGraph::new(2);
    graph.occupy((1, -1, 0));
    assert!(graph.is_occupied((1, -1, 0)));
    assert!(!graph.is_occupied((-1, 1, 0)));
    assert!(!graph.is_occupied((1, 0, -1)));
    graph.occupy((1, 0, -1));
    graph.vacate((1, -1, 0));
    assert!(!graph.is_occupied((1, -1, 0)));
    assert!(graph.is_occupied((1, 0, -1)));
    graph.vacate((1, -1, 0));
    assert!(!graph.is_occupied((1, -1, 0)));
}

#[test]
fn occupy_leaves_out_what_is_no_node() {
    let mut graph = TileGraph::new(1);
    graph.occupy((5, -5, 0));
    assert!(!graph.is_occupied((5, -5, 0)));
    graph.occupy((1, 1, 1));
    assert!(!graph.is_occupied((1, 1, 1)));
    // One step beyond the rim of the map is no node either.
    graph.occupy((2, -2, 0));
    assert!(!graph.is_occupied((2, -2, 0)));
    graph.occupy((1, -1, 0));
    assert!(graph.is_occupied((1, -1, 0)));
}

#[test]
fn occupied_tiles_with_equal_first_and_last_coordinate_differ() {
    let mut graph = TileGraph::new(3);
    graph.occupy((1, -2, 1));
    assert!(!graph.is_occupied((1, 0, 1)));
    assert!(!graph.is_occupied((1, -1, 0)));
}

#[test]
fn path_on_empty_grid_is_as_long_as_the_distance() {
    let graph = TileGraph::new(3);
    let tiles = tiles_within(3);
    for &start in &tiles {
        for &end in &tiles {
            let path = graph.path(start, end).expect("tiles of the map are joined");
            assert_eq!(path.len(), distance(start, end), "{:?} -> {:?}", start, end);
            assert!(!path.contains(&start));
            if start == end {
                assert!(path.is_empty());
            } else {
                assert_eq!(path.back(), Some(&end));
            }
            let mut at = start;
            for &step in &path {
                assert!(adjacent(at, step));
                assert!(graph.contains(step));
                at = step;
            }
        }
    }
}

#[test]
fn path_to_a_neighbour_is_that_neighbour() {
    let graph = TileGraph::new(2);
    assert_eq!(graph.path((0, 0, 0), (1, -1, 0)), Some(VecDeque::from(vec![(1, -1, 0)])));
    assert_eq!(graph.path((0, 0, 0), (0, 0, 0)), Some(VecDeque::new()));
}

#[test]
fn path_along_a_line_with_one_way_only() {
    let graph = TileGraph::new(2);
    assert_eq!(
        graph.path((-2, 2, 0), (2, -2, 0)),
        Some(VecDeque::from(vec![(-1, 1, 0), (0, 0, 0), (1, -1, 0), (2, -2, 0)]))
    );
}

#[test]
fn path_goes_round_an_occupied_tile() {
    let mut graph = TileGraph::new(3);
    let start = (0, 0, 0);
    let end = (2, -2, 0);
    let between = (1, -1, 0);
    assert_eq!(graph.path(start, end), Some(VecDeque::from(vec![between, end])));
    graph.occupy(between);
    let path = graph.path(start, end).expect("a way round exists");
    assert_eq!(path.len(), 3);
    assert!(!path.contains(&between));
    assert_eq!(path.back(), Some(&end));
    let mut at = start;
    for &step in &path {
        assert!(adjacent(at, step));
        assert!(!graph.is_occupied(step));
        at = step;
    }
}

#[test]
fn path_goes_round_an_occupied_tile_by_a_detour_of_two() {
    // On a line of the map's rim the only way round leaves the straight line twice.
    let mut graph = TileGraph::new(1);
    let start = (1, -1, 0);
    let end = (-1, 1, 0);
    graph.occupy((0, 0, 0));
    let path = graph.path(start, end).expect("a way round exists");
    assert_eq!(path.len(), 3);
    assert!(!path.contains(&(0, 0, 0)));
    graph.vacate((0, 0, 0));
    assert_eq!(graph.path(start, end), Some(VecDeque::from(vec![(0, 0, 0), end])));
}

#[test]
fn path_goes_through_an_occupied_tile_where_no_way_leads_round() {
    // Every neighbour of the start holds a unit: the route has to enter one of them.
    let mut graph = TileGraph::new(2);
    let ring = [(1, -1, 0), (1, 0, -1), (0, 1, -1), (-1, 1, 0), (-1, 0, 1), (0, -1, 1)];
    for tile in ring {
        graph.occupy(tile);
    }
    let path = graph.path((0, 0, 0), (2, -2, 0)).expect("the tiles are joined");
    assert_eq!(path, VecDeque::from(vec![(1, -1, 0), (2, -2, 0)]));
}

#[test]
fn path_may_end_on_an_occupied_tile() {
    let mut graph = TileGraph::new(2);
    graph.occupy((1, -1, 0));
    assert_eq!(graph.path((0, 0, 0), (1, -1, 0)), Some(VecDeque::from(vec![(1, -1, 0)])));
}

#[test]
fn tiles_on_the_rim_are_joined_to_each_other() {
    let graph = TileGraph::new(1);
    let a = (1, -1, 0);
    let b = (1, 0, -1);
    assert!(adjacent(a, b));
    assert_eq!(graph.path(a, b), Some(VecDeque::from(vec![b])));
}

#[test]
fn no_path_to_a_tile_just_outside_the_map() {
    let graph = TileGraph::new(10);
    assert_eq!(graph.path((0, 0, 0), (11, -11, 0)), None);
    assert_eq!(graph.path((10, -10, 0), (11, -11, 0)), None);
    assert_eq!(graph.path((11, -11, 0), (0, 0, 0)), None);
    let rim = graph.path((0, 0, 0), (10, -10, 0)).expect("the rim belongs to the map");
    assert_eq!(rim.len(), 10);
    assert!(rim.iter().all(|t| graph.contains(*t)));
}

#[test]
fn path_enters_no_tile_twice() {
    let mut graph = TileGraph::new(3);
    for tile in [(1, -1, 0), (1, 0, -1), (0, 1, -1), (-1, 1, 0), (2, -1, -1), (-2, 0, 2)] {
        graph.occupy(tile);
    }
    let tiles = tiles_within(3);
    for &start in &tiles {
        for &end in &tiles {
            let path = graph.path(start, end).expect("tiles of the map are joined");
            let mut seen = vec![start];
            for &step in &path {
                assert!(!seen.contains(&step), "{:?} -> {:?}", start, end);
                assert!(graph.contains(step));
                seen.push(step);
            }
        }
    }
}

#[test]
fn no_path_to_or_from_what_is_no_node() {
    let graph = TileGraph::new(2);
    assert_eq!(graph.path((0, 0, 0), (4, -4, 0)), None);
    assert_eq!(graph.path((4, -4, 0), (0, 0, 0)), None);
    assert_eq!(graph.path((0, 0, 0), (1, 1, 1)), None);
    assert_eq!(graph.path((9, -9, 0), (9, -9, 0)), Some(VecDeque::new()));
}

#[test]
fn steps_of_drops_the_first_tile() {
    assert_eq!(
        TileGraph::steps_of(vec![(0, 0, 0), (1, -1, 0), (2, -2, 0)]),
        VecDeque::from(vec![(1, -1, 0), (2, -2, 0)])
    );
    assert_eq!(TileGraph::steps_of(vec![(0, 0, 0)]), VecDeque::new());
    assert_eq!(TileGraph::steps_of(Vec::new()), VecDeque::new());
}

#[test]
fn validate_wants_a_route_without_units() {
    let mut graph = TileGraph::new(2);
    let target = place(10, 10);
    let mut on_route =
        CharState::Moving(target, Some(VecDeque::from(vec![(1, -1, 0), (2, -2, 0)])));
    assert!(graph.validate(&mut on_route));
    graph.occupy((2, -2, 0));
    assert!(!graph.validate(&mut on_route));
    graph.vacate((2, -2, 0));
    graph.occupy((0, 0, 0));
    assert!(graph.validate(&mut on_route));
    assert!(graph.validate(&CharState::Moving(target, Some(VecDeque::new()))));
}

#[test]
fn validate_refuses_a_unit_without_a_route() {
    let graph = TileGraph::new(2);
    let target = place(10, 10);
    assert!(!graph.validate(&CharState::Moving(target, None)));
    assert!(!graph.validate(&CharState::Idle));
    assert!(!graph.validate(&CharState::Casting((hex_arena::components::CastAbility::Dash, target))));
    assert!(!graph.validate(&CharState::Channeling((
        hex_arena::components::ChannelAbility::Laser,
        target
    ))));
}

#[test]
fn move_char_takes_the_tile_that_was_entered() {
    let mut graph = TileGraph::new(2);
    let target = place(50, 0);
    graph.occupy((0, 0, 0));
    let mut state = CharState::Moving(target, Some(VecDeque::from(vec![(1, -1, 0), (2, -2, 0)])));
    graph.move_char(&mut state, (0, 0, 0), (1, -1, 0));
    assert_eq!(state, CharState::Moving(target, Some(VecDeque::from(vec![(2, -2, 0)]))));
    assert!(!graph.is_occupied((0, 0, 0)));
    assert!(graph.is_occupied((1, -1, 0)));
    assert!(!graph.is_occupied((2, -2, 0)));
}

#[test]
fn move_char_waits_for_the_unit_to_cross_over() {
    let mut graph = TileGraph::new(2);
    let target = place(50, 0);
    graph.occupy((0, 0, 0));
    let mut state = CharState::Moving(target, Some(VecDeque::from(vec![(1, -1, 0), (2, -2, 0)])));
    graph.move_char(&mut state, (0, 0, 0), (0, 0, 0));
    assert_eq!(
        state,
        CharState::Moving(target, Some(VecDeque::from(vec![(1, -1, 0), (2, -2, 0)])))
    );
    assert!(graph.is_occupied((0, 0, 0)));
    assert!(!graph.is_occupied((1, -1, 0)));
    // Entering a tile that is not the next of the route changes nothing either.
    graph.move_char(&mut state, (0, 0, 0), (0, -1, 1));
    assert!(graph.is_occupied((0, 0, 0)));
    assert!(!graph.is_occupied((0, -1, 1)));
}

#[test]
fn move_char_ends_a_walk_whose_route_is_used_up() {
    let mut graph = TileGraph::new(2);
    let target = place(50, 0);
    graph.occupy((1, -1, 0));
    let mut state = CharState::Moving(target, Some(VecDeque::new()));
    graph.move_char(&mut state, (1, -1, 0), (1, -1, 0));
    assert_eq!(state, CharState::Idle);
    assert!(graph.is_occupied((1, -1, 0)));
}

#[test]
fn move_char_resets_a_unit_whose_route_leaves_the_graph() {
    let mut graph = TileGraph::new(1);
    let target = place(50, 0);
    graph.occupy((0, 0, 0));
    let mut state = CharState::Moving(target, Some(VecDeque::from(vec![(7, -7, 0)])));
    graph.move_char(&mut state, (0, 0, 0), (7, -7, 0));
    assert_eq!(state, CharState::Idle);
    assert!(graph.is_occupied((0, 0, 0)));
    assert!(!graph.is_occupied((7, -7, 0)));
}

#[test]
fn move_char_leaves_other_units_alone() {
    let mut graph = TileGraph::new(1);
    let target = place(50, 0);
    graph.occupy((0, 0, 0));
    let mut idle = CharState::Idle;
    graph.move_char(&mut idle, (0, 0, 0), (1, -1, 0));
    assert_eq!(idle, CharState::Idle);
    let mut unplanned = CharState::Moving(target, None);
    graph.move_char(&mut unplanned, (0, 0, 0), (1, -1, 0));
    assert_eq!(unplanned, CharState::Moving(target, None));
    let mut casting = CharState::Casting((hex_arena::components::CastAbility::Dash, target));
    graph.move_char(&mut casting, (0, 0, 0), (1, -1, 0));
    assert_eq!(casting, CharState::Casting((hex_arena::components::CastAbility::Dash, target)));
    assert!(graph.is_occupied((0, 0, 0)));
    assert!(!graph.is_occupied((1, -1, 0)));
}

#[test]
fn one_unit_holds_one_tile_all_along_its_walk() {
    let mut graph = TileGraph::new(3);
    let target = place(50, 0);
    let mut here = (-3, 3, 0);
    let goal = (3, -3, 0);
    let mut state = CharState::Moving(target, None);
    let mut entered = 0;
    loop {
        let next = movement_system(&graph, &mut state, here, goal);
        let arrived = match next {
            Some(tile) => tile,
            None => here,
        };
        graph.move_char(&mut state, here, arrived);
        here = arrived;
        if next.is_some() {
            entered += 1;
            let held: Vec<_> = tiles_within(4).into_iter().filter(|t| graph.is_occupied(*t)).collect();
            assert_eq!(held, vec![here]);
        }
        if state == CharState::Idle {
            break;
        }
        assert!(entered <= 6);
    }
    assert_eq!(here, goal);
    assert_eq!(entered, 6);
}

#[test]
fn movement_system_finds_a_route_for_a_unit_without_one() {
    let graph = TileGraph::new(2);
    let target = place(50, 0);
    let mut state = CharState::Moving(target, None);
    let next = movement_system(&graph, &mut state, (-2, 2, 0), (0, 0, 0));
    assert_eq!(next, Some((-1, 1, 0)));
    assert_eq!(state, CharState::Moving(target, Some(VecDeque::from(vec![(-1, 1, 0), (0, 0, 0)]))));
}

#[test]
fn movement_system_makes_a_unit_idle_where_no_route_exists() {
    let graph = TileGraph::new(2);
    let mut state = CharState::Moving(place(5000, 0), None);
    let next = movement_system(&graph, &mut state, (0, 0, 0), (40, -40, 0));
    assert_eq!(next, None);
    assert_eq!(state, CharState::Idle);
}

#[test]
fn movement_system_keeps_a_valid_route() {
    let mut graph = TileGraph::new(2);
    graph.occupy((0, -1, 1));
    let target = place(50, 0);
    // Not a cheapest route, but a valid one: it is kept as it is.
    let route = vec![(0, 1, -1), (1, 0, -1), (1, -1, 0)];
    let mut state = CharState::Moving(target, Some(VecDeque::from(route.clone())));
    let next = movement_system(&graph, &mut state, (0, 0, 0), (1, -1, 0));
    assert_eq!(next, Some((0, 1, -1)));
    assert_eq!(state, CharState::Moving(target, Some(VecDeque::from(route))));
}

#[test]
fn movement_system_replans_round_a_tile_that_was_taken() {
    let mut graph = TileGraph::new(3);
    let target = place(50, 0);
    let here = (0, 0, 0);
    let goal = (2, -2, 0);
    let mut state = CharState::Moving(target, None);
    assert_eq!(movement_system(&graph, &mut state, here, goal), Some((1, -1, 0)));
    assert!(graph.validate(&mut state));
    // Another unit takes the next tile of the route before this unit looks at it again.
    graph.occupy((1, -1, 0));
    assert!(!graph.validate(&mut state));
    let next = movement_system(&graph, &mut state, here, goal).expect("a way round exists");
    assert_ne!(next, (1, -1, 0));
    match &state {
        CharState::Moving(kept, Some(path)) => {
            assert_eq!(*kept, target);
            assert_eq!(path.len(), 3);
            assert!(!path.contains(&(1, -1, 0)));
            assert_eq!(path.back(), Some(&goal));
            assert_eq!(path.front(), Some(&next));
        },
        other => panic!("not on its way: {:?}", other),
    }
    assert!(graph.validate(&mut state));
}

#[test]
fn movement_system_makes_a_unit_idle_whose_new_route_fails() {
    let mut graph = TileGraph::new(1);
    graph.occupy((1, -1, 0));
    let mut state = CharState::Moving(place(0, 0), Some(VecDeque::from(vec![(1, -1, 0)])));
    let next = movement_system(&graph, &mut state, (0, 0, 0), (9, -9, 0));
    assert_eq!(next, None);
    assert_eq!(state, CharState::Idle);
}

#[test]
fn movement_system_leaves_other_units_alone() {
    let graph = TileGraph::new(1);
    let mut idle = CharState::Idle;
    assert_eq!(movement_system(&graph, &mut idle, (0, 0, 0), (1, -1, 0)), None);
    assert_eq!(idle, CharState::Idle);
    let target = place(3, 4);
    let mut channeling =
        CharState::Channeling((hex_arena::components::ChannelAbility::EyeMobTarget, target));
    assert_eq!(movement_system(&graph, &mut channeling, (0, 0, 0), (1, -1, 0)), None);
    assert_eq!(
        channeling,
        CharState::Channeling((hex_arena::components::ChannelAbility::EyeMobTarget, target))
    );
}

#[test]
fn attach_path_gives_the_route_or_idles() {
    let target = place(3, 4);
    let mut state = CharState::Moving(target, None);
    attach_path(&mut state, target, Some(VecDeque::from(vec![(1, -1, 0)])));
    assert_eq!(state, CharState::Moving(target, Some(VecDeque::from(vec![(1, -1, 0)]))));
    attach_path(&mut state, target, None);
    assert_eq!(state, CharState::Idle);
}

#[test]
fn waypoint_is_the_first_tile_of_the_route() {
    let target = place(3, 4);
    assert_eq!(
        waypoint(&CharState::Moving(target, Some(VecDeque::from(vec![(1, -1, 0), (2, -2, 0)])))),
        Some((1, -1, 0))
    );
    assert_eq!(waypoint(&CharState::Moving(target, Some(VecDeque::new()))), None);
    assert_eq!(waypoint(&CharState::Moving(target, None)), None);
    assert_eq!(waypoint(&CharState::Idle), None);
}
