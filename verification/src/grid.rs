//! The shape of the tile graph of a given map size, and the routes that it holds.

use vstd::prelude::*;
use crate::hex::{Tile, adjacent, hex_distance, lemma_step_changes_distance_by_one, lemma_toward,
    on_plane, toward, within_radius};
use crate::occupancy::StepCosts;
use crate::route::{all_free, is_cheapest_route, is_route, lemma_route_cost, linked};

verus! {

/// The nodes of the graph: the tiles of the plane within `map_size` of the origin. A tile
/// farther out is no node, and no route leads to it.
pub open spec fn is_grid_node(map_size: int, t: Tile) -> bool {
    within_radius(map_size, t)
}

/// The edges of the graph: two nodes are joined exactly where one unit step leads from one to
/// the other.
pub open spec fn is_grid_edge(map_size: int, a: Tile, b: Tile) -> bool {
    adjacent(a, b) && is_grid_node(map_size, a) && is_grid_node(map_size, b)
}

pub open spec fn grid_nodes(map_size: int) -> Set<Tile> {
    Set::new(|t: Tile| is_grid_node(map_size, t))
}

pub open spec fn grid_edges(map_size: int) -> Set<(Tile, Tile)> {
    Set::new(|e: (Tile, Tile)| is_grid_edge(map_size, e.0, e.1))
}

/// A route over unit steps has at least as many steps as its two ends are apart.
pub proof fn lemma_route_at_least_distance(
    edges: Set<(Tile, Tile)>,
    route: Seq<Tile>,
    start: Tile,
    end: Tile,
)
    requires
        is_route(edges, route, start, end),
        forall|a: Tile, b: Tile| edges.contains((a, b)) ==> adjacent(a, b),
    ensures
        route.len() - 1 >= hex_distance(start, end),
    decreases route.len(),
{
    if route.len() > 1 {
        let before = route.drop_last();
        let last = route.len() - 1;
        assert(is_route(edges, before, start, route[last - 1])) by {
            assert forall|i: int| 0 <= i < before.len() - 1 implies #[trigger] linked(
                edges,
                before,
                i,
            ) by {
                assert(linked(edges, route, i));
            }
        }
        lemma_route_at_least_distance(edges, before, start, route[last - 1]);
        let near = route[last - 1];
        assert(adjacent(near, end)) by {
            assert(linked(edges, route, last - 1));
        }
        assert(hex_distance(start, end) <= hex_distance(start, near) + 1) by {
            lemma_step_changes_distance_by_one(near, end, start);
        }
    }
}

/// A route that goes from `from` to `goal` by the straight way: each step is the step
/// `toward` the goal.
pub open spec fn straight_route(from: Tile, goal: Tile) -> Seq<Tile>
    decreases hex_distance(from, goal),
{
    if from == goal || !on_plane(from) || !on_plane(goal) {
        seq![from]
    } else {
        seq![from] + straight_route(toward(from, goal), goal)
    }
}

/// Between two nodes the straight route is a route of the graph, all its tiles are nodes, and
/// its steps are as many as the two nodes are apart.
pub proof fn lemma_straight_route(map_size: int, from: Tile, goal: Tile)
    requires
        is_grid_node(map_size, from),
        is_grid_node(map_size, goal),
    ensures
        is_route(grid_edges(map_size), straight_route(from, goal), from, goal),
        straight_route(from, goal).len() - 1 == hex_distance(from, goal),
        forall|i: int|
            0 <= i < straight_route(from, goal).len() ==> is_grid_node(
                map_size,
                #[trigger] straight_route(from, goal)[i],
            ),
    decreases hex_distance(from, goal),
{
    if from != goal {
        let next = toward(from, goal);
        lemma_toward(from, goal, map_size);
        lemma_straight_route(map_size, next, goal);
        let rest = straight_route(next, goal);
        let whole = straight_route(from, goal);
        assert(whole == seq![from] + rest);
        assert forall|i: int| 0 <= i < whole.len() - 1 implies #[trigger] linked(
            grid_edges(map_size),
            whole,
            i,
        ) by {
            if i == 0 {
                assert(whole[1] == rest[0]);
                assert(is_grid_edge(map_size, from, next));
            } else {
                assert(whole[i] == rest[i - 1]);
                assert(whole[i + 1] == rest[i - 1 + 1]);
                assert(linked(grid_edges(map_size), rest, i - 1));
            }
        }
        assert forall|i: int| 0 <= i < whole.len() implies is_grid_node(
            map_size,
            #[trigger] whole[i],
        ) by {
            if i > 0 {
                assert(whole[i] == rest[i - 1]);
            }
        }
    }
}

/// With no unit on any tile, a cheapest route between two nodes has as many steps as the two
/// nodes are apart.
pub proof fn lemma_empty_grid_route_length(
    map_size: int,
    costs: StepCosts,
    route: Seq<Tile>,
    start: Tile,
    end: Tile,
)
    requires
        is_grid_node(map_size, start),
        is_grid_node(map_size, end),
        costs.in_order(),
        is_cheapest_route(grid_edges(map_size), costs, Set::<Tile>::empty(), route, start, end),
    ensures
        route.len() - 1 == hex_distance(start, end),
{
    let free = Set::<Tile>::empty();
    let straight = straight_route(start, end);
    lemma_straight_route(map_size, start, end);
    assert(is_route(grid_edges(map_size), straight, start, end));
    lemma_route_cost(costs, free, route);
    lemma_route_cost(costs, free, straight);
    assert(all_free(free, route.skip(1)));
    assert(all_free(free, straight.skip(1)));
    lemma_route_at_least_distance(grid_edges(map_size), route, start, end);
    assert(route.len() - 1 <= straight.len() - 1) by (nonlinear_arith)
        requires
            (route.len() - 1) * costs.free <= (straight.len() - 1) * costs.free,
            costs.free >= 1,
    ;
}

/// Two different tiles are joined by a route of the graph exactly where both are nodes of it.
pub proof fn lemma_joined_iff_nodes(map_size: int, start: Tile, end: Tile)
    requires
        start != end,
    ensures
        (exists|route: Seq<Tile>| is_route(grid_edges(map_size), route, start, end))
            <==> is_grid_node(map_size, start) && is_grid_node(map_size, end),
{
    let edges = grid_edges(map_size);
    if is_grid_node(map_size, start) && is_grid_node(map_size, end) {
        lemma_straight_route(map_size, start, end);
        assert(is_route(edges, straight_route(start, end), start, end));
    }
    if exists|route: Seq<Tile>| is_route(edges, route, start, end) {
        let route = choose|route: Seq<Tile>| is_route(edges, route, start, end);
        let last = route.len() - 1;
        assert(linked(edges, route, 0));
        assert(linked(edges, route, last - 1));
    }
}

/// Every tile of a route of the graph that has more than one tile is a node.
pub proof fn lemma_route_stays_on_grid(map_size: int, route: Seq<Tile>, start: Tile, end: Tile)
    requires
        is_route(grid_edges(map_size), route, start, end),
        route.len() > 1,
    ensures
        forall|i: int| 0 <= i < route.len() ==> is_grid_node(map_size, #[trigger] route[i]),
{
    assert forall|i: int| 0 <= i < route.len() implies is_grid_node(
        map_size,
        #[trigger] route[i],
    ) by {
        if i < route.len() - 1 {
            assert(linked(grid_edges(map_size), route, i));
        } else {
            assert(linked(grid_edges(map_size), route, i - 1));
        }
    }
}

} // verus!
