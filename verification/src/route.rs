//! Routes over a set of edges, what they cost, and which is cheapest.

use vstd::prelude::*;
use crate::hex::Tile;
use crate::occupancy::{spec_step_cost, StepCosts};

verus! {

/// Whether an edge joins the tile at `at` to the next tile of the route.
pub open spec fn linked(edges: Set<(Tile, Tile)>, route: Seq<Tile>, at: int) -> bool {
    edges.contains((route[at], route[at + 1]))
}

/// A route from `start` to `end`: it begins at `start`, ends at `end`, and each tile is joined
/// to the next by an edge. A single tile is a route from itself to itself.
pub open spec fn is_route(edges: Set<(Tile, Tile)>, route: Seq<Tile>, start: Tile, end: Tile) -> bool {
    &&& route.len() >= 1
    &&& route[0] == start
    &&& route[route.len() - 1] == end
    &&& forall|i: int| 0 <= i < route.len() - 1 ==> #[trigger] linked(edges, route, i)
}

/// What a route costs: the cost of entering each of its tiles but the first.
pub open spec fn route_cost(costs: StepCosts, occupied: Set<Tile>, route: Seq<Tile>) -> nat
    decreases route.len(),
{
    if route.len() <= 1 {
        0
    } else {
        route_cost(costs, occupied, route.drop_last()) + spec_step_cost(costs, occupied, route.last())
    }
}

/// A route that no other route between the same two tiles undercuts.
pub open spec fn is_cheapest_route(
    edges: Set<(Tile, Tile)>,
    costs: StepCosts,
    occupied: Set<Tile>,
    route: Seq<Tile>,
    start: Tile,
    end: Tile,
) -> bool {
    &&& is_route(edges, route, start, end)
    &&& forall|other: Seq<Tile>| #[trigger]
        is_route(edges, other, start, end) ==> route_cost(costs, occupied, route) <= route_cost(
            costs,
            occupied,
            other,
        )
}

/// No tile of `tiles` holds a unit.
pub open spec fn all_free(occupied: Set<Tile>, tiles: Seq<Tile>) -> bool {
    forall|i: int| 0 <= i < tiles.len() ==> !occupied.contains(#[trigger] tiles[i])
}

/// A route costs at least one for each step; for each step the cost of a free tile where no
/// tile that it enters holds a unit; and at least the cost of an occupied tile where one
/// that it enters does.
pub proof fn lemma_route_cost(costs: StepCosts, occupied: Set<Tile>, route: Seq<Tile>)
    requires
        route.len() >= 1,
        costs.in_order(),
    ensures
        route_cost(costs, occupied, route) >= route.len() - 1,
        all_free(occupied, route.skip(1)) ==> route_cost(costs, occupied, route) == (route.len()
            - 1) * costs.free,
        !all_free(occupied, route.skip(1)) ==> route_cost(costs, occupied, route)
            >= costs.occupied,
    decreases route.len(),
{
    if route.len() > 1 {
        let before = route.drop_last();
        lemma_route_cost(costs, occupied, before);
        let last = route.len() - 1;
        assert(route.last() == route.skip(1)[last - 1]);
        assert(last * costs.free == (last - 1) * costs.free + costs.free) by (nonlinear_arith);
        if all_free(occupied, route.skip(1)) {
            assert forall|i: int| 0 <= i < before.skip(1).len() implies !occupied.contains(
                #[trigger] before.skip(1)[i],
            ) by {
                assert(before.skip(1)[i] == route.skip(1)[i]);
            }
        } else {
            let i = choose|i: int|
                0 <= i < route.skip(1).len() && occupied.contains(#[trigger] route.skip(1)[i]);
            if i < last - 1 {
                assert(before.skip(1)[i] == route.skip(1)[i]);
                assert(!all_free(occupied, before.skip(1)));
            }
        }
    } else {
        assert(route.skip(1).len() == 0);
    }
}

/// The cost of a route is the cost of its part up to a tile and of its part from that tile on.
pub proof fn lemma_route_cost_split(
    costs: StepCosts,
    occupied: Set<Tile>,
    route: Seq<Tile>,
    at: int,
)
    requires
        0 <= at < route.len(),
    ensures
        route_cost(costs, occupied, route) == route_cost(costs, occupied, route.take(at + 1)) + route_cost(
            costs,
            occupied,
            route.skip(at),
        ),
    decreases route.len(),
{
    if at == route.len() - 1 {
        assert(route.take(at + 1) == route);
    } else {
        let before = route.drop_last();
        lemma_route_cost_split(costs, occupied, before, at);
        assert(before.take(at + 1) == route.take(at + 1));
        assert(before.skip(at) == route.skip(at).drop_last());
        assert(route.skip(at).last() == route.last());
    }
}

/// From any of its tiles on, a route is a route to the same end.
pub proof fn lemma_route_suffix(
    edges: Set<(Tile, Tile)>,
    route: Seq<Tile>,
    start: Tile,
    end: Tile,
    at: int,
)
    requires
        is_route(edges, route, start, end),
        0 <= at < route.len(),
    ensures
        is_route(edges, route.skip(at), route[at], end),
{
    let rest = route.skip(at);
    assert forall|i: int| 0 <= i < rest.len() - 1 implies #[trigger] linked(edges, rest, i) by {
        assert(linked(edges, route, at + i));
    }
}

/// A cheapest route never comes back to the tile it started from, and it is a single tile
/// exactly where it starts at its end.
pub proof fn lemma_cheapest_route_leaves_start(
    edges: Set<(Tile, Tile)>,
    costs: StepCosts,
    occupied: Set<Tile>,
    route: Seq<Tile>,
    start: Tile,
    end: Tile,
)
    requires
        costs.in_order(),
        is_cheapest_route(edges, costs, occupied, route, start, end),
    ensures
        forall|i: int| 1 <= i < route.len() ==> #[trigger] route[i] != start,
        route.len() == 1 <==> start == end,
{
    assert forall|i: int| 1 <= i < route.len() implies #[trigger] route[i] != start by {
        if route[i] == start {
            lemma_route_suffix(edges, route, start, end, i);
            lemma_route_cost_split(costs, occupied, route, i);
            lemma_route_cost(costs, occupied, route.take(i + 1));
            assert(is_route(edges, route.skip(i), start, end));
        }
    }
    if start == end && route.len() > 1 {
        let single = seq![start];
        assert(is_route(edges, single, start, end));
        lemma_route_cost(costs, occupied, route);
        assert(route_cost(costs, occupied, single) == 0);
    }
}

/// A route without the round that it makes between two visits of one tile.
pub open spec fn without_round(route: Seq<Tile>, first: int, again: int) -> Seq<Tile> {
    route.take(first + 1) + route.skip(again + 1)
}

/// A route that comes to a tile again is still a route without the round between the two
/// visits.
pub proof fn lemma_without_round_is_route(
    edges: Set<(Tile, Tile)>,
    route: Seq<Tile>,
    start: Tile,
    end: Tile,
    first: int,
    again: int,
)
    requires
        is_route(edges, route, start, end),
        0 <= first < again < route.len(),
        route[first] == route[again],
    ensures
        is_route(edges, without_round(route, first, again), start, end),
{
    let short = without_round(route, first, again);
    assert forall|k: int| 0 <= k < short.len() - 1 implies #[trigger] linked(edges, short, k) by {
        if k < first {
            assert(linked(edges, route, k));
            assert(short[k] == route[k]);
            assert(short[k + 1] == route[k + 1]);
        } else {
            let at = again + (k - first);
            assert(linked(edges, route, at));
            assert(short[k] == route[at]);
            assert(short[k + 1] == route[at + 1]);
        }
    }
    assert(short[0] == route[0]);
    assert(short[short.len() - 1] == route[route.len() - 1]);
}

/// A route that comes to a tile again costs more than it does without the round between the
/// two visits.
pub proof fn lemma_without_round_is_cheaper(
    costs: StepCosts,
    occupied: Set<Tile>,
    route: Seq<Tile>,
    first: int,
    again: int,
)
    requires
        costs.in_order(),
        0 <= first < again < route.len(),
        route[first] == route[again],
    ensures
        route_cost(costs, occupied, without_round(route, first, again)) < route_cost(costs, occupied, route),
{
    let short = without_round(route, first, again);
    let rest = route.skip(first);
    assert(short.take(first + 1) == route.take(first + 1));
    assert(short.skip(first) == route.skip(again));
    assert(rest.skip(again - first) == route.skip(again));
    lemma_route_cost_split(costs, occupied, short, first);
    lemma_route_cost_split(costs, occupied, route, first);
    lemma_route_cost_split(costs, occupied, rest, again - first);
    lemma_route_cost(costs, occupied, rest.take(again - first + 1));
}

/// A cheapest route enters no tile twice: a route that comes back to a tile is undercut by
/// the route that leaves out the round.
pub proof fn lemma_cheapest_route_visits_once(
    edges: Set<(Tile, Tile)>,
    costs: StepCosts,
    occupied: Set<Tile>,
    route: Seq<Tile>,
    start: Tile,
    end: Tile,
)
    requires
        costs.in_order(),
        is_cheapest_route(edges, costs, occupied, route, start, end),
    ensures
        route.no_duplicates(),
{
    assert forall|i: int, j: int| 0 <= i < j < route.len() implies route[i] != route[j] by {
        if route[i] == route[j] {
            lemma_without_round_is_route(edges, route, start, end, i, j);
            lemma_without_round_is_cheaper(costs, occupied, route, i, j);
        }
    }
}

/// Where some route between two tiles enters no occupied tile and costs less than one occupied
/// tile does, a cheapest route between them enters no occupied tile either.
pub proof fn lemma_free_route_preferred(
    edges: Set<(Tile, Tile)>,
    costs: StepCosts,
    occupied: Set<Tile>,
    route: Seq<Tile>,
    detour: Seq<Tile>,
    start: Tile,
    end: Tile,
)
    requires
        costs.in_order(),
        is_cheapest_route(edges, costs, occupied, route, start, end),
        is_route(edges, detour, start, end),
        all_free(occupied, detour.skip(1)),
        (detour.len() - 1) * costs.free < costs.occupied,
    ensures
        all_free(occupied, route.skip(1)),
{
    lemma_route_cost(costs, occupied, route);
    lemma_route_cost(costs, occupied, detour);
}

} // verus!
