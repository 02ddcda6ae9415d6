//! The tile graph kept by `petgraph`, and what is taken on trust about it.

use vstd::prelude::*;
use std::collections::HashSet;
use petgraph::graphmap::GraphMap;
use petgraph::graphmap::UnGraphMap;
use petgraph::Undirected;
use crate::hex::Tile;
use crate::occupancy::{step_cost, tiles_of, StepCosts};
use crate::route::{is_cheapest_route, is_route};

verus! {

/// `petgraph::Undirected`, the mark of a graph whose edges have no direction.
#[verifier::external_type_specification]
#[verifier::external_body]
pub struct ExUndirected(Undirected);

/// `petgraph::graphmap::GraphMap`, a graph whose nodes are its keys. Nothing inside it is
/// seen from here: what it holds goes by the two names below.
#[verifier::external_type_specification]
#[verifier::external_body]
#[verifier::reject_recursive_types(N)]
#[verifier::reject_recursive_types(E)]
#[verifier::reject_recursive_types(Ty)]
#[verifier::reject_recursive_types(S)]
pub struct ExGraphMap<N, E, Ty, S: core::hash::BuildHasher>(GraphMap<N, E, Ty, S>);

/// The tiles that are nodes of the graph.
pub uninterp spec fn graph_nodes(g: UnGraphMap<Tile, ()>) -> Set<Tile>;

/// The pairs of tiles that an edge of the graph joins. The graph is undirected: with a pair
/// its wrappers always add the reversed pair.
pub uninterp spec fn graph_edges(g: UnGraphMap<Tile, ()>) -> Set<(Tile, Tile)>;

/// `petgraph::graphmap::GraphMap::new`: a graph without nodes and without edges.
#[verifier::external_body]
pub(crate) fn graph_new() -> (g: UnGraphMap<Tile, ()>)
    ensures
        graph_nodes(g) == Set::<Tile>::empty(),
        graph_edges(g) == Set::<(Tile, Tile)>::empty(),
{
    UnGraphMap::new()
}

/// `petgraph::graphmap::GraphMap::add_node`: the tile becomes a node if it was none; the edges
/// stay as they were.
#[verifier::external_body]
pub(crate) fn graph_add_node(g: &mut UnGraphMap<Tile, ()>, tile: Tile)
    ensures
        graph_nodes(*final(g)) == graph_nodes(*old(g)).insert(tile),
        graph_edges(*final(g)) == graph_edges(*old(g)),
{
    g.add_node(tile);
}

/// `petgraph::graphmap::GraphMap::add_edge`: the two tiles are joined, in both directions, and
/// each becomes a node if it was none. Joining two tiles that are joined already changes
/// nothing.
#[verifier::external_body]
pub(crate) fn graph_add_edge(g: &mut UnGraphMap<Tile, ()>, a: Tile, b: Tile)
    ensures
        graph_nodes(*final(g)) == graph_nodes(*old(g)).insert(a).insert(b),
        graph_edges(*final(g)) == graph_edges(*old(g)).insert((a, b)).insert((b, a)),
{
    g.add_edge(a, b, ());
}

/// `petgraph::graphmap::GraphMap::contains_node`: whether the tile is a node.
#[verifier::external_body]
pub(crate) fn graph_contains_node(g: &UnGraphMap<Tile, ()>, tile: Tile) -> (found: bool)
    ensures
        found == graph_nodes(*g).contains(tile),
{
    g.contains_node(tile)
}

/// `petgraph::graphmap::GraphMap::nodes`: the nodes of the graph, and nothing else.
#[verifier::external_body]
pub(crate) fn graph_node_list(g: &UnGraphMap<Tile, ()>) -> (nodes: Vec<Tile>)
    ensures
        forall|t: Tile| nodes@.contains(t) <==> graph_nodes(*g).contains(t),
{
    g.nodes().collect()
}

/// Whether a search that has come to `tile` has come to `goal`.
pub(crate) fn is_goal(tile: Tile, goal: Tile) -> (reached: bool)
    ensures
        reached == (tile == goal),
{
    tile.0 == goal.0 && tile.1 == goal.1 && tile.2 == goal.2
}

/// The least that the rest of a route from `tile` may cost: nothing is assumed, so the search
/// spreads evenly in all directions.
pub(crate) fn estimate(tile: Tile) -> (cost: u128)
    ensures
        cost == 0,
{
    0
}

/// `petgraph::algo::astar`, with the cost of an edge being the cost of entering the tile it
/// leads to, and with an estimate of zero. With such an estimate the search returns a route of
/// least cost from `start` to `end` where the edges join the two, and nothing where they do not.
/// Every step costs something, as the search asks of its costs. A step costs a `u32` and
/// costs are added up as `u128`: a graph has at most `usize::MAX` nodes, so no sum of them
/// overflows.
#[verifier::external_body]
pub(crate) fn graph_cheapest_route(
    g: &UnGraphMap<Tile, ()>,
    occupied: &HashSet<u128>,
    costs: StepCosts,
    start: Tile,
    end: Tile,
) -> (found: Option<Vec<Tile>>)
    requires
        costs.in_order(),
    ensures
        match found {
            Some(route) => is_cheapest_route(
                graph_edges(*g),
                costs,
                tiles_of(occupied@),
                route@,
                start,
                end,
            ),
            None => forall|route: Seq<Tile>| !#[trigger] is_route(graph_edges(*g), route, start, end),
        },
{
    petgraph::algo::astar(
        g,
        start,
        |tile| is_goal(tile, end),
        |edge| step_cost(costs, occupied, edge.1),
        |tile| estimate(tile),
    ).map(|found| found.1)
}

} // verus!
