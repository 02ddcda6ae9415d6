//! The tile graph with its occupied tiles, route finding, and the walk of a unit along its
//! route.

use vstd::prelude::*;
use std::collections::HashSet;
use std::collections::VecDeque;
use petgraph::graphmap::UnGraphMap;
use crate::components::{CharState, CharStateView, Coords};
use crate::grid::{grid_edges, grid_nodes, is_grid_edge, is_grid_node, lemma_empty_grid_route_length,
    lemma_joined_iff_nodes, lemma_route_stays_on_grid};
use crate::hex::{Axial, Tile, adjacent, axial_in_range, axial_to_cube, cube_to_axial, hex_distance,
    offset, on_plane, spec_axial_to_cube, spec_cube_to_axial};
use crate::occupancy::{lemma_tiles_of_update, tile_key, tiles_of, StepCosts};
use crate::route::{all_free, is_cheapest_route, is_route, lemma_cheapest_route_leaves_start,
    lemma_cheapest_route_visits_once, lemma_free_route_preferred};
use crate::tile_graph::{graph_add_edge, graph_add_node, graph_cheapest_route,
    graph_contains_node, graph_edges, graph_new, graph_node_list, graph_nodes};

verus! {

broadcast use vstd::std_specs::hash::group_hash_axioms;

/// The tiles that units can stand on, joined to their neighbours, and the tiles on which one
/// stands now.
pub struct TileGraph {
    graph: UnGraphMap<Tile, ()>,
    occupied_tiles: HashSet<u128>,
    map_size: i32,
    costs: StepCosts,
}

/// The state of a unit on its way to `target` once a route has been sought: on its way along
/// the route, or idle where there is none.
pub open spec fn spec_attach_path(target: Coords, found: Option<Seq<Tile>>) -> CharStateView {
    match found {
        Some(path) => CharStateView::Moving(target, Some(path)),
        None => CharStateView::Idle,
    }
}

/// The tile that a unit steps toward next: the first of its route.
pub open spec fn spec_waypoint(state: CharStateView) -> Option<Tile> {
    match state {
        CharStateView::Moving(_, Some(path)) => if path.len() > 0 {
            Some(path[0])
        } else {
            None
        },
        _ => None,
    }
}

/// A unit needs a route when it is on its way without one, or with one that is no longer
/// valid.
pub open spec fn needs_route(occupied: Set<Tile>, state: CharStateView) -> bool {
    state is Moving && !spec_validate(occupied, state)
}

/// Whether `after` is what planning makes of `before` for a unit in tile `here` that is bound
/// for tile `goal`. A unit that needs a route gets a cheapest one and keeps its target, or
/// becomes idle where no route joins the two tiles. Any other unit stays as it is.
pub open spec fn is_planned(
    edges: Set<(Tile, Tile)>,
    costs: StepCosts,
    occupied: Set<Tile>,
    before: CharStateView,
    after: CharStateView,
    here: Tile,
    goal: Tile,
) -> bool {
    if needs_route(occupied, before) {
        ||| after is Idle && forall|route: Seq<Tile>| !#[trigger] is_route(edges, route, here, goal)
        ||| after matches CharStateView::Moving(target, Some(path)) && target == before->Moving_0
            && is_cheapest_route(edges, costs, occupied, seq![here] + path, here, goal)
    } else {
        after == before
    }
}

/// A route without its first tile.
pub open spec fn spec_steps_of(route: Seq<Tile>) -> Seq<Tile> {
    if route.len() == 0 {
        route
    } else {
        route.skip(1)
    }
}

/// The occupied tiles once a unit has left `from` and taken `to`.
pub open spec fn spec_arrive(occupied: Set<Tile>, from: Tile, to: Tile) -> Set<Tile> {
    occupied.remove(from).insert(to)
}

/// A route is valid while the unit is on its way along it and none of its tiles holds a unit.
pub open spec fn spec_validate(occupied: Set<Tile>, state: CharStateView) -> bool {
    match state {
        CharStateView::Moving(_, Some(path)) => all_free(occupied, path),
        _ => false,
    }
}

/// The occupied tiles and the state of a unit after a step from `old_tile` to `new_tile`.
pub open spec fn spec_move_char(
    nodes: Set<Tile>,
    occupied: Set<Tile>,
    state: CharStateView,
    old_tile: Tile,
    new_tile: Tile,
) -> (Set<Tile>, CharStateView) {
    match state {
        CharStateView::Moving(target, Some(path)) => if path.len() == 0 {
            (occupied, CharStateView::Idle)
        } else if !nodes.contains(path[0]) {
            (occupied, CharStateView::Idle)
        } else if new_tile == path[0] {
            (
                spec_arrive(occupied, old_tile, path[0]),
                CharStateView::Moving(target, Some(path.drop_first())),
            )
        } else {
            (occupied, state)
        },
        _ => (occupied, state),
    }
}

impl TileGraph {
    /// The tiles that are nodes of the graph.
    pub closed spec fn nodes(&self) -> Set<Tile> {
        graph_nodes(self.graph)
    }

    /// The pairs of nodes that are joined, each pair in both directions.
    pub closed spec fn edges(&self) -> Set<(Tile, Tile)> {
        graph_edges(self.graph)
    }

    /// The tiles on which a unit stands.
    pub closed spec fn occupied(&self) -> Set<Tile> {
        tiles_of(self.occupied_tiles@)
    }

    /// The map size that the graph was made with.
    pub closed spec fn spec_map_size(&self) -> int {
        self.map_size as int
    }

    /// What it costs a route to enter a tile.
    pub closed spec fn costs(&self) -> StepCosts {
        self.costs
    }

    /// The nodes are the tiles within the map size and no others, two nodes are joined exactly
    /// where they are neighbours, units stand on nodes only, and the step costs are in order.
    #[verifier::type_invariant]
    pub open spec fn wf(&self) -> bool {
        &&& self.nodes() == grid_nodes(self.spec_map_size())
        &&& self.edges() == grid_edges(self.spec_map_size())
        &&& self.occupied().subset_of(self.nodes())
        &&& self.costs().in_order()
    }

    /// A graph of the tiles within `map_size` of the origin, each joined to those of its six
    /// neighbours that are within `map_size` too, with no unit on any tile and with the
    /// standard step costs. A negative size gives a graph without tiles.
    pub fn new(map_size: i32) -> (grid: Self)
        ensures
            grid.wf(),
            grid.spec_map_size() == map_size,
            grid.costs() == StepCosts::standard(),
            grid.occupied() == Set::<Tile>::empty(),
    {
        Self::build(map_size, StepCosts::standard())
    }

    /// A graph as `new` makes it, with step costs of the caller's choice. There is none for
    /// costs that are out of order.
    pub fn with_costs(map_size: i32, costs: StepCosts) -> (made: Option<Self>)
        ensures
            made is Some <==> costs.in_order(),
            made matches Some(grid) ==> grid.wf() && grid.spec_map_size() == map_size
                && grid.costs() == costs && grid.occupied() == Set::<Tile>::empty(),
    {
        if costs.in_order() {
            Some(Self::build(map_size, costs))
        } else {
            None
        }
    }

    /// Makes the nodes, then joins each to its neighbours.
    fn build(map_size: i32, costs: StepCosts) -> (grid: Self)
        requires
            costs.in_order(),
        ensures
            grid.wf(),
            grid.spec_map_size() == map_size,
            grid.costs() == costs,
            grid.occupied() == Set::<Tile>::empty(),
    {
        let mut graph = graph_new();
        let n: i64 = map_size as i64;
        let mut x: i64 = -n;
        while x <= n
            invariant
                n == map_size,
                -n <= x,
                n < 0 || x <= n + 1,
                graph_edges(graph) == Set::<(Tile, Tile)>::empty(),
                graph_nodes(graph) =~= Set::new(|t: Tile| is_grid_node(n as int, t) && t.0 < x),
            decreases n - x + 1,
        {
            let mut y: i64 = -n;
            while y <= n
                invariant
                    n == map_size,
                    -n <= x <= n,
                    -n <= y <= n + 1,
                    graph_edges(graph) == Set::<(Tile, Tile)>::empty(),
                    graph_nodes(graph) =~= Set::new(
                        |t: Tile| is_grid_node(n as int, t) && (t.0 < x || (t.0 == x && t.1 < y)),
                    ),
                decreases n - y + 1,
            {
                let z: i64 = -x - y;
                if -n <= z && z <= n {
                    graph_add_node(&mut graph, (x as i32, y as i32, z as i32));
                }
                y = y + 1;
            }
            x = x + 1;
        }
        let nodes = graph_node_list(&graph);
        let mut k: usize = 0;
        while k < nodes.len()
            invariant
                n == map_size,
                0 <= k <= nodes.len(),
                forall|t: Tile| nodes@.contains(t) <==> is_grid_node(n as int, t),
                graph_nodes(graph) =~= Set::new(|t: Tile| is_grid_node(n as int, t)),
                graph_edges(graph) =~= Set::new(
                    |e: (Tile, Tile)|
                        is_grid_edge(n as int, e.0, e.1) && (listed(nodes@, k as int, e.0)
                            || listed(nodes@, k as int, e.1)),
                ),
            decreases nodes.len() - k,
        {
            let tile: Tile = nodes[k];
            proof {
                assert(nodes@.contains(nodes@[k as int]));
                assert(is_grid_node(n as int, tile));
            }
            let ghost before = graph;
            join(&mut graph, tile, 1, -1, 0);
            join(&mut graph, tile, 1, 0, -1);
            join(&mut graph, tile, 0, 1, -1);
            join(&mut graph, tile, -1, 1, 0);
            join(&mut graph, tile, -1, 0, 1);
            join(&mut graph, tile, 0, -1, 1);
            proof {
                lemma_joined(
                    nodes@,
                    k as int,
                    n as int,
                    graph_edges(before),
                    graph_edges(graph),
                );
            }
            k = k + 1;
        }
        proof {
            lemma_all_joined(nodes@, n as int, graph_edges(graph));
            assert(graph_nodes(graph) == grid_nodes(n as int));
            lemma_tiles_of_update(Set::<u128>::empty(), (0, 0, 0));
        }
        TileGraph { graph, occupied_tiles: HashSet::new(), map_size, costs }
    }

    /// The axial coordinates of a tile: see `hex::cube_to_axial`.
    pub fn cube_to_axial(coords: Tile) -> (axial: Axial)
        ensures
            axial == spec_cube_to_axial(coords),
    {
        cube_to_axial(coords)
    }

    /// The tile of a pair of axial coordinates: see `hex::axial_to_cube`.
    pub fn axial_to_cube(coords: Axial) -> (tile: Tile)
        requires
            axial_in_range(coords),
        ensures
            tile == spec_axial_to_cube(coords),
            on_plane(tile),
    {
        axial_to_cube(coords)
    }

    /// What it costs a route to enter a tile.
    pub fn step_costs(&self) -> (costs: StepCosts)
        ensures
            costs == self.costs(),
    {
        self.costs
    }

    /// The map size that the graph was made with.
    pub fn map_size(&self) -> (size: i32)
        ensures
            size == self.spec_map_size(),
    {
        self.map_size
    }

    /// Whether `tile` is a node of the graph: a tile of the plane within the map size. A tile
    /// that is none takes part in no route.
    pub fn contains(&self, tile: Tile) -> (found: bool)
        ensures
            found == self.nodes().contains(tile),
    {
        graph_contains_node(&self.graph, tile)
    }

    /// Whether a unit stands on `tile`.
    pub fn is_occupied(&self, tile: Tile) -> (taken: bool)
        ensures
            taken == self.occupied().contains(tile),
    {
        self.occupied_tiles.contains(&tile_key(tile))
    }

    /// Marks `tile` as holding a unit. A tile that is no node of the graph is left out.
    pub fn occupy(&mut self, tile: Tile)
        ensures
            final(self).wf(),
            final(self).nodes() == old(self).nodes(),
            final(self).edges() == old(self).edges(),
            final(self).spec_map_size() == old(self).spec_map_size(),
            final(self).costs() == old(self).costs(),
            final(self).occupied() == if old(self).nodes().contains(tile) {
                old(self).occupied().insert(tile)
            } else {
                old(self).occupied()
            },
    {
        proof {
            use_type_invariant(&*self);
        }
        if graph_contains_node(&self.graph, tile) {
            proof {
                lemma_tiles_of_update(self.occupied_tiles@, tile);
            }
            let mut occupied_tiles: HashSet<u128> = HashSet::new();
            std::mem::swap(&mut occupied_tiles, &mut self.occupied_tiles);
            occupied_tiles.insert(tile_key(tile));
            self.occupied_tiles = occupied_tiles;
        }
    }

    /// Marks `tile` as holding no unit.
    pub fn vacate(&mut self, tile: Tile)
        ensures
            final(self).wf(),
            final(self).nodes() == old(self).nodes(),
            final(self).edges() == old(self).edges(),
            final(self).spec_map_size() == old(self).spec_map_size(),
            final(self).costs() == old(self).costs(),
            final(self).occupied() == old(self).occupied().remove(tile),
    {
        proof {
            use_type_invariant(&*self);
            lemma_tiles_of_update(self.occupied_tiles@, tile);
        }
        let key = tile_key(tile);
        let mut occupied_tiles: HashSet<u128> = HashSet::new();
        std::mem::swap(&mut occupied_tiles, &mut self.occupied_tiles);
        occupied_tiles.remove(&key);
        self.occupied_tiles = occupied_tiles;
    }

    /// The tiles that a unit on the first tile of `route` has still to enter: all but the
    /// first.
    pub fn steps_of(route: Vec<Tile>) -> (path: VecDeque<Tile>)
        ensures
            path@ == spec_steps_of(route@),
    {
        let mut path: VecDeque<Tile> = VecDeque::new();
        let mut i: usize = 1;
        while i < route.len()
            invariant
                1 <= i,
                i <= route.len() || route.len() == 0,
                route.len() > 0 ==> path@ == route@.subrange(1, i as int),
                route.len() == 0 ==> path@ == Seq::<Tile>::empty(),
            decreases route.len() - i,
        {
            path.push_back(route[i]);
            i = i + 1;
        }
        proof {
            if route.len() > 0 {
                assert(route@.subrange(1, i as int) == route@.skip(1));
            }
        }
        path
    }

    /// The tiles to enter, in order, to go from `start` to `end` at the least cost, by the step
    /// costs of the graph. The start is left out and the end comes last. There is no such list
    /// where no route joins the two tiles.
    pub fn path(&self, start: Tile, end: Tile) -> (found: Option<VecDeque<Tile>>)
        ensures
            match found {
                Some(path) => is_cheapest_route(
                    self.edges(),
                    self.costs(),
                    self.occupied(),
                    seq![start] + path@,
                    start,
                    end,
                ),
                None => forall|route: Seq<Tile>| !#[trigger] is_route(self.edges(), route, start, end),
            },
            found is Some <==> start == end || (self.nodes().contains(start)
                && self.nodes().contains(end)),
            found matches Some(path) ==> !path@.contains(start) && path@.no_duplicates() && (
            path@.len() == 0 <==> start == end) && (path@.len() > 0 ==> path@.last() == end),
            found matches Some(path) ==> forall|i: int|
                0 <= i < path@.len() ==> self.nodes().contains(#[trigger] path@[i]),
            self.occupied() == Set::<Tile>::empty() && is_grid_node(self.spec_map_size(), start)
                && is_grid_node(self.spec_map_size(), end) ==> (found matches Some(path)
                && path@.len() == hex_distance(start, end)),
            forall|detour: Seq<Tile>|
                #[trigger] is_route(self.edges(), detour, start, end) && all_free(
                    self.occupied(),
                    detour.skip(1),
                ) && (detour.len() - 1) * self.costs().free < self.costs().occupied ==> (
                found matches Some(path) && all_free(
                    self.occupied(),
                    path@,
                )),
    {
        proof {
            use_type_invariant(self);
        }
        match graph_cheapest_route(&self.graph, &self.occupied_tiles, self.costs, start, end) {
            Some(route) => {
                let ghost whole = route@;
                let path = Self::steps_of(route);
                proof {
                    lemma_path_facts(
                        self.spec_map_size(),
                        self.costs(),
                        self.occupied(),
                        whole,
                        path@,
                        start,
                        end,
                    );
                }
                Some(path)
            },
            None => {
                proof {
                    lemma_no_path_facts(self.spec_map_size(), start, end);
                }
                None
            },
        }
    }

    /// Whether the unit is on its way along a route of which no tile holds a unit.
    pub fn validate(&self, char_state: &CharState) -> (valid: bool)
        ensures
            valid == spec_validate(self.occupied(), char_state@),
    {
        if let CharState::Moving(_, Some(path)) = char_state {
            let mut i: usize = 0;
            while i < path.len()
                invariant
                    0 <= i <= path@.len(),
                    spec_validate(self.occupied(), char_state@) == all_free(
                        self.occupied(),
                        path@,
                    ),
                    forall|j: int| 0 <= j < i ==> !self.occupied().contains(#[trigger] path@[j]),
                decreases path@.len() - i,
            {
                if self.is_occupied(path[i]) {
                    return false;
                }
                i = i + 1;
            }
            true
        } else {
            false
        }
    }

    /// Settles what a step of the unit has done to its route and to the occupied tiles.
    /// `old_tile` is the tile the unit was in before the step and `new_tile` the tile it is in
    /// after it. Where the step has brought the unit into the next tile of its route, the unit
    /// leaves `old_tile`, takes that tile, and the tile comes off the route. A unit whose route
    /// has no tile left becomes idle, and so does one whose next tile is no node of the graph.
    /// A unit that is not on its way along a route is left alone.
    pub fn move_char(&mut self, char_state: &mut CharState, old_tile: Tile, new_tile: Tile)
        ensures
            final(self).wf(),
            final(self).nodes() == old(self).nodes(),
            final(self).edges() == old(self).edges(),
            final(self).spec_map_size() == old(self).spec_map_size(),
            final(self).costs() == old(self).costs(),
            (final(self).occupied(), final(char_state)@) == spec_move_char(
                old(self).nodes(),
                old(self).occupied(),
                old(char_state)@,
                old_tile,
                new_tile,
            ),
    {
        proof {
            use_type_invariant(&*self);
        }
        if let CharState::Moving(_, Some(path)) = char_state {
            if path.len() > 0 {
                let path_step: Tile = path[0];
                if !graph_contains_node(&self.graph, path_step) {
                    *char_state = CharState::Idle;
                } else if new_tile.0 == path_step.0 && new_tile.1 == path_step.1 && new_tile.2
                    == path_step.2 {
                    proof {
                        lemma_tiles_of_update(self.occupied_tiles@, old_tile);
                        lemma_tiles_of_update(
                            self.occupied_tiles@.remove(tile_key(old_tile)),
                            path_step,
                        );
                    }
                    let key = tile_key(old_tile);
                    let mut occupied_tiles: HashSet<u128> = HashSet::new();
                    std::mem::swap(&mut occupied_tiles, &mut self.occupied_tiles);
                    occupied_tiles.remove(&key);
                    occupied_tiles.insert(tile_key(path_step));
                    self.occupied_tiles = occupied_tiles;
                    path.pop_front();
                }
            } else {
                *char_state = CharState::Idle;
            }
        }
    }
}

/// Gives a unit that is on its way to `target` the route that was found for it, or makes it
/// idle where none was found.
pub fn attach_path(char_state: &mut CharState, target: Coords, found: Option<VecDeque<Tile>>)
    ensures
        final(char_state)@ == spec_attach_path(
            target,
            match found {
                Some(path) => Some(path@),
                None => None,
            },
        ),
{
    match found {
        Some(path) => {
            *char_state = CharState::Moving(target, Some(path));
        },
        None => {
            *char_state = CharState::Idle;
        },
    }
}

/// The tile that the unit steps toward next, if it is on its way along a route with a tile
/// left.
pub fn waypoint(char_state: &CharState) -> (next: Option<Tile>)
    ensures
        next == spec_waypoint(char_state@),
{
    match char_state {
        CharState::Moving(_, Some(path)) => {
            if path.len() > 0 {
                Some(path[0])
            } else {
                None
            }
        },
        _ => None,
    }
}

/// Plans the walk of one unit for this tick. `here` is the tile that the unit is in and `goal`
/// the tile that its target lies in. A unit on its way without a route gets one; a unit whose
/// route is no longer valid gets a new one; where there is no route the unit becomes idle.
/// Returns the tile to step toward. After the step, `TileGraph::move_char` settles what it
/// did.
pub fn movement_system(graph: &TileGraph, char_state: &mut CharState, here: Tile, goal: Tile) -> (next:
    Option<Tile>)
    ensures
        is_planned(
            graph.edges(),
            graph.costs(),
            graph.occupied(),
            old(char_state)@,
            final(char_state)@,
            here,
            goal,
        ),
        next == spec_waypoint(final(char_state)@),
        needs_route(graph.occupied(), old(char_state)@) ==> (final(char_state)@ is Moving <==> here
            == goal || (graph.nodes().contains(here) && graph.nodes().contains(goal))),
{
    proof {
        use_type_invariant(graph);
    }
    let target: Option<Coords> = match &*char_state {
        CharState::Moving(destination, None) => Some(*destination),
        CharState::Moving(destination, Some(_)) => {
            if graph.validate(&*char_state) {
                None
            } else {
                Some(*destination)
            }
        },
        _ => None,
    };
    if let Some(destination) = target {
        let found = graph.path(here, goal);
        attach_path(char_state, destination, found);
    }
    waypoint(&*char_state)
}

/// The occupied tiles after a unit in `here` has entered the tiles of `entered` one after the
/// other, leaving each for the next.
pub open spec fn occupied_after(occupied: Set<Tile>, here: Tile, entered: Seq<Tile>) -> Set<Tile>
    decreases entered.len(),
{
    if entered.len() == 0 {
        occupied
    } else {
        occupied_after(spec_arrive(occupied, here, entered[0]), entered[0], entered.drop_first())
    }
}

/// A unit alone on the grid holds exactly one tile after every tile that it enters: the tile
/// that it entered last. Before it has entered any, it holds its own tile or none yet.
pub proof fn lemma_one_tile_per_unit(occupied: Set<Tile>, here: Tile, entered: Seq<Tile>)
    requires
        occupied.subset_of(set![here]),
    ensures
        entered.len() > 0 ==> occupied_after(occupied, here, entered) == set![entered.last()],
        entered.len() > 0 ==> occupied_after(occupied, here, entered).len() == 1,
        entered.len() == 0 ==> occupied_after(occupied, here, entered) == occupied,
    decreases entered.len(),
{
    if entered.len() > 0 {
        let next = spec_arrive(occupied, here, entered[0]);
        assert(next =~= set![entered[0]]);
        lemma_one_tile_per_unit(next, entered[0], entered.drop_first());
        if entered.len() > 1 {
            assert(entered.drop_first().last() == entered.last());
        }
    }
}

/// What follows for the tiles still to enter from their being, after the start, a cheapest
/// route of the grid.
proof fn lemma_path_facts(
    n: int,
    costs: StepCosts,
    occupied: Set<Tile>,
    whole: Seq<Tile>,
    path: Seq<Tile>,
    start: Tile,
    end: Tile,
)
    requires
        path == spec_steps_of(whole),
        costs.in_order(),
        is_cheapest_route(grid_edges(n), costs, occupied, whole, start, end),
    ensures
        whole == seq![start] + path,
        start == end || (is_grid_node(n, start) && is_grid_node(n, end)),
        !path.contains(start),
        path.no_duplicates(),
        path.len() == 0 <==> start == end,
        path.len() > 0 ==> path.last() == end,
        forall|i: int| 0 <= i < path.len() ==> is_grid_node(n, #[trigger] path[i]),
        occupied == Set::<Tile>::empty() && is_grid_node(n, start) && is_grid_node(n, end)
            ==> path.len() == hex_distance(start, end),
        forall|detour: Seq<Tile>|
            #[trigger] is_route(grid_edges(n), detour, start, end) && all_free(
                occupied,
                detour.skip(1),
            ) && (detour.len() - 1) * costs.free < costs.occupied ==> all_free(occupied, path),
{
    assert(whole == seq![start] + path);
    lemma_cheapest_route_leaves_start(grid_edges(n), costs, occupied, whole, start, end);
    assert forall|i: int| 0 <= i < path.len() implies path[i] != start by {
        assert(path[i] == whole[i + 1]);
    }
    lemma_cheapest_route_visits_once(grid_edges(n), costs, occupied, whole, start, end);
    assert forall|i: int, j: int| 0 <= i < j < path.len() implies path[i] != path[j] by {
        assert(path[i] == whole[i + 1]);
        assert(path[j] == whole[j + 1]);
    }
    if start != end {
        lemma_joined_iff_nodes(n, start, end);
    }
    if whole.len() > 1 {
        lemma_route_stays_on_grid(n, whole, start, end);
        assert forall|i: int| 0 <= i < path.len() implies is_grid_node(n, #[trigger] path[i]) by {
            assert(path[i] == whole[i + 1]);
        }
    }
    if occupied == Set::<Tile>::empty() && is_grid_node(n, start) && is_grid_node(n, end) {
        lemma_empty_grid_route_length(n, costs, whole, start, end);
    }
    assert forall|detour: Seq<Tile>|
        #[trigger] is_route(grid_edges(n), detour, start, end) && all_free(
            occupied,
            detour.skip(1),
        ) && (detour.len() - 1) * costs.free < costs.occupied implies all_free(occupied, path) by {
        lemma_free_route_preferred(grid_edges(n), costs, occupied, whole, detour, start, end);
    }
}

/// Where no route joins two tiles, they are two tiles of which one is no node.
proof fn lemma_no_path_facts(n: int, start: Tile, end: Tile)
    requires
        forall|route: Seq<Tile>| !#[trigger] is_route(grid_edges(n), route, start, end),
    ensures
        start != end,
        !(is_grid_node(n, start) && is_grid_node(n, end)),
{
    assert(is_route(grid_edges(n), seq![start], start, start));
    lemma_joined_iff_nodes(n, start, end);
}

/// Whether `t` is among the first `upto` tiles of `list`.
spec fn listed(list: Seq<Tile>, upto: int, t: Tile) -> bool {
    exists|i: int| 0 <= i < upto && #[trigger] list[i] == t
}

/// Whether `e` is the pair from `from` to the tile `step` away from it, or the reversed pair.
spec fn joins(from: Tile, step: (int, int, int), e: (Tile, Tile)) -> bool {
    ||| e.0 == from && offset(from, e.1) == step
    ||| e.1 == from && offset(from, e.0) == step
}

/// Joins the node `from` to the tile one unit step away, where that tile is a node.
fn join(graph: &mut UnGraphMap<Tile, ()>, from: Tile, dx: i64, dy: i64, dz: i64)
    requires
        graph_nodes(*old(graph)).contains(from),
        -1 <= dx <= 1,
        -1 <= dy <= 1,
        -1 <= dz <= 1,
    ensures
        graph_nodes(*final(graph)) == graph_nodes(*old(graph)),
        forall|e: (Tile, Tile)|
            graph_edges(*final(graph)).contains(e) <==> graph_edges(*old(graph)).contains(e) || (
            joins(from, (dx as int, dy as int, dz as int), e) && graph_nodes(*old(graph)).contains(
                e.0,
            ) && graph_nodes(*old(graph)).contains(e.1)),
{
    let x: i64 = from.0 as i64 + dx;
    let y: i64 = from.1 as i64 + dy;
    let z: i64 = from.2 as i64 + dz;
    let ghost step = (dx as int, dy as int, dz as int);
    if -0x8000_0000 <= x && x <= 0x7fff_ffff && -0x8000_0000 <= y && y <= 0x7fff_ffff
        && -0x8000_0000 <= z && z <= 0x7fff_ffff {
        let to: Tile = (x as i32, y as i32, z as i32);
        assert(offset(from, to) == step);
        assert forall|e: (Tile, Tile)| joins(from, step, e) <==> e == (from, to) || e == (
            to,
            from,
        ) by {}
        if graph_contains_node(graph, to) {
            graph_add_edge(graph, from, to);
            assert(graph_nodes(*graph) =~= graph_nodes(*old(graph)));
        }
    } else {
        assert forall|e: (Tile, Tile)| !joins(from, step, e) by {}
    }
}

/// What joining the node at `k` to those of its six neighbours that are nodes adds to the
/// edges.
proof fn lemma_joined(
    list: Seq<Tile>,
    k: int,
    n: int,
    old_edges: Set<(Tile, Tile)>,
    new_edges: Set<(Tile, Tile)>,
)
    requires
        0 <= k < list.len(),
        is_grid_node(n, list[k]),
        old_edges =~= Set::new(
            |e: (Tile, Tile)|
                is_grid_edge(n, e.0, e.1) && (listed(list, k, e.0) || listed(list, k, e.1)),
        ),
        forall|e: (Tile, Tile)|
            new_edges.contains(e) <==> old_edges.contains(e) || (is_grid_edge(n, e.0, e.1) && (e.0
                == list[k] || e.1 == list[k])),
    ensures
        new_edges =~= Set::new(
            |e: (Tile, Tile)|
                is_grid_edge(n, e.0, e.1) && (listed(list, k + 1, e.0) || listed(
                    list,
                    k + 1,
                    e.1,
                )),
        ),
{
    assert forall|t: Tile| listed(list, k + 1, t) <==> listed(list, k, t) || t == list[k] by {
        if listed(list, k, t) {
            let i = choose|i: int| 0 <= i < k && #[trigger] list[i] == t;
            assert(0 <= i < k + 1 && list[i] == t);
        }
        if t == list[k] {
            assert(0 <= k < k + 1 && list[k] == t);
        }
    }
}

/// Once every node has been joined to its neighbours, the edges are those of the map size.
proof fn lemma_all_joined(list: Seq<Tile>, n: int, edges: Set<(Tile, Tile)>)
    requires
        forall|t: Tile| list.contains(t) <==> is_grid_node(n, t),
        edges =~= Set::new(
            |e: (Tile, Tile)|
                is_grid_edge(n, e.0, e.1) && (listed(list, list.len() as int, e.0) || listed(
                    list,
                    list.len() as int,
                    e.1,
                )),
        ),
    ensures
        edges == grid_edges(n),
{
    let len = list.len() as int;
    assert forall|t: Tile| is_grid_node(n, t) implies listed(list, len, t) by {
        assert(list.contains(t));
        let i = choose|i: int| 0 <= i < list.len() && list[i] == t;
        assert(0 <= i < len && list[i] == t);
    }
    assert(edges =~= grid_edges(n));
}

} // verus!
