//! Cube and axial coordinates of hexagonal tiles, adjacency and distance.

use vstd::prelude::*;

verus! {

/// A tile in cube coordinates `(x, y, z)`.
pub type Tile = (i32, i32, i32);

/// A tile in axial coordinates `(q, r)`.
pub type Axial = (i32, i32);

/// The three cube coordinates of a tile of the grid sum to zero.
pub open spec fn on_plane(t: Tile) -> bool {
    t.0 + t.1 + t.2 == 0
}

/// Axial coordinates keep the first and the last cube coordinate.
pub open spec fn spec_cube_to_axial(t: Tile) -> Axial {
    (t.0, t.2)
}

/// Whether the cube coordinates that axial `a` stands for fit the tile type.
pub open spec fn axial_in_range(a: Axial) -> bool {
    i32::MIN <= -a.0 - a.1 <= i32::MAX
}

/// The cube coordinates that axial `a` stands for.
pub open spec fn spec_axial_to_cube(a: Axial) -> Tile {
    (a.0, (-a.0 - a.1) as i32, a.1)
}

/// Drops the redundant middle coordinate.
pub fn cube_to_axial(coords: Tile) -> (axial: Axial)
    ensures
        axial == spec_cube_to_axial(coords),
{
    (coords.0, coords.2)
}

/// Restores the middle coordinate so that the three sum to zero.
pub fn axial_to_cube(coords: Axial) -> (tile: Tile)
    requires
        axial_in_range(coords),
    ensures
        tile == spec_axial_to_cube(coords),
        on_plane(tile),
{
    let y: i64 = -(coords.0 as i64) - (coords.1 as i64);
    (coords.0, y as i32, coords.1)
}

/// Going to axial coordinates and back returns every tile of the plane, and going to cube
/// coordinates and back returns every axial pair whose tile fits.
pub proof fn lemma_axial_round_trip(t: Tile, a: Axial)
    ensures
        on_plane(t) ==> axial_in_range(spec_cube_to_axial(t)) && spec_axial_to_cube(
            spec_cube_to_axial(t),
        ) == t,
        axial_in_range(a) ==> on_plane(spec_axial_to_cube(a)) && spec_cube_to_axial(
            spec_axial_to_cube(a),
        ) == a,
{
}

/// The offset from `a` to `b`, coordinate by coordinate.
pub open spec fn offset(a: Tile, b: Tile) -> (int, int, int) {
    (b.0 - a.0, b.1 - a.1, b.2 - a.2)
}

/// The six unit steps of the grid, in the order in which a tile is joined to its neighbours.
pub open spec fn is_unit_step(d: (int, int, int)) -> bool {
    ||| d == (1int, -1int, 0int)
    ||| d == (1int, 0int, -1int)
    ||| d == (0int, 1int, -1int)
    ||| d == (-1int, 1int, 0int)
    ||| d == (-1int, 0int, 1int)
    ||| d == (0int, -1int, 1int)
}

/// Two tiles are adjacent when one unit step leads from the first to the second.
pub open spec fn adjacent(a: Tile, b: Tile) -> bool {
    is_unit_step(offset(a, b))
}

pub open spec fn abs(v: int) -> int {
    if v < 0 {
        -v
    } else {
        v
    }
}

pub open spec fn max3(a: int, b: int, c: int) -> int {
    if a >= b && a >= c {
        a
    } else if b >= c {
        b
    } else {
        c
    }
}

/// The number of unit steps between two tiles of the plane: the largest of the three
/// coordinate differences.
pub open spec fn hex_distance(a: Tile, b: Tile) -> int {
    max3(abs(b.0 - a.0), abs(b.1 - a.1), abs(b.2 - a.2))
}

/// The tiles of the plane whose coordinates all lie within `radius` of zero.
pub open spec fn within_radius(radius: int, t: Tile) -> bool {
    &&& on_plane(t)
    &&& -radius <= t.0 <= radius
    &&& -radius <= t.1 <= radius
    &&& -radius <= t.2 <= radius
}

/// One unit step changes the distance to any tile by at most one.
pub proof fn lemma_step_changes_distance_by_one(a: Tile, b: Tile, goal: Tile)
    requires
        adjacent(a, b),
    ensures
        hex_distance(a, goal) <= hex_distance(b, goal) + 1,
        hex_distance(b, goal) <= hex_distance(a, goal) + 1,
        hex_distance(goal, a) <= hex_distance(goal, b) + 1,
        hex_distance(goal, b) <= hex_distance(goal, a) + 1,
{
}

/// The neighbour of `from` that a straight walk to `goal` enters first.
pub open spec fn toward(from: Tile, goal: Tile) -> Tile {
    let d = offset(from, goal);
    if d.0 > 0 && d.1 < 0 {
        ((from.0 + 1) as i32, (from.1 - 1) as i32, from.2)
    } else if d.0 > 0 && d.2 < 0 {
        ((from.0 + 1) as i32, from.1, (from.2 - 1) as i32)
    } else if d.1 > 0 && d.2 < 0 {
        (from.0, (from.1 + 1) as i32, (from.2 - 1) as i32)
    } else if d.1 > 0 && d.0 < 0 {
        ((from.0 - 1) as i32, (from.1 + 1) as i32, from.2)
    } else if d.2 > 0 && d.0 < 0 {
        ((from.0 - 1) as i32, from.1, (from.2 + 1) as i32)
    } else {
        (from.0, (from.1 - 1) as i32, (from.2 + 1) as i32)
    }
}

/// A step toward a different tile of the plane is a unit step that comes one nearer and stays
/// within every radius that holds both tiles.
pub proof fn lemma_toward(from: Tile, goal: Tile, radius: int)
    requires
        on_plane(from),
        on_plane(goal),
        from != goal,
    ensures
        adjacent(from, toward(from, goal)),
        on_plane(toward(from, goal)),
        hex_distance(toward(from, goal), goal) == hex_distance(from, goal) - 1,
        within_radius(radius, from) && within_radius(radius, goal) ==> within_radius(
            radius,
            toward(from, goal),
        ),
{
}

} // verus!
