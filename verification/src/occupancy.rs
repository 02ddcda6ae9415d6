//! Which tiles hold a unit: a hash set of integer keys, one key for each tile.

use vstd::prelude::*;
use std::collections::HashSet;
use crate::hex::Tile;

verus! {

broadcast use vstd::std_specs::hash::group_hash_axioms;

/// What it costs a route to enter a tile that holds no unit, where nothing else is chosen.
pub const FREE_COST: u32 = 1;

/// What it costs a route to enter a tile that holds a unit, where nothing else is chosen.
pub const OCCUPIED_COST: u32 = 10000;

/// What it costs a route to enter a tile: little where the tile holds no unit, and much where
/// it holds one, so that a route goes round such a tile wherever it can, and yet goes through
/// where it cannot.
#[derive(PartialEq, Eq, Structural, Clone, Copy, Debug)]
pub struct StepCosts {
    pub free: u32,
    pub occupied: u32,
}

impl StepCosts {
    /// The costs where nothing else is chosen.
    pub open spec fn spec_standard() -> StepCosts {
        StepCosts { free: FREE_COST, occupied: OCCUPIED_COST }
    }

    /// Costs are in order where every step costs something and an occupied tile costs no less
    /// than a free one.
    pub open spec fn spec_in_order(&self) -> bool {
        1 <= self.free <= self.occupied
    }

    #[verifier::when_used_as_spec(spec_standard)]
    pub fn standard() -> (costs: Self)
        ensures
            costs == Self::spec_standard(),
            costs.spec_in_order(),
    {
        StepCosts { free: FREE_COST, occupied: OCCUPIED_COST }
    }

    #[verifier::when_used_as_spec(spec_in_order)]
    pub fn in_order(&self) -> (ordered: bool)
        ensures
            ordered == self.spec_in_order(),
    {
        1 <= self.free && self.free <= self.occupied
    }
}

/// The key under which a tile is kept: its three coordinates, each moved up to start at zero,
/// as the digits of one number.
pub open spec fn spec_tile_key(t: Tile) -> u128 {
    ((t.0 - i32::MIN) * 0x1_0000_0000_0000_0000 + (t.1 - i32::MIN) * 0x1_0000_0000 + (t.2
        - i32::MIN)) as u128
}

/// Different tiles have different keys.
pub proof fn lemma_tile_key_injective(a: Tile, b: Tile)
    ensures
        spec_tile_key(a) == spec_tile_key(b) <==> a == b,
{
}

/// The tiles whose keys are in `keys`.
pub open spec fn tiles_of(keys: Set<u128>) -> Set<Tile> {
    Set::new(|t: Tile| keys.contains(spec_tile_key(t)))
}

/// Adding a tile's key adds the tile, and removing it removes the tile.
pub proof fn lemma_tiles_of_update(keys: Set<u128>, t: Tile)
    ensures
        tiles_of(keys.insert(spec_tile_key(t))) == tiles_of(keys).insert(t),
        tiles_of(keys.remove(spec_tile_key(t))) == tiles_of(keys).remove(t),
        tiles_of(Set::<u128>::empty()) == Set::<Tile>::empty(),
{
    assert forall|u: Tile| spec_tile_key(u) == spec_tile_key(t) <==> u == t by {
        lemma_tile_key_injective(u, t);
    }
    assert(tiles_of(keys.insert(spec_tile_key(t))) =~= tiles_of(keys).insert(t));
    assert(tiles_of(keys.remove(spec_tile_key(t))) =~= tiles_of(keys).remove(t));
    assert(tiles_of(Set::<u128>::empty()) =~= Set::<Tile>::empty());
}

#[verifier::when_used_as_spec(spec_tile_key)]
pub fn tile_key(t: Tile) -> (key: u128)
    ensures
        key == spec_tile_key(t),
{
    let x: u128 = (t.0 as i64 + 0x8000_0000) as u128;
    let y: u128 = (t.1 as i64 + 0x8000_0000) as u128;
    let z: u128 = (t.2 as i64 + 0x8000_0000) as u128;
    x * 0x1_0000_0000_0000_0000 + y * 0x1_0000_0000 + z
}

/// The cost of entering `t`, given the tiles that hold a unit.
pub open spec fn spec_step_cost(costs: StepCosts, occupied: Set<Tile>, t: Tile) -> nat {
    if occupied.contains(t) {
        costs.occupied as nat
    } else {
        costs.free as nat
    }
}

/// The cost of entering `tile`, given the keys of the tiles that hold a unit.
pub fn step_cost(costs: StepCosts, occupied: &HashSet<u128>, tile: Tile) -> (cost: u128)
    ensures
        cost == spec_step_cost(costs, tiles_of(occupied@), tile),
{
    if occupied.contains(&tile_key(tile)) {
        costs.occupied as u128
    } else {
        costs.free as u128
    }
}

} // verus!
