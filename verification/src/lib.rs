//! Movement, pathing and ability timing for units on a hexagonal tile grid.

pub mod components;
pub mod entities;
pub mod events;
pub mod grid;
pub mod hex;
pub mod occupancy;
pub mod route;
pub mod systems;
pub mod tile_graph;
