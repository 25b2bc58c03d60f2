//! Board topology and coordinate engine for a settlement-building game on a
//! hexagonal grid.
//!
//! - `coords`: world grid, fractional axial and cube coordinates, rounding,
//!   and the offset tables that name the corners and sides of a hex.
//! - `board`: the sites (hexes, vertices, edges), their storage in grids keyed
//!   by shifted axial coordinates, and the maps that model them.
//! - `lattice`: building the lattice of a board of a given radius.
//! - `lattice_size`: the number of vertices of a built board.
//! - `adjacency`: neighbours of vertices and edges, derived from the tables.
//! - `placement`: the distance rule for settlements.
//! - `query`: resolving a world position to a site.
#![allow(non_snake_case)]

pub mod adjacency;
pub mod board;
pub mod common;
pub mod coords;
pub mod lattice;
pub mod lattice_size;
pub mod placement;
pub mod query;
