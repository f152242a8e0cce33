//! Core of a tile-based real-time game: entity identity with generation
//! tagging, per-type component storage, the world aggregate that ties them
//! together, and the per-tick movement-intent resolver.
//!
//! Coordinates are fixed-point: an `i64` number of sub-units, with
//! [`movement::SUBUNITS_PER_FIELD`] sub-units to one field of the grid.
//! Exact integer arithmetic lets the resolver promise no-overshoot and exact
//! arrival without a floating-point tolerance.

pub mod codec;
pub mod components;
pub mod duration;
pub mod entity;
pub mod input;
pub mod movement;
pub mod store;
pub mod world;
