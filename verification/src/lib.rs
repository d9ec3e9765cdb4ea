//! A Conway's-Game-of-Life style cellular-automaton engine on a flat,
//! row-major cell buffer, with wrapping flat-index neighbor arithmetic,
//! randomized border reseeding, and a right-anchored resize.

pub mod model;
pub mod grid;
mod rng;

pub use grid::Cell;
pub use grid::Universe;
