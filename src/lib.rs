//! A three-dimensional Game of Life on a fixed cubic lattice.
//!
//! Cells are addressed by packed coordinate identifiers, each cell keeps a
//! precomputed list of its in-bounds neighbours, and the lattice advances one
//! synchronous step whenever the tick timer fires.

pub mod codec;
pub mod neighbors;
pub mod rules;
pub mod lattice;
pub mod timer;
pub mod random;
pub mod simulation;
