//! A three-dimensional cellular automaton: a fixed-size volumetric grid of
//! cells, each alive or dead and carrying a decay counter, advanced
//! generation by generation under configurable survive/birth rules over a
//! Moore or Von Neumann neighborhood.

pub mod engine;
pub mod grid;
pub mod rule;
