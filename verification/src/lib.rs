//! A verified engine for Moore-neighborhood cellular automata.
//!
//! A [`grid::Grid`] is a dense row-major 2d array. An [`automaton::Automaton`]
//! composes two generations of cell grids with two generations of padded
//! neighbor-aggregate grids and advances them under a pluggable
//! [`automaton::Ruleset`]; [`cgol::Cgol`] is the reference ruleset, Conway's
//! Game of Life.

pub mod automaton;
pub mod cgol;
pub mod grid;
pub mod utils;

pub use automaton::Automaton;
pub use cgol::Cgol;

