//! Conway's Game of Life on a bounded rectangular grid.
//!
//! The crate is built from three layers: [`point::Point`], a plain coordinate
//! pair; [`cell::Cell`], one automaton cell together with the B3/S23
//! transition rule; and [`grid::Grid`], which owns the cells, maps points to
//! positions and advances the whole board one generation at a time.  The
//! mathematical model against which every operation is proved lives in
//! [`generation`]; general facts about that model are collected in [`laws`].
//! Randomness enters through [`seed`] alone, when a fresh board is made;
//! after that the simulation is deterministic.
pub mod cell;
pub mod generation;
pub mod grid;
pub mod laws;
pub mod point;
pub mod seed;
