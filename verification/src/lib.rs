//! A toroidal cellular automaton extending Conway's Game of Life with
//! transitional cell states, so a renderer can animate cells fading in and
//! out instead of snapping between alive and dead.
//!
//! The engine is the [`universe::Universe`]: a fixed-size, wrap-around grid
//! of [`cell::Cell`] states advanced one generation per `tick`/`tock` pair.
//! `tick` settles every transitional cell into its terminal state; `tock`
//! applies the life rule to the settled grid and starts new transitions.
//! The [`rules`] module holds the mathematical description of both phases,
//! which the contracts of the engine's methods are stated over.

pub mod cell;
pub mod rules;
pub mod universe;
