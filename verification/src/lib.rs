//! Conway's Game of Life on a torus.
//!
//! A [`universe::Universe`] owns a rectangular grid of [`cell::Cell`]s stored row by row.
//! Every operation is specified against [`grid::Grid`], the mathematical model of
//! such a grid, and the laws that relate the operations are proved in [`laws`].

pub mod cell;
pub mod grid;
pub mod laws;
pub mod universe;
