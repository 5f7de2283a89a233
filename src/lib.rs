//! Conway's Game of Life on a toroidal grid, with an event-driven controller
//! that decides when the grid advances.

pub mod grid;

pub mod controller;
