//! Conway's Game of Life on a toroidal grid, with its transition function
//! and the pixel buffer of each generation verified.

pub mod cell;
pub mod grid;
pub mod universe;
pub mod renderer;
pub mod patterns;
