//! Conway's Game of Life on a toroidal grid: the grid store, the step
//! engine, pattern seeding, the renderer and the frame-loop decisions.
pub mod board;
pub mod grid;
pub mod patterns;
pub mod config;
pub mod render;
pub mod frame;
pub mod laws;
