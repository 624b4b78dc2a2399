//! Conway's Game of Life for a text terminal: the grid and its transition
//! rule, the text format of the initial grid, the speed ladder, the shared
//! control state, and the decisions of the three loops that run the show
//! (simulation, rendering, keyboard input).
//!
//! The library decides; it does not touch the terminal. Reading keys,
//! writing frames, sleeping and starting threads belong to the program
//! built on top of it, which hands the library what it has read and does
//! what the library answers.

pub mod app;
pub mod driver;
pub mod input;
pub mod life;
pub mod parse;
pub mod proc;
pub mod rect;
pub mod render;
pub mod speed;
