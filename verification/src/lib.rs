//! Core logic of a small 2D arcade shooter: a player sprite that moves in
//! four directions within the screen, fires lasers on distinct key presses
//! (edge-triggered), and lasers that travel horizontally until they leave
//! the screen. Coordinates are integers; rendering, keyboard sampling and
//! the window event loop live outside this crate and exchange plain values
//! with it.

pub mod game;
pub mod laws;
