//! A snake game's simulation: a snake that moves across a bounded grid,
//! eats food, grows, and dies on a wall or on itself. Drawing and input are
//! left to the caller, which receives each frame as a grid of cell kinds.

pub mod location;
pub mod snake;
pub mod game;
pub mod laws;
