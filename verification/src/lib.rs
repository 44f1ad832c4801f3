//! A snake simulation on a wrapping grid, with the rules of movement, growth and
//! collision stated as contracts and proved.
//!
//! * [`snake_grid`] holds the grid, the snake stored in it and one simulation step.
//! * [`board`] is the mathematical model that the contracts speak of.
//! * [`chain`] and [`fruit`] prove what every step keeps true of the model.
//! * [`snake_engine`] decides, iteration by iteration, what the game loop does.
//! * [`render`] turns a grid into the tiles of one frame.

pub mod board;
pub mod chain;
pub mod fruit;
pub mod render;
pub mod snake_engine;
pub mod snake_grid;
