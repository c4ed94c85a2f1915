pub mod food;
pub mod game;
pub mod snake;
mod rng;
