//! A terminal snake game, verified: a segmented snake moves across a fixed
//! character grid, eats food to grow, and stops on a wall or on itself.
//!
//! The crate holds the game's logic: geometry, the snake's segment queue, food
//! placement, the per-tick state update, and the key-to-heading input channel.
//! Terminal I/O, threads and frame pacing live outside it and hand plain
//! values in and out.

pub mod food;
pub mod game;
pub mod geometry;
pub mod input;
pub mod snake;
