//! Decision logic of a robot that explores a grid world, collects the
//! contents it is asked for and distributes them over the markets it found.
//!
//! The library holds the robot's state and every rule that decides what the
//! robot does next; the program around it performs the moves and the views in
//! the world and hands the results back.

pub mod geometry;
pub mod storage;
pub mod exploration;
pub mod robot;
pub mod survey;
pub mod delivery;
pub mod ticks;
