//! A side-scrolling terminal game whose rules are verified: the obstacle
//! queue, the jump arc, collisions, scoring, frame pacing, the loop's
//! decisions and the drawn frame; and a PIN/password generator.
pub mod control;
pub mod game;
pub mod generator;
pub mod pacing;
pub mod render;
