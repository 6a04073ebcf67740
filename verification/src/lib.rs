//! Breakout: a wall of bricks, a paddle and a ball, played in fixed-point
//! arithmetic so that every frame is exact and repeatable.
//!
//! `fixed` holds a Q48.16 number type with a square root and a sine table;
//! `fp`, `trig` and `consts` the s32.32 arithmetic the game runs on; `rng` its
//! pseudo-random numbers; `game` and `step` the state of a game, the player's
//! moves and the frame step; `hud` what the picture shows besides positions;
//! `laws` what holds of every game; `rules` what a frame and a click do, in
//! plain arithmetic on raw bits.
pub mod fixed;
pub mod fp;
pub mod trig;
pub mod consts;
pub mod rng;
pub mod game;
pub mod step;
pub mod laws;
pub mod rules;
pub mod hud;
