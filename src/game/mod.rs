//! Turn-taking, players and their controls.
pub mod ai;
pub mod controls;
pub mod player;
pub mod state;
