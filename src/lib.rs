//! A turn-based artillery game core: tanks over a height field take turns
//! firing shells, which fly under gravity and burst into explosions that
//! wear down the tanks they reach.
//!
//! All quantities are fixed-point integers (see `fixed`); trigonometry comes
//! from a table of sines that the host supplies.
use vstd::prelude::*;

pub mod components;
pub mod explosion;
pub mod fixed;
pub mod game;
pub mod physics;
pub mod projectile;
pub mod schedule;
pub mod sim;
pub mod tank;
pub mod terrain;
pub mod world;

verus! {

/// Whether the host loop should keep going.
#[derive(Clone, Copy, Debug, PartialEq, Eq, Structural)]
pub enum RunStatus {
    Running,
    Quit,
}

/// What the host loop needs of a window.
pub trait WindowFunctions {
    /// Shows the frame just drawn.
    fn swap_window(&mut self);

    /// Handles pending window events and says whether to go on.
    fn poll_events(&mut self) -> RunStatus;
}

/// The settings of a match: field size and how rough the terrain is.
#[derive(Clone, Copy, Debug, PartialEq, Eq, Structural)]
pub struct TanksGame {
    pub width: usize,
    pub height: usize,
    pub terrain_points: usize,
}

impl TanksGame {
    /// A field 1000 wide and 500 high over terrain with 10 control points.
    pub fn new() -> (r: TanksGame)
        ensures
            r == (TanksGame { width: 1000, height: 500, terrain_points: 10 }),
    {
        TanksGame { width: 1000, height: 500, terrain_points: 10 }
    }

    /// A match with these settings is never asked to stop by them.
    pub fn check_status(&self) -> (r: RunStatus)
        ensures
            r == RunStatus::Running,
    {
        RunStatus::Running
    }
}

} // verus!
