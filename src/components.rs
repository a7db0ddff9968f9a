//! The data that can be attached to an entity.
use vstd::prelude::*;

verus! {

/// Where an entity is: a point, an orientation and a uniform scale.
#[derive(Clone, Copy, Debug, PartialEq, Eq, Structural)]
pub struct Position {
    /// Horizontal coordinate, in thousandths of a unit.
    pub x: i64,
    /// Vertical coordinate, in thousandths of a unit (up is positive).
    pub y: i64,
    /// Orientation, in hundredths of a degree.
    pub orient: i64,
    /// Uniform scale (the entity's radius), in thousandths of a unit.
    pub scale: i64,
}

impl Position {
    pub fn new(x: i64, y: i64, orient: i64, scale: i64) -> (r: Position)
        ensures
            r == (Position { x, y, orient, scale }),
    {
        Position { x, y, orient, scale }
    }
}

/// How fast an entity moves and turns.
#[derive(Clone, Copy, Debug, PartialEq, Eq, Structural)]
pub struct Velocity {
    /// Horizontal speed, in thousandths of a unit per second.
    pub vx: i64,
    /// Vertical speed, in thousandths of a unit per second.
    pub vy: i64,
    /// Turning speed, in hundredths of a degree per second.
    pub spin: i64,
}

impl Velocity {
    /// At rest.
    pub fn new() -> (r: Velocity)
        ensures
            r == (Velocity { vx: 0, vy: 0, spin: 0 }),
    {
        Velocity { vx: 0, vy: 0, spin: 0 }
    }

    /// Moving with the given speeds and not turning.
    pub fn from_speeds(vx: i64, vy: i64) -> (r: Velocity)
        ensures
            r == (Velocity { vx, vy, spin: 0 }),
    {
        Velocity { vx, vy, spin: 0 }
    }
}

/// The mass of an entity that falls under gravity.
#[derive(Clone, Copy, Debug, PartialEq, Eq, Structural)]
pub struct Mass {
    pub mass: i64,
}

/// A tank: its barrel, the charge it will fire with, and what is left of it.
#[derive(Clone, Copy, Debug, PartialEq, Eq, Structural)]
pub struct Tank {
    /// Barrel angle from the vertical, in hundredths of a degree
    /// (positive leans right).
    pub barrel_orient: i64,
    /// Firing power in thousandths, `0..=1000`.
    pub power_level: u16,
    /// Health in thousandths of a point.
    pub health: i64,
}

/// A fresh tank's health: 100 points.
pub const FULL_HEALTH: i64 = 100_000;

/// A fresh tank's power level: one half.
pub const START_POWER: u16 = 500;

/// The largest power level.
pub const MAX_POWER: u16 = 1000;

impl Tank {
    /// A tank with its barrel upright, at half power and full health.
    pub fn new() -> (r: Tank)
        ensures
            r == (Tank { barrel_orient: 0, power_level: START_POWER, health: FULL_HEALTH }),
    {
        Tank { barrel_orient: 0, power_level: START_POWER, health: FULL_HEALTH }
    }
}

/// Marks an entity as a shell in flight.
#[derive(Clone, Copy, Debug, PartialEq, Eq, Structural)]
pub struct Projectile {}

impl Projectile {
    pub fn new() -> (r: Projectile)
        ensures
            r == (Projectile {}),
    {
        Projectile {}
    }
}

/// A burst that harms nearby tanks for a while.
#[derive(Clone, Copy, Debug, PartialEq, Eq, Structural)]
pub struct Explosion {
    /// Milliseconds since the burst began.
    pub time_elapsed: i64,
    /// Milliseconds until it ends.
    pub time_remaining: i64,
}

/// How long an explosion lasts: five seconds.
pub const EXPLOSION_DURATION: i64 = 5000;

impl Explosion {
    pub fn new() -> (r: Explosion)
        ensures
            r == (Explosion { time_elapsed: 0, time_remaining: EXPLOSION_DURATION }),
    {
        Explosion { time_elapsed: 0, time_remaining: EXPLOSION_DURATION }
    }
}

/// What a renderer draws for an entity.
#[derive(Clone, Copy, Debug, PartialEq, Eq, Structural)]
pub enum Drawable {
    /// A tank in the colour of its player (numbered from 1).
    Tank { player_number: u8 },
    Projectile,
    Explosion,
}

/// Everything that may be attached to one entity.
#[derive(Clone, Copy, Debug, PartialEq, Eq, Structural)]
pub struct Components {
    pub position: Option<Position>,
    pub velocity: Option<Velocity>,
    pub mass: Option<Mass>,
    pub tank: Option<Tank>,
    pub projectile: Option<Projectile>,
    pub explosion: Option<Explosion>,
    pub drawable: Option<Drawable>,
}

impl Components {
    /// Nothing attached.
    pub fn empty() -> (r: Components)
        ensures
            r == Components::none(),
    {
        Components {
            position: None,
            velocity: None,
            mass: None,
            tank: None,
            projectile: None,
            explosion: None,
            drawable: None,
        }
    }

    pub open spec fn none() -> Components {
        Components {
            position: None,
            velocity: None,
            mass: None,
            tank: None,
            projectile: None,
            explosion: None,
            drawable: None,
        }
    }
}

} // verus!
