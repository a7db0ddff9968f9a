//! Gravity and motion.
use crate::components::{Components, Mass, Position, Velocity};
use crate::fixed::{
    clamp_i64, div_toward_zero, mul_time, saturate, trunc_div, turn_angle, wrap_angle,
    MILLIS_PER_SECOND,
};
use crate::world::{Slot, World};
use vstd::prelude::*;

verus! {

/// The size of the playing field, in world units.
#[derive(Clone, Copy, Debug, PartialEq, Eq, Structural)]
pub struct Dimensions {
    width: u32,
    height: u32,
}

/// The field is this many units wide and high, whatever the window.
pub const GAME_SIZE: u32 = 1000;

impl Dimensions {
    pub closed spec fn width_spec(&self) -> u32 {
        self.width
    }

    pub closed spec fn height_spec(&self) -> u32 {
        self.height
    }

    /// The field for a window of the given size: always `GAME_SIZE` square.
    pub fn new(_window_width: u32, _window_height: u32) -> (r: Dimensions)
        ensures
            r.width_spec() == GAME_SIZE,
            r.height_spec() == GAME_SIZE,
    {
        Dimensions { width: GAME_SIZE, height: GAME_SIZE }
    }

    pub fn game_width(&self) -> (r: u32)
        ensures
            r == self.width_spec(),
    {
        self.width
    }

    pub fn game_height(&self) -> (r: u32)
        ensures
            r == self.height_spec(),
    {
        self.height
    }
}

/// Downward pull per unit of mass, in hundredths of a unit per second
/// squared (-0.98).
pub const GRAVITY_CENTI: i64 = -98;

/// The change of vertical speed (thousandths of a unit per second) that
/// gravity gives a body of mass `m` over `dt` milliseconds.
pub open spec fn gravity_dv(m: int, dt: int) -> int {
    trunc_div(m * GRAVITY_CENTI * dt, 100)
}

/// A slot after gravity has acted for `dt` milliseconds.
pub open spec fn fallen(s: Slot, dt: int) -> Slot {
    if s.alive && s.parts.mass is Some && s.parts.velocity is Some {
        let v = s.parts.velocity.unwrap();
        let vy = clamp_i64(v.vy + gravity_dv(s.parts.mass.unwrap().mass as int, dt));
        Slot { parts: Components { velocity: Some(Velocity { vy: vy as i64, ..v }), ..s.parts }, ..s }
    } else {
        s
    }
}

/// The distance (thousandths of a unit) covered at speed `v` over `dt`
/// milliseconds.
pub open spec fn travel(v: int, dt: int) -> int {
    trunc_div(v * dt, MILLIS_PER_SECOND as int)
}

/// A slot after moving for `dt` milliseconds.
pub open spec fn moved(s: Slot, dt: int) -> Slot {
    if s.alive && s.parts.position is Some && s.parts.velocity is Some {
        let p = s.parts.position.unwrap();
        let v = s.parts.velocity.unwrap();
        let np = Position {
            x: clamp_i64(p.x + travel(v.vx as int, dt)) as i64,
            y: clamp_i64(p.y + travel(v.vy as int, dt)) as i64,
            orient: turn_angle(p.orient + travel(v.spin as int, dt)) as i64,
            scale: p.scale,
        };
        Slot { parts: Components { position: Some(np), ..s.parts }, ..s }
    } else {
        s
    }
}

/// The world after gravity has acted for `dt` milliseconds.
pub open spec fn gravity_done(w0: World, w1: World, dt: u32) -> bool {
    &&& w1.slots().len() == w0.slots().len()
    &&& forall|i: int|
            0 <= i < w0.slots().len() ==> #[trigger] w1.slots()[i] == fallen(
                w0.slots()[i],
                dt as int,
            )
    &&& w1.doomed() == w0.doomed()
}

/// Accelerates every body that has a mass and a velocity downwards.
#[derive(Debug)]
pub struct GravitySystem {}

impl GravitySystem {
    pub fn new() -> (r: GravitySystem) {
        GravitySystem {}
    }

    /// Lets gravity act for `dt` milliseconds.
    pub fn run(&mut self, world: &mut World, dt: u32)
        ensures
            gravity_done(*old(world), *final(world), dt),
    {
        let n = world.len();
        let mut i: usize = 0;
        while i < n
            invariant
                n == old(world).slots().len(),
                world.slots().len() == n,
                world.doomed() == old(world).doomed(),
                0 <= i <= n,
                forall|k: int|
                    0 <= k < i ==> #[trigger] world.slots()[k] == fallen(
                        old(world).slots()[k],
                        dt as int,
                    ),
                forall|k: int| i <= k < n ==> #[trigger] world.slots()[k] == old(world).slots()[k],
            decreases n - i,
        {
            let s = world.slot(i);
            if s.alive {
                match (s.parts.mass, s.parts.velocity) {
                    (Some(m), Some(v)) => {
                        let dv = div_toward_zero(
                            mul_time(m.mass as i128 * GRAVITY_CENTI as i128, dt),
                            100,
                        );
                        let vy = saturate(v.vy as i128 + dv);
                        world.set_parts(
                            i,
                            Components { velocity: Some(Velocity { vy, ..v }), ..s.parts },
                        );
                    },
                    _ => {},
                }
            }
            i += 1;
        }
    }
}

/// The world after bodies have moved for `dt` milliseconds.
pub open spec fn inertia_done(w0: World, w1: World, dt: u32) -> bool {
    &&& w1.slots().len() == w0.slots().len()
    &&& forall|i: int|
            0 <= i < w0.slots().len() ==> #[trigger] w1.slots()[i] == moved(
                w0.slots()[i],
                dt as int,
            )
    &&& w1.doomed() == w0.doomed()
}

/// Moves and turns every body that has a position and a velocity.
#[derive(Debug)]
pub struct InertiaSystem {}

impl InertiaSystem {
    pub fn new() -> (r: InertiaSystem) {
        InertiaSystem {}
    }

    /// Lets bodies move for `dt` milliseconds; positions saturate at the
    /// ends of their range and orientations come back into
    /// `[0, FULL_TURN)`.
    pub fn run(&mut self, world: &mut World, dt: u32)
        ensures
            inertia_done(*old(world), *final(world), dt),
    {
        let n = world.len();
        let mut i: usize = 0;
        while i < n
            invariant
                n == old(world).slots().len(),
                world.slots().len() == n,
                world.doomed() == old(world).doomed(),
                0 <= i <= n,
                forall|k: int|
                    0 <= k < i ==> #[trigger] world.slots()[k] == moved(
                        old(world).slots()[k],
                        dt as int,
                    ),
                forall|k: int| i <= k < n ==> #[trigger] world.slots()[k] == old(world).slots()[k],
            decreases n - i,
        {
            let s = world.slot(i);
            if s.alive {
                match (s.parts.position, s.parts.velocity) {
                    (Some(p), Some(v)) => {
                        let second = MILLIS_PER_SECOND as i128;
                        let dx = div_toward_zero(mul_time(v.vx as i128, dt), second);
                        let dy = div_toward_zero(mul_time(v.vy as i128, dt), second);
                        let da = div_toward_zero(mul_time(v.spin as i128, dt), second);
                        let np = Position {
                            x: saturate(p.x as i128 + dx),
                            y: saturate(p.y as i128 + dy),
                            orient: wrap_angle(p.orient as i128 + da),
                            scale: p.scale,
                        };
                        world.set_parts(i, Components { position: Some(np), ..s.parts });
                    },
                    _ => {},
                }
            }
            i += 1;
        }
    }
}

} // verus!
