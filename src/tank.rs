//! Turning a tank's barrel and changing its power while a control is held.
use crate::components::{Components, Tank, MAX_POWER};
use crate::fixed::{canonical_angle, normalize_angle};
use crate::game::controls::{TankControl, TankControls};
use crate::game::player::Player;
use crate::game::state::ActivePlayer;
use crate::world::{Slot, World};
use vstd::prelude::*;

verus! {

/// How far the barrel turns per tick while a turn is held: half a degree.
pub const ANGLE_STEP: i64 = 50;

/// How much the power changes per tick while a change is held.
pub const POWER_STEP: i64 = 50;

/// The barrel turn held after taking in `cmds`, starting from `held`: the
/// latest aim command decides.
pub open spec fn held_angle(held: Option<i64>, cmds: Seq<TankControl>) -> Option<i64>
    decreases cmds.len(),
{
    if cmds.len() == 0 {
        held
    } else {
        let prev = held_angle(held, cmds.drop_last());
        match cmds.last() {
            TankControl::AngleDecreasing => Some((-ANGLE_STEP) as i64),
            TankControl::AngleIncreasing => Some(ANGLE_STEP),
            TankControl::AngleStop => None,
            _ => prev,
        }
    }
}

/// The power change held after taking in `cmds`, starting from `held`: the
/// latest power command decides.
pub open spec fn held_power(held: Option<i64>, cmds: Seq<TankControl>) -> Option<i64>
    decreases cmds.len(),
{
    if cmds.len() == 0 {
        held
    } else {
        let prev = held_power(held, cmds.drop_last());
        match cmds.last() {
            TankControl::PowerDecreasing => Some((-POWER_STEP) as i64),
            TankControl::PowerIncreasing => Some(POWER_STEP),
            TankControl::PowerStop => None,
            _ => prev,
        }
    }
}

/// `t` after one tick of the held adjustments: the barrel turns and comes
/// back into the canonical range, the power changes and is kept within
/// `0..=MAX_POWER`.
pub open spec fn adjusted(t: Tank, angle: Option<i64>, power: Option<i64>) -> Tank {
    Tank {
        barrel_orient: match angle {
            Some(a) => canonical_angle(t.barrel_orient + a) as i64,
            None => t.barrel_orient,
        },
        power_level: match power {
            Some(p) => if t.power_level + p < 0 {
                0u16
            } else if t.power_level + p > MAX_POWER {
                MAX_POWER
            } else {
                (t.power_level + p) as u16
            },
            None => t.power_level,
        },
        health: t.health,
    }
}

/// What one run of a player's aim and power system does.
pub open spec fn tank_control_done(
    t0: TankControlSystem,
    t1: TankControlSystem,
    c0: TankControls,
    c1: TankControls,
    w0: World,
    w1: World,
    active: Option<Player>,
) -> bool {
    &&& t1.player_spec() == t0.player_spec()
    &&& t1.angle_held() == held_angle(t0.angle_held(), c0.pending())
    &&& t1.power_held() == held_power(t0.power_held(), c0.pending())
    &&& c1.pending().len() == 0
    &&& c1.fire_pending() == c0.fire_pending()
    &&& w1.doomed() == w0.doomed()
    &&& ({
            let id = t0.player_spec().tank_id;
            if active == Some(t0.player_spec()) && w0.live(id) && w0.parts_of(id).tank is Some {
                let s = w0.slots()[id.index as int];
                w1.slots() == w0.slots().update(
                    id.index as int,
                    Slot {
                        parts: Components {
                            tank: Some(
                                adjusted(
                                    s.parts.tank.unwrap(),
                                    t1.angle_held(),
                                    t1.power_held(),
                                ),
                            ),
                            ..s.parts
                        },
                        ..s
                    },
                )
            } else {
                w1.slots() == w0.slots()
            }
        })
}

/// Applies one player's held aim and power adjustments to its tank while it
/// is that player's turn.
#[derive(Debug)]
pub struct TankControlSystem {
    player: Player,
    angle_adjustment: Option<i64>,
    power_adjustment: Option<i64>,
}

impl TankControlSystem {
    pub closed spec fn player_spec(&self) -> Player {
        self.player
    }

    pub closed spec fn angle_held(&self) -> Option<i64> {
        self.angle_adjustment
    }

    pub closed spec fn power_held(&self) -> Option<i64> {
        self.power_adjustment
    }

    /// Nothing held.
    pub fn new(player: Player) -> (r: TankControlSystem)
        ensures
            r.player_spec() == player,
            r.angle_held() is None,
            r.power_held() is None,
    {
        TankControlSystem { player, angle_adjustment: None, power_adjustment: None }
    }

    /// Takes in the player's adjustment commands, then, if the player is the
    /// active one and its tank stands, adjusts the tank by what is held.
    pub fn run(&mut self, controls: &mut TankControls, world: &mut World, active: &ActivePlayer)
        ensures
            tank_control_done(
                *old(self),
                *final(self),
                *old(controls),
                *final(controls),
                *old(world),
                *final(world),
                active.current(),
            ),
    {
        let cmds = controls.drain();
        let mut i: usize = 0;
        while i < cmds.len()
            invariant
                0 <= i <= cmds@.len(),
                self.player == old(self).player,
                self.angle_adjustment == held_angle(old(self).angle_adjustment, cmds@.take(i as int)),
                self.power_adjustment == held_power(old(self).power_adjustment, cmds@.take(i as int)),
            decreases cmds@.len() - i,
        {
            assert(cmds@.take(i + 1).drop_last() == cmds@.take(i as int));
            match cmds[i] {
                TankControl::AngleDecreasing => self.angle_adjustment = Some(-ANGLE_STEP),
                TankControl::AngleIncreasing => self.angle_adjustment = Some(ANGLE_STEP),
                TankControl::AngleStop => self.angle_adjustment = None,
                TankControl::PowerDecreasing => self.power_adjustment = Some(-POWER_STEP),
                TankControl::PowerIncreasing => self.power_adjustment = Some(POWER_STEP),
                TankControl::PowerStop => self.power_adjustment = None,
            }
            i += 1;
        }
        assert(cmds@.take(cmds@.len() as int) == cmds@);
        match active.player() {
            Some(p) => {
                if p != self.player {
                    return;
                }
            },
            None => {
                return;
            },
        }
        let id = self.player.tank_id;
        let parts = match world.get(id) {
            Some(c) => c,
            None => {
                return;
            },
        };
        let mut tank = match parts.tank {
            Some(t) => t,
            None => {
                return;
            },
        };
        if let Some(a) = self.angle_adjustment {
            tank.barrel_orient = normalize_angle(tank.barrel_orient as i128 + a as i128);
        }
        if let Some(p) = self.power_adjustment {
            let level = tank.power_level as i128 + p as i128;
            tank.power_level = if level < 0 {
                0
            } else if level > MAX_POWER as i128 {
                MAX_POWER
            } else {
                level as u16
            };
        }
        world.set_parts(id.index, Components { tank: Some(tank), ..parts });
    }
}

} // verus!
