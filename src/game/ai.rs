//! The computer player: waits for its turn, picks a target, walks its aim
//! towards a shot that lands on it, and fires.
use crate::fixed::{canonical_angle, normalize_angle, trunc_div, TrigTable, TRIG_ONE};
use crate::game::controls::{TankControl, TankControls};
use crate::game::player::Player;
use crate::game::state::ActivePlayer;
use crate::physics::GRAVITY_CENTI;
use crate::projectile::{launch_speed, POWER_MIN, POWER_SCALE, SHELL_MASS};
use crate::tank::{ANGLE_STEP, POWER_STEP};
use crate::components::MAX_POWER;
use crate::world::{Entity, World};
use vstd::prelude::*;

verus! {

/// A shell's downward acceleration, in thousandths of a unit per second
/// squared: its mass times gravity.
pub const SHELL_PULL: i64 = SHELL_MASS * GRAVITY_CENTI * 10;

/// Targets farther across than this (in thousandths of a unit) are taken to
/// be out of reach.
pub const AIM_LIMIT: i64 = 1_000_000_000;

/// A predicted landing height this far below the tank (in thousandths of a
/// unit) means the shot is hopeless.
pub const HOPELESS_DROP: i64 = -10_000_000;

pub open spec fn sign(x: int) -> int {
    if x > 0 {
        1
    } else if x < 0 {
        -1
    } else {
        0
    }
}

pub open spec fn abs(x: int) -> int {
    if x < 0 {
        -x
    } else {
        x
    }
}

/// Where a shell fired at power `power` and barrel angle `theta` is when it
/// has gone `dx` across, relative to the tank, and whether it is falling by
/// then. With `v` the launch speed, `s` and `c` the sine and cosine of the
/// barrel angle and `t = dx / (v s)` the time taken, the height is
/// `pull t^2 / 2 + v t c`, and the shell falls when `pull t + v c < 0`. A
/// level barrel (`s = 0`), or a target out of reach, gives no landing.
pub open spec fn predict(dx: int, power: int, theta: int, trig: TrigTable) -> (int, bool) {
    let v = launch_speed(power);
    let s = trig.sin_spec(theta);
    let c = trig.cos_spec(theta);
    let one = TRIG_ONE as int;
    if s == 0 || dx > AIM_LIMIT || dx < -AIM_LIMIT {
        (0, false)
    } else {
        let y = trunc_div(SHELL_PULL * (dx * dx) * (one * one), 2 * (v * v) * (s * s))
            + trunc_div(dx * c * sign(s), abs(s));
        let falling = (SHELL_PULL * dx * (one * one) + (v * v) * (s * c)) * sign(s) < 0;
        (y, falling)
    }
}

/// A prediction that lands, and lands closer to the target height `dy`
/// than a miss by `miss`.
pub open spec fn improves(p: (int, bool), dy: int, miss: int) -> bool {
    p.1 && abs(p.0 - dy) < abs(miss)
}

/// One step of aiming at a target `(dx, dy)` away: the commands given, and
/// whether the aim is as good as small steps can make it.
/// - A barrel leaning away from the target is turned towards it first.
/// - A shot that would not come down, or would land absurdly low, gets
///   more power and a wider angle.
/// - Otherwise one step more or less power, and then one step of turn, is
///   tried, and the first that lands closer is taken; when none does the
///   aim is done.
pub open spec fn aim_plan(dx: int, dy: int, power: int, barrel: int, trig: TrigTable) -> (
    Seq<TankControl>,
    bool,
) {
    if barrel <= 0 && dx > 0 {
        (seq![TankControl::AngleIncreasing], false)
    } else if barrel >= 0 && dx < 0 {
        (seq![TankControl::AngleDecreasing], false)
    } else {
        let (y, falling) = predict(dx, power, barrel, trig);
        let miss = y - dy;
        if !falling || y < HOPELESS_DROP {
            (
                seq![
                    if dx < 0 {
                        TankControl::AngleDecreasing
                    } else {
                        TankControl::AngleIncreasing
                    },
                    TankControl::PowerIncreasing,
                ],
                false,
            )
        } else {
            let up = improves(predict(dx, power + POWER_STEP, barrel, trig), dy, miss) && power
                < MAX_POWER;
            let down = !up && improves(predict(dx, power - POWER_STEP, barrel, trig), dy, miss)
                && power > 0;
            let changed = up || down;
            let left = !changed && improves(
                predict(dx, power, canonical_angle(barrel + ANGLE_STEP), trig),
                dy,
                miss,
            );
            let right = !changed && !left && improves(
                predict(dx, power, canonical_angle(barrel - ANGLE_STEP), trig),
                dy,
                miss,
            );
            (
                seq![
                    if up {
                        TankControl::PowerIncreasing
                    } else if down {
                        TankControl::PowerDecreasing
                    } else {
                        TankControl::PowerStop
                    },
                    if left {
                        TankControl::AngleIncreasing
                    } else if right {
                        TankControl::AngleDecreasing
                    } else {
                        TankControl::AngleStop
                    },
                ],
                !(changed || left || right),
            )
        }
    }
}

/// The landing prediction for a shell (see `predict`).
pub fn calc_end_y(dx: i128, power_level: i64, theta: i64, trig: &TrigTable) -> (r: (i128, bool))
    requires
        trig.wf(),
        -POWER_STEP <= power_level <= u16::MAX + POWER_STEP,
    ensures
        (r.0 as int, r.1) == predict(dx as int, power_level as int, theta as int, *trig),
        -80_000_000_000_000_000_000_000_000_000_000_000 <= r.0 <= 1_000_000_000_000_000,
{
    let s = trig.sin(theta) as i128;
    let c = trig.cos(theta) as i128;
    if s == 0 || dx > AIM_LIMIT as i128 || dx < -(AIM_LIMIT as i128) {
        return (0, false);
    }
    let v = POWER_MIN as i128 + POWER_SCALE as i128 * power_level as i128;
    let one = TRIG_ONE as i128;
    let pull = SHELL_PULL as i128;
    let sg: i128 = if s > 0 {
        1
    } else {
        -1
    };
    let abs_s: i128 = if s > 0 {
        s
    } else {
        -s
    };
    assert(0 < v <= 6_708_500);
    assert(-73_500 * 1_000_000_000 <= pull * dx <= 73_500 * 1_000_000_000) by (nonlinear_arith)
        requires
            pull == -73_500,
            -1_000_000_000 <= dx <= 1_000_000_000,
    ;
    assert(0 <= dx * dx <= 1_000_000_000_000_000_000) by (nonlinear_arith)
        requires
            -1_000_000_000 <= dx <= 1_000_000_000,
    ;
    assert(-73_500_000_000_000_000_000_000_000_000_000_000 <= pull * dx * dx * one * one <= 0)
        by (nonlinear_arith)
        requires
            pull == -73_500,
            one == 1_000_000,
            0 <= dx * dx <= 1_000_000_000_000_000_000,
    ;
    assert(0 < v * v <= 45_100_000_000_000) by (nonlinear_arith)
        requires
            0 < v <= 6_708_500,
    ;
    assert(0 < s * s <= 1_000_000_000_000) by (nonlinear_arith)
        requires
            -1_000_000 <= s <= 1_000_000,
            s != 0,
    ;
    assert(0 < 2 * v * v * s * s <= 90_200_000_000_000_000_000_000_000) by (nonlinear_arith)
        requires
            0 < v * v <= 45_100_000_000_000,
            0 < s * s <= 1_000_000_000_000,
    ;
    assert(-1_000_000_000_000_000 <= dx * c * sg <= 1_000_000_000_000_000) by (nonlinear_arith)
        requires
            -1_000_000_000 <= dx <= 1_000_000_000,
            -1_000_000 <= c <= 1_000_000,
            sg == 1 || sg == -1,
    ;
    assert(-73_500_000_000_000_000_000_000_000 <= pull * dx * one * one
        <= 73_500_000_000_000_000_000_000_000) by (nonlinear_arith)
        requires
            -73_500 * 1_000_000_000 <= pull * dx <= 73_500 * 1_000_000_000,
            one == 1_000_000,
    ;
    assert(-45_100_000_000_000_000_000_000_000 <= v * v * s * c
        <= 45_100_000_000_000_000_000_000_000) by (nonlinear_arith)
        requires
            0 < v * v <= 45_100_000_000_000,
            -1_000_000 <= s <= 1_000_000,
            -1_000_000 <= c <= 1_000_000,
    ;
    let vv = v * v;
    let ss = s * s;
    assert(-1_000_000_000_000 <= s * c <= 1_000_000_000_000) by (nonlinear_arith)
        requires
            -1_000_000 <= s <= 1_000_000,
            -1_000_000 <= c <= 1_000_000,
    ;
    let sc = s * c;
    assert(0 < 2 * vv * ss <= 90_200_000_000_000_000_000_000_000) by (nonlinear_arith)
        requires
            0 < vv <= 45_100_000_000_000,
            0 < ss <= 1_000_000_000_000,
    ;
    assert(-45_100_000_000_000_000_000_000_000 <= vv * sc <= 45_100_000_000_000_000_000_000_000)
        by (nonlinear_arith)
        requires
            0 < vv <= 45_100_000_000_000,
            -1_000_000_000_000 <= sc <= 1_000_000_000_000,
    ;
    let dd = dx * dx;
    let oo = one * one;
    assert(-73_500_000_000_000_000_000_000 <= pull * dd <= 0) by (nonlinear_arith)
        requires
            pull == -73_500,
            0 <= dd <= 1_000_000_000_000_000_000,
    ;
    assert(-73_500_000_000_000_000_000_000_000_000_000_000 <= pull * dd * oo <= 0) by (nonlinear_arith)
        requires
            -73_500_000_000_000_000_000_000 <= pull * dd <= 0,
            oo == 1_000_000_000_000,
    ;
    assert(-73_500_000_000_000_000_000_000_000 <= pull * dx * oo
        <= 73_500_000_000_000_000_000_000_000) by (nonlinear_arith)
        requires
            -73_500 * 1_000_000_000 <= pull * dx <= 73_500 * 1_000_000_000,
            oo == 1_000_000_000_000,
    ;
    let denom = 2 * vv * ss;
    let numer = pull * dd * oo;
    let rise = numer / denom;
    let run = (dx * c * sg) / abs_s;
    assert(rise == trunc_div(numer as int, denom as int));
    assert(run == trunc_div(dx * c * sg, abs_s as int));
    assert(-73_500_000_000_000_000_000_000_000_000_000_000 <= rise <= 0) by (nonlinear_arith)
        requires
            rise == trunc_div(numer as int, denom as int),
            -73_500_000_000_000_000_000_000_000_000_000_000 <= numer <= 0,
            denom > 0,
    ;
    assert(-1_000_000_000_000_000 <= run <= 1_000_000_000_000_000) by (nonlinear_arith)
        requires
            run == trunc_div(dx * c * sg, abs_s as int),
            -1_000_000_000_000_000 <= dx * c * sg <= 1_000_000_000_000_000,
            abs_s > 0,
    ;
    let falling = (pull * dx * oo + vv * sc) * sg < 0;
    (rise + run, falling)
}

/// The stages of the computer player.
#[derive(Clone, Copy, Debug, PartialEq, Eq, Structural)]
pub enum TargetingState {
    WaitForTurn,
    SelectTarget,
    /// Aiming at the point where the target stood when it was chosen.
    AlignToTarget { x: i64, y: i64 },
    Fire,
}

/// The player's own tank still stands.
pub open spec fn owns_tank(w: World, player: Player) -> bool {
    w.live(player.tank_id) && w.parts_of(player.tank_id).tank is Some
}

/// Slot `i` holds a standing tank other than `own`.
pub open spec fn is_target(w: World, i: int, own: Entity) -> bool {
    let s = w.slots()[i];
    s.alive && s.parts.tank is Some && s.parts.position is Some && w.handle(i) != own
}

/// What one step of a computer player does (see `AiController::run`).
pub open spec fn ai_done(
    a0: AiController,
    a1: AiController,
    c0: TankControls,
    c1: TankControls,
    world: World,
    active: Option<Player>,
    trig: TrigTable,
) -> bool {
    &&& a1.player_spec() == a0.player_spec()
    &&& ({
            let pl = a0.player_spec();
            let w = world;
            match a0.state_spec() {
                TargetingState::WaitForTurn => {
                    &&& a1.state_spec() == if active == Some(pl)
                        && owns_tank(w, pl) {
                        TargetingState::SelectTarget
                    } else {
                        TargetingState::WaitForTurn
                    }
                    &&& c1 == c0
                },
                TargetingState::SelectTarget => {
                    &&& c1 == c0
                    &&& !owns_tank(w, pl) ==> a1.state_spec()
                        == TargetingState::WaitForTurn
                    &&& owns_tank(w, pl) ==> match a1.state_spec() {
                        TargetingState::AlignToTarget { x, y } => exists|i: int|
                            0 <= i < w.slots().len() && #[trigger] is_target(w, i, pl.tank_id)
                                && (forall|j: int| 0 <= j < i ==> !is_target(w, j, pl.tank_id))
                                && w.slots()[i].parts.position.unwrap().x == x
                                && w.slots()[i].parts.position.unwrap().y == y,
                        TargetingState::SelectTarget => forall|j: int|
                            0 <= j < w.slots().len() ==> !is_target(w, j, pl.tank_id),
                        _ => false,
                    }
                },
                TargetingState::AlignToTarget { x, y } => {
                    let parts = w.parts_of(pl.tank_id);
                    if owns_tank(w, pl) && parts.position is Some {
                        let t = parts.tank.unwrap();
                        let p = parts.position.unwrap();
                        let (cmds, done) = aim_plan(
                            x - p.x,
                            y - p.y,
                            t.power_level as int,
                            t.barrel_orient as int,
                            trig,
                        );
                        &&& c1.pending() == c0.pending() + cmds
                        &&& c1.fire_pending() == c0.fire_pending()
                        &&& a1.state_spec() == if done {
                            TargetingState::Fire
                        } else {
                            a0.state_spec()
                        }
                    } else {
                        &&& c1 == c0
                        &&& a1.state_spec() == a0.state_spec()
                    }
                },
                TargetingState::Fire => {
                    &&& a1.state_spec() == TargetingState::WaitForTurn
                    &&& c1.pending() == c0.pending()
                    &&& c1.fire_pending() == (c0.fire_pending() || (
                    active == Some(pl) && owns_tank(w, pl)))
                },
            }
        })
}

/// A computer player.
#[derive(Debug)]
pub struct AiController {
    player: Player,
    state: TargetingState,
}

impl AiController {
    pub closed spec fn player_spec(&self) -> Player {
        self.player
    }

    pub closed spec fn state_spec(&self) -> TargetingState {
        self.state
    }

    /// A player waiting for its turn.
    pub fn new(player: Player) -> (r: AiController)
        ensures
            r.player_spec() == player,
            r.state_spec() == TargetingState::WaitForTurn,
    {
        AiController { player, state: TargetingState::WaitForTurn }
    }

    pub fn state(&self) -> (r: TargetingState)
        ensures
            r == self.state_spec(),
    {
        self.state
    }

    fn first_target(world: &World, own: Entity) -> (r: Option<usize>)
        ensures
            r matches Some(i) ==> i < world.slots().len() && is_target(*world, i as int, own) && forall|
                j: int,
            |
                0 <= j < i ==> !is_target(*world, j, own),
            r is None ==> forall|j: int|
                0 <= j < world.slots().len() ==> !is_target(*world, j, own),
    {
        let mut i: usize = 0;
        while i < world.len()
            invariant
                0 <= i <= world.slots().len(),
                forall|j: int| 0 <= j < i ==> !is_target(*world, j, own),
            decreases world.slots().len() - i,
        {
            let s = world.slot(i);
            if s.alive && s.parts.tank.is_some() && s.parts.position.is_some() {
                let e = Entity { index: i, generation: s.generation };
                if e != own {
                    return Some(i);
                }
            }
            i += 1;
        }
        None
    }

    fn owns(&self, world: &World) -> (r: bool)
        ensures
            r == owns_tank(*world, self.player),
    {
        match world.get(self.player.tank_id) {
            Some(c) => c.tank.is_some(),
            None => false,
        }
    }

    fn is_turn(&self, world: &World, active: &ActivePlayer) -> (r: bool)
        ensures
            r == (active.current() == Some(self.player) && owns_tank(*world, self.player)),
    {
        match active.player() {
            Some(p) => p == self.player && self.owns(world),
            None => false,
        }
    }

    /// One step of the computer player.
    /// - Waiting: once it is this player's turn and its tank stands, it
    ///   goes on to choose a target.
    /// - Choosing: the first standing tank of another player becomes the
    ///   target, by where it stands now; with none it tries again next time,
    ///   and without its own tank it goes back to waiting.
    /// - Aiming: it gives the commands of one aiming step (see `aim_plan`)
    ///   and fires once the aim can get no better.
    /// - Firing: if it is still this player's turn it asks for a shot; either
    ///   way it goes back to waiting.
    pub fn run(
        &mut self,
        controls: &mut TankControls,
        world: &World,
        active: &ActivePlayer,
        trig: &TrigTable,
    )
        requires
            trig.wf(),
        ensures
            ai_done(
                *old(self),
                *final(self),
                *old(controls),
                *final(controls),
                *world,
                active.current(),
                *trig,
            ),
    {
        match self.state {
            TargetingState::WaitForTurn => {
                if self.is_turn(world, active) {
                    self.state = TargetingState::SelectTarget;
                }
            },
            TargetingState::SelectTarget => {
                if self.owns(world) {
                    match Self::first_target(world, self.player.tank_id) {
                        Some(i) => {
                            let p = world.slot(i).parts.position.unwrap();
                            self.state = TargetingState::AlignToTarget { x: p.x, y: p.y };
                        },
                        None => {},
                    }
                } else {
                    self.state = TargetingState::WaitForTurn;
                }
            },
            TargetingState::AlignToTarget { x, y } => {
                self.align_to_target(controls, world, trig, x, y);
            },
            TargetingState::Fire => {
                if self.is_turn(world, active) {
                    controls.fire();
                }
                self.state = TargetingState::WaitForTurn;
            },
        }
    }

    fn align_to_target(
        &mut self,
        controls: &mut TankControls,
        world: &World,
        trig: &TrigTable,
        x: i64,
        y: i64,
    )
        requires
            trig.wf(),
            old(self).state == (TargetingState::AlignToTarget { x, y }),
        ensures
            final(self).player == old(self).player,
            ({
                let pl = old(self).player;
                let w = *world;
                let parts = w.parts_of(pl.tank_id);
                if owns_tank(w, pl) && parts.position is Some {
                    let t = parts.tank.unwrap();
                    let p = parts.position.unwrap();
                    let (cmds, done) = aim_plan(
                        x - p.x,
                        y - p.y,
                        t.power_level as int,
                        t.barrel_orient as int,
                        *trig,
                    );
                    &&& final(controls).pending() == old(controls).pending() + cmds
                    &&& final(controls).fire_pending() == old(controls).fire_pending()
                    &&& final(self).state == if done {
                        TargetingState::Fire
                    } else {
                        old(self).state
                    }
                } else {
                    &&& *final(controls) == *old(controls)
                    &&& final(self).state == old(self).state
                }
            }),
    {
        let parts = match world.get(self.player.tank_id) {
            Some(c) => c,
            None => {
                return;
            },
        };
        let (tank, pos) = match (parts.tank, parts.position) {
            (Some(t), Some(p)) => (t, p),
            _ => {
                return;
            },
        };
        let ghost start = controls.pending();
        let dx = x as i128 - pos.x as i128;
        let dy = y as i128 - pos.y as i128;
        let barrel = tank.barrel_orient;
        let power = tank.power_level as i64;
        if barrel <= 0 && dx > 0 {
            controls.angle_increase();
            assert(controls.pending() =~= start + seq![TankControl::AngleIncreasing]);
            return;
        } else if barrel >= 0 && dx < 0 {
            controls.angle_decrease();
            assert(controls.pending() =~= start + seq![TankControl::AngleDecreasing]);
            return;
        }
        assert(-0x2_0000_0000_0000_0000 <= dy <= 0x2_0000_0000_0000_0000);
        let (y_end, falling) = calc_end_y(dx, power, barrel, trig);
        let miss = y_end - dy;
        if !falling || y_end < HOPELESS_DROP as i128 {
            if dx < 0 {
                controls.angle_decrease();
            } else {
                controls.angle_increase();
            }
            controls.power_increase();
            assert(controls.pending() =~= start + aim_plan(
                dx as int,
                dy as int,
                power as int,
                barrel as int,
                *trig,
            ).0);
            return;
        }
        let miss_abs = if miss < 0 {
            -miss
        } else {
            miss
        };
        let mut changed = false;
        let (y_more, lands_more) = calc_end_y(dx, power + POWER_STEP, barrel, trig);
        let d_more = if y_more - dy < 0 {
            dy - y_more
        } else {
            y_more - dy
        };
        if lands_more && d_more < miss_abs && power < MAX_POWER as i64 {
            controls.power_increase();
            changed = true;
        } else {
            let (y_less, lands_less) = calc_end_y(dx, power - POWER_STEP, barrel, trig);
            let d_less = if y_less - dy < 0 {
                dy - y_less
            } else {
                y_less - dy
            };
            if lands_less && d_less < miss_abs && power > 0 {
                controls.power_decrease();
                changed = true;
            } else {
                controls.power_stop();
            }
        }
        let (y_up, lands_up) = calc_end_y(dx, power, normalize_angle(barrel as i128 + ANGLE_STEP as i128), trig);
        let d_up = if y_up - dy < 0 {
            dy - y_up
        } else {
            y_up - dy
        };
        if !changed && lands_up && d_up < miss_abs {
            controls.angle_increase();
            changed = true;
        } else {
            let (y_down, lands_down) = calc_end_y(
                dx,
                power,
                normalize_angle(barrel as i128 - ANGLE_STEP as i128),
                trig,
            );
            let d_down = if y_down - dy < 0 {
                dy - y_down
            } else {
                y_down - dy
            };
            if !changed && lands_down && d_down < miss_abs {
                controls.angle_decrease();
                changed = true;
            } else {
                controls.angle_stop();
            }
        }
        assert(controls.pending() =~= start + aim_plan(
            dx as int,
            dy as int,
            power as int,
            barrel as int,
            *trig,
        ).0);
        if !changed {
            self.state = TargetingState::Fire;
        }
    }
}

} // verus!
