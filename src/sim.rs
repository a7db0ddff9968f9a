//! A whole match: the world, its shared resources, the players' seats and
//! the schedule that runs the systems tick by tick.
use crate::explosion::{explosion_done, ExplosionSystem};
use crate::fixed::TrigTable;
use crate::game::ai::{ai_done, AiController, TargetingState};
use crate::game::controls::{TankControl, TankControls};
use crate::game::player::{tank_parts, Player, Players};
use crate::game::state::{game_state_done, ActivePlayer, GameState, GameStateSystem, QuitStatus};
use crate::physics::{gravity_done, inertia_done, Dimensions, GravitySystem, InertiaSystem};
use crate::projectile::{collision_done, fire_done, CollisionSystem, FireControlSystem};
use crate::schedule::{Schedule, SystemKind};
use crate::tank::{tank_control_done, TankControlSystem};
use crate::terrain::{height_at, Terrain};
use crate::world::{swept, Entity, World};
use vstd::prelude::*;

verus! {

/// What belongs to one player: its controls and the systems that act on
/// them, and its computer opponent's mind if it is not played by a person.
#[derive(Debug)]
pub struct Seat {
    pub controls: TankControls,
    pub firing: FireControlSystem,
    pub tank_control: TankControlSystem,
    pub ai: Option<AiController>,
}

/// A match in progress.
#[derive(Debug)]
pub struct Simulation {
    world: World,
    terrain: Terrain,
    dims: Dimensions,
    trig: TrigTable,
    active: ActivePlayer,
    players: Players,
    game_state: GameStateSystem,
    collision: CollisionSystem,
    inertia: InertiaSystem,
    gravity: GravitySystem,
    explosion: ExplosionSystem,
    seats: Vec<Seat>,
    schedule: Schedule,
}

/// Priority of the shell collision system.
pub const COLLISION_PRIORITY: i32 = 20;

/// Priority of the motion system.
pub const INERTIA_PRIORITY: i32 = 30;

/// Priority of gravity and of the explosion system.
pub const GRAVITY_PRIORITY: i32 = 35;

/// Priority of the turn machine.
pub const GAME_STATE_PRIORITY: i32 = 50;

/// Priority of each player's firing system.
pub const FIRING_PRIORITY: i32 = 60;

/// Priority of each player's aim and power system.
pub const TANK_CONTROL_PRIORITY: i32 = 61;

/// Priority of each computer player.
pub const AI_PRIORITY: i32 = 70;

/// The firing systems of seats `0..n`.
pub open spec fn firing_systems(n: nat) -> Seq<(i32, SystemKind)> {
    Seq::new(n, |i: int| (FIRING_PRIORITY, SystemKind::Firing { seat: i as usize }))
}

/// The aim and power systems of seats `0..n`.
pub open spec fn control_systems(n: nat) -> Seq<(i32, SystemKind)> {
    Seq::new(n, |i: int| (TANK_CONTROL_PRIORITY, SystemKind::TankControl { seat: i as usize }))
}

/// The computer players of seats `from..to`.
pub open spec fn computer_systems(from: nat, to: nat) -> Seq<(i32, SystemKind)> {
    Seq::new(
        if from < to {
            (to - from) as nat
        } else {
            0
        },
        |i: int| (AI_PRIORITY, SystemKind::Ai { seat: (from + i) as usize }),
    )
}

/// The schedule of a match with `seats` players of whom the first `humans`
/// are people, in running order.
pub open spec fn standard_schedule(seats: nat, humans: nat) -> Seq<(i32, SystemKind)> {
    seq![
        (COLLISION_PRIORITY, SystemKind::Collision),
        (INERTIA_PRIORITY, SystemKind::Inertia),
        (GRAVITY_PRIORITY, SystemKind::Gravity),
        (GRAVITY_PRIORITY, SystemKind::Explosion),
        (GAME_STATE_PRIORITY, SystemKind::GameState),
    ] + firing_systems(seats) + control_systems(seats) + computer_systems(humans, seats)
}

/// The terrain, field, sine table, roster and schedule are the same.
pub open spec fn keeps_setting(s0: Simulation, s1: Simulation) -> bool {
    &&& s1.terrain_spec() == s0.terrain_spec()
    &&& s1.dims_spec() == s0.dims_spec()
    &&& s1.trig_spec() == s0.trig_spec()
    &&& s1.players_spec() == s0.players_spec()
    &&& s1.schedule_spec() == s0.schedule_spec()
}

/// Seats, active player and turn machine are the same.
pub open spec fn keeps_turn(s0: Simulation, s1: Simulation) -> bool {
    &&& s1.seats_spec() == s0.seats_spec()
    &&& s1.active_spec() == s0.active_spec()
    &&& s1.game_state_spec() == s0.game_state_spec()
}

/// `s1` is `s0` after one run of the system `kind`, as that system's own
/// contract states it.
pub open spec fn system_step(s0: Simulation, kind: SystemKind, dt: u32, s1: Simulation) -> bool {
    let w0 = s0.world_spec();
    let w1 = s1.world_spec();
    let a0 = s0.active_spec();
    let seats = s0.seats_spec();
    &&& keeps_setting(s0, s1)
    &&& match kind {
        SystemKind::Collision => {
            &&& keeps_turn(s0, s1)
            &&& if w0.slots().len() < usize::MAX / 2 {
                exists|r: Seq<Entity>|
                    #![trigger collision_done(w0, w1, r, s0.dims_spec(), s0.terrain_spec())]
                    collision_done(w0, w1, r, s0.dims_spec(), s0.terrain_spec())
            } else {
                w1 == w0
            }
        },
        SystemKind::Inertia => keeps_turn(s0, s1) && inertia_done(w0, w1, dt),
        SystemKind::Gravity => keeps_turn(s0, s1) && gravity_done(w0, w1, dt),
        SystemKind::Explosion => keeps_turn(s0, s1) && explosion_done(w0, w1, s0.trig_spec(), dt),
        SystemKind::GameState => {
            &&& s1.seats_spec() == seats
            &&& w1 == w0
            &&& game_state_done(
                s0.game_state_spec(),
                s1.game_state_spec(),
                w0,
                s0.players_spec(),
                a0,
                s1.active_spec(),
            )
        },
        SystemKind::Firing { seat } => {
            &&& s1.active_spec() == a0
            &&& s1.game_state_spec() == s0.game_state_spec()
            &&& if seat < seats.len() && w0.slots().len() < usize::MAX {
                let st = seats[seat as int];
                exists|c: TankControls, r: Option<Entity>|
                    #![trigger fire_done(st.firing.player_spec(), st.controls, c, w0, w1, a0, s0.trig_spec(), r)]
                    fire_done(st.firing.player_spec(), st.controls, c, w0, w1, a0, s0.trig_spec(), r)
                        && s1.seats_spec() == seats.update(seat as int, Seat { controls: c, ..st })
            } else {
                w1 == w0 && s1.seats_spec() == seats
            }
        },
        SystemKind::TankControl { seat } => {
            &&& s1.active_spec() == a0
            &&& s1.game_state_spec() == s0.game_state_spec()
            &&& if seat < seats.len() {
                let st = seats[seat as int];
                exists|t: TankControlSystem, c: TankControls|
                    #![trigger tank_control_done(st.tank_control, t, st.controls, c, w0, w1, a0)]
                    tank_control_done(st.tank_control, t, st.controls, c, w0, w1, a0)
                        && s1.seats_spec() == seats.update(
                        seat as int,
                        Seat { controls: c, tank_control: t, ..st },
                    )
            } else {
                w1 == w0 && s1.seats_spec() == seats
            }
        },
        SystemKind::Ai { seat } => {
            &&& s1.active_spec() == a0
            &&& s1.game_state_spec() == s0.game_state_spec()
            &&& w1 == w0
            &&& if seat < seats.len() && seats[seat as int].ai is Some {
                let st = seats[seat as int];
                exists|a: AiController, c: TankControls|
                    #![trigger ai_done(st.ai.unwrap(), a, st.controls, c, w0, a0, s0.trig_spec())]
                    ai_done(st.ai.unwrap(), a, st.controls, c, w0, a0, s0.trig_spec())
                        && s1.seats_spec() == seats.update(
                        seat as int,
                        Seat { controls: c, ai: Some(a), ..st },
                    )
            } else {
                s1.seats_spec() == seats
            }
        },
    }
}

/// `s1` is `s0` after the pending deletions were carried out.
pub open spec fn swept_sim(s0: Simulation, s1: Simulation) -> bool {
    &&& keeps_setting(s0, s1)
    &&& keeps_turn(s0, s1)
    &&& swept(s0.world_spec(), s1.world_spec())
}

/// `trace` runs from `s0` through one run of each system of `kinds`, in
/// order.
pub open spec fn runs_through(trace: Seq<Simulation>, kinds: Seq<(i32, SystemKind)>, dt: u32) -> bool {
    &&& trace.len() == kinds.len() + 1
    &&& forall|i: int|
        0 <= i < kinds.len() ==> #[trigger] system_step(trace[i], kinds[i].1, dt, trace[i + 1])
}

impl Simulation {
    pub closed spec fn world_spec(&self) -> World {
        self.world
    }

    pub closed spec fn game_state_spec(&self) -> GameStateSystem {
        self.game_state
    }

    pub closed spec fn active_spec(&self) -> Option<Player> {
        self.active.current()
    }

    pub closed spec fn schedule_spec(&self) -> Schedule {
        self.schedule
    }

    pub closed spec fn seat_count(&self) -> nat {
        self.seats@.len()
    }

    /// The seats, one per player in roster order.
    pub closed spec fn seats_spec(&self) -> Seq<Seat> {
        self.seats@
    }

    pub closed spec fn players_spec(&self) -> Players {
        self.players
    }

    pub closed spec fn terrain_spec(&self) -> Terrain {
        self.terrain
    }

    pub closed spec fn dims_spec(&self) -> Dimensions {
        self.dims
    }

    pub closed spec fn trig_spec(&self) -> TrigTable {
        self.trig
    }

    pub closed spec fn wf(&self) -> bool {
        &&& self.terrain.wf()
        &&& self.trig.wf()
        &&& self.schedule.wf()
        &&& (self.game_state.outcome_spec() is Some) == (self.game_state.state_spec()
            == GameState::GameOver)
    }

    /// A match on `terrain` with one tank per placement `(x, lean)` (see
    /// `Players::create`). The first `human_players` players are played by
    /// people, the rest by the computer. The systems run in rising priority:
    /// collisions, motion, gravity, explosions, the turn machine, then each
    /// player's firing, each player's aim and power, and each computer
    /// player.
    pub fn new(
        dims: Dimensions,
        terrain: Terrain,
        trig: TrigTable,
        placements: &Vec<(i64, i64)>,
        human_players: usize,
    ) -> (r: Simulation)
        requires
            terrain.wf(),
            trig.wf(),
            placements@.len() < 255,
        ensures
            r.wf(),
            r.seat_count() == placements@.len(),
            r.schedule_spec().entries() == standard_schedule(
                placements@.len(),
                human_players as nat,
            ),
            r.active_spec() is None,
            r.game_state_spec().state_spec() == GameState::CalculateNextPlayer,
            r.game_state_spec().outcome_spec() is None,
            r.terrain_spec() == terrain,
            r.players_spec().wf(),
            r.players_spec().roster().len() == placements@.len(),
            r.world_spec().doomed().len() == 0,
            forall|i: int|
                0 <= i < placements@.len() ==> {
                    let pl = #[trigger] r.players_spec().roster()[i];
                    let (x, lean) = placements@[i];
                    let seat = r.seats_spec()[i];
                    &&& pl.player_number == i + 1
                    &&& r.world_spec().live(pl.tank_id)
                    &&& r.world_spec().parts_of(pl.tank_id) == tank_parts(
                        (i + 1) as u8,
                        x,
                        height_at(terrain.samples(), x as int) as i64,
                        lean,
                    )
                    &&& seat.controls.pending().len() == 0
                    &&& !seat.controls.fire_pending()
                    &&& seat.firing.player_spec() == pl
                    &&& seat.tank_control.player_spec() == pl
                    &&& seat.tank_control.angle_held() is None
                    &&& seat.tank_control.power_held() is None
                    &&& match seat.ai {
                        Some(ai) => i >= human_players && ai.player_spec() == pl
                            && ai.state_spec() == TargetingState::WaitForTurn,
                        None => i < human_players,
                    }
                },
    {
        let mut world = World::new();
        let players = Players::create(&mut world, &terrain, placements);
        let roster = players.to_vec();
        let n = roster.len();
        let ghost count = placements@.len();
        let ghost humans = human_players as nat;
        let mut schedule = Schedule::new();
        schedule.add_system(
            SystemKind::Collision,
            String::from_str("collide-projectile"),
            COLLISION_PRIORITY,
        );
        schedule.add_system(SystemKind::Inertia, String::from_str("inertia"), INERTIA_PRIORITY);
        schedule.add_system(SystemKind::Gravity, String::from_str("gravity"), GRAVITY_PRIORITY);
        schedule.add_system(SystemKind::Explosion, String::from_str("explosion"), GRAVITY_PRIORITY);
        schedule.add_system(
            SystemKind::GameState,
            String::from_str("game-state"),
            GAME_STATE_PRIORITY,
        );
        let ghost base = schedule.entries();
        assert(base =~= standard_schedule(0, 0));
        assert(base + firing_systems(0) =~= base);
        let mut seats: Vec<Seat> = Vec::new();
        let mut i: usize = 0;
        while i < n
            invariant
                n == roster@.len(),
                roster@ == players.roster(),
                0 <= i <= n,
                seats@.len() == i,
                schedule.wf(),
                schedule.entries() == base + firing_systems(i as nat),
                base == standard_schedule(0, 0),
                forall|k: int|
                    0 <= k < i ==> {
                        let seat = #[trigger] seats@[k];
                        let pl = roster@[k];
                        &&& seat.controls.pending().len() == 0
                        &&& !seat.controls.fire_pending()
                        &&& seat.firing.player_spec() == pl
                        &&& seat.tank_control.player_spec() == pl
                        &&& seat.tank_control.angle_held() is None
                        &&& seat.tank_control.power_held() is None
                        &&& match seat.ai {
                            Some(ai) => k >= human_players && ai.player_spec() == pl
                                && ai.state_spec() == TargetingState::WaitForTurn,
                            None => k < human_players,
                        }
                    },
            decreases n - i,
        {
            let player = roster[i];
            let ai = if i < human_players {
                None
            } else {
                Some(AiController::new(player))
            };
            seats.push(
                Seat {
                    controls: TankControls::new(),
                    firing: FireControlSystem::new(player),
                    tank_control: TankControlSystem::new(player),
                    ai,
                },
            );
            let ghost before = schedule.entries();
            schedule.add_system(
                SystemKind::Firing { seat: i },
                String::from_str("firing"),
                FIRING_PRIORITY,
            );
            assert(schedule.entries() =~= base + firing_systems((i + 1) as nat));
            i += 1;
        }
        let ghost mid = schedule.entries();
        assert(mid + control_systems(0) =~= mid);
        let mut j: usize = 0;
        while j < n
            invariant
                0 <= j <= n,
                schedule.wf(),
                mid == base + firing_systems(n as nat),
                schedule.entries() == mid + control_systems(j as nat),
            decreases n - j,
        {
            schedule.add_system(
                SystemKind::TankControl { seat: j },
                String::from_str("tank-control"),
                TANK_CONTROL_PRIORITY,
            );
            assert(schedule.entries() =~= mid + control_systems((j + 1) as nat));
            j += 1;
        }
        let ghost late = schedule.entries();
        assert(late + computer_systems(human_players as nat, human_players as nat) =~= late);
        let mut k: usize = human_players;
        while k < n
            invariant
                human_players <= k,
                k <= n || human_players >= n,
                human_players >= n ==> k == human_players,
                schedule.wf(),
                late == mid + control_systems(n as nat),
                schedule.entries() == late + computer_systems(human_players as nat, k as nat),
            decreases n - k,
        {
            schedule.add_system(SystemKind::Ai { seat: k }, String::from_str("ai"), AI_PRIORITY);
            assert(schedule.entries() =~= late + computer_systems(
                human_players as nat,
                (k + 1) as nat,
            ));
            k += 1;
        }
        assert(computer_systems(human_players as nat, k as nat) =~= computer_systems(
            human_players as nat,
            n as nat,
        ));
        assert(schedule.entries() =~= standard_schedule(count, humans));
        Simulation {
            world,
            terrain,
            dims,
            trig,
            active: ActivePlayer::new(),
            players,
            game_state: GameStateSystem::new(),
            collision: CollisionSystem::new(),
            inertia: InertiaSystem::new(),
            gravity: GravitySystem::new(),
            explosion: ExplosionSystem::new(),
            seats,
            schedule,
        }
    }

    pub fn world(&self) -> (r: &World)
        ensures
            *r == self.world_spec(),
    {
        &self.world
    }

    pub fn terrain(&self) -> (r: &Terrain)
        ensures
            *r == self.terrain_spec(),
    {
        &self.terrain
    }

    pub fn dimensions(&self) -> (r: Dimensions)
        ensures
            r == self.dims_spec(),
    {
        self.dims
    }

    pub fn players(&self) -> (r: &Players)
        ensures
            *r == self.players_spec(),
    {
        &self.players
    }

    pub fn schedule(&self) -> (r: &Schedule)
        ensures
            *r == self.schedule_spec(),
    {
        &self.schedule
    }

    pub fn active_player(&self) -> (r: Option<Player>)
        ensures
            r == self.active_spec(),
    {
        self.active.player()
    }

    pub fn game_state(&self) -> (r: GameState)
        ensures
            r == self.game_state_spec().state_spec(),
    {
        self.game_state.state()
    }

    /// How the match ended, once it has.
    pub fn outcome(&self) -> (r: Option<QuitStatus>)
        ensures
            r == self.game_state_spec().outcome_spec(),
    {
        self.game_state.outcome()
    }

    /// Hands a person's aim or power command to seat `seat`; commands for a
    /// seat that does not exist are dropped.
    pub fn give(&mut self, seat: usize, command: TankControl)
        ensures
            final(self).world_spec() == old(self).world_spec(),
            final(self).game_state_spec() == old(self).game_state_spec(),
            final(self).active_spec() == old(self).active_spec(),
            final(self).schedule_spec() == old(self).schedule_spec(),
            final(self).wf() == old(self).wf(),
            final(self).seats_spec().len() == old(self).seats_spec().len(),
            forall|i: int|
                0 <= i < old(self).seats_spec().len() && i != seat
                    ==> #[trigger] final(self).seats_spec()[i] == old(self).seats_spec()[i],
            seat < old(self).seats_spec().len() ==> {
                let s0 = old(self).seats_spec()[seat as int];
                let s1 = final(self).seats_spec()[seat as int];
                &&& s1.controls.pending() == s0.controls.pending().push(command)
                &&& s1.controls.fire_pending() == s0.controls.fire_pending()
                &&& s1.firing == s0.firing
                &&& s1.tank_control == s0.tank_control
                &&& s1.ai == s0.ai
            },
    {
        if seat < self.seats.len() {
            match command {
                TankControl::AngleDecreasing => self.seats[seat].controls.angle_decrease(),
                TankControl::AngleIncreasing => self.seats[seat].controls.angle_increase(),
                TankControl::AngleStop => self.seats[seat].controls.angle_stop(),
                TankControl::PowerDecreasing => self.seats[seat].controls.power_decrease(),
                TankControl::PowerIncreasing => self.seats[seat].controls.power_increase(),
                TankControl::PowerStop => self.seats[seat].controls.power_stop(),
            }
        }
    }

    /// Hands a person's request for a shot to seat `seat`; requests for a
    /// seat that does not exist are dropped.
    pub fn fire(&mut self, seat: usize)
        ensures
            final(self).world_spec() == old(self).world_spec(),
            final(self).game_state_spec() == old(self).game_state_spec(),
            final(self).active_spec() == old(self).active_spec(),
            final(self).schedule_spec() == old(self).schedule_spec(),
            final(self).wf() == old(self).wf(),
            final(self).seats_spec().len() == old(self).seats_spec().len(),
            forall|i: int|
                0 <= i < old(self).seats_spec().len() && i != seat
                    ==> #[trigger] final(self).seats_spec()[i] == old(self).seats_spec()[i],
            seat < old(self).seats_spec().len() ==> {
                let s0 = old(self).seats_spec()[seat as int];
                let s1 = final(self).seats_spec()[seat as int];
                &&& s1.controls.pending() == s0.controls.pending()
                &&& s1.controls.fire_pending()
                &&& s1.firing == s0.firing
                &&& s1.tank_control == s0.tank_control
                &&& s1.ai == s0.ai
            },
    {
        if seat < self.seats.len() {
            self.seats[seat].controls.fire();
        }
    }

    /// One tick of `dt` milliseconds: every registered system runs once, in
    /// the schedule's order, and the deletions they asked for are carried
    /// out at the end. A world so full that its slots could run out before
    /// the tick ends takes no new shells or explosions on that tick. A
    /// finished match keeps its outcome.
    pub fn tick(&mut self, dt: u32)
        requires
            old(self).wf(),
        ensures
            exists|trace: Seq<Simulation>|
                #![trigger runs_through(trace, old(self).schedule_spec().entries(), dt)]
                runs_through(trace, old(self).schedule_spec().entries(), dt) && trace[0] == *old(
                    self,
                ) && swept_sim(trace.last(), *final(self)),
            final(self).wf(),
            final(self).world_spec().doomed().len() == 0,
            final(self).schedule_spec() == old(self).schedule_spec(),
            old(self).game_state_spec().outcome_spec() is Some
                ==> final(self).game_state_spec().outcome_spec()
                == old(self).game_state_spec().outcome_spec(),
    {
        let ghost outcome = self.game_state.outcome_spec();
        let ghost kinds = self.schedule.entries();
        let ghost mut trace: Seq<Simulation> = seq![*self];
        let mut i: usize = 0;
        while i < self.schedule.len()
            invariant
                self.wf(),
                self.schedule == old(self).schedule,
                kinds == old(self).schedule.entries(),
                0 <= i <= kinds.len(),
                outcome == old(self).game_state.outcome_spec(),
                outcome is Some ==> self.game_state.outcome_spec() == outcome,
                trace.len() == i + 1,
                trace[0] == *old(self),
                trace.last() == *self,
                forall|j: int|
                    0 <= j < i ==> #[trigger] system_step(trace[j], kinds[j].1, dt, trace[j + 1]),
            decreases kinds.len() - i,
        {
            let ghost before = *self;
            let kind = self.schedule.kind(i);
            match kind {
                SystemKind::Collision => {
                    if self.world.len() < usize::MAX / 2 {
                        let r = self.collision.run(&mut self.world, &self.dims, &self.terrain);
                        assert(collision_done(
                            before.world,
                            self.world,
                            r@,
                            self.dims,
                            self.terrain,
                        ));
                        assert(keeps_setting(before, *self));
                        assert(keeps_turn(before, *self));
                        assert(collision_done(before.world_spec(), self.world_spec(), r@, before.dims_spec(), before.terrain_spec()));
                        assert(system_step(before, kind, dt, *self));
                    }
                    assert(system_step(before, kind, dt, *self));
                },
                SystemKind::Inertia => {
                    self.inertia.run(&mut self.world, dt);
                    assert(system_step(before, kind, dt, *self));
                },
                SystemKind::Gravity => {
                    self.gravity.run(&mut self.world, dt);
                    assert(system_step(before, kind, dt, *self));
                },
                SystemKind::Explosion => {
                    self.explosion.run(&mut self.world, &self.trig, dt);
                    assert(system_step(before, kind, dt, *self));
                },
                SystemKind::GameState => {
                    self.game_state.run(&self.world, &self.players, &mut self.active);
                    assert(system_step(before, kind, dt, *self));
                },
                SystemKind::Firing { seat } => {
                    if seat < self.seats.len() && self.world.len() < usize::MAX {
                        let s = &mut self.seats[seat];
                        let r = s.firing.run(&mut s.controls, &mut self.world, &self.active, &self.trig);
                        let ghost st = before.seats@[seat as int];
                        assert(fire_done(
                            st.firing.player_spec(),
                            st.controls,
                            self.seats@[seat as int].controls,
                            before.world,
                            self.world,
                            self.active.current(),
                            self.trig,
                            r,
                        ));
                        assert(self.seats@ == before.seats@.update(
                            seat as int,
                            Seat { controls: self.seats@[seat as int].controls, ..st },
                        ));
                        let ghost c = self.seats@[seat as int].controls;
                        assert(fire_done(
                            before.seats_spec()[seat as int].firing.player_spec(),
                            before.seats_spec()[seat as int].controls,
                            c,
                            before.world_spec(),
                            self.world_spec(),
                            before.active_spec(),
                            before.trig_spec(),
                            r,
                        ));
                        assert(self.seats_spec() == before.seats_spec().update(
                            seat as int,
                            Seat { controls: c, ..before.seats_spec()[seat as int] },
                        ));
                        assert(system_step(before, kind, dt, *self));
                    }
                    assert(system_step(before, kind, dt, *self));
                },
                SystemKind::TankControl { seat } => {
                    if seat < self.seats.len() {
                        let s = &mut self.seats[seat];
                        s.tank_control.run(&mut s.controls, &mut self.world, &self.active);
                        let ghost st = before.seats@[seat as int];
                        let ghost now = self.seats@[seat as int];
                        assert(tank_control_done(
                            st.tank_control,
                            now.tank_control,
                            st.controls,
                            now.controls,
                            before.world,
                            self.world,
                            self.active.current(),
                        ));
                        assert(self.seats@ == before.seats@.update(
                            seat as int,
                            Seat { controls: now.controls, tank_control: now.tank_control, ..st },
                        ));
                        assert(tank_control_done(
                            before.seats_spec()[seat as int].tank_control,
                            now.tank_control,
                            before.seats_spec()[seat as int].controls,
                            now.controls,
                            before.world_spec(),
                            self.world_spec(),
                            before.active_spec(),
                        ));
                        assert(system_step(before, kind, dt, *self));
                    }
                    assert(system_step(before, kind, dt, *self));
                },
                SystemKind::Ai { seat } => {
                    if seat < self.seats.len() {
                        let s = &mut self.seats[seat];
                        match &mut s.ai {
                            Some(ai) => ai.run(&mut s.controls, &self.world, &self.active, &self.trig),
                            None => {},
                        }
                        proof {
                        let st = before.seats@[seat as int];
                        let now = self.seats@[seat as int];
                        if st.ai is Some {
                            assert(ai_done(
                                st.ai.unwrap(),
                                now.ai.unwrap(),
                                st.controls,
                                now.controls,
                                self.world,
                                self.active.current(),
                                self.trig,
                            ));
                            assert(now.ai is Some);
                            assert(ai_done(
                                before.seats_spec()[seat as int].ai.unwrap(),
                                now.ai.unwrap(),
                                before.seats_spec()[seat as int].controls,
                                now.controls,
                                before.world_spec(),
                                before.active_spec(),
                                before.trig_spec(),
                            ));
                            assert(self.seats_spec() == before.seats_spec().update(
                                seat as int,
                                Seat {
                                    controls: now.controls,
                                    ai: Some(now.ai.unwrap()),
                                    ..before.seats_spec()[seat as int]
                                },
                            ));
                        } else {
                            assert(self.seats@ == before.seats@);
                        }
                        }
                    }
                },
            }
            assert(system_step(before, kind, dt, *self));
            proof {
                trace = trace.push(*self);
            }
            i += 1;
        }
        let ghost last = *self;
        self.world.maintain();
        assert(swept_sim(last, *self));
        assert(kinds == old(self).schedule_spec().entries());
        assert(runs_through(trace, old(self).schedule_spec().entries(), dt));
        assert(trace[0] == *old(self));
        assert(trace.last() == last);
        assert(swept_sim(trace.last(), *self));
    }
}

} // verus!
