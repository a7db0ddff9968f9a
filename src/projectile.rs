//! Shells: firing them, and what happens when they leave the field or hit
//! the ground.
use crate::components::{
    Components, Drawable, Explosion, Mass, Position, Projectile, Tank, Velocity,
    EXPLOSION_DURATION,
};
use crate::fixed::{div_toward_zero, trunc_div, TrigTable, LENGTH_ONE, TRIG_ONE};
use crate::game::controls::TankControls;
use crate::game::player::Player;
use crate::game::state::ActivePlayer;
use crate::physics::Dimensions;
use crate::terrain::{height_at, Terrain};
use crate::world::{distinct_slots, names_slot, only_slots_changed, Entity, Slot, World};
use vstd::prelude::*;

verus! {

/// The launch speed at no power, in thousandths of a unit per second.
pub const POWER_MIN: i64 = 150_000;

/// Extra launch speed per thousandth of power (100 units per second at full
/// power).
pub const POWER_SCALE: i64 = 100;

/// A shell's mass.
pub const SHELL_MASS: i64 = 75;

/// A shell's size, in thousandths of a unit.
pub const SHELL_SCALE: i64 = 7_000;

/// An explosion's size, in thousandths of a unit.
pub const EXPLOSION_SCALE: i64 = 50_000;

/// What a shell has run into.
#[derive(Clone, Copy, Debug, PartialEq, Eq, Structural)]
pub enum Collision {
    Clear,
    OutOfBounds,
    Terrain,
}

/// Where a point stands: the field's bounds are checked first, so the
/// terrain is only consulted within them.
pub open spec fn collision_of(p: Position, width: int, h: Seq<u16>) -> Collision {
    if p.x < 0 || p.x > width * LENGTH_ONE || p.y < 0 {
        Collision::OutOfBounds
    } else if height_at(h, p.x as int) > p.y {
        Collision::Terrain
    } else {
        Collision::Clear
    }
}

/// What the shell in slot `s`, if there is one, has run into.
pub open spec fn struck(s: Slot, width: int, h: Seq<u16>) -> Collision {
    if s.alive && s.parts.projectile is Some && s.parts.position is Some {
        collision_of(s.parts.position.unwrap(), width, h)
    } else {
        Collision::Clear
    }
}

/// The handles of the shells among the first `n` slots that have run into
/// something, in slot order.
pub open spec fn hit_list(slots: Seq<Slot>, width: int, h: Seq<u16>, n: int) -> Seq<Entity>
    decreases n,
{
    if n <= 0 {
        Seq::empty()
    } else {
        let prev = hit_list(slots, width, h, n - 1);
        if struck(slots[n - 1], width, h) != Collision::Clear {
            prev.push(Entity { index: (n - 1) as usize, generation: slots[n - 1].generation })
        } else {
            prev
        }
    }
}

/// Where the shells among the first `n` slots hit the ground, in slot
/// order.
pub open spec fn impact_list(slots: Seq<Slot>, width: int, h: Seq<u16>, n: int) -> Seq<Position>
    decreases n,
{
    if n <= 0 {
        Seq::empty()
    } else {
        let prev = impact_list(slots, width, h, n - 1);
        if struck(slots[n - 1], width, h) == Collision::Terrain {
            prev.push(slots[n - 1].parts.position.unwrap())
        } else {
            prev
        }
    }
}

/// The components of an explosion that starts at point `p`.
pub open spec fn blast_parts(p: Position) -> Components {
    Components {
        position: Some(Position { x: p.x, y: p.y, orient: 0, scale: EXPLOSION_SCALE }),
        explosion: Some(Explosion { time_elapsed: 0, time_remaining: EXPLOSION_DURATION }),
        drawable: Some(Drawable::Explosion),
        ..Components::none()
    }
}

/// A point outside the field counts as out of bounds even where it lies
/// below the terrain's extended surface: the bounds are checked first, so
/// such a shell is removed without an explosion.
pub proof fn lemma_bounds_before_terrain(p: Position, width: int, h: Seq<u16>)
    requires
        p.x < 0 || p.x > width * LENGTH_ONE || p.y < 0,
    ensures
        collision_of(p, width, h) == Collision::OutOfBounds,
        forall|s: Slot|
            s.alive && s.parts.projectile == Some(Projectile {}) && s.parts.position == Some(p)
                ==> #[trigger] struck(s, width, h) == Collision::OutOfBounds,
{
}

/// Where point `p` stands against the field and the terrain.
pub fn check_collision(p: &Position, dim: &Dimensions, terrain: &Terrain) -> (r: Collision)
    requires
        terrain.wf(),
    ensures
        r == collision_of(*p, dim.width_spec() as int, terrain.samples()),
{
    let width = dim.game_width() as i64 * LENGTH_ONE;
    if p.x < 0 || p.x > width || p.y < 0 {
        Collision::OutOfBounds
    } else if terrain.get_height(p.x) > p.y {
        Collision::Terrain
    } else {
        Collision::Clear
    }
}

/// The world after the shells that ran into something were dealt with; `r`
/// are the explosions started.
pub open spec fn collision_done(
    w0: World,
    w1: World,
    r: Seq<Entity>,
    dim: Dimensions,
    terrain: Terrain,
) -> bool {
    &&& ({
            let n = w0.slots().len() as int;
            let w = dim.width_spec() as int;
            let h = terrain.samples();
            &&& w1.doomed() == w0.doomed() + hit_list(
                w0.slots(),
                w,
                h,
                n,
            )
            &&& r.len() == impact_list(w0.slots(), w, h, n).len()
            &&& forall|k: int|
                0 <= k < r.len() ==> {
                    &&& !w0.live(#[trigger] r[k])
                    &&& w1.live(r[k])
                    &&& w1.parts_of(r[k]) == blast_parts(
                        impact_list(w0.slots(), w, h, n)[k],
                    )
                }
            &&& only_slots_changed(w0, w1, r)
        })
    &&& forall|e: Entity|
            w0.live(e) ==> w1.live(e) && w1.parts_of(e) == w0.parts_of(e)
}

/// Removes shells that leave the field or hit the ground, and starts an
/// explosion where each one hit the ground.
#[derive(Debug)]
pub struct CollisionSystem {}

impl CollisionSystem {
    pub fn new() -> (r: CollisionSystem) {
        CollisionSystem {}
    }

    /// Asks for every shell that has run into something to be removed and
    /// returns the explosions started, one per shell in the ground, in slot
    /// order. Every entity live before stays live and unchanged, and no
    /// slot changes but those of the new explosions.
    pub fn run(&mut self, world: &mut World, dim: &Dimensions, terrain: &Terrain) -> (r: Vec<
        Entity,
    >)
        requires
            terrain.wf(),
            old(world).slots().len() < usize::MAX / 2,
        ensures
            collision_done(*old(world), *final(world), r@, *dim, *terrain),
    {
        let n = world.len();
        let ghost w = dim.width_spec() as int;
        let ghost h = terrain.samples();
        let mut to_create: Vec<Position> = Vec::new();
        let mut i: usize = 0;
        while i < n
            invariant
                n == old(world).slots().len(),
                world.slots() == old(world).slots(),
                world.doomed() == old(world).doomed() + hit_list(old(world).slots(), w, h, i as int),
                to_create@ == impact_list(old(world).slots(), w, h, i as int),
                w == dim.width_spec() as int,
                h == terrain.samples(),
                terrain.wf(),
                0 <= i <= n,
                to_create@.len() <= i,
            decreases n - i,
        {
            let s = world.slot(i);
            if s.alive && s.parts.projectile.is_some() {
                if let Some(p) = s.parts.position {
                    match check_collision(&p, dim, terrain) {
                        Collision::Clear => {},
                        Collision::OutOfBounds => {
                            world.delete(Entity { index: i, generation: s.generation });
                        },
                        Collision::Terrain => {
                            world.delete(Entity { index: i, generation: s.generation });
                            to_create.push(p);
                        },
                    }
                }
            }
            assert(world.doomed() == old(world).doomed() + hit_list(
                old(world).slots(),
                w,
                h,
                i + 1,
            ));
            i += 1;
        }
        let ghost mid = *world;
        let mut created: Vec<Entity> = Vec::new();
        let mut k: usize = 0;
        while k < to_create.len()
            invariant
                0 <= k <= to_create@.len(),
                to_create@.len() <= n,
                n == old(world).slots().len(),
                n < usize::MAX / 2,
                mid.slots() == old(world).slots(),
                world.doomed() == mid.doomed(),
                world.slots().len() <= n + k,
                world.slots().len() >= n,
                created@.len() == k,
                distinct_slots(created@),
                forall|j: int| n <= j < world.slots().len() ==> #[trigger] names_slot(created@, j),
                forall|j: int|
                    0 <= j < n && !names_slot(created@, j) ==> #[trigger] world.slots()[j] == old(world).slots()[j],
                forall|j: int|
                    0 <= j < k ==> {
                        &&& !old(world).live(#[trigger] created@[j])
                        &&& world.live(created@[j])
                        &&& world.parts_of(created@[j]) == blast_parts(to_create@[j])
                    },
                forall|e: Entity|
                    old(world).live(e) ==> world.live(e) && world.parts_of(e) == old(world).parts_of(e),
            decreases to_create@.len() - k,
        {
            let p = to_create[k];
            let parts = Components {
                position: Some(Position::new(p.x, p.y, 0, EXPLOSION_SCALE)),
                explosion: Some(Explosion::new()),
                drawable: Some(Drawable::Explosion),
                ..Components::empty()
            };
            let ghost before = *world;
            let e = world.create(parts);
            proof {
                assert forall|j: int| 0 <= j < k implies {
                    &&& !old(world).live(#[trigger] created@[j])
                    &&& world.live(created@[j])
                    &&& world.parts_of(created@[j]) == blast_parts(to_create@[j])
                } by {
                    assert(before.live(created@[j]));
                    assert(created@[j].index != e.index);
                }
                assert forall|e2: Entity| old(world).live(e2) implies world.live(e2)
                    && world.parts_of(e2) == old(world).parts_of(e2) by {
                    assert(before.live(e2));
                    assert(e2.index != e.index);
                }
                if old(world).live(e) {
                    assert(before.live(e));
                }
                assert forall|j: int| 0 <= j < k implies created@[j].index != e.index by {
                    assert(before.live(created@[j]));
                }
            }
            let ghost prev = created@;
            created.push(e);
            proof {
                assert forall|a: int, b: int| 0 <= a < b < created@.len() implies (
                #[trigger] created@[a]).index != (#[trigger] created@[b]).index by {
                    if b < k {
                        assert(created@[a] == prev[a] && created@[b] == prev[b]);
                    } else {
                        assert(created@[a] == prev[a]);
                    }
                }
                assert forall|j: int| n <= j < world.slots().len() implies #[trigger] names_slot(
                    created@,
                    j,
                ) by {
                    if j < before.slots().len() {
                        assert(names_slot(prev, j));
                        let m = choose|m: int| 0 <= m < prev.len() && #[trigger] prev[m].index == j;
                        assert(created@[m] == prev[m]);
                        assert(created@[m].index == j);
                    } else {
                        assert(created@[k as int] == e);
                        assert(created@[k as int].index == j);
                    }
                }
                assert forall|j: int|
                    0 <= j < n && !names_slot(created@, j) implies #[trigger] world.slots()[j]
                        == old(world).slots()[j] by {
                    assert(created@[k as int] == e);
                    if j == e.index {
                        assert(created@[k as int].index == j);
                    }
                    if names_slot(prev, j) {
                        let m = choose|m: int| 0 <= m < prev.len() && #[trigger] prev[m].index == j;
                        assert(created@[m] == prev[m]);
                        assert(created@[m].index == j);
                    }
                }
            }
            k += 1;
        }
        proof {
            assert forall|j: int|
                0 <= j < world.slots().len() && !names_slot(created@, j) implies j < n
                    && #[trigger] world.slots()[j] == old(world).slots()[j] by {
                if j >= n {
                    assert(names_slot(created@, j));
                }
            }
            assert forall|a: int, b: int|
                0 <= a < created@.len() && 0 <= b < created@.len() && a != b implies created@[a]
                != created@[b] by {
                if a < b {
                    assert(created@[a].index != created@[b].index);
                } else {
                    assert(created@[b].index != created@[a].index);
                }
            }
        }
        created
    }
}

/// The launch speed at power level `power`, in thousandths of a unit per
/// second.
pub open spec fn launch_speed(power: int) -> int {
    POWER_MIN + POWER_SCALE * power
}

/// The components of a shell fired by `tank` standing at `pos`: it starts at
/// the tank, along the barrel, at the launch speed split by the barrel's
/// sine (across) and cosine (up).
pub open spec fn shell_parts(tank: Tank, pos: Position, trig: TrigTable) -> Components {
    let speed = launch_speed(tank.power_level as int);
    Components {
        position: Some(Position { x: pos.x, y: pos.y, orient: tank.barrel_orient, scale: SHELL_SCALE }),
        velocity: Some(
            Velocity {
                vx: trunc_div(speed * trig.sin_spec(tank.barrel_orient as int), TRIG_ONE as int) as i64,
                vy: trunc_div(speed * trig.cos_spec(tank.barrel_orient as int), TRIG_ONE as int) as i64,
                spin: 0,
            },
        ),
        mass: Some(Mass { mass: SHELL_MASS }),
        projectile: Some(Projectile {}),
        drawable: Some(Drawable::Projectile),
        ..Components::none()
    }
}

/// The launch velocity of a shell: `(speed * sin, speed * cos)`.
pub fn launch_velocity(power_level: u16, barrel_orient: i64, trig: &TrigTable) -> (r: Velocity)
    requires
        trig.wf(),
    ensures
        r == (Velocity {
            vx: trunc_div(
                launch_speed(power_level as int) * trig.sin_spec(barrel_orient as int),
                TRIG_ONE as int,
            ) as i64,
            vy: trunc_div(
                launch_speed(power_level as int) * trig.cos_spec(barrel_orient as int),
                TRIG_ONE as int,
            ) as i64,
            spin: 0,
        }),
{
    assert(0 <= POWER_SCALE * power_level <= POWER_SCALE * 65535) by (nonlinear_arith)
        requires
            POWER_SCALE == 100,
            0 <= power_level <= 65535,
    ;
    let speed = POWER_MIN as i128 + POWER_SCALE as i128 * power_level as i128;
    let s = trig.sin(barrel_orient) as i128;
    let c = trig.cos(barrel_orient) as i128;
    assert(-7_000_000_000_000 <= speed * s <= 7_000_000_000_000) by (nonlinear_arith)
        requires
            0 < speed <= 6_800_000,
            -1_000_000 <= s <= 1_000_000,
    ;
    assert(-7_000_000_000_000 <= speed * c <= 7_000_000_000_000) by (nonlinear_arith)
        requires
            0 < speed <= 6_800_000,
            -1_000_000 <= c <= 1_000_000,
    ;
    let vx = div_toward_zero(speed * s, TRIG_ONE as i128);
    let vy = div_toward_zero(speed * c, TRIG_ONE as i128);
    assert(-7_000_000 <= vx <= 7_000_000);
    assert(-7_000_000 <= vy <= 7_000_000);
    Velocity::from_speeds(vx as i64, vy as i64)
}

/// What one run of `player`'s firing system does; `r` is the shell fired.
pub open spec fn fire_done(
    player: Player,
    c0: TankControls,
    c1: TankControls,
    w0: World,
    w1: World,
    active: Option<Player>,
    trig: TrigTable,
    r: Option<Entity>,
) -> bool {
    &&& !c1.fire_pending()
    &&& c1.pending() == c0.pending()
    &&& w1.doomed() == w0.doomed()
    &&& ({
            let id = player.tank_id;
            let parts = w0.parts_of(id);
            let fires = c0.fire_pending() && active == Some(
                player,
            ) && w0.live(id) && parts.tank is Some && parts.position is Some;
            if fires {
                &&& r matches Some(e) && !w0.live(e) && w1.live(e)
                    && w1.parts_of(e) == shell_parts(
                    parts.tank.unwrap(),
                    parts.position.unwrap(),
                    trig,
                )
                &&& forall|e: Entity|
                    w0.live(e) ==> w1.live(e) && w1.parts_of(e)
                        == w0.parts_of(e)
                &&& only_slots_changed(w0, w1, seq![r.unwrap()])
                &&& (r.unwrap().index < w0.slots().len() && !w0.slots()[r.unwrap().index as int].alive)
                    || r.unwrap().index == w0.slots().len()
            } else {
                &&& r is None
                &&& w1.slots() == w0.slots()
            }
        })
}

/// Fires a shell for one player when that player is the one to fire and
/// has asked to.
#[derive(Debug)]
pub struct FireControlSystem {
    player: Player,
}

impl FireControlSystem {
    pub closed spec fn player_spec(&self) -> Player {
        self.player
    }

    pub fn new(player: Player) -> (r: FireControlSystem)
        ensures
            r.player_spec() == player,
    {
        FireControlSystem { player }
    }

    /// Takes in the player's request for a shot. When the player is the
    /// active one and its tank still stands, the request fires one shell
    /// from the tank; otherwise it is dropped. Returns the shell.
    pub fn run(
        &self,
        controls: &mut TankControls,
        world: &mut World,
        active: &ActivePlayer,
        trig: &TrigTable,
    ) -> (r: Option<Entity>)
        requires
            trig.wf(),
            old(world).slots().len() < usize::MAX,
        ensures
            fire_done(
                self.player_spec(),
                *old(controls),
                *final(controls),
                *old(world),
                *final(world),
                active.current(),
                *trig,
                r,
            ),
    {
        let requested = controls.take_fire();
        if !requested {
            return None;
        }
        match active.player() {
            Some(p) => {
                if p != self.player {
                    return None;
                }
            },
            None => {
                return None;
            },
        }
        let parts = match world.get(self.player.tank_id) {
            Some(c) => c,
            None => {
                return None;
            },
        };
        match (parts.tank, parts.position) {
            (Some(tank), Some(pos)) => {
                let velocity = launch_velocity(tank.power_level, tank.barrel_orient, trig);
                let shell = Components {
                    position: Some(Position::new(pos.x, pos.y, tank.barrel_orient, SHELL_SCALE)),
                    velocity: Some(velocity),
                    mass: Some(Mass { mass: SHELL_MASS }),
                    projectile: Some(Projectile::new()),
                    drawable: Some(Drawable::Projectile),
                    ..Components::empty()
                };
                let ghost before = *world;
                let e = world.create(shell);
                proof {
                    assert forall|e2: Entity| old(world).live(e2) implies world.live(e2)
                        && world.parts_of(e2) == old(world).parts_of(e2) by {
                        assert(e2.index != e.index);
                    }
                    let one = seq![e];
                    assert(one[0] == e);
                    assert(one[0].index == e.index);
                    assert forall|j: int|
                        0 <= j < world.slots().len() && !names_slot(one, j) implies j
                            < old(world).slots().len() && #[trigger] world.slots()[j] == old(world).slots()[j] by {
                        assert(j != e.index);
                    }
                }
                Some(e)
            },
            _ => None,
        }
    }
}

} // verus!
