//! Players and the roster of a match.
use crate::components::{
    Components, Drawable, Position, Tank, Velocity, FULL_HEALTH, START_POWER,
};
use crate::terrain::{height_at, Terrain};
use crate::world::{distinct_slots, names_slot, only_slots_changed, Entity, World};
use vstd::prelude::*;

verus! {

/// A player, by number (from 1), and a handle to the tank it controls. The
/// tank may be destroyed while the player record lives on.
#[derive(Clone, Copy, Debug, PartialEq, Eq, Structural)]
pub struct Player {
    pub player_number: u8,
    pub tank_id: Entity,
}

impl Player {
    pub fn new(player_number: u8, tank_id: Entity) -> (r: Player)
        ensures
            r == (Player { player_number, tank_id }),
    {
        Player { player_number, tank_id }
    }

    pub fn player_number(&self) -> (r: u8)
        ensures
            r == self.player_number,
    {
        self.player_number
    }

    pub fn id(&self) -> (r: Entity)
        ensures
            r == self.tank_id,
    {
        self.tank_id
    }
}

/// Player numbers rise strictly along `s`.
pub open spec fn ascending(s: Seq<Player>) -> bool {
    forall|i: int, j: int|
        0 <= i < j < s.len() ==> (#[trigger] s[i]).player_number < (#[trigger] s[j]).player_number
}

/// The players of `roster` whose tanks are live in `world`, in roster order.
pub open spec fn alive_players(roster: Seq<Player>, world: World) -> Seq<Player>
    decreases roster.len(),
{
    if roster.len() == 0 {
        Seq::empty()
    } else {
        let rest = alive_players(roster.drop_last(), world);
        if world.live(roster.last().tank_id) {
            rest.push(roster.last())
        } else {
            rest
        }
    }
}

/// What `alive_players` keeps is live, comes from the roster, and keeps its
/// order.
pub proof fn lemma_alive_players(roster: Seq<Player>, world: World)
    ensures
        alive_players(roster, world).len() <= roster.len(),
        forall|i: int|
            0 <= i < alive_players(roster, world).len() ==> world.live(
                (#[trigger] alive_players(roster, world)[i]).tank_id,
            ) && roster.contains(alive_players(roster, world)[i]),
        forall|p: Player| roster.contains(p) && world.live(p.tank_id) ==> #[trigger] alive_players(
            roster,
            world,
        ).contains(p),
        ascending(roster) ==> ascending(alive_players(roster, world)),
        (forall|i: int| 0 <= i < roster.len() ==> world.live((#[trigger] roster[i]).tank_id))
            ==> alive_players(roster, world) == roster,
    decreases roster.len(),
{
    if roster.len() > 0 {
        let init = roster.drop_last();
        lemma_alive_players(init, world);
        let rest = alive_players(init, world);
        assert forall|i: int| 0 <= i < alive_players(roster, world).len() implies world.live(
            (#[trigger] alive_players(roster, world)[i]).tank_id,
        ) && roster.contains(alive_players(roster, world)[i]) by {
            if i < rest.len() {
                let k = choose|k: int| 0 <= k < init.len() && init[k] == rest[i];
                assert(roster[k] == rest[i]);
            } else {
                assert(roster[roster.len() - 1] == roster.last());
            }
        }
        assert forall|p: Player| roster.contains(p) && world.live(p.tank_id) implies #[trigger] alive_players(
            roster,
            world,
        ).contains(p) by {
            let k = choose|k: int| 0 <= k < roster.len() && roster[k] == p;
            if k < roster.len() - 1 {
                assert(init[k] == p);
                assert(rest.contains(p));
                let m = choose|m: int| 0 <= m < rest.len() && rest[m] == p;
                if world.live(roster.last().tank_id) {
                    assert(rest.push(roster.last())[m] == p);
                }
            } else {
                assert(rest.push(roster.last())[rest.len() as int] == p);
            }
        }
        if ascending(roster) {
            assert(ascending(init));
            if world.live(roster.last().tank_id) {
                assert forall|i: int, j: int|
                    0 <= i < j < rest.len() + 1 implies (#[trigger] rest.push(
                    roster.last(),
                )[i]).player_number < (#[trigger] rest.push(roster.last())[j]).player_number by {
                    if j == rest.len() {
                        let k = choose|k: int| 0 <= k < init.len() && init[k] == rest[i];
                        assert(roster[k] == rest[i]);
                        assert(roster[roster.len() - 1] == roster.last());
                    }
                }
            }
        }
        if forall|i: int| 0 <= i < roster.len() ==> world.live((#[trigger] roster[i]).tank_id) {
            assert(world.live(roster[roster.len() - 1].tank_id));
            assert forall|i: int| 0 <= i < init.len() implies world.live(
                (#[trigger] init[i]).tank_id,
            ) by {
                assert(init[i] == roster[i]);
            }
            assert(roster == init.push(roster.last()));
        }
    }
}

/// A tank's size, in thousandths of a unit.
pub const TANK_SCALE: i64 = 20_000;

/// The components of player `number`'s tank, fresh, standing at `(x, y)`
/// and leaning by `orient`.
pub open spec fn tank_parts(number: u8, x: i64, y: i64, orient: i64) -> Components {
    Components {
        position: Some(Position { x, y, orient, scale: TANK_SCALE }),
        velocity: Some(Velocity { vx: 0, vy: 0, spin: 0 }),
        tank: Some(Tank { barrel_orient: 0, power_level: START_POWER, health: FULL_HEALTH }),
        drawable: Some(Drawable::Tank { player_number: number }),
        ..Components::none()
    }
}

/// The handles of the players' tanks.
pub open spec fn tank_ids(s: Seq<Player>) -> Seq<Entity> {
    s.map_values(|p: Player| p.tank_id)
}

/// Everyone taking part in a match, in rising player number.
#[derive(Debug)]
pub struct Players {
    players: Vec<Player>,
}

impl Players {
    /// The roster.
    pub closed spec fn roster(&self) -> Seq<Player> {
        self.players@
    }

    /// Player numbers rise along the roster.
    pub open spec fn wf(&self) -> bool {
        ascending(self.roster())
    }

    /// A roster from a list of players; `None` unless their numbers rise
    /// strictly.
    pub fn from_list(players: Vec<Player>) -> (r: Option<Players>)
        ensures
            r matches Some(ps) ==> ps.wf() && ps.roster() == players@,
            r is None <==> !ascending(players@),
    {
        let mut i: usize = 1;
        if players.len() == 0 {
            return Some(Players { players });
        }
        while i < players.len()
            invariant
                1 <= i <= players@.len(),
                forall|a: int, b: int|
                    0 <= a < b < i ==> (#[trigger] players@[a]).player_number
                        < (#[trigger] players@[b]).player_number,
            decreases players@.len() - i,
        {
            if players[i - 1].player_number >= players[i].player_number {
                return None;
            }
            proof {
                assert forall|a: int, b: int| 0 <= a < b < i + 1 implies (#[trigger] players@[a]).player_number
                    < (#[trigger] players@[b]).player_number by {
                    if b == i && a < i - 1 {
                        assert(players@[a].player_number < players@[i - 1].player_number);
                    }
                }
            }
            i += 1;
        }
        Some(Players { players })
    }

    /// Puts one tank per placement `(x, lean)` on the terrain's surface and
    /// gives it to a new player; players are numbered from 1 in the order of
    /// the placements.
    pub fn create(world: &mut World, terrain: &Terrain, placements: &Vec<(i64, i64)>) -> (r: Players)
        requires
            terrain.wf(),
            placements@.len() < 255,
            old(world).slots().len() < usize::MAX - 255,
        ensures
            r.wf(),
            r.roster().len() == placements@.len(),
            forall|i: int|
                0 <= i < placements@.len() ==> {
                    let pl = #[trigger] r.roster()[i];
                    let (x, lean) = placements@[i];
                    &&& pl.player_number == i + 1
                    &&& !old(world).live(pl.tank_id)
                    &&& final(world).live(pl.tank_id)
                    &&& final(world).parts_of(pl.tank_id) == tank_parts(
                        (i + 1) as u8,
                        x,
                        height_at(terrain.samples(), x as int) as i64,
                        lean,
                    )
                },
            forall|e: Entity|
                old(world).live(e) ==> final(world).live(e) && final(world).parts_of(e) == old(
                    world,
                ).parts_of(e),
            final(world).doomed() == old(world).doomed(),
            only_slots_changed(*old(world), *final(world), tank_ids(r.roster())),
    {
        let mut players: Vec<Player> = Vec::new();
        let mut i: usize = 0;
        while i < placements.len()
            invariant
                0 <= i <= placements@.len() < 255,
                terrain.wf(),
                players@.len() == i,
                world.slots().len() <= old(world).slots().len() + i,
                old(world).slots().len() < usize::MAX - 255,
                world.doomed() == old(world).doomed(),
                forall|k: int|
                    0 <= k < i ==> {
                        let pl = #[trigger] players@[k];
                        let (x, lean) = placements@[k];
                        &&& pl.player_number == k + 1
                        &&& !old(world).live(pl.tank_id)
                        &&& world.live(pl.tank_id)
                        &&& world.parts_of(pl.tank_id) == tank_parts(
                            (k + 1) as u8,
                            x,
                            height_at(terrain.samples(), x as int) as i64,
                            lean,
                        )
                    },
                forall|e: Entity|
                    old(world).live(e) ==> world.live(e) && world.parts_of(e) == old(
                        world,
                    ).parts_of(e),
                world.slots().len() >= old(world).slots().len(),
                distinct_slots(tank_ids(players@)),
                forall|j: int|
                    old(world).slots().len() <= j < world.slots().len() ==> #[trigger] names_slot(
                        tank_ids(players@),
                        j,
                    ),
                forall|j: int|
                    0 <= j < old(world).slots().len() && !names_slot(tank_ids(players@), j)
                        ==> #[trigger] world.slots()[j] == old(world).slots()[j],
            decreases placements@.len() - i,
        {
            let (x, lean) = placements[i];
            let number = (i + 1) as u8;
            let y = terrain.get_height(x);
            let parts = Components {
                position: Some(Position::new(x, y, lean, TANK_SCALE)),
                velocity: Some(Velocity::new()),
                tank: Some(Tank::new()),
                drawable: Some(Drawable::Tank { player_number: number }),
                ..Components::empty()
            };
            let ghost before = *world;
            let e = world.create(parts);
            proof {
                assert forall|k: int| 0 <= k < i implies {
                    let pl = #[trigger] players@[k];
                    let (x, lean) = placements@[k];
                    &&& pl.player_number == k + 1
                    &&& !old(world).live(pl.tank_id)
                    &&& world.live(pl.tank_id)
                    &&& world.parts_of(pl.tank_id) == tank_parts(
                        (k + 1) as u8,
                        x,
                        height_at(terrain.samples(), x as int) as i64,
                        lean,
                    )
                } by {
                    assert(before.live(players@[k].tank_id));
                    assert(players@[k].tank_id.index != e.index);
                }
                assert forall|e2: Entity| old(world).live(e2) implies world.live(e2)
                    && world.parts_of(e2) == old(world).parts_of(e2) by {
                    assert(before.live(e2));
                    assert(e2.index != e.index);
                }
                if old(world).live(e) {
                    assert(before.live(e));
                }
            }
            let ghost prev = players@;
            players.push(Player { player_number: number, tank_id: e });
            proof {
                let ids = tank_ids(players@);
                let pids = tank_ids(prev);
                assert(ids =~= pids.push(e));
                assert(ids[i as int] == e);
                assert(ids[i as int].index == e.index);
                assert forall|m: int| 0 <= m < i implies pids[m].index != e.index by {
                    assert(before.live(prev[m].tank_id));
                }
                assert forall|a: int, b: int| 0 <= a < b < ids.len() implies (#[trigger] ids[a]).index
                    != (#[trigger] ids[b]).index by {
                    if b < i {
                        assert(ids[a] == pids[a] && ids[b] == pids[b]);
                    } else {
                        assert(ids[a] == pids[a]);
                    }
                }
                assert forall|j: int|
                    old(world).slots().len() <= j < world.slots().len() implies #[trigger] names_slot(
                    ids,
                    j,
                ) by {
                    if j < before.slots().len() {
                        assert(names_slot(pids, j));
                        let m = choose|m: int| 0 <= m < pids.len() && #[trigger] pids[m].index == j;
                        assert(ids[m] == pids[m]);
                        assert(ids[m].index == j);
                    }
                }
                assert forall|j: int|
                    0 <= j < old(world).slots().len() && !names_slot(ids, j) implies #[trigger] world.slots()[j]
                        == old(world).slots()[j] by {
                    if names_slot(pids, j) {
                        let m = choose|m: int| 0 <= m < pids.len() && #[trigger] pids[m].index == j;
                        assert(ids[m] == pids[m]);
                        assert(ids[m].index == j);
                    }
                }
            }
            i += 1;
        }
        proof {
            let ids = tank_ids(players@);
            assert forall|j: int|
                0 <= j < world.slots().len() && !names_slot(ids, j) implies j < old(
                    world,
                ).slots().len() && #[trigger] world.slots()[j] == old(world).slots()[j] by {
                if j >= old(world).slots().len() {
                    assert(names_slot(ids, j));
                }
            }
            assert forall|a: int, b: int|
                0 <= a < ids.len() && 0 <= b < ids.len() && a != b implies ids[a] != ids[b] by {
                if a < b {
                    assert(ids[a].index != ids[b].index);
                } else {
                    assert(ids[b].index != ids[a].index);
                }
            }
        }
        assert(ascending(players@));
        Players { players }
    }

    /// A copy of the roster.
    pub fn to_vec(&self) -> (r: Vec<Player>)
        ensures
            r@ == self.roster(),
    {
        self.players.clone()
    }

    /// The players whose tanks are still live, in roster order.
    pub fn get_remaining(&self, world: &World) -> (r: Vec<Player>)
        ensures
            r@ == alive_players(self.roster(), *world),
    {
        let mut r: Vec<Player> = Vec::new();
        let mut i: usize = 0;
        while i < self.players.len()
            invariant
                0 <= i <= self.players@.len(),
                r@ == alive_players(self.players@.take(i as int), *world),
            decreases self.players@.len() - i,
        {
            let p = self.players[i];
            assert(self.players@.take(i + 1).drop_last() == self.players@.take(i as int));
            if world.is_alive(p.tank_id) {
                r.push(p);
            }
            i += 1;
        }
        assert(self.players@.take(i as int) == self.players@);
        r
    }
}

} // verus!
