//! Explosions: they grow, wear down the tanks within reach, and end.
use crate::components::{Components, Explosion, Position, Tank};
use crate::fixed::{clamp_i64, div_toward_zero, saturate, trunc_div, TrigTable, TRIG_ONE};
use crate::world::{Entity, Slot, World};
use vstd::prelude::*;

verus! {

/// The largest radius an explosion reaches, in thousandths of a unit.
pub const BLAST_REACH: i64 = 75_000;

/// Damage per millisecond within reach, in thousandths of a health point
/// (ten points per second).
pub const DAMAGE_RATE: i64 = 10;

/// Milliseconds of an explosion's age per angle unit of its growth curve
/// (the curve's angle in degrees is the age in seconds over ten).
pub const GROWTH_MILLIS: i64 = 100;

/// The radius of explosion `e`: `BLAST_REACH * sin(age / 10 degrees)`.
pub open spec fn blast_radius(e: Explosion, trig: TrigTable) -> int {
    trunc_div(
        BLAST_REACH * trig.sin_spec(trunc_div(e.time_elapsed as int, GROWTH_MILLIS as int)),
        TRIG_ONE as int,
    )
}

/// `e` after `dt` more milliseconds.
pub open spec fn aged(e: Explosion, dt: int) -> Explosion {
    Explosion {
        time_elapsed: clamp_i64(e.time_elapsed + dt) as i64,
        time_remaining: clamp_i64(e.time_remaining - dt) as i64,
    }
}

/// The part of a tick of `dt` milliseconds in which the explosion, aged to
/// `e`, still does harm: all of it, or only what came before it ended.
pub open spec fn damage_window(e: Explosion, dt: int) -> int {
    if e.time_remaining <= 0 {
        dt + e.time_remaining
    } else {
        dt
    }
}

/// A round area that does `damage` to the tanks within it.
#[derive(Clone, Copy, Debug, PartialEq, Eq, Structural)]
pub struct BlastArea {
    pub x: i64,
    pub y: i64,
    pub radius: i64,
    pub damage: i64,
}

/// A tank at `p` is within the area: its distance from the centre is at
/// most the area's radius plus the tank's size.
pub open spec fn in_blast(p: Position, a: BlastArea) -> bool {
    let reach = a.radius + p.scale;
    let dx = p.x - a.x;
    let dy = p.y - a.y;
    reach >= 0 && dx * dx + dy * dy <= reach * reach
}

/// The slot with its explosion, if any, aged by `dt`.
pub open spec fn aged_slot(s: Slot, dt: int) -> Slot {
    if s.alive && s.parts.explosion is Some && s.parts.position is Some {
        Slot {
            parts: Components { explosion: Some(aged(s.parts.explosion.unwrap(), dt)), ..s.parts },
            ..s
        }
    } else {
        s
    }
}

/// Whether the slot holds an explosion that ends on this tick.
pub open spec fn expires(s: Slot, dt: int) -> bool {
    s.alive && s.parts.explosion is Some && s.parts.position is Some && aged(
        s.parts.explosion.unwrap(),
        dt,
    ).time_remaining <= 0
}

/// The explosions among the first `n` slots that end on this tick.
pub open spec fn expired_list(slots: Seq<Slot>, dt: int, n: int) -> Seq<Entity>
    decreases n,
{
    if n <= 0 {
        Seq::empty()
    } else {
        let prev = expired_list(slots, dt, n - 1);
        if expires(slots[n - 1], dt) {
            prev.push(Entity { index: (n - 1) as usize, generation: slots[n - 1].generation })
        } else {
            prev
        }
    }
}

/// The areas that the explosions among the first `n` slots harm on this
/// tick, in slot order.
pub open spec fn area_list(slots: Seq<Slot>, dt: int, trig: TrigTable, n: int) -> Seq<BlastArea>
    decreases n,
{
    if n <= 0 {
        Seq::empty()
    } else {
        let prev = area_list(slots, dt, trig, n - 1);
        let s = slots[n - 1];
        if s.alive && s.parts.explosion is Some && s.parts.position is Some {
            let e = aged(s.parts.explosion.unwrap(), dt);
            let w = damage_window(e, dt);
            if w > 0 {
                let p = s.parts.position.unwrap();
                prev.push(
                    BlastArea {
                        x: p.x,
                        y: p.y,
                        radius: blast_radius(e, trig) as i64,
                        damage: (w * DAMAGE_RATE) as i64,
                    },
                )
            } else {
                prev
            }
        } else {
            prev
        }
    }
}

/// A tank's health after the first `n` areas, and whether one of them left
/// it at zero or below.
pub open spec fn after_blasts(health: int, p: Position, areas: Seq<BlastArea>, n: int) -> (int, bool)
    decreases n,
{
    if n <= 0 {
        (health, false)
    } else {
        let (h, killed) = after_blasts(health, p, areas, n - 1);
        let a = areas[n - 1];
        if in_blast(p, a) {
            let h2 = clamp_i64(h - a.damage);
            (h2, killed || h2 <= 0)
        } else {
            (h, killed)
        }
    }
}

/// Whether the slot holds a tank that all `areas` together destroy.
pub open spec fn felled(s: Slot, areas: Seq<BlastArea>) -> bool {
    s.alive && s.parts.tank is Some && s.parts.position is Some && after_blasts(
        s.parts.tank.unwrap().health as int,
        s.parts.position.unwrap(),
        areas,
        areas.len() as int,
    ).1
}

/// The slot with its tank, if any, worn down by `areas`.
pub open spec fn battered(s: Slot, areas: Seq<BlastArea>) -> Slot {
    if s.alive && s.parts.tank is Some && s.parts.position is Some {
        let t = s.parts.tank.unwrap();
        let h = after_blasts(t.health as int, s.parts.position.unwrap(), areas, areas.len() as int).0;
        Slot { parts: Components { tank: Some(Tank { health: h as i64, ..t }), ..s.parts }, ..s }
    } else {
        s
    }
}

/// The tanks among the first `n` slots that `areas` destroy.
pub open spec fn felled_list(slots: Seq<Slot>, areas: Seq<BlastArea>, n: int) -> Seq<Entity>
    decreases n,
{
    if n <= 0 {
        Seq::empty()
    } else {
        let prev = felled_list(slots, areas, n - 1);
        if felled(slots[n - 1], areas) {
            prev.push(Entity { index: (n - 1) as usize, generation: slots[n - 1].generation })
        } else {
            prev
        }
    }
}

impl Explosion {
    /// The current radius, in thousandths of a unit.
    pub fn radius(&self, trig: &TrigTable) -> (r: i64)
        requires
            trig.wf(),
        ensures
            r == blast_radius(*self, *trig),
            -BLAST_REACH <= r <= BLAST_REACH,
    {
        let angle = self.time_elapsed / GROWTH_MILLIS;
        let s = trig.sin(angle) as i128;
        assert(-75_000_000_000 <= BLAST_REACH * s <= 75_000_000_000) by (nonlinear_arith)
            requires
                -1_000_000 <= s <= 1_000_000,
        ;
        let r = div_toward_zero(BLAST_REACH as i128 * s, TRIG_ONE as i128);
        r as i64
    }
}

/// Whether a tank at `p` is within area `a`.
pub fn check_blast(p: &Position, a: &BlastArea) -> (r: bool)
    requires
        -BLAST_REACH <= a.radius <= BLAST_REACH,
    ensures
        r == in_blast(*p, *a),
{
    let reach = a.radius as i128 + p.scale as i128;
    let dx = p.x as i128 - a.x as i128;
    let dy = p.y as i128 - a.y as i128;
    if reach < 0 {
        return false;
    }
    if dx > reach || -dx > reach || dy > reach || -dy > reach {
        assert(dx * dx + dy * dy > reach * reach) by (nonlinear_arith)
            requires
                reach >= 0,
                dx > reach || -dx > reach || dy > reach || -dy > reach,
        ;
        return false;
    }
    assert(0 <= dx * dx <= reach * reach && 0 <= dy * dy <= reach * reach && reach * reach
        <= 0x40000000000200000000000400000000) by (nonlinear_arith)
        requires
            0 <= reach <= 0x8000_0000_0002_0000,
            -reach <= dx <= reach,
            -reach <= dy <= reach,
    ;
    let r2 = reach * reach;
    let dx2 = dx * dx;
    let dy2 = dy * dy;
    dx2 <= r2 - dy2
}

/// The boundary of an explosion's reach belongs to it: a tank whose
/// distance from the centre is exactly the radius plus its size is harmed,
/// and one a unit further out is not.
pub proof fn lemma_blast_boundary(p: Position, a: BlastArea)
    ensures
        ({
            let reach = a.radius + p.scale;
            let d2 = (p.x - a.x) * (p.x - a.x) + (p.y - a.y) * (p.y - a.y);
            &&& (reach >= 0 && d2 == reach * reach) ==> in_blast(p, a)
            &&& (reach >= 0 && d2 == (reach + 1) * (reach + 1)) ==> !in_blast(p, a)
        }),
{
    let reach = a.radius + p.scale;
    if reach >= 0 {
        assert((reach + 1) * (reach + 1) > reach * reach) by (nonlinear_arith)
            requires
                reach >= 0,
        ;
    }
}

/// `e` after `n` ticks of `dt` milliseconds.
pub open spec fn aged_n(e: Explosion, dt: int, n: nat) -> Explosion
    decreases n,
{
    if n == 0 {
        e
    } else {
        aged(aged_n(e, dt, (n - 1) as nat), dt)
    }
}

/// The milliseconds of harm an explosion does over its first `n` ticks.
pub open spec fn total_window(e: Explosion, dt: int, n: nat) -> int
    decreases n,
{
    if n == 0 {
        0
    } else {
        total_window(e, dt, (n - 1) as nat) + damage_window(aged_n(e, dt, n), dt)
    }
}

proof fn lemma_aged_n(e: Explosion, dt: int, n: nat)
    requires
        0 < dt <= u32::MAX,
        0 <= e.time_elapsed,
        e.time_elapsed + n * dt <= i64::MAX,
        e.time_remaining - n * dt >= i64::MIN,
    ensures
        aged_n(e, dt, n) == (Explosion {
            time_elapsed: (e.time_elapsed + n * dt) as i64,
            time_remaining: (e.time_remaining - n * dt) as i64,
        }),
    decreases n,
{
    assert(0 <= n * dt) by (nonlinear_arith)
        requires
            dt > 0,
    ;
    if n == 0 {
        assert(n * dt == 0) by (nonlinear_arith)
            requires
                n == 0,
        ;
    }
    if n > 0 {
        assert((n - 1) * dt + dt == n * dt) by (nonlinear_arith);
        assert(0 <= (n - 1) * dt) by (nonlinear_arith)
            requires
                n >= 1,
                dt > 0,
        ;
        lemma_aged_n(e, dt, (n - 1) as nat);
        let prev = aged_n(e, dt, (n - 1) as nat);
        assert(prev.time_elapsed + dt == e.time_elapsed + n * dt);
        assert(prev.time_remaining - dt == e.time_remaining - n * dt);
    }
}

/// An explosion lives out exactly its time, whatever the tick length: with
/// ticks of `dt`, it ends on tick `k = ceil(remaining / dt)`; before that
/// every tick harms for the whole `dt`, the last one only for what was left
/// of its time, so the harm adds up to the time it had.
pub proof fn lemma_explosion_lifetime(e: Explosion, dt: int)
    requires
        0 < dt <= u32::MAX,
        0 <= e.time_elapsed,
        0 < e.time_remaining,
        e.time_elapsed + e.time_remaining + dt <= i64::MAX,
    ensures
        ({
            let k = ((e.time_remaining + dt - 1) / dt) as nat;
            &&& k >= 1
            &&& forall|n: nat|
                1 <= n < k ==> (#[trigger] aged_n(e, dt, n)).time_remaining > 0 && damage_window(
                    aged_n(e, dt, n),
                    dt,
                ) == dt
            &&& aged_n(e, dt, k).time_remaining <= 0
            &&& 0 < damage_window(aged_n(e, dt, k), dt) <= dt
            &&& total_window(e, dt, k) == e.time_remaining
        }),
{
    let r = e.time_remaining as int;
    let k = (r + dt - 1) / dt;
    assert(k * dt <= r + dt - 1 < (k + 1) * dt) by (nonlinear_arith)
        requires
            k == (r + dt - 1) / dt,
            dt > 0,
    ;
    assert(k >= 1) by (nonlinear_arith)
        requires
            k * dt <= r + dt - 1 < (k + 1) * dt,
            r > 0,
            dt > 0,
    ;
    assert((k - 1) * dt == k * dt - dt && (k + 1) * dt == k * dt + dt) by (nonlinear_arith);
    assert(0 <= (k - 1) * dt) by (nonlinear_arith)
        requires
            k >= 1,
            dt > 0,
    ;
    assert forall|n: nat| 1 <= n < k implies (#[trigger] aged_n(e, dt, n)).time_remaining > 0
        && damage_window(aged_n(e, dt, n), dt) == dt by {
        assert(0 <= n * dt <= (k - 1) * dt) by (nonlinear_arith)
            requires
                n <= k - 1,
                dt > 0,
        ;
        lemma_aged_n(e, dt, n);
    }
    lemma_aged_n(e, dt, k as nat);
    assert((k - 1) * dt + dt == k * dt) by (nonlinear_arith);
    lemma_total_window(e, dt, (k - 1) as nat, k as nat);
    assert(total_window(e, dt, k as nat) == total_window(e, dt, (k - 1) as nat) + damage_window(
        aged_n(e, dt, k as nat),
        dt,
    ));
}

proof fn lemma_total_window(e: Explosion, dt: int, m: nat, k: nat)
    requires
        m <= k,
        0 < dt <= u32::MAX,
        0 <= e.time_elapsed,
        forall|n: nat|
            1 <= n < k ==> (#[trigger] aged_n(e, dt, n)).time_remaining > 0 && damage_window(
                aged_n(e, dt, n),
                dt,
            ) == dt,
    ensures
        m < k ==> total_window(e, dt, m) == m * dt,
    decreases m,
{
    if m == 0 {
        assert(m * dt == 0);
    }
    if 0 < m < k {
        lemma_total_window(e, dt, (m - 1) as nat, k);
        assert((m - 1) * dt + dt == m * dt) by (nonlinear_arith);
        assert(aged_n(e, dt, m).time_remaining > 0);
    }
}

/// The world after one tick of `dt` milliseconds of the explosions.
pub open spec fn explosion_done(w0: World, w1: World, trig: TrigTable, dt: u32) -> bool {
    &&& ({
            let n = w0.slots().len() as int;
            let aged_slots = w0.slots().map_values(|s: Slot| aged_slot(s, dt as int));
            let areas = area_list(w0.slots(), dt as int, trig, n);
            &&& w1.slots().len() == n
            &&& forall|i: int|
                0 <= i < n ==> #[trigger] w1.slots()[i] == battered(
                    aged_slot(w0.slots()[i], dt as int),
                    areas,
                )
            &&& w1.doomed() == w0.doomed() + expired_list(
                w0.slots(),
                dt as int,
                n,
            ) + felled_list(aged_slots, areas, n)
        })
}

/// Ages explosions, harms the tanks within their reach, and asks for spent
/// explosions and destroyed tanks to be removed.
#[derive(Debug)]
pub struct ExplosionSystem {}

impl ExplosionSystem {
    pub fn new() -> (r: ExplosionSystem) {
        ExplosionSystem {}
    }

    /// One tick of `dt` milliseconds. Each explosion ages by `dt`; one whose
    /// time runs out is asked to be removed, and harms only for the part of
    /// the tick before it ended. Each tank within an explosion's reach loses
    /// `DAMAGE_RATE` per millisecond of harm, and is asked to be removed
    /// once its health is at zero or below.
    pub fn run(&mut self, world: &mut World, trig: &TrigTable, dt: u32)
        requires
            trig.wf(),
        ensures
            explosion_done(*old(world), *final(world), *trig, dt),
    {
        let n = world.len();
        let ghost orig = world.slots();
        let ghost d = dt as int;
        let mut areas: Vec<BlastArea> = Vec::new();
        let mut i: usize = 0;
        while i < n
            invariant
                n == orig.len(),
                orig == old(world).slots(),
                d == dt as int,
                trig.wf(),
                world.slots().len() == n,
                0 <= i <= n,
                forall|k: int| 0 <= k < i ==> #[trigger] world.slots()[k] == aged_slot(orig[k], d),
                forall|k: int| i <= k < n ==> #[trigger] world.slots()[k] == orig[k],
                world.doomed() == old(world).doomed() + expired_list(orig, d, i as int),
                areas@ == area_list(orig, d, *trig, i as int),
                forall|k: int|
                    0 <= k < areas@.len() ==> -BLAST_REACH <= (#[trigger] areas@[k]).radius
                        <= BLAST_REACH,
            decreases n - i,
        {
            let s = world.slot(i);
            if s.alive {
                match (s.parts.explosion, s.parts.position) {
                    (Some(e), Some(p)) => {
                        let e2 = Explosion {
                            time_elapsed: saturate(e.time_elapsed as i128 + dt as i128),
                            time_remaining: saturate(e.time_remaining as i128 - dt as i128),
                        };
                        world.set_parts(i, Components { explosion: Some(e2), ..s.parts });
                        let mut window: i64 = dt as i64;
                        if e2.time_remaining <= 0 {
                            world.delete(Entity { index: i, generation: s.generation });
                            window = if e2.time_remaining < -(u32::MAX as i64) {
                                0
                            } else {
                                window + e2.time_remaining
                            };
                            assert(window <= 0 <==> damage_window(e2, d) <= 0);
                        }
                        if window > 0 {
                            let radius = e2.radius(trig);
                            areas.push(
                                BlastArea { x: p.x, y: p.y, radius, damage: window * DAMAGE_RATE },
                            );
                        }
                    },
                    _ => {},
                }
            }
            i += 1;
        }
        let ghost mid = world.slots();
        assert(mid =~= orig.map_values(|s: Slot| aged_slot(s, d)));
        let mut j: usize = 0;
        while j < n
            invariant
                n == orig.len(),
                orig == old(world).slots(),
                mid == orig.map_values(|s: Slot| aged_slot(s, d)),
                d == dt as int,
                world.slots().len() == n,
                0 <= j <= n,
                forall|k: int| 0 <= k < j ==> #[trigger] world.slots()[k] == battered(mid[k], areas@),
                forall|k: int| j <= k < n ==> #[trigger] world.slots()[k] == mid[k],
                world.doomed() == old(world).doomed() + expired_list(orig, d, n as int)
                    + felled_list(mid, areas@, j as int),
                areas@ == area_list(orig, d, *trig, n as int),
                forall|k: int|
                    0 <= k < areas@.len() ==> -BLAST_REACH <= (#[trigger] areas@[k]).radius
                        <= BLAST_REACH,
            decreases n - j,
        {
            let s = world.slot(j);
            if s.alive {
                match (s.parts.tank, s.parts.position) {
                    (Some(t), Some(p)) => {
                        let mut health = t.health;
                        let mut killed = false;
                        let mut a: usize = 0;
                        while a < areas.len()
                            invariant
                                0 <= a <= areas@.len(),
                                (health as int, killed) == after_blasts(
                                    t.health as int,
                                    p,
                                    areas@,
                                    a as int,
                                ),
                                forall|k: int|
                                    0 <= k < areas@.len() ==> -BLAST_REACH
                                        <= (#[trigger] areas@[k]).radius <= BLAST_REACH,
                            decreases areas@.len() - a,
                        {
                            let area = areas[a];
                            if check_blast(&p, &area) {
                                health = saturate(health as i128 - area.damage as i128);
                                if health <= 0 {
                                    killed = true;
                                }
                            }
                            a += 1;
                        }
                        world.set_parts(j, Components { tank: Some(Tank { health, ..t }), ..s.parts });
                        if killed {
                            world.delete(Entity { index: j, generation: s.generation });
                        }
                    },
                    _ => {},
                }
            }
            proof {
                assert(world.doomed() == old(world).doomed() + expired_list(orig, d, n as int)
                    + felled_list(mid, areas@, j + 1));
            }
            j += 1;
        }
        assert(mid =~= orig.map_values(|s: Slot| aged_slot(s, dt as int)));
    }
}

} // verus!
