//! The turn machine: whose turn it is, waiting for the shot to be fired and
//! for its effects to settle, and deciding how the match ends.
use crate::game::player::{alive_players, ascending, lemma_alive_players, Player, Players};
use crate::world::World;
use vstd::prelude::*;

verus! {

/// How a match ended.
#[derive(Clone, Copy, Debug, PartialEq, Eq, Structural)]
pub enum QuitStatus {
    PlayerWon { player: u8, turn: u32 },
    Draw { turn: u32 },
    Quit,
}

/// The player allowed to fire, if any.
#[derive(Debug)]
pub struct ActivePlayer {
    player: Option<Player>,
}

impl ActivePlayer {
    pub closed spec fn current(&self) -> Option<Player> {
        self.player
    }

    /// Nobody may fire.
    pub fn new() -> (r: ActivePlayer)
        ensures
            r.current() is None,
    {
        ActivePlayer { player: None }
    }

    pub fn player(&self) -> (r: Option<Player>)
        ensures
            r == self.current(),
    {
        self.player
    }

    pub fn set(&mut self, p: Option<Player>)
        ensures
            final(self).current() == p,
    {
        self.player = p;
    }
}

/// The stages of a turn.
#[derive(Clone, Copy, Debug, PartialEq, Eq, Structural)]
pub enum GameState {
    TankFiring,
    ProjectilesTravelling,
    ProjectilesImpacting,
    CalculateNextPlayer,
    GameOver,
}

/// Pops players off the back of `queue` until one still in `remaining` is
/// found. Gives the queue left over and that player, if any.
pub open spec fn pop_live(queue: Seq<Player>, remaining: Seq<Player>) -> (Seq<Player>, Option<Player>)
    decreases queue.len(),
{
    if queue.len() == 0 {
        (queue, None)
    } else if remaining.contains(queue.last()) {
        (queue.drop_last(), Some(queue.last()))
    } else {
        pop_live(queue.drop_last(), remaining)
    }
}

/// One choice of the next player: when the queue of this cycle is used up it
/// is refilled from the remaining players (held in rising number, so they
/// come off in falling number) and the turn count goes up.
/// Gives the new turn number, the new queue and the chosen player.
pub open spec fn turn_step(number: u32, queue: Seq<Player>, remaining: Seq<Player>) -> (
    u32,
    Seq<Player>,
    Option<Player>,
) {
    if queue.len() == 0 {
        let n = if number < u32::MAX {
            (number + 1) as u32
        } else {
            number
        };
        let (q, p) = pop_live(remaining, remaining);
        (n, q, p)
    } else {
        let (q, p) = pop_live(queue, remaining);
        (number, q, p)
    }
}

/// The players that successive choices pick from a non-empty `queue` (each
/// one a `turn_step` that keeps the turn number) until the queue is used
/// up, when `remaining` does not change meanwhile.
pub open spec fn cycle(queue: Seq<Player>, remaining: Seq<Player>) -> Seq<Player>
    decreases queue.len(),
{
    if queue.len() == 0 {
        Seq::empty()
    } else {
        let (q, p) = pop_live(queue, remaining);
        match p {
            Some(pl) => if q.len() < queue.len() {
                seq![pl] + cycle(q, remaining)
            } else {
                Seq::empty()
            },
            None => Seq::empty(),
        }
    }
}

/// `pop_live` takes players off the back only, and what it returns is in
/// both lists.
pub proof fn lemma_pop_live(queue: Seq<Player>, remaining: Seq<Player>)
    ensures
        pop_live(queue, remaining).0.len() < queue.len() || queue.len() == 0,
        pop_live(queue, remaining).0 == queue.take(pop_live(queue, remaining).0.len() as int),
        pop_live(queue, remaining).1 matches Some(p) ==> {
            &&& remaining.contains(p)
            &&& queue[pop_live(queue, remaining).0.len() as int] == p
        },
        pop_live(queue, remaining).1 is None ==> pop_live(queue, remaining).0.len() == 0,
    decreases queue.len(),
{
    if queue.len() > 0 && !remaining.contains(queue.last()) {
        lemma_pop_live(queue.drop_last(), remaining);
        let q = pop_live(queue.drop_last(), remaining).0;
        assert(queue.drop_last().take(q.len() as int) == queue.take(q.len() as int));
    }
    if queue.len() > 0 && remaining.contains(queue.last()) {
        assert(queue.drop_last() == queue.take(queue.len() - 1));
    }
    if queue.len() == 0 {
        assert(queue.take(0) == queue);
    }
}

/// A player whose tank is gone is never chosen: the chosen player is always
/// one of the remaining players, and it leaves the queue, so no player is
/// chosen twice in one cycle.
pub proof fn lemma_turn_step_picks_remaining(number: u32, queue: Seq<Player>, remaining: Seq<Player>)
    requires
        queue.no_duplicates(),
        remaining.no_duplicates(),
    ensures
        turn_step(number, queue, remaining).2 matches Some(p) ==> remaining.contains(p)
            && !turn_step(number, queue, remaining).1.contains(p),
{
    let src = if queue.len() == 0 {
        remaining
    } else {
        queue
    };
    lemma_pop_live(src, remaining);
    let (q, p) = pop_live(src, remaining);
    if let Some(pl) = p {
        if q.contains(pl) {
            let k = choose|k: int| 0 <= k < q.len() && q[k] == pl;
            assert(src[k] == src[q.len() as int]);
        }
    }
}

/// The player chosen next has a live tank and is on the roster, and leaves
/// the queue; the queue stays in rising player number.
pub proof fn lemma_next_player_alive(
    number: u32,
    queue: Seq<Player>,
    roster: Seq<Player>,
    world: World,
)
    requires
        ascending(queue),
        ascending(roster),
    ensures
        ({
            let (n, q, p) = turn_step(number, queue, alive_players(roster, world));
            &&& p matches Some(pl) ==> world.live(pl.tank_id) && roster.contains(pl)
                && !q.contains(pl)
            &&& ascending(q)
        }),
{
    let remaining = alive_players(roster, world);
    lemma_alive_players(roster, world);
    lemma_ascending_distinct(queue);
    lemma_ascending_distinct(remaining);
    lemma_turn_step_picks_remaining(number, queue, remaining);
    let src = if queue.len() == 0 {
        remaining
    } else {
        queue
    };
    lemma_pop_live(src, remaining);
    let (n, q, p) = turn_step(number, queue, remaining);
    if let Some(pl) = p {
        let k = choose|k: int| 0 <= k < remaining.len() && remaining[k] == pl;
        assert(world.live(remaining[k].tank_id) && roster.contains(remaining[k]));
    }
    assert forall|i: int, j: int| 0 <= i < j < q.len() implies (#[trigger] q[i]).player_number
        < (#[trigger] q[j]).player_number by {
        assert(q[i] == src[i] && q[j] == src[j]);
    }
}

/// Numbers that rise strictly hold no duplicate player.
pub proof fn lemma_ascending_distinct(s: Seq<Player>)
    requires
        ascending(s),
    ensures
        s.no_duplicates(),
{
    assert forall|i: int, j: int| 0 <= i < s.len() && 0 <= j < s.len() && i != j implies s[i]
        != s[j] by {
        if i < j {
            assert(s[i].player_number < s[j].player_number);
        } else {
            assert(s[j].player_number < s[i].player_number);
        }
    }
}

proof fn lemma_cycle_prefix(roster: Seq<Player>, k: int)
    requires
        0 <= k <= roster.len(),
    ensures
        cycle(roster.take(k), roster) == roster.take(k).reverse(),
    decreases k,
{
    let q = roster.take(k);
    if k > 0 {
        assert(q.last() == roster[k - 1]);
        assert(roster.contains(q.last()));
        assert(q.drop_last() == roster.take(k - 1));
        lemma_cycle_prefix(roster, k - 1);
        assert(pop_live(q, roster) == (roster.take(k - 1), Some(roster[k - 1])));
        assert(cycle(q, roster) == seq![roster[k - 1]] + roster.take(k - 1).reverse());
        assert(seq![roster[k - 1]] + roster.take(k - 1).reverse() =~= q.reverse());
    } else {
        assert(q.reverse() =~= Seq::<Player>::empty());
    }
}

/// When no tank is lost during a cycle, the cycle that starts on a fresh
/// queue visits every remaining player exactly once, in falling player
/// number; for players numbered `1..=n` that is `n, n-1, ..., 1`.
pub proof fn lemma_cycle_descending(number: u32, remaining: Seq<Player>)
    requires
        ascending(remaining),
        remaining.len() > 0,
    ensures
        turn_step(number, Seq::empty(), remaining).2 == Some(remaining.last()),
        seq![remaining.last()] + cycle(turn_step(number, Seq::empty(), remaining).1, remaining)
            == remaining.reverse(),
        forall|i: int, j: int|
            0 <= i < j < remaining.len() ==> (#[trigger] remaining.reverse()[i]).player_number
                > (#[trigger] remaining.reverse()[j]).player_number,
        (forall|i: int| 0 <= i < remaining.len() ==> (#[trigger] remaining[i]).player_number == i + 1)
            ==> forall|j: int|
            0 <= j < remaining.len() ==> (#[trigger] remaining.reverse()[j]).player_number
                == remaining.len() - j,
{
    let n = remaining.len() as int;
    assert(remaining.contains(remaining.last()));
    assert(remaining.drop_last() == remaining.take(n - 1));
    lemma_cycle_prefix(remaining, n - 1);
    assert(seq![remaining.last()] + remaining.take(n - 1).reverse() =~= remaining.reverse());
    assert forall|i: int, j: int| 0 <= i < j < n implies (#[trigger] remaining.reverse()[i]).player_number
        > (#[trigger] remaining.reverse()[j]).player_number by {
        assert(remaining.reverse()[i] == remaining[n - 1 - i]);
        assert(remaining.reverse()[j] == remaining[n - 1 - j]);
    }
}

/// Some live entity carries a shell.
pub open spec fn has_projectile(w: World) -> bool {
    exists|i: int|
        0 <= i < w.slots().len() && (#[trigger] w.slots()[i]).alive && w.slots()[i].parts.projectile
            is Some
}

/// Some live entity is an explosion.
pub open spec fn has_explosion(w: World) -> bool {
    exists|i: int|
        0 <= i < w.slots().len() && (#[trigger] w.slots()[i]).alive && w.slots()[i].parts.explosion
            is Some
}

fn any_projectile(w: &World) -> (r: bool)
    ensures
        r == has_projectile(*w),
{
    let mut i: usize = 0;
    while i < w.len()
        invariant
            0 <= i <= w.slots().len(),
            forall|k: int|
                0 <= k < i ==> !((#[trigger] w.slots()[k]).alive && w.slots()[k].parts.projectile
                    is Some),
        decreases w.slots().len() - i,
    {
        let s = w.slot(i);
        if s.alive && s.parts.projectile.is_some() {
            return true;
        }
        i += 1;
    }
    false
}

fn any_explosion(w: &World) -> (r: bool)
    ensures
        r == has_explosion(*w),
{
    let mut i: usize = 0;
    while i < w.len()
        invariant
            0 <= i <= w.slots().len(),
            forall|k: int|
                0 <= k < i ==> !((#[trigger] w.slots()[k]).alive && w.slots()[k].parts.explosion
                    is Some),
        decreases w.slots().len() - i,
    {
        let s = w.slot(i);
        if s.alive && s.parts.explosion.is_some() {
            return true;
        }
        i += 1;
    }
    false
}

/// The queue of players still to fire in this cycle, and the turn count.
#[derive(Debug)]
struct Turn {
    number: u32,
    remaining_players: Vec<Player>,
}

impl Turn {
    fn first() -> (r: Turn)
        ensures
            r.number == 0,
            r.remaining_players@.len() == 0,
    {
        Turn { number: 0, remaining_players: Vec::new() }
    }

    fn contains(v: &Vec<Player>, p: Player) -> (r: bool)
        ensures
            r == v@.contains(p),
    {
        let mut i: usize = 0;
        while i < v.len()
            invariant
                0 <= i <= v@.len(),
                forall|k: int| 0 <= k < i ==> v@[k] != p,
            decreases v@.len() - i,
        {
            if v[i] == p {
                return true;
            }
            i += 1;
        }
        false
    }

    fn next(&mut self, remaining: Vec<Player>) -> (r: Option<Player>)
        ensures
            (final(self).number, final(self).remaining_players@, r) == turn_step(
                old(self).number,
                old(self).remaining_players@,
                remaining@,
            ),
    {
        if self.remaining_players.len() == 0 {
            if self.number < u32::MAX {
                self.number = self.number + 1;
            }
            self.remaining_players = remaining.clone();
            assert(self.remaining_players@ == remaining@);
        }
        let ghost start = self.remaining_players@;
        while self.remaining_players.len() > 0
            invariant
                pop_live(self.remaining_players@, remaining@) == pop_live(start, remaining@),
                self.number == turn_step(
                    old(self).number,
                    old(self).remaining_players@,
                    remaining@,
                ).0,
                start == (if old(self).remaining_players@.len() == 0 {
                    remaining@
                } else {
                    old(self).remaining_players@
                }),
            decreases self.remaining_players@.len(),
        {
            let player = self.remaining_players.pop().unwrap();
            if Self::contains(&remaining, player) {
                return Some(player);
            }
        }
        None
    }
}

/// What one step of the turn machine does (see `GameStateSystem::run`).
pub open spec fn game_state_done(
    g0: GameStateSystem,
    g1: GameStateSystem,
    world: World,
    players: Players,
    a0: Option<Player>,
    a1: Option<Player>,
) -> bool {
    &&& ({
            let s = g0.state_spec();
            let remaining = alive_players(players.roster(), world);
            match s {
                GameState::CalculateNextPlayer => if remaining.len() == 0 {
                    &&& g1.state_spec() == GameState::GameOver
                    &&& g1.outcome_spec() == Some(
                        QuitStatus::Draw { turn: g0.turn_number() },
                    )
                    &&& g1.turn_number() == g0.turn_number()
                    &&& g1.queue() == g0.queue()
                    &&& a1 == a0
                } else if remaining.len() == 1 {
                    &&& g1.state_spec() == GameState::GameOver
                    &&& g1.outcome_spec() == Some(
                        QuitStatus::PlayerWon {
                            player: remaining[0].player_number,
                            turn: g0.turn_number(),
                        },
                    )
                    &&& g1.turn_number() == g0.turn_number()
                    &&& g1.queue() == g0.queue()
                    &&& a1 == a0
                } else {
                    let (n, q, p) = turn_step(
                        g0.turn_number(),
                        g0.queue(),
                        remaining,
                    );
                    &&& g1.turn_number() == n
                    &&& g1.queue() == q
                    &&& a1 == p
                    &&& g1.state_spec() == if p is Some {
                        GameState::TankFiring
                    } else {
                        GameState::CalculateNextPlayer
                    }
                    &&& g1.outcome_spec() == g0.outcome_spec()
                },
                GameState::TankFiring => {
                    &&& g1.state_spec() == if has_projectile(world) {
                        GameState::ProjectilesTravelling
                    } else {
                        GameState::TankFiring
                    }
                    &&& a1 == if has_projectile(world) {
                        None
                    } else {
                        a0
                    }
                    &&& g1.turn_number() == g0.turn_number()
                    &&& g1.queue() == g0.queue()
                    &&& g1.outcome_spec() == g0.outcome_spec()
                },
                GameState::ProjectilesTravelling => {
                    &&& g1.state_spec() == if has_projectile(world) {
                        GameState::ProjectilesTravelling
                    } else {
                        GameState::ProjectilesImpacting
                    }
                    &&& a1 == a0
                    &&& g1.turn_number() == g0.turn_number()
                    &&& g1.queue() == g0.queue()
                    &&& g1.outcome_spec() == g0.outcome_spec()
                },
                GameState::ProjectilesImpacting => {
                    &&& g1.state_spec() == if has_explosion(world) {
                        GameState::ProjectilesImpacting
                    } else {
                        GameState::CalculateNextPlayer
                    }
                    &&& a1 == a0
                    &&& g1.turn_number() == g0.turn_number()
                    &&& g1.queue() == g0.queue()
                    &&& g1.outcome_spec() == g0.outcome_spec()
                },
                GameState::GameOver => {
                    &&& g1.state_spec() == GameState::GameOver
                    &&& a1 == a0
                    &&& g1.turn_number() == g0.turn_number()
                    &&& g1.queue() == g0.queue()
                    &&& g1.outcome_spec() == g0.outcome_spec()
                },
            }
        })
    &&& players.wf() && ascending(g0.queue()) ==> ascending(g1.queue())
    &&& players.wf() && ascending(g0.queue()) ==> (a1 matches Some(p) ==> world.live(p.tank_id))
        || a1 == a0
}

/// The system that runs the turn machine.
#[derive(Debug)]
pub struct GameStateSystem {
    state: GameState,
    turn: Turn,
    outcome: Option<QuitStatus>,
}

impl GameStateSystem {
    pub closed spec fn state_spec(&self) -> GameState {
        self.state
    }

    /// The number of the current turn cycle.
    pub closed spec fn turn_number(&self) -> u32 {
        self.turn.number
    }

    /// The players still to fire in this cycle; the next comes off the back.
    pub closed spec fn queue(&self) -> Seq<Player> {
        self.turn.remaining_players@
    }

    /// How the match ended, once it has.
    pub closed spec fn outcome_spec(&self) -> Option<QuitStatus> {
        self.outcome
    }

    /// A machine about to choose the first player of the first turn.
    pub fn new() -> (r: GameStateSystem)
        ensures
            r.state_spec() == GameState::CalculateNextPlayer,
            r.turn_number() == 0,
            r.queue().len() == 0,
            r.outcome_spec() is None,
    {
        GameStateSystem { state: GameState::CalculateNextPlayer, turn: Turn::first(), outcome: None }
    }

    pub fn state(&self) -> (r: GameState)
        ensures
            r == self.state_spec(),
    {
        self.state
    }

    pub fn outcome(&self) -> (r: Option<QuitStatus>)
        ensures
            r == self.outcome_spec(),
    {
        self.outcome
    }

    /// One step of the machine.
    /// - Choosing: with no player left the match is a draw, with one that
    ///   player has won; otherwise the next player becomes active and the
    ///   machine waits for the shot (or tries again next time when nobody in
    ///   the queue is left).
    /// - Waiting for the shot: once a shell exists, nobody may fire any more.
    /// - Then it waits until no shell and then no explosion is left.
    /// - A finished match stays finished and its outcome is given once.
    pub fn run(&mut self, world: &World, players: &Players, active: &mut ActivePlayer)
        ensures
            game_state_done(
                *old(self),
                *final(self),
                *world,
                *players,
                old(active).current(),
                final(active).current(),
            ),
    {
        let ghost n0 = self.turn.number;
        let ghost q0 = self.turn.remaining_players@;
        proof {
            if players.wf() && ascending(q0) {
                lemma_next_player_alive(n0, q0, players.roster(), *world);
            }
        }
        match self.state {
            GameState::TankFiring => {
                if any_projectile(world) {
                    active.set(None);
                    self.state = GameState::ProjectilesTravelling;
                }
            },
            GameState::ProjectilesTravelling => {
                if !any_projectile(world) {
                    self.state = GameState::ProjectilesImpacting;
                }
            },
            GameState::ProjectilesImpacting => {
                if !any_explosion(world) {
                    self.state = GameState::CalculateNextPlayer;
                }
            },
            GameState::CalculateNextPlayer => self.calculate_next(world, players, active),
            GameState::GameOver => {},
        }
    }

    fn calculate_next(&mut self, world: &World, players: &Players, active: &mut ActivePlayer)
        requires
            old(self).state == GameState::CalculateNextPlayer,
        ensures
            ({
                let remaining = alive_players(players.roster(), *world);
                if remaining.len() == 0 {
                    &&& final(self).state == GameState::GameOver
                    &&& final(self).outcome == Some(
                        QuitStatus::Draw { turn: old(self).turn.number },
                    )
                    &&& final(self).turn.number == old(self).turn.number
                    &&& final(self).turn.remaining_players@ == old(self).turn.remaining_players@
                    &&& final(active).current() == old(active).current()
                } else if remaining.len() == 1 {
                    &&& final(self).state == GameState::GameOver
                    &&& final(self).outcome == Some(
                        QuitStatus::PlayerWon {
                            player: remaining[0].player_number,
                            turn: old(self).turn.number,
                        },
                    )
                    &&& final(self).turn.number == old(self).turn.number
                    &&& final(self).turn.remaining_players@ == old(self).turn.remaining_players@
                    &&& final(active).current() == old(active).current()
                } else {
                    let (n, q, p) = turn_step(
                        old(self).turn.number,
                        old(self).turn.remaining_players@,
                        remaining,
                    );
                    &&& final(self).turn.number == n
                    &&& final(self).turn.remaining_players@ == q
                    &&& final(active).current() == p
                    &&& final(self).state == if p is Some {
                        GameState::TankFiring
                    } else {
                        GameState::CalculateNextPlayer
                    }
                    &&& final(self).outcome == old(self).outcome
                }
            }),
    {
        let remaining = players.get_remaining(world);
        if remaining.len() == 0 {
            self.state = GameState::GameOver;
            self.outcome = Some(QuitStatus::Draw { turn: self.turn.number });
        } else if remaining.len() == 1 {
            self.state = GameState::GameOver;
            self.outcome = Some(
                QuitStatus::PlayerWon { player: remaining[0].player_number, turn: self.turn.number },
            );
        } else {
            let next = self.turn.next(remaining);
            active.set(next);
            if next.is_some() {
                self.state = GameState::TankFiring;
            }
        }
    }
}

} // verus!
