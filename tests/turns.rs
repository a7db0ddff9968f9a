use tanks::components::{Components, Position, Projectile};
use tanks::explosion::ExplosionSystem;
use tanks::fixed::TrigTable;
use tanks::game::controls::TankControls;
use tanks::game::player::{Player, Players};
use tanks::game::state::{ActivePlayer, GameState, GameStateSystem, QuitStatus};
use tanks::projectile::FireControlSystem;
use tanks::terrain::Terrain;
use tanks::world::{Entity, World};
use tanks::components::Explosion;

fn trig() -> TrigTable {
    let mut v = Vec::with_capacity(36000);
    for i in 0..36000 {
        let a = (i as f64 / 100.0).to_radians();
        v.push((a.sin() * 1_000_000.0).round() as i64);
    }
    TrigTable::new(v).unwrap()
}

fn flat_terrain() -> Terrain {
    Terrain::new(1000, vec![100u16; 1000])
}

fn setup(n: usize) -> (World, Players) {
    let mut world = World::new();
    let terrain = flat_terrain();
    let placements: Vec<(i64, i64)> = (0..n).map(|i| (100_000 + 200_000 * i as i64, 0)).collect();
    let players = Players::create(&mut world, &terrain, &placements);
    (world, players)
}

fn shell(world: &mut World) -> Entity {
    world.create(Components {
        position: Some(Position::new(0, 0, 0, 7000)),
        projectile: Some(Projectile::new()),
        ..Components::empty()
    })
}

/// Runs the machine through one shot with no damage done, from the moment a
/// player has become active to the next choice of player.
fn quiet_turn(
    gs: &mut GameStateSystem,
    world: &mut World,
    players: &Players,
    active: &mut ActivePlayer,
) {
    assert_eq!(gs.state(), GameState::TankFiring);
    let e = shell(world);
    gs.run(world, players, active);
    assert_eq!(gs.state(), GameState::ProjectilesTravelling);
    assert_eq!(active.player(), None);
    world.delete(e);
    world.maintain();
    gs.run(world, players, active);
    assert_eq!(gs.state(), GameState::ProjectilesImpacting);
    gs.run(world, players, active);
    assert_eq!(gs.state(), GameState::CalculateNextPlayer);
    gs.run(world, players, active);
}

#[test]
fn full_cycle_visits_players_in_falling_order() {
    let (mut world, players) = setup(4);
    let mut gs = GameStateSystem::new();
    let mut active = ActivePlayer::new();
    gs.run(&world, &players, &mut active);
    let mut seen = vec![active.player().unwrap().player_number()];
    for _ in 0..3 {
        quiet_turn(&mut gs, &mut world, &players, &mut active);
        seen.push(active.player().unwrap().player_number());
    }
    assert_eq!(seen, vec![4, 3, 2, 1]);
    // A new cycle starts over from the top, with the turn count raised.
    quiet_turn(&mut gs, &mut world, &players, &mut active);
    assert_eq!(active.player().unwrap().player_number(), 4);
}

#[test]
fn destroyed_player_is_skipped_mid_cycle() {
    let (mut world, players) = setup(4);
    let roster = players.to_vec();
    let mut gs = GameStateSystem::new();
    let mut active = ActivePlayer::new();
    gs.run(&world, &players, &mut active);
    assert_eq!(active.player().unwrap().player_number(), 4);
    // Player 3's tank is lost during player 4's shot.
    world.delete(roster[2].id());
    world.maintain();
    quiet_turn(&mut gs, &mut world, &players, &mut active);
    assert_eq!(active.player().unwrap().player_number(), 2);
    quiet_turn(&mut gs, &mut world, &players, &mut active);
    assert_eq!(active.player().unwrap().player_number(), 1);
    quiet_turn(&mut gs, &mut world, &players, &mut active);
    assert_eq!(active.player().unwrap().player_number(), 4);
}

#[test]
fn last_player_standing_wins() {
    let (mut world, players) = setup(3);
    let roster = players.to_vec();
    let mut gs = GameStateSystem::new();
    let mut active = ActivePlayer::new();
    gs.run(&world, &players, &mut active);
    world.delete(roster[0].id());
    world.delete(roster[2].id());
    world.maintain();
    quiet_turn(&mut gs, &mut world, &players, &mut active);
    assert_eq!(gs.state(), GameState::GameOver);
    assert_eq!(gs.outcome(), Some(QuitStatus::PlayerWon { player: 2, turn: 1 }));
    // The outcome is given once and stays.
    gs.run(&world, &players, &mut active);
    assert_eq!(gs.outcome(), Some(QuitStatus::PlayerWon { player: 2, turn: 1 }));
}

#[test]
fn no_player_left_is_a_draw() {
    let (mut world, players) = setup(2);
    let roster = players.to_vec();
    let mut gs = GameStateSystem::new();
    let mut active = ActivePlayer::new();
    gs.run(&world, &players, &mut active);
    world.delete(roster[0].id());
    world.delete(roster[1].id());
    world.maintain();
    quiet_turn(&mut gs, &mut world, &players, &mut active);
    assert_eq!(gs.outcome(), Some(QuitStatus::Draw { turn: 1 }));
}

#[test]
fn turn_count_rises_per_cycle() {
    let (mut world, players) = setup(2);
    let roster = players.to_vec();
    let mut gs = GameStateSystem::new();
    let mut active = ActivePlayer::new();
    gs.run(&world, &players, &mut active);
    quiet_turn(&mut gs, &mut world, &players, &mut active);
    quiet_turn(&mut gs, &mut world, &players, &mut active);
    quiet_turn(&mut gs, &mut world, &players, &mut active);
    // Third cycle has begun: player 2 is active again.
    quiet_turn(&mut gs, &mut world, &players, &mut active);
    assert_eq!(active.player().unwrap().player_number(), 2);
    world.delete(roster[1].id());
    world.maintain();
    quiet_turn(&mut gs, &mut world, &players, &mut active);
    assert_eq!(gs.outcome(), Some(QuitStatus::PlayerWon { player: 1, turn: 3 }));
}

#[test]
fn explosion_ends_two_player_match() {
    let table = trig();
    let (mut world, players) = setup(2);
    let roster = players.to_vec();
    let (first, second) = (roster[0], roster[1]);
    let mut gs = GameStateSystem::new();
    let mut active = ActivePlayer::new();
    gs.run(&world, &players, &mut active);
    assert_eq!(active.player(), Some(second));
    quiet_turn(&mut gs, &mut world, &players, &mut active);
    assert_eq!(active.player(), Some(first));

    // Player 1 fires.
    let mut controls = TankControls::new();
    controls.fire();
    let firing = FireControlSystem::new(first);
    let shot = firing.run(&mut controls, &mut world, &active, &table).unwrap();
    gs.run(&world, &players, &mut active);
    assert_eq!(gs.state(), GameState::ProjectilesTravelling);

    // The shell lands on player 2, whose tank is already worn down.
    world.delete(shot);
    world.maintain();
    let mut parts = world.get(second.id()).unwrap();
    let pos = parts.position.unwrap();
    parts.tank = Some(tanks::components::Tank { health: 30_000, ..parts.tank.unwrap() });
    world.set(second.id(), parts);
    world.create(Components {
        position: Some(Position::new(pos.x, pos.y, 0, 50_000)),
        explosion: Some(Explosion::new()),
        ..Components::empty()
    });
    gs.run(&world, &players, &mut active);
    assert_eq!(gs.state(), GameState::ProjectilesImpacting);
    let mut blasts = ExplosionSystem::new();
    for _ in 0..5 {
        blasts.run(&mut world, &table, 1000);
        world.maintain();
        gs.run(&world, &players, &mut active);
    }
    assert!(!world.is_alive(second.id()));
    assert_eq!(gs.state(), GameState::CalculateNextPlayer);
    gs.run(&world, &players, &mut active);
    assert_eq!(gs.outcome(), Some(QuitStatus::PlayerWon { player: 1, turn: 1 }));
}

#[test]
fn roster_must_rise() {
    let mut world = World::new();
    let a = world.create(Components::empty());
    let b = world.create(Components::empty());
    assert!(Players::from_list(vec![Player::new(2, a), Player::new(1, b)]).is_none());
    let ps = Players::from_list(vec![Player::new(1, a), Player::new(2, b)]).unwrap();
    assert_eq!(ps.get_remaining(&world).len(), 2);
    world.delete(a);
    world.maintain();
    let left = ps.get_remaining(&world);
    assert_eq!(left.len(), 1);
    assert_eq!(left[0].player_number(), 2);
    assert_eq!(left[0].id(), b);
}
