use tanks::components::{
    Components, Explosion, Mass, Position, Projectile, Tank, Velocity, FULL_HEALTH,
};
use tanks::explosion::{check_blast, BlastArea, ExplosionSystem};
use tanks::fixed::TrigTable;
use tanks::game::ai::{calc_end_y, AiController, TargetingState};
use tanks::game::controls::{GameControls, TankControl, TankControls};
use tanks::game::player::Players;
use tanks::game::state::{ActivePlayer, GameState, QuitStatus};
use tanks::physics::{Dimensions, GravitySystem, InertiaSystem};
use tanks::projectile::{check_collision, launch_velocity, Collision, CollisionSystem, FireControlSystem};
use tanks::schedule::{Schedule, SystemKind};
use tanks::sim::Simulation;
use tanks::tank::TankControlSystem;
use tanks::terrain::Terrain;
use tanks::world::World;
use tanks::{RunStatus, TanksGame};

fn trig() -> TrigTable {
    let mut v = Vec::with_capacity(36000);
    for i in 0..36000 {
        let a = (i as f64 / 100.0).to_radians();
        v.push((a.sin() * 1_000_000.0).round() as i64);
    }
    TrigTable::new(v).unwrap()
}

fn ramp_terrain() -> Terrain {
    // Heights 100, 110, 120, ... then flat at the far end.
    let mut h: Vec<u16> = (0..50).map(|i| 100 + 10 * i as u16).collect();
    h.extend(std::iter::repeat(590u16).take(950));
    Terrain::new(1000, h)
}

fn one_tank(world: &mut World, x: i64, y: i64, health: i64) -> tanks::world::Entity {
    world.create(Components {
        position: Some(Position::new(x, y, 0, 20_000)),
        tank: Some(Tank { health, ..Tank::new() }),
        ..Components::empty()
    })
}

#[test]
fn trig_table_is_checked() {
    assert!(TrigTable::new(vec![0; 10]).is_none());
    let mut v = vec![0i64; 36000];
    v[5] = 2_000_000;
    assert!(TrigTable::new(v).is_none());
    let t = trig();
    assert_eq!(t.sin(0), 0);
    assert_eq!(t.cos(0), 1_000_000);
    assert_eq!(t.sin(9000), 1_000_000);
    assert_eq!(t.sin(-9000), -1_000_000);
    assert_eq!(t.cos(18000), -1_000_000);
}

#[test]
fn blast_boundary_is_inclusive() {
    let area = BlastArea { x: 0, y: 0, radius: 130, damage: 10_000 };
    let at = |x: i64, y: i64| Position::new(x, y, 0, 20_000);
    assert!(check_blast(&at(20_130, 0), &area));
    assert!(!check_blast(&at(20_131, 0), &area));
    assert!(check_blast(&at(-12_078, 16_104), &area));
    assert!(!check_blast(&at(-12_078, 16_105), &area));
    let far = BlastArea { x: i64::MAX, y: 0, radius: 0, damage: 1 };
    assert!(!check_blast(&at(i64::MIN, 0), &far));
}

#[test]
fn explosion_at_boundary_harms_tank() {
    let table = trig();
    let mut world = World::new();
    world.create(Components {
        position: Some(Position::new(0, 0, 0, 50_000)),
        explosion: Some(Explosion::new()),
        ..Components::empty()
    });
    // After one second the radius is 75 * sin(0.1 degrees): 130 thousandths.
    let e = Explosion { time_elapsed: 1000, time_remaining: 4000 };
    assert_eq!(e.radius(&table), 130);
    let near = one_tank(&mut world, 20_130, 0, FULL_HEALTH);
    let far = one_tank(&mut world, 20_131, 0, FULL_HEALTH);
    ExplosionSystem::new().run(&mut world, &table, 1000);
    assert_eq!(world.get(near).unwrap().tank.unwrap().health, FULL_HEALTH - 10_000);
    assert_eq!(world.get(far).unwrap().tank.unwrap().health, FULL_HEALTH);
}

#[test]
fn explosion_lasts_five_seconds() {
    let table = trig();
    let mut world = World::new();
    let blast = world.create(Components {
        position: Some(Position::new(0, 0, 0, 50_000)),
        explosion: Some(Explosion::new()),
        ..Components::empty()
    });
    let tank = one_tank(&mut world, 0, 0, FULL_HEALTH);
    let mut system = ExplosionSystem::new();
    for tick in 1..=5 {
        system.run(&mut world, &table, 1000);
        world.maintain();
        assert_eq!(world.get(tank).unwrap().tank.unwrap().health, FULL_HEALTH - tick * 10_000);
        assert_eq!(world.is_alive(blast), tick < 5);
    }
}

#[test]
fn explosion_last_tick_harms_only_for_what_was_left() {
    let table = trig();
    let mut world = World::new();
    let blast = world.create(Components {
        position: Some(Position::new(0, 0, 0, 50_000)),
        explosion: Some(Explosion::new()),
        ..Components::empty()
    });
    let tank = one_tank(&mut world, 0, 0, FULL_HEALTH);
    let mut system = ExplosionSystem::new();
    for _ in 0..4 {
        system.run(&mut world, &table, 1200);
        world.maintain();
    }
    assert!(world.is_alive(blast));
    assert_eq!(world.get(tank).unwrap().tank.unwrap().health, FULL_HEALTH - 48_000);
    system.run(&mut world, &table, 1200);
    world.maintain();
    assert!(!world.is_alive(blast));
    // 200 ms were left: 2 points of harm, not 12.
    assert_eq!(world.get(tank).unwrap().tank.unwrap().health, FULL_HEALTH - 50_000);
}

#[test]
fn explosion_destroys_worn_tank() {
    let table = trig();
    let mut world = World::new();
    world.create(Components {
        position: Some(Position::new(0, 0, 0, 50_000)),
        explosion: Some(Explosion::new()),
        ..Components::empty()
    });
    let tank = one_tank(&mut world, 1000, 0, 15_000);
    let mut system = ExplosionSystem::new();
    system.run(&mut world, &table, 1000);
    world.maintain();
    assert!(world.is_alive(tank));
    system.run(&mut world, &table, 1000);
    assert!(world.is_alive(tank));
    world.maintain();
    assert!(!world.is_alive(tank));
}

#[test]
fn out_of_bounds_comes_before_terrain() {
    let terrain = ramp_terrain();
    let dim = Dimensions::new(640, 480);
    let p = Position::new(-5_000, 50_000, 0, 7_000);
    assert!(terrain.get_height(-5_000) > 50_000);
    assert_eq!(check_collision(&p, &dim, &terrain), Collision::OutOfBounds);
    let mut world = World::new();
    let shell = world.create(Components {
        position: Some(p),
        projectile: Some(Projectile::new()),
        ..Components::empty()
    });
    let made = CollisionSystem::new().run(&mut world, &dim, &terrain);
    assert!(made.is_empty());
    world.maintain();
    assert!(!world.is_alive(shell));
    assert_eq!(world.len(), 1);
}

#[test]
fn shell_in_ground_becomes_explosion() {
    let terrain = ramp_terrain();
    let dim = Dimensions::new(640, 480);
    let mut world = World::new();
    let shell = world.create(Components {
        position: Some(Position::new(10_500, 150_000, 0, 7_000)),
        projectile: Some(Projectile::new()),
        ..Components::empty()
    });
    let flying = world.create(Components {
        position: Some(Position::new(10_500, 300_000, 0, 7_000)),
        projectile: Some(Projectile::new()),
        ..Components::empty()
    });
    assert_eq!(
        check_collision(&Position::new(10_500, 150_000, 0, 7_000), &dim, &terrain),
        Collision::Terrain
    );
    let made = CollisionSystem::new().run(&mut world, &dim, &terrain);
    assert_eq!(made.len(), 1);
    let blast = world.get(made[0]).unwrap();
    assert_eq!(blast.position, Some(Position::new(10_500, 150_000, 0, 50_000)));
    assert_eq!(blast.explosion, Some(Explosion::new()));
    world.maintain();
    assert!(!world.is_alive(shell));
    assert!(world.is_alive(flying));
}

#[test]
fn terrain_height_interpolates_and_clamps() {
    let terrain = ramp_terrain();
    assert_eq!(terrain.get_height(0), 100_000);
    assert_eq!(terrain.get_height(1_000), 110_000);
    assert_eq!(terrain.get_height(500), 105_000);
    assert_eq!(terrain.get_height(999), 109_990);
    assert_eq!(terrain.get_height(1_001), 110_010);
    assert_eq!(terrain.get_height(-1), 100_000);
    assert_eq!(terrain.get_height(-1_000_000), 100_000);
    assert_eq!(terrain.get_height(999_000), 590_000);
    assert_eq!(terrain.get_height(5_000_000), 590_000);
    for x in 0..60_000 {
        let d = terrain.get_height(x + 1) - terrain.get_height(x);
        assert!(d.abs() <= 65_535);
    }
    assert_eq!(terrain.slope_at(-3), 10);
    assert_eq!(terrain.slope_at(2_500), 10);
    assert_eq!(terrain.slope_at(900_000), 0);
}

#[test]
fn projectile_spawn_velocity() {
    let table = trig();
    let v = launch_velocity(500, 0, &table);
    assert_eq!((v.vx, v.vy, v.spin), (0, 200_000, 0));
    let side = launch_velocity(1000, 9000, &table);
    assert_eq!((side.vx, side.vy), (250_000, 0));

    let mut world = World::new();
    let mut terrain_world = World::new();
    let terrain = ramp_terrain();
    let players = Players::create(&mut terrain_world, &terrain, &vec![(100_000, 0)]);
    let player = players.to_vec()[0];
    let tank = world.create(Components {
        position: Some(Position::new(100_000, 50_000, 0, 20_000)),
        tank: Some(Tank::new()),
        ..Components::empty()
    });
    assert_eq!(tank, player.id());
    let mut active = ActivePlayer::new();
    active.set(Some(player));
    let mut controls = TankControls::new();
    controls.fire();
    controls.fire();
    let firing = FireControlSystem::new(player);
    let shot = firing.run(&mut controls, &mut world, &active, &table).unwrap();
    let parts = world.get(shot).unwrap();
    assert_eq!(parts.velocity, Some(Velocity::from_speeds(0, 200_000)));
    assert_eq!(parts.position, Some(Position::new(100_000, 50_000, 0, 7_000)));
    assert_eq!(parts.mass, Some(Mass { mass: 75 }));
    // Two requests made one shell.
    assert!(firing.run(&mut controls, &mut world, &active, &table).is_none());
    // A request from a player who is not active is dropped.
    active.set(None);
    controls.fire();
    assert!(firing.run(&mut controls, &mut world, &active, &table).is_none());
    active.set(Some(player));
    assert!(firing.run(&mut controls, &mut world, &active, &table).is_none());
}

#[test]
fn gravity_and_inertia() {
    let mut world = World::new();
    let body = world.create(Components {
        position: Some(Position::new(0, 100_000, 17_950, 1)),
        velocity: Some(Velocity { vx: 200_000, vy: 0, spin: 100 }),
        mass: Some(Mass { mass: 75 }),
        ..Components::empty()
    });
    let still = world.create(Components {
        position: Some(Position::new(5, 5, 0, 1)),
        velocity: Some(Velocity::new()),
        ..Components::empty()
    });
    GravitySystem::new().run(&mut world, 1000);
    assert_eq!(world.get(body).unwrap().velocity.unwrap().vy, -73_500);
    assert_eq!(world.get(still).unwrap().velocity.unwrap().vy, 0);
    InertiaSystem::new().run(&mut world, 500);
    let p = world.get(body).unwrap().position.unwrap();
    assert_eq!((p.x, p.y), (100_000, 100_000 - 36_750));
    // 179.5 degrees plus 0.5 degree is 180 degrees.
    assert_eq!(p.orient, 18_000);
    InertiaSystem::new().run(&mut world, 500);
    assert_eq!(world.get(body).unwrap().position.unwrap().orient, 18_050);
    assert_eq!(world.get(still).unwrap().position.unwrap(), Position::new(5, 5, 0, 1));
}

#[test]
fn held_controls_adjust_active_tank() {
    let mut world = World::new();
    let terrain = ramp_terrain();
    let players = Players::create(&mut world, &terrain, &vec![(100_000, 0), (300_000, 0)]);
    let roster = players.to_vec();
    let mut active = ActivePlayer::new();
    let mut system = TankControlSystem::new(roster[0]);
    let mut controls = TankControls::new();
    controls.angle_decrease();
    controls.power_increase();
    system.run(&mut controls, &mut world, &active);
    let t = world.get(roster[0].id()).unwrap().tank.unwrap();
    assert_eq!((t.barrel_orient, t.power_level), (0, 500));
    active.set(Some(roster[0]));
    for _ in 0..20 {
        system.run(&mut controls, &mut world, &active);
    }
    let t = world.get(roster[0].id()).unwrap().tank.unwrap();
    assert_eq!((t.barrel_orient, t.power_level), (-1000, 1000));
    GameControls::angle_stop(&mut controls);
    controls.power_decrease();
    system.run(&mut controls, &mut world, &active);
    let t = world.get(roster[0].id()).unwrap().tank.unwrap();
    assert_eq!((t.barrel_orient, t.power_level), (-1000, 950));
    let other = world.get(roster[1].id()).unwrap().tank.unwrap();
    assert_eq!(other, Tank::new());
}

#[test]
fn world_handles_are_never_reused() {
    let mut world = World::new();
    let a = world.create(Components::empty());
    world.delete(a);
    assert!(world.is_alive(a));
    world.maintain();
    assert!(!world.is_alive(a));
    let b = world.create(Components::empty());
    assert_eq!(b.index, a.index);
    assert_eq!(b.generation, a.generation + 1);
    assert!(!world.is_alive(a));
    assert!(world.is_alive(b));
    assert!(world.get(a).is_none());
}

#[test]
fn schedule_runs_by_priority_then_registration() {
    let mut s = Schedule::new();
    s.add_system(SystemKind::GameState, "game-state".to_string(), 50);
    s.add_system(SystemKind::Gravity, "gravity".to_string(), 35);
    s.add_system(SystemKind::Collision, "collide".to_string(), 20);
    s.add_system(SystemKind::Explosion, "explosion".to_string(), 35);
    let order: Vec<SystemKind> = (0..s.len()).map(|i| s.kind(i)).collect();
    assert_eq!(
        order,
        vec![SystemKind::Collision, SystemKind::Gravity, SystemKind::Explosion, SystemKind::GameState]
    );
    assert_eq!(s.name(3), "game-state");
}

#[test]
fn ai_turns_towards_target_then_aims() {
    let table = trig();
    let mut world = World::new();
    let terrain = ramp_terrain();
    let players = Players::create(&mut world, &terrain, &vec![(100_000, 0), (400_000, 0)]);
    let roster = players.to_vec();
    let mut active = ActivePlayer::new();
    let mut ai = AiController::new(roster[1]);
    let mut controls = TankControls::new();
    ai.run(&mut controls, &world, &active, &table);
    assert_eq!(ai.state(), TargetingState::WaitForTurn);
    active.set(Some(roster[1]));
    ai.run(&mut controls, &world, &active, &table);
    assert_eq!(ai.state(), TargetingState::SelectTarget);
    ai.run(&mut controls, &world, &active, &table);
    let target = world.get(roster[0].id()).unwrap().position.unwrap();
    assert_eq!(ai.state(), TargetingState::AlignToTarget { x: target.x, y: target.y });
    // The target is to the left and the barrel is upright: turn left first.
    ai.run(&mut controls, &world, &active, &table);
    assert_eq!(controls.drain(), vec![TankControl::AngleDecreasing]);
}

#[test]
fn landing_prediction() {
    let table = trig();
    // Straight up: no landing across.
    assert_eq!(calc_end_y(1000, 500, 0, &table), (0, false));
    // At 45 degrees and 200 units per second, 100 units across: the shell
    // takes 100 / 141.42 s and is then 100 - 36.75 * 0.5 = 81.6 units up.
    let (y, falling) = calc_end_y(100_000, 500, 4500, &table);
    assert!((y - 81_625).abs() < 50, "{}", y);
    assert!(!falling);
    // 1000 units across it has come down again.
    let (y, falling) = calc_end_y(1_000_000, 500, 4500, &table);
    assert!(falling);
    assert!((y - (1_000_000 - 1_837_500)).abs() < 500, "{}", y);
}

#[test]
fn computer_match_plays_to_the_end() {
    let table = trig();
    let mut h = Vec::new();
    for _ in 0..1000 {
        h.push(200u16);
    }
    let terrain = Terrain::new(1000, h);
    let mut sim = Simulation::new(
        Dimensions::new(800, 600),
        terrain,
        table,
        &vec![(200_000, 0), (700_000, 0)],
        0,
    );
    assert_eq!(sim.game_state(), GameState::CalculateNextPlayer);
    let mut ticks = 0;
    while sim.outcome().is_none() && ticks < 200_000 {
        sim.tick(16);
        ticks += 1;
    }
    match sim.outcome() {
        Some(QuitStatus::PlayerWon { player, turn }) => {
            assert!(player == 1 || player == 2);
            assert!(turn >= 1);
        }
        other => panic!("unexpected outcome {:?}", other),
    }
    let before = sim.outcome();
    sim.tick(16);
    assert_eq!(sim.outcome(), before);
}

#[test]
fn people_drive_their_seats() {
    let table = trig();
    let terrain = Terrain::new(1000, vec![200u16; 1000]);
    let mut sim = Simulation::new(
        Dimensions::new(800, 600),
        terrain,
        table,
        &vec![(200_000, 0), (700_000, 0)],
        2,
    );
    sim.tick(16);
    let second = sim.active_player().unwrap();
    assert_eq!(second.player_number(), 2);
    sim.give(1, TankControl::AngleDecreasing);
    sim.tick(16);
    sim.give(1, TankControl::AngleStop);
    sim.tick(16);
    let t = sim.world().get(second.id()).unwrap().tank.unwrap();
    assert_eq!(t.barrel_orient, -50);
    sim.fire(1);
    sim.tick(16);
    sim.tick(16);
    assert_eq!(sim.active_player(), None);
    assert_eq!(sim.game_state(), GameState::ProjectilesTravelling);
}

#[test]
fn game_settings() {
    let g = TanksGame::new();
    assert_eq!((g.width, g.height, g.terrain_points), (1000, 500, 10));
    assert_eq!(g.check_status(), RunStatus::Running);
    let d = Dimensions::new(10, 10);
    assert_eq!((d.game_width(), d.game_height()), (1000, 1000));
}

#[test]
fn match_registers_systems_by_priority() {
    let terrain = Terrain::new(1000, vec![200u16; 1000]);
    let sim = Simulation::new(
        Dimensions::new(800, 600),
        terrain,
        trig(),
        &vec![(200_000, 0), (500_000, 0), (700_000, 0)],
        1,
    );
    let s = sim.schedule();
    let order: Vec<SystemKind> = (0..s.len()).map(|i| s.kind(i)).collect();
    assert_eq!(
        order,
        vec![
            SystemKind::Collision,
            SystemKind::Inertia,
            SystemKind::Gravity,
            SystemKind::Explosion,
            SystemKind::GameState,
            SystemKind::Firing { seat: 0 },
            SystemKind::Firing { seat: 1 },
            SystemKind::Firing { seat: 2 },
            SystemKind::TankControl { seat: 0 },
            SystemKind::TankControl { seat: 1 },
            SystemKind::TankControl { seat: 2 },
            SystemKind::Ai { seat: 1 },
            SystemKind::Ai { seat: 2 },
        ]
    );
    assert_eq!(sim.world().len(), 3);
}

#[test]
fn one_request_fires_one_shell() {
    let table = trig();
    let mut world = World::new();
    let terrain = ramp_terrain();
    let players = Players::create(&mut world, &terrain, &vec![(100_000, 0)]);
    let player = players.to_vec()[0];
    let before = world.len();
    let mut active = ActivePlayer::new();
    active.set(Some(player));
    let mut controls = TankControls::new();
    controls.fire();
    controls.fire();
    controls.fire();
    let firing = FireControlSystem::new(player);
    assert!(firing.run(&mut controls, &mut world, &active, &table).is_some());
    assert_eq!(world.len(), before + 1);
    assert!(firing.run(&mut controls, &mut world, &active, &table).is_none());
    assert_eq!(world.len(), before + 1);
}
