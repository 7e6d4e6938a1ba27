//! Scenario checks of the entity store, the lifecycle systems and the
//! frame loop.

use bytepath::components::{Boost, Player, Projectile, Transform};
use bytepath::events::{Events, GameEvents};
use bytepath::resources::{
    Camera, CircleGeometry, DrawBuffers, DurationWrapper, KeyCodes, QuadGeometry, Shake, Time,
};
use bytepath::schedule::Game;
use bytepath::systems;
use bytepath::world::{Bundle, Commands, World};
use rand::SeedableRng;

fn no_keys() -> KeyCodes {
    KeyCodes::default()
}

fn plain_time(micros: u64) -> Time {
    Time { duration: micros, slow_down_timer: None }
}

fn spawn_player_at_center(world: &mut World, rotation_speed: i64) -> usize {
    let mut b = Bundle::empty();
    b.player = Some(Player { movement_speed: 100_000_000, rotation_speed });
    b.transform = Some(Transform {
        rotation: 0,
        x: 240_000_000,
        y: 135_000_000,
        z: 10_000_000,
        center_rotation: 0,
    });
    b.boost = Some(Boost::default());
    let e = world.spawn_now(b);
    e.index
}

#[test]
fn player_rotates_then_moves_along_the_new_heading() {
    // One whole second of "rotate left" at 0.83 turns (1.66 pi radians)
    // per second, in a single step: the heading gains exactly 0.83 of a
    // turn and the position advances 100 px along the new heading.
    let mut world = World::new();
    let idx = spawn_player_at_center(&mut world, 830_000);
    let mut commands = Commands::new();
    let mut events = Events::new();
    let reader = events.register_reader();
    let mut circles: CircleGeometry = DrawBuffers::new(0, 0, 0);
    let keys = KeyCodes { left: true, ..KeyCodes::default() };
    systems::player_system(&mut world, &mut commands, &mut events, &mut circles, &keys,
        &plain_time(1_000_000));
    let t = world.transforms[idx].unwrap();
    assert_eq!(t.rotation, 830_000);
    assert_eq!(t.x, 240_000_000 + 87_519_500);
    assert_eq!(t.y, 135_000_000 + 48_189_300);
    // No death was requested.
    assert!(!events.read_contains(reader, GameEvents::PlayerDeath));
    assert!(commands.queue.is_empty());
}

#[test]
fn boost_drains_while_held_and_regenerates_after() {
    // Holding boost for 0.1 s drains 50 units/s * 0.1 s = 5 units;
    // releasing for 0.1 s regenerates 10 units/s * 0.1 s = 1 unit.
    let mut world = World::new();
    let idx = spawn_player_at_center(&mut world, 1_000_000);
    let mut commands = Commands::new();
    let mut events = Events::new();
    let mut circles: CircleGeometry = DrawBuffers::new(0, 0, 0);
    let up = KeyCodes { up: true, ..KeyCodes::default() };
    systems::player_system(&mut world, &mut commands, &mut events, &mut circles, &up,
        &plain_time(100_000));
    assert_eq!(world.boosts[idx].unwrap().boost, 95_000_000);
    systems::player_system(&mut world, &mut commands, &mut events, &mut circles, &no_keys(),
        &plain_time(100_000));
    assert_eq!(world.boosts[idx].unwrap().boost, 96_000_000);
    // Regeneration clamps at the maximum.
    for _ in 0..10 {
        systems::player_system(&mut world, &mut commands, &mut events, &mut circles, &no_keys(),
            &plain_time(1_000_000));
    }
    assert_eq!(world.boosts[idx].unwrap().boost, 100_000_000);
}

#[test]
fn boost_cooldown_starts_when_the_reservoir_empties() {
    let mut world = World::new();
    let idx = spawn_player_at_center(&mut world, 1_000_000);
    let mut commands = Commands::new();
    let mut events = Events::new();
    let mut circles: CircleGeometry = DrawBuffers::new(0, 0, 0);
    let up = KeyCodes { up: true, ..KeyCodes::default() };
    // Boosting in 0.3 s steps drains 15 units each; the seventh step
    // finds 10 units left, drains past zero and starts the cooldown.
    for _ in 0..7 {
        systems::player_system(&mut world, &mut commands, &mut events, &mut circles, &up,
            &plain_time(300_000));
    }
    let b = world.boosts[idx].unwrap();
    assert_eq!(b.boost, -5_000_000);
    assert_eq!(b.cooldown, Some(2_000_000));
}

#[test]
fn projectile_crossing_the_edge_leaves_a_clamped_corpse() {
    let mut world = World::new();
    let mut b = Bundle::empty();
    b.projectile = Some(Projectile { movement_speed: 200_000_000 });
    b.transform = Some(Transform {
        rotation: 0,
        x: -5_000_000,
        y: 100_000_000,
        z: 1_000_000,
        center_rotation: 0,
    });
    let e = world.spawn_now(b);
    let mut commands = Commands::new();
    let mut events = Events::new();
    let reader = events.register_reader();
    let mut circles: CircleGeometry = DrawBuffers::new(0, 0, 0);
    systems::projectile_system(&mut world, &mut commands, &mut events, &mut circles,
        &plain_time(16_000));
    world.apply_commands(&mut commands);
    // The flying projectile is gone from the store.
    let mut flying = 0;
    let mut corpses = 0;
    let mut corpse_transform = None;
    for i in 0..world.alive.len() {
        if world.alive[i] && world.projectiles[i].is_some() {
            flying += 1;
        }
        if world.alive[i] && world.dead_projectiles[i].is_some() {
            corpses += 1;
            corpse_transform = world.transforms[i];
        }
    }
    assert_eq!(flying, 0);
    assert_eq!(corpses, 1);
    // The old identifier no longer names anything.
    assert!(!world.alive[e.index] || world.generations[e.index] != e.generation);
    // The corpse is clamped into the screen, rotated a quarter turn back
    // because a vertical edge was crossed.
    let t = corpse_transform.unwrap();
    assert_eq!(t.x, 0);
    assert_eq!(t.y, 100_000_000);
    assert_eq!(t.rotation, 750_000);
    assert!(events.read_contains(reader, GameEvents::ProjectileDeath));
}

#[test]
fn shake_deactivates_after_its_duration_and_returns_zero() {
    let mut rng = rand::rngs::SmallRng::seed_from_u64(7);
    let mut shake = Shake::new(&mut rng);
    assert_eq!(shake.samples_x.len(), 36);
    for s in shake.samples_x.iter().chain(shake.samples_y.iter()) {
        assert!(-1_000_000 <= *s && *s < 1_000_000);
    }
    shake.on_trigger();
    assert!(shake.is_shaking);
    // A step past the whole duration deactivates and recentres.
    let offset = shake.advance(shake.duration + 1);
    assert_eq!(offset, (0, 0));
    assert!(!shake.is_shaking);
    assert_eq!(shake.time, 0);
    // It stays inactive until re-triggered.
    let offset = shake.advance(10_000);
    assert_eq!(offset, (0, 0));
    assert!(!shake.is_shaking);
}

#[test]
fn camera_follows_a_running_shake_and_recentres() {
    let mut rng = rand::rngs::SmallRng::seed_from_u64(3);
    let mut shake = Shake::new(&mut rng);
    let mut camera = Camera::default();
    let mut events = Events::new();
    let reader = events.register_reader();
    events.send(GameEvents::PlayerDeath);
    // The trigger step only arms the shake; the camera moves from the
    // next step on.
    systems::camera_shake_system(&mut events, reader, &mut camera, &mut shake,
        &DurationWrapper(10_000));
    assert!(shake.is_shaking);
    events.update();
    systems::camera_shake_system(&mut events, reader, &mut camera, &mut shake,
        &DurationWrapper(700_000));
    // 0.7 s passes the 0.6 s shake: deactivated and recentred.
    assert!(!shake.is_shaking);
    assert_eq!((camera.x, camera.y, camera.z), (0, 0, 0));
}

#[test]
fn flash_runs_for_three_frames_then_resets() {
    let mut flash = bytepath::resources::Flash::default();
    let mut quads: QuadGeometry = DrawBuffers::new(0, 0, 0);
    let mut events = Events::new();
    let reader = events.register_reader();
    events.send(GameEvents::PlayerDeath);
    systems::screen_flash_system(&mut events, reader, &mut flash, &mut quads);
    assert!(flash.is_flashing);
    assert_eq!(quads.shapes.len(), 1);
    events.update();
    systems::screen_flash_system(&mut events, reader, &mut flash, &mut quads);
    systems::screen_flash_system(&mut events, reader, &mut flash, &mut quads);
    assert_eq!(quads.shapes.len(), 3);
    // The fourth frame resets to the idle state without drawing.
    systems::screen_flash_system(&mut events, reader, &mut flash, &mut quads);
    assert!(!flash.is_flashing);
    assert_eq!(flash.frame_cnt, 4);
    assert_eq!(quads.shapes.len(), 3);
}

#[test]
fn events_are_delivered_once_per_reader_and_age_out() {
    let mut events = Events::new();
    let a = events.register_reader();
    let b = events.register_reader();
    events.send(GameEvents::PlayerDeath);
    events.send(GameEvents::PlayerSpawn);
    let seen_a = events.read(a);
    assert_eq!(seen_a, vec![GameEvents::PlayerDeath, GameEvents::PlayerSpawn]);
    // A second read finds nothing new, the other reader everything.
    assert!(events.read(a).is_empty());
    assert_eq!(events.read(b).len(), 2);
    events.update();
    assert!(events.read(a).is_empty());
}

#[test]
fn world_reuses_the_lowest_dead_slot_with_a_new_generation() {
    let mut world = World::new();
    let mut b = Bundle::empty();
    b.tick_effect = Some(bytepath::components::TickEffect);
    let first = world.spawn_now(b);
    assert_eq!(first.index, 0);
    assert_eq!(first.generation, 0);
    world.despawn_now(first);
    assert!(!world.alive[0]);
    assert!(world.tick_effects[0].is_none());
    let mut b2 = Bundle::empty();
    b2.trail_effect = Some(bytepath::components::TrailEffect);
    let second = world.spawn_now(b2);
    assert_eq!(second.index, 0);
    assert_eq!(second.generation, 1);
    // The stale identifier is refused.
    let mut b3 = Bundle::empty();
    b3.tick_effect = Some(bytepath::components::TickEffect);
    world.insert_now(first, b3);
    assert!(world.tick_effects[0].is_none());
}

#[test]
fn startup_spawns_the_player_and_a_frame_advances_it() {
    let mut game = Game::new(42, 1, 2, 3);
    game.run_startup();
    let mut players = 0;
    for i in 0..game.world.alive.len() {
        if game.world.alive[i] && game.world.players[i].is_some() {
            players += 1;
        }
    }
    assert_eq!(players, 1);
    // A 50 ms frame is sliced into bounded steps and the simulation
    // advances: the player drifts along its initial heading.
    game.run_frame(50_000, KeyCodes::default());
    let mut found = None;
    for i in 0..game.world.alive.len() {
        if game.world.alive[i] && game.world.players[i].is_some() {
            found = game.world.transforms[i];
        }
    }
    let t = found.unwrap();
    assert_eq!(t.x, 240_000_000);
    assert!(t.y > 135_000_000);
}

#[test]
fn trails_are_cleaned_up_when_no_player_exists() {
    let mut world = World::new();
    let mut b = Bundle::empty();
    b.trail_effect = Some(bytepath::components::TrailEffect);
    b.interpolation = Some(bytepath::components::Interpolation::new(
        vec![(5_000_000, 0)],
        200_000,
        true,
    ));
    b.transform = Some(Transform::default());
    world.spawn_now(b);
    let mut commands = Commands::new();
    let mut circles: CircleGeometry = DrawBuffers::new(0, 0, 0);
    systems::trail_effect_system(&mut world, &mut commands, &mut circles, &no_keys(),
        &plain_time(10_000));
    world.apply_commands(&mut commands);
    for i in 0..world.alive.len() {
        assert!(!(world.alive[i] && world.trail_effects[i].is_some()));
    }
}

#[test]
fn ammo_pickup_steers_and_captures_near_the_player() {
    let mut world = World::new();
    spawn_player_at_center(&mut world, 1_000_000);
    // A pickup far from the player, heading away from it: it turns (by a
    // bounded angle) and keeps seeking.
    let mut far = Bundle::empty();
    far.ammo_pickup = Some(bytepath::components::AmmoPickup {
        movement_speed: 10_000_000,
        rotation_speed: 500_000,
        center_rotation_speed: 1_000_000,
        timer: bytepath::resources::Timer::from_micros(150_000, false),
    });
    far.transform = Some(Transform {
        rotation: 500_000,
        x: 40_000_000,
        y: 135_000_000,
        z: 6_000_000,
        center_rotation: 0,
    });
    let far_e = world.spawn_now(far);
    // A second pickup within the 20 px trigger distance: its capture
    // animation starts and a radial burst is spawned.
    let mut near = Bundle::empty();
    near.ammo_pickup = Some(bytepath::components::AmmoPickup {
        movement_speed: 10_000_000,
        rotation_speed: 500_000,
        center_rotation_speed: 1_000_000,
        timer: bytepath::resources::Timer::from_micros(150_000, false),
    });
    near.transform = Some(Transform {
        rotation: 500_000,
        x: 240_000_000 + 10_000_000,
        y: 135_000_000,
        z: 6_000_000,
        center_rotation: 0,
    });
    let near_e = world.spawn_now(near);
    let mut commands = Commands::new();
    let mut quads: QuadGeometry = DrawBuffers::new(0, 0, 0);
    let mut rng = rand::rngs::SmallRng::seed_from_u64(11);
    systems::ammo_pickup_system(&mut world, &mut commands, &mut quads, &plain_time(100_000),
        &mut rng);
    let far_after = world.ammo_pickups[far_e.index].unwrap();
    assert_eq!(far_after.timer.elapsed, 0);
    // The near pickup's capture clock started; no burst yet — that comes
    // with the final despawn.
    let near_after = world.ammo_pickups[near_e.index].unwrap();
    assert!(near_after.timer.elapsed > 0);
    world.apply_commands(&mut commands);
    for i in 0..world.alive.len() {
        assert!(!(world.alive[i] && world.explosion_effects[i].is_some()));
    }
    // Two more calls run the 0.15 s animation out (the first finishes
    // the clock, the second sees it finished): the pickup despawns and
    // its radial burst of at least four lines takes its place.
    systems::ammo_pickup_system(&mut world, &mut commands, &mut quads, &plain_time(100_000),
        &mut rng);
    systems::ammo_pickup_system(&mut world, &mut commands, &mut quads, &plain_time(100_000),
        &mut rng);
    world.apply_commands(&mut commands);
    assert!(!(world.alive[near_e.index] && world.generations[near_e.index] == near_e.generation
        && world.ammo_pickups[near_e.index].is_some()));
    let mut bursts = 0;
    for i in 0..world.alive.len() {
        if world.alive[i] && world.explosion_effects[i].is_some() {
            bursts += 1;
        }
    }
    assert!(bursts >= 4);
}

#[test]
fn boost_pickup_drifts_then_gets_captured_near_the_player() {
    let mut world = World::new();
    spawn_player_at_center(&mut world, 1_000_000);
    let mut b = Bundle::empty();
    b.boost_pickup = Some(bytepath::components::BoostPickup {
        movement_speed: 20_000_000,
        movement_direction: 1,
        center_rotation_speed: 1_000_000,
        timer: bytepath::resources::Timer::from_micros(50_000, true),
        visible: true,
    });
    b.transform = Some(Transform {
        rotation: 0,
        x: -12_000_000,
        y: 135_000_000,
        z: 6_000_000,
        center_rotation: 0,
    });
    let e = world.spawn_now(b);
    let mut commands = Commands::new();
    let mut quads: QuadGeometry = DrawBuffers::new(0, 0, 0);
    // Far from the player: it slides rightward by speed * dt.
    systems::boost_pickup_system(&mut world, &mut commands, &mut quads, &plain_time(100_000));
    let t = world.transforms[e.index].unwrap();
    assert_eq!(t.x, -12_000_000 + 2_000_000);
    assert!(commands.queue.is_empty());
    // Teleport it next to the player: the capture tween is attached.
    world.transforms[e.index] = Some(Transform {
        x: 240_000_000 + 10_000_000,
        y: 135_000_000,
        ..t
    });
    systems::boost_pickup_system(&mut world, &mut commands, &mut quads, &plain_time(100_000));
    world.apply_commands(&mut commands);
    assert!(world.interpolations[e.index].is_some());
    // Captured: from now on it blinks in place instead of drifting.
    let before = world.transforms[e.index].unwrap();
    systems::boost_pickup_system(&mut world, &mut commands, &mut quads, &plain_time(100_000));
    assert_eq!(world.transforms[e.index].unwrap().x, before.x);
    assert!(world.boost_pickups[e.index].unwrap().timer.elapsed > 0);
}

#[test]
fn projectile_spawner_fires_one_or_a_fan_of_three() {
    let mut world = World::new();
    spawn_player_at_center(&mut world, 1_000_000);
    let mut commands = Commands::new();
    let mut timers = bytepath::resources::EntitySpawnTimer::default();
    timers.projectile.tick(250_000);
    assert!(timers.projectile.finished);
    systems::projectile_spawn_system(&world, &mut commands, &timers, &no_keys());
    assert_eq!(commands.queue.len(), 1);
    let space = KeyCodes { space: true, ..KeyCodes::default() };
    systems::projectile_spawn_system(&world, &mut commands, &timers, &space);
    assert_eq!(commands.queue.len(), 4);
    // The straight shot leaves 12 px ahead of the heading (straight up).
    world.apply_commands(&mut commands);
    let mut found = false;
    for i in 0..world.alive.len() {
        if world.alive[i] && world.projectiles[i].is_some() {
            let t = world.transforms[i].unwrap();
            if t.x == 240_000_000 && t.y == 135_000_000 + 12_000_000 {
                found = true;
                assert_eq!(world.projectiles[i].unwrap().movement_speed, 200_000_000);
            }
        }
    }
    assert!(found);
}

#[test]
fn death_opens_the_slow_motion_window_one_step_late() {
    let mut game = Game::new(5, 1, 2, 3);
    game.run_startup();
    // The self-destruct step: the death event is sent during the game
    // stage, after the timing engine already read the (empty) queue, so
    // this step still runs at full speed.
    game.run_step(10_000, KeyCodes { s: true, ..KeyCodes::default() });
    assert_eq!(game.time.duration, 10_000);
    assert_eq!(game.time.slow_down_timer, None);
    // The event survives the next step's aging; the timing engine sees
    // it and opens the window: deep inside it the scale is exactly 15%.
    game.run_step(10_000, KeyCodes::default());
    assert_eq!(game.time.slow_down_timer, Some(10_000));
    assert_eq!(game.time.duration, 1_500);
    // One step later the event has aged out; the window keeps running.
    game.run_step(10_000, KeyCodes::default());
    assert_eq!(game.time.slow_down_timer, Some(20_000));
    assert!(game.time.duration < 10_000);
}

#[test]
fn events_survive_one_aging_and_die_at_the_second() {
    let mut events = Events::new();
    let late_reader = events.register_reader();
    events.send(GameEvents::PlayerDeath);
    // First aging: the event becomes "last step's" and is still
    // delivered to a reader that missed it.
    events.update();
    assert!(events.read_contains(late_reader, GameEvents::PlayerDeath));
    // Second aging drops it; nothing is delivered twice either way.
    events.update();
    assert!(!events.read_contains(late_reader, GameEvents::PlayerDeath));
}
