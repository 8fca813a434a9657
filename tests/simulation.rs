use tower_defense::config::Configuration;
use tower_defense::entity::{CollisionEvent, Role, ENEMY_HEALTH};
use tower_defense::simulation::Simulation;
use tower_defense::timer::NANOS_PER_SECOND;

const HALF_SECOND: u64 = NANOS_PER_SECOND / 2;

fn config(max_count: u64, damage_per_hit: u32, attack_period: u64, spawn_period: u64) -> Configuration {
    Configuration { max_count, damage_per_hit, attack_period, spawn_period }
}

fn health(sim: &Simulation, id: u64) -> i64 {
    sim.get(id).unwrap().health().unwrap()
}

fn dead(sim: &Simulation, id: u64) -> bool {
    sim.get(id).unwrap().is_dead()
}

fn focus(sim: &Simulation, id: u64) -> Option<u64> {
    sim.get(id).unwrap().focus
}

fn colliding(sim: &Simulation, id: u64) -> Vec<u64> {
    sim.get(id).unwrap().colliding.clone()
}

fn no_events() -> Vec<CollisionEvent> {
    Vec::new()
}

#[test]
fn default_configuration_values() {
    let c = Configuration::default();
    assert_eq!(c.max_count, 1);
    assert_eq!(c.damage_per_hit, 10);
    assert_eq!(c.attack_period, HALF_SECOND);
    assert_eq!(c.spawn_period, 2 * NANOS_PER_SECOND);
}

#[test]
fn new_world_is_empty() {
    let sim = Simulation::new(Configuration::default());
    assert!(sim.ids().is_empty());
    assert_eq!(sim.now(), 0);
    assert_eq!(sim.live_enemy_count(), 0);
    assert_eq!(sim.spawn_timer().period, 2 * NANOS_PER_SECOND);
    assert_eq!(sim.spawn_timer().elapsed, 0);
}

#[test]
fn created_entities_get_consecutive_identifiers() {
    let mut sim = Simulation::new(Configuration::default());
    assert_eq!(sim.add_tower(), Some(0));
    assert_eq!(sim.spawn_enemy(), Some(1));
    assert_eq!(sim.spawn_enemy(), Some(2));
    assert_eq!(sim.ids(), vec![0, 1, 2]);
    assert_eq!(health(&sim, 1), ENEMY_HEALTH);
    assert_eq!(sim.get(1).unwrap().shown_health(), Some(ENEMY_HEALTH));
    assert!(!dead(&sim, 1));
    assert_eq!(sim.get(0).unwrap().health(), None);
    let weapon = sim.get(0).unwrap().weapon().unwrap();
    assert_eq!(weapon.period, HALF_SECOND);
    assert!(weapon.repeating);
    assert_eq!(sim.live_enemy_count(), 2);
    assert!(sim.get(3).is_none());
    assert!(!sim.contains(3));
    assert!(sim.contains(2));
}

#[test]
fn scenario_a_tenth_hit_kills_after_five_seconds() {
    let mut sim = Simulation::new(config(0, 10, HALF_SECOND, 2 * NANOS_PER_SECOND));
    let tower = sim.add_tower().unwrap();
    let enemy = sim.spawn_enemy().unwrap();
    let start = vec![CollisionEvent::Started(tower, enemy)];
    let mut elapsed: u64 = 0;
    for n in 1..=10i64 {
        let evs = if n == 1 { start.clone() } else { no_events() };
        sim.tick(HALF_SECOND, &evs);
        elapsed += HALF_SECOND;
        assert_eq!(focus(&sim, tower), Some(enemy));
        assert!(sim.get(tower).unwrap().weapon().unwrap().fired());
        assert_eq!(health(&sim, enemy), 100 - 10 * n);
        assert_eq!(dead(&sim, enemy), n == 10);
    }
    assert_eq!(elapsed, 5 * NANOS_PER_SECOND);
    assert_eq!(health(&sim, enemy), 0);
}

#[test]
fn scenario_b_target_leaving_stops_the_weapon() {
    let mut sim = Simulation::new(config(0, 10, HALF_SECOND, 2 * NANOS_PER_SECOND));
    let tower = sim.add_tower().unwrap();
    let enemy = sim.spawn_enemy().unwrap();
    let step = NANOS_PER_SECOND / 5;
    sim.tick(step, &vec![CollisionEvent::Started(tower, enemy)]);
    assert_eq!(focus(&sim, tower), Some(enemy));
    assert_eq!(sim.get(tower).unwrap().weapon().unwrap().elapsed, step);
    sim.tick(step, &vec![CollisionEvent::Stopped(tower, enemy)]);
    assert_eq!(focus(&sim, tower), None);
    assert_eq!(sim.get(tower).unwrap().weapon().unwrap().elapsed, step);
    sim.tick(step, &no_events());
    assert_eq!(focus(&sim, tower), None);
    assert_eq!(sim.get(tower).unwrap().weapon().unwrap().elapsed, step);
    assert_eq!(health(&sim, enemy), ENEMY_HEALTH);
}

#[test]
fn scenario_c_spawn_waits_for_the_cap_and_resumes_after_reaping() {
    // A tower one-shots whatever it shoots, but only once told of an overlap.
    let mut sim = Simulation::new(config(1, 100, HALF_SECOND, 2 * NANOS_PER_SECOND));
    let tower = sim.add_tower().unwrap();
    let mut spawned: Vec<(u64, u64)> = Vec::new();
    let mut first: Option<u64> = None;
    for n in 1..=12u64 {
        let evs = match (n, first) {
            (9, Some(e)) => vec![CollisionEvent::Started(tower, e)],
            _ => no_events(),
        };
        let report = sim.tick(HALF_SECOND, &evs);
        if let Some(id) = report.spawned {
            spawned.push((n, id));
            if first.is_none() {
                first = Some(id);
            }
        }
        if n == 9 {
            assert!(dead(&sim, first.unwrap()));
        }
        if n == 10 {
            assert_eq!(report.removed, vec![first.unwrap()]);
        }
        assert!(sim.live_enemy_count() <= 1);
    }
    // Spawns at t = 2.0 s (tick 4) and t = 6.0 s (tick 12); t = 4.0 s (tick 8) is skipped.
    assert_eq!(spawned.len(), 2);
    assert_eq!(spawned[0].0, 4);
    assert_eq!(spawned[1].0, 12);
    assert!(!sim.contains(first.unwrap()));
    assert!(sim.contains(spawned[1].1));
}

#[test]
fn enemy_flagged_dead_does_not_count_towards_the_cap() {
    let mut sim = Simulation::new(config(1, 100, NANOS_PER_SECOND, 2 * NANOS_PER_SECOND));
    let tower = sim.add_tower().unwrap();
    let enemy = sim.spawn_enemy().unwrap();
    sim.tick(NANOS_PER_SECOND, &vec![CollisionEvent::Started(tower, enemy)]);
    assert!(dead(&sim, enemy));
    assert_eq!(sim.live_enemy_count(), 0);
    // The spawn timer fires on the next tick, while the dead enemy is still present.
    let report = sim.tick(NANOS_PER_SECOND, &no_events());
    assert!(report.spawned.is_some());
    assert_eq!(report.removed, vec![enemy]);
}

#[test]
fn scenario_d_dead_entity_has_one_tick_of_grace() {
    let mut sim = Simulation::new(config(0, 100, HALF_SECOND, 2 * NANOS_PER_SECOND));
    let tower = sim.add_tower().unwrap();
    let enemy = sim.spawn_enemy().unwrap();
    let report = sim.tick(HALF_SECOND, &vec![CollisionEvent::Started(tower, enemy)]);
    assert!(report.removed.is_empty());
    assert!(sim.contains(enemy));
    assert!(dead(&sim, enemy));
    assert_eq!(sim.get(enemy).unwrap().dead_since, Some(sim.now()));
    let report = sim.tick(HALF_SECOND, &no_events());
    assert_eq!(report.removed, vec![enemy]);
    assert!(!sim.contains(enemy));
    sim.tick(HALF_SECOND, &no_events());
    assert!(!sim.contains(enemy));
    assert_eq!(sim.ids(), vec![tower]);
}

#[test]
fn reaping_takes_the_entity_out_of_colliding_sets() {
    let mut sim = Simulation::new(config(0, 100, HALF_SECOND, 2 * NANOS_PER_SECOND));
    let tower = sim.add_tower().unwrap();
    let enemy = sim.spawn_enemy().unwrap();
    sim.tick(HALF_SECOND, &vec![CollisionEvent::Started(tower, enemy)]);
    assert_eq!(colliding(&sim, tower), vec![enemy]);
    sim.tick(HALF_SECOND, &no_events());
    assert!(colliding(&sim, tower).is_empty());
    sim.tick(HALF_SECOND, &no_events());
    assert_eq!(focus(&sim, tower), None);
}

#[test]
fn population_never_exceeds_the_cap() {
    let mut sim = Simulation::new(config(2, 10, HALF_SECOND, NANOS_PER_SECOND));
    for _ in 0..20 {
        sim.tick(HALF_SECOND, &no_events());
        assert!(sim.live_enemy_count() <= 2);
    }
    assert_eq!(sim.live_enemy_count(), 2);
    assert_eq!(sim.ids().len(), 2);
}

#[test]
fn second_tower_may_take_health_below_zero_before_the_flag() {
    let mut sim = Simulation::new(config(0, 60, HALF_SECOND, 2 * NANOS_PER_SECOND));
    let first = sim.add_tower().unwrap();
    let second = sim.add_tower().unwrap();
    let enemy = sim.spawn_enemy().unwrap();
    let evs = vec![CollisionEvent::Started(first, enemy), CollisionEvent::Started(second, enemy)];
    sim.tick(HALF_SECOND, &evs);
    // First shot: 40, still live; second shot: -20, flagged dead.
    assert_eq!(health(&sim, enemy), -20);
    assert_eq!(sim.get(enemy).unwrap().shown_health(), Some(0));
    assert!(dead(&sim, enemy));
    sim.tick(HALF_SECOND, &no_events());
    assert!(!sim.contains(enemy));
}

#[test]
fn dead_enemy_keeps_health_through_its_flagging_tick() {
    let mut sim = Simulation::new(config(0, 100, HALF_SECOND, 2 * NANOS_PER_SECOND));
    let first = sim.add_tower().unwrap();
    let second = sim.add_tower().unwrap();
    let enemy = sim.spawn_enemy().unwrap();
    let evs = vec![CollisionEvent::Started(first, enemy), CollisionEvent::Started(second, enemy)];
    sim.tick(HALF_SECOND, &evs);
    // The second tower fires too, but its target is already flagged dead.
    assert!(sim.get(second).unwrap().weapon().unwrap().fired());
    assert_eq!(health(&sim, enemy), 0);
    assert!(dead(&sim, enemy));
}

#[test]
fn health_exactly_zero_flags_dead_on_that_tick() {
    let mut sim = Simulation::new(config(0, 50, HALF_SECOND, 2 * NANOS_PER_SECOND));
    let tower = sim.add_tower().unwrap();
    let enemy = sim.spawn_enemy().unwrap();
    sim.tick(HALF_SECOND, &vec![CollisionEvent::Started(tower, enemy)]);
    assert_eq!(health(&sim, enemy), 50);
    assert!(!dead(&sim, enemy));
    sim.tick(HALF_SECOND, &no_events());
    assert_eq!(health(&sim, enemy), 0);
    assert!(dead(&sim, enemy));
    assert_eq!(sim.get(enemy).unwrap().dead_since, Some(2));
}

#[test]
fn focus_is_kept_while_target_stays_in_range() {
    let mut sim = Simulation::new(config(0, 1, NANOS_PER_SECOND, 2 * NANOS_PER_SECOND));
    let tower = sim.add_tower().unwrap();
    let a = sim.spawn_enemy().unwrap();
    let b = sim.spawn_enemy().unwrap();
    sim.tick(HALF_SECOND, &vec![CollisionEvent::Started(tower, a)]);
    assert_eq!(focus(&sim, tower), Some(a));
    sim.tick(HALF_SECOND, &vec![CollisionEvent::Started(b, tower)]);
    assert_eq!(colliding(&sim, tower), vec![a, b]);
    assert_eq!(focus(&sim, tower), Some(a));
    for _ in 0..5 {
        sim.tick(HALF_SECOND, &no_events());
        assert_eq!(focus(&sim, tower), Some(a));
    }
    // Once the target leaves, the next candidate is taken on the same tick.
    sim.tick(HALF_SECOND, &vec![CollisionEvent::Stopped(a, tower)]);
    assert_eq!(focus(&sim, tower), Some(b));
}

#[test]
fn acquisition_takes_the_first_live_opponent() {
    let mut sim = Simulation::new(config(0, 10, NANOS_PER_SECOND, 2 * NANOS_PER_SECOND));
    let t1 = sim.add_tower().unwrap();
    let t2 = sim.add_tower().unwrap();
    let e1 = sim.spawn_enemy().unwrap();
    let e2 = sim.spawn_enemy().unwrap();
    let evs = vec![
        CollisionEvent::Started(t1, t2),
        CollisionEvent::Started(t1, 99),
        CollisionEvent::Started(t1, e2),
        CollisionEvent::Started(t1, e1),
        CollisionEvent::Started(e1, t2),
    ];
    sim.tick(HALF_SECOND, &evs);
    assert_eq!(colliding(&sim, t1), vec![t2, 99, e2, e1]);
    // Towers skip towers and unknown identifiers; enemies target towers.
    assert_eq!(focus(&sim, t1), Some(e2));
    assert_eq!(focus(&sim, e1), Some(t1));
    assert_eq!(focus(&sim, e2), Some(t1));
    assert_eq!(focus(&sim, t2), Some(e1));
}

#[test]
fn collision_events_keep_sets_without_repeats() {
    let mut sim = Simulation::new(Configuration::default());
    let t = sim.add_tower().unwrap();
    let e = sim.spawn_enemy().unwrap();
    sim.apply_collisions(&vec![
        CollisionEvent::Started(t, e),
        CollisionEvent::Started(e, t),
        CollisionEvent::Started(t, 42),
    ]);
    assert_eq!(colliding(&sim, t), vec![e, 42]);
    assert_eq!(colliding(&sim, e), vec![t]);
    sim.apply_collision(CollisionEvent::Stopped(42, t));
    sim.apply_collision(CollisionEvent::Stopped(7, 8));
    assert_eq!(colliding(&sim, t), vec![e]);
    sim.apply_collision(CollisionEvent::Stopped(t, e));
    assert!(colliding(&sim, t).is_empty());
    assert!(colliding(&sim, e).is_empty());
}

#[test]
fn spawn_step_only_spawns_when_the_timer_fires() {
    let mut sim = Simulation::new(config(3, 10, HALF_SECOND, 2 * NANOS_PER_SECOND));
    assert_eq!(sim.spawn_step(NANOS_PER_SECOND), None);
    assert_eq!(sim.spawn_step(NANOS_PER_SECOND), Some(0));
    assert_eq!(sim.spawn_step(3 * NANOS_PER_SECOND), Some(1));
    assert_eq!(sim.spawn_timer().elapsed, NANOS_PER_SECOND);
    let e = sim.get(0).unwrap();
    assert_eq!(e.role, Role::Enemy { health: ENEMY_HEALTH });
    assert_eq!(e.focus, None);
}

#[test]
fn combat_needs_a_target_to_advance_the_weapon() {
    let mut sim = Simulation::new(config(0, 10, NANOS_PER_SECOND, 2 * NANOS_PER_SECOND));
    let tower = sim.add_tower().unwrap();
    sim.resolve_combat(HALF_SECOND);
    assert_eq!(sim.get(tower).unwrap().weapon().unwrap().elapsed, 0);
    let enemy = sim.spawn_enemy().unwrap();
    sim.apply_collision(CollisionEvent::Started(tower, enemy));
    sim.acquire_targets();
    sim.resolve_combat(HALF_SECOND);
    assert_eq!(sim.get(tower).unwrap().weapon().unwrap().elapsed, HALF_SECOND);
    assert_eq!(health(&sim, enemy), ENEMY_HEALTH);
    sim.resolve_combat(HALF_SECOND);
    assert_eq!(health(&sim, enemy), ENEMY_HEALTH - 10);
}

#[test]
fn configuration_can_change_between_ticks() {
    let mut sim = Simulation::new(config(0, 10, HALF_SECOND, HALF_SECOND));
    sim.tick(HALF_SECOND, &no_events());
    assert_eq!(sim.live_enemy_count(), 0);
    sim.set_configuration(config(1, 10, HALF_SECOND, HALF_SECOND));
    assert_eq!(sim.configuration().max_count, 1);
    let report = sim.tick(HALF_SECOND, &no_events());
    assert_eq!(report.spawned, Some(0));
}
