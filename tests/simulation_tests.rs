use grid_simulation::entity::{EntityType, MAX_STEP_MS};
use grid_simulation::simulation::{kind_size, SimulationState, SpawnDraw, INITIAL_POPULATION};
use grid_simulation::simulation_space::{grid_lines, SimulationSpace};
use grid_simulation::vector::Vector2;

fn all_within(s: &SimulationState) -> bool {
    s.entities.iter().all(|e| {
        let half = e.size() / 2;
        let p = e.position();
        half <= p.x && p.x <= s.grid_size.x - half && half <= p.y && p.y <= s.grid_size.y - half
    })
}

#[test]
fn new_seeds_the_initial_population() {
    let s = SimulationState::new(40, 30, 20_000);
    assert_eq!(s.grid_size, Vector2::new(800_000, 600_000));
    assert_eq!(s.time, 0);
    assert!(1000 <= s.next_spawn_time && s.next_spawn_time < 3000);
    assert_eq!(s.entities.len(), 33);
    let kinds: Vec<EntityType> = s.entities.iter().map(|e| e.entity_type()).collect();
    assert_eq!(kinds.iter().filter(|k| **k == EntityType::Predator).count(), 3);
    assert_eq!(kinds.iter().filter(|k| **k == EntityType::Prey).count(), 10);
    assert_eq!(kinds.iter().filter(|k| **k == EntityType::Plant).count(), 20);
    for e in &s.entities {
        let expected = match e.entity_type() {
            EntityType::Predator => 16_000,
            EntityType::Prey => 12_000,
            EntityType::Plant => 8_000,
        };
        assert_eq!(e.size(), expected);
    }
    assert!(all_within(&s));
}

#[test]
fn thousand_ticks_keep_everything_inside() {
    let mut s = SimulationState::new(40, 30, 20_000);
    for _ in 0..1000 {
        s.update(16);
        assert!(all_within(&s));
    }
    assert_eq!(s.time, 16_000);
    assert!(s.entities.len() >= 33);
}

#[test]
fn population_grows_by_spawning_only() {
    let mut s = SimulationState::new(4, 3, 20_000);
    let mut last = s.entities.len();
    for _ in 0..200 {
        s.update(100);
        let now = s.entities.len();
        assert!(now == last || now == last + 1);
        last = now;
    }
    // At most three seconds pass between spawns, and twenty pass in all.
    assert!(last >= 33 + 6);
}

fn seeded() -> SimulationState {
    let positions = vec![(400_000i64, 300_000i64); INITIAL_POPULATION];
    SimulationState::seeded(40, 30, 20_000, &positions, 1000)
}

#[test]
fn step_spawns_once_the_time_has_come() {
    let mut s = seeded();
    assert_eq!(s.next_spawn_time, 1000);
    let jitter = vec![(0i64, 0i64); s.entities.len()];
    s.update_with(500, &jitter, None);
    assert_eq!(s.time, 500);
    assert_eq!(s.entities.len(), 33);
    assert_eq!(s.next_spawn_time, 1000);
    let draw = SpawnDraw { entity_type: EntityType::Prey, x: 50_000, y: 60_000, delay_ms: 2000 };
    s.update_with(500, &jitter, Some(draw));
    assert_eq!(s.time, 1000);
    assert_eq!(s.entities.len(), 34);
    assert_eq!(s.next_spawn_time, 3000);
    let e = s.entities[33];
    assert_eq!(e.entity_type(), EntityType::Prey);
    assert_eq!(e.position(), Vector2::new(50_000, 60_000));
    assert_eq!(e.size(), 12_000);
    assert_eq!(e.velocity(), Vector2::new(0, 0));
}

#[test]
fn step_advances_each_entity_with_its_draws() {
    let mut s = seeded();
    let mut jitter = vec![(0i64, 0i64); s.entities.len()];
    jitter[0] = (10_000, 0);
    jitter[32] = (10_000, 0);
    s.update_with(1000, &jitter, Some(SpawnDraw { entity_type: EntityType::Plant, x: 4_000, y: 4_000, delay_ms: 1000 }));
    assert_eq!(s.entities[0].position(), Vector2::new(410_000, 300_000));
    assert_eq!(s.entities[1].position(), Vector2::new(400_000, 300_000));
    // A plant ignores its draws.
    assert_eq!(s.entities[32].position(), Vector2::new(400_000, 300_000));
    assert_eq!(s.entities.len(), 34);
    assert_eq!(s.entities[33].size(), 8_000);
}

#[test]
fn a_zero_step_changes_nothing_but_may_spawn() {
    let mut s = seeded();
    let jitter = vec![(0i64, 0i64); s.entities.len()];
    s.update_with(0, &jitter, None);
    assert_eq!(s.time, 0);
    assert_eq!(s.entities.len(), 33);
    s.update(MAX_STEP_MS);
    assert_eq!(s.time, MAX_STEP_MS);
    assert_eq!(s.entities.len(), 34);
}

#[test]
fn sizes_by_kind() {
    assert_eq!(kind_size(EntityType::Predator, 20_000), 16_000);
    assert_eq!(kind_size(EntityType::Prey, 20_000), 12_000);
    assert_eq!(kind_size(EntityType::Plant, 20_000), 8_000);
    assert_eq!(kind_size(EntityType::Plant, 3), 1);
}

#[test]
fn grid_lines_every_cell() {
    let lines = grid_lines(800_000, 20_000);
    assert_eq!(lines.len(), 41);
    assert_eq!(lines[0], 0);
    assert_eq!(lines[40], 800_000);
    assert_eq!(grid_lines(50, 20), vec![0, 20, 40]);
    let space = SimulationSpace::new(Vector2::new(800_000, 600_000), 20_000);
    assert_eq!(space.column_lines().len(), 41);
    assert_eq!(space.row_lines().len(), 31);
}

#[test]
fn initial_positions_are_drawn_at_random() {
    let s = SimulationState::new(40, 30, 20_000);
    let plants: Vec<Vector2> = s
        .entities
        .iter()
        .filter(|e| e.entity_type() == EntityType::Plant)
        .map(|e| e.position())
        .collect();
    assert!(plants.iter().any(|p| *p != plants[0]));
}
