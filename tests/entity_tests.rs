use grid_simulation::entity::{Entity, EntityType, Eyes, PREDATOR_MAX_SPEED, PREY_MAX_SPEED};
use grid_simulation::vector::{ceil_sqrt_u64, mul_div_trunc, Vector2};

fn speed_sq(v: Vector2) -> i128 {
    (v.x as i128) * (v.x as i128) + (v.y as i128) * (v.y as i128)
}

#[test]
fn constructors_set_kind_position_and_rest() {
    let p = Entity::new_predator(1000, 2000, 16000);
    assert_eq!(p.entity_type(), EntityType::Predator);
    assert_eq!(p.position(), Vector2::new(1000, 2000));
    assert_eq!(p.velocity(), Vector2::new(0, 0));
    assert_eq!(p.size(), 16000);
    assert_eq!(Entity::new_prey(1, 2, 3).entity_type(), EntityType::Prey);
    assert_eq!(Entity::new_plant(1, 2, 3).entity_type(), EntityType::Plant);
}

#[test]
fn advance_moves_by_velocity_times_step() {
    let grid = Vector2::new(800_000, 600_000);
    let mut e = Entity::new_predator(100_000, 100_000, 16_000);
    e.advance(10_000, -20_000, 1000, grid);
    assert_eq!(e.velocity(), Vector2::new(10_000, -20_000));
    assert_eq!(e.position(), Vector2::new(110_000, 80_000));
}

#[test]
fn advance_limits_speed_along_the_same_direction() {
    let grid = Vector2::new(10_000_000, 10_000_000);
    let mut e = Entity::new_predator(5_000_000, 5_000_000, 16_000);
    e.advance(40_000, 30_000, 10_000, grid);
    assert_eq!(e.velocity(), Vector2::new(96_000, 72_000));
    assert_eq!(speed_sq(e.velocity()), (PREDATOR_MAX_SPEED as i128) * (PREDATOR_MAX_SPEED as i128));
    assert_eq!(e.position(), Vector2::new(5_960_000, 5_720_000));
}

#[test]
fn advance_reflects_and_clamps_at_the_wall() {
    let grid = Vector2::new(800_000, 600_000);
    let mut e = Entity::new_prey(300_000, 300_000, 12_000);
    e.advance(49_999, 0, 1_000_000, grid);
    assert_eq!(e.velocity(), Vector2::new(-PREY_MAX_SPEED, 0));
    assert_eq!(e.position(), Vector2::new(794_000, 300_000));
}

#[test]
fn advance_reflects_at_the_low_wall() {
    let grid = Vector2::new(800_000, 600_000);
    let mut e = Entity::new_prey(7_000, 300_000, 12_000);
    e.advance(-20_000, 0, 1000, grid);
    assert_eq!(e.velocity(), Vector2::new(20_000, 0));
    assert_eq!(e.position(), Vector2::new(6_000, 300_000));
}

#[test]
fn small_negative_changes_round_toward_zero() {
    let grid = Vector2::new(800_000, 600_000);
    let mut e = Entity::new_prey(300_000, 300_000, 12_000);
    e.advance(-1, -1, 16, grid);
    assert_eq!(e.velocity(), Vector2::new(0, 0));
    assert_eq!(e.position(), Vector2::new(300_000, 300_000));
}

#[test]
fn advance_leaves_plants_alone() {
    let grid = Vector2::new(800_000, 600_000);
    let mut e = Entity::new_plant(1_000, 2_000, 8_000);
    e.advance(49_000, -49_000, 1_000_000, grid);
    assert_eq!(e.position(), Vector2::new(1_000, 2_000));
    assert_eq!(e.velocity(), Vector2::new(0, 0));
}

#[test]
fn plants_never_move_over_many_updates() {
    let grid = Vector2::new(800_000, 600_000);
    let mut e = Entity::new_plant(123_456, 234_567, 8_000);
    for _ in 0..500 {
        e.update(16, grid);
    }
    assert_eq!(e.position(), Vector2::new(123_456, 234_567));
}

#[test]
fn mobile_entities_stay_inside_and_under_their_speed() {
    let grid = Vector2::new(800_000, 600_000);
    let mut pred = Entity::new_predator(400_000, 300_000, 16_000);
    let mut prey = Entity::new_prey(10, 10, 12_000);
    for _ in 0..2000 {
        pred.update(50, grid);
        prey.update(50, grid);
        for (e, max) in [(&pred, PREDATOR_MAX_SPEED), (&prey, PREY_MAX_SPEED)] {
            let half = e.size() / 2;
            let p = e.position();
            assert!(half <= p.x && p.x <= grid.x - half);
            assert!(half <= p.y && p.y <= grid.y - half);
            assert!(speed_sq(e.velocity()) <= (max as i128) * (max as i128));
        }
    }
}

#[test]
fn eyes_of_a_predator_and_none_for_a_plant() {
    let e = Entity::new_predator(100_000, 100_000, 16_000);
    assert_eq!(
        e.eyes(),
        Some(Eyes {
            left: Vector2::new(96_800, 96_800),
            right: Vector2::new(103_200, 96_800),
            eye_radius: 2_400,
            pupil_radius: 1_440,
        })
    );
    assert_eq!(Entity::new_plant(100_000, 100_000, 8_000).eyes(), None);
}

#[test]
fn ceiling_square_roots() {
    assert_eq!(ceil_sqrt_u64(0), 0);
    assert_eq!(ceil_sqrt_u64(1), 1);
    assert_eq!(ceil_sqrt_u64(2), 2);
    assert_eq!(ceil_sqrt_u64(4), 2);
    assert_eq!(ceil_sqrt_u64(5), 3);
    assert_eq!(ceil_sqrt_u64(1_000_000_000_000_000_000), 1_000_000_000);
}

#[test]
fn truncating_scale() {
    assert_eq!(mul_div_trunc(7, 3, 2), 10);
    assert_eq!(mul_div_trunc(-7, 3, 2), -10);
    assert_eq!(mul_div_trunc(0, 3, 2), 0);
}
