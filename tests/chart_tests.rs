use grid_simulation::area_chart::{AreaChart, TrackingStat, WINDOW_DURATION_MS};
use grid_simulation::entity::{count_kind, Entity, EntityType};
use grid_simulation::plot::{rise_of, Plot, MAX_DATA_POINTS};
use grid_simulation::vector::Vector2;

fn population(predators: usize, prey: usize, plants: usize) -> Vec<Entity> {
    let mut v = Vec::new();
    for _ in 0..predators {
        v.push(Entity::new_predator(1, 1, 2));
    }
    for _ in 0..prey {
        v.push(Entity::new_prey(1, 1, 2));
    }
    for _ in 0..plants {
        v.push(Entity::new_plant(1, 1, 2));
    }
    v
}

#[test]
fn counts_by_kind() {
    let es = population(3, 10, 20);
    assert_eq!(count_kind(&es, EntityType::Predator), 3);
    assert_eq!(count_kind(&es, EntityType::Prey), 10);
    assert_eq!(count_kind(&es, EntityType::Plant), 20);
    assert_eq!(count_kind(&[], EntityType::Plant), 0);
}

#[test]
fn latest_sample_holds_the_count_of_its_kind() {
    let mut c = AreaChart::new("Prey".to_string(), EntityType::Prey, TrackingStat::Population);
    c.update(1000, &population(3, 10, 20));
    assert_eq!(c.data.last(), Some(&(1000, 10)));
    c.update(2000, &population(1, 4, 2));
    assert_eq!(c.data.last(), Some(&(2000, 4)));
    assert_eq!(c.start_time, 1000);
}

#[test]
fn window_of_thirty_seconds_over_fifty() {
    let mut c = AreaChart::new("Plants".to_string(), EntityType::Plant, TrackingStat::Population);
    let es = population(0, 0, 5);
    for t in 1..=50u64 {
        c.update(t * 1000, &es);
        let newest = c.data.last().unwrap().0;
        assert!(newest - c.data[0].0 <= WINDOW_DURATION_MS);
    }
    // A sample exactly one window old is kept: timestamps 20 to 50 stay.
    assert_eq!(c.data.len(), 31);
    assert_eq!(c.data[0].0, 20_000);
    assert_eq!(c.data.last().unwrap().0, 50_000);
    assert!(c.data.windows(2).all(|w| w[0].0 < w[1].0));
}

#[test]
fn peak_never_decreases() {
    let mut c = AreaChart::new("Predators".to_string(), EntityType::Predator, TrackingStat::Population);
    assert_eq!(c.max_value, 1);
    let mut last = c.max_value;
    for (i, n) in [0usize, 4, 2, 7, 1, 0, 7, 3].iter().enumerate() {
        c.update((i as u64 + 1) * 1000, &population(*n, 1, 1));
        assert!(c.max_value >= last);
        last = c.max_value;
    }
    assert_eq!(c.max_value, 7);
}

#[test]
fn chart_points_of_one_sample() {
    let mut c = AreaChart::new("Prey".to_string(), EntityType::Prey, TrackingStat::Population);
    let (area, line) = c.chart_points(0, 0, 3000, 1040);
    assert!(area.is_empty() && line.is_empty());
    c.update(5000, &population(0, 2, 0));
    assert_eq!(c.max_value, 2);
    let (area, line) = c.chart_points(0, 0, 3000, 1040);
    assert_eq!(line, vec![Vector2::new(3000, 111), Vector2::new(3000, 111)]);
    assert_eq!(
        area,
        vec![
            Vector2::new(0, 1020),
            Vector2::new(3000, 111),
            Vector2::new(3000, 111),
            Vector2::new(3000, 1020)
        ]
    );
}

#[test]
fn chart_points_spread_over_the_window() {
    let mut c = AreaChart::new("Prey".to_string(), EntityType::Prey, TrackingStat::Population);
    c.update(0, &population(0, 1, 0));
    c.update(15_000, &population(0, 1, 0));
    let (_, line) = c.chart_points(100, 50, 3000, 1040);
    // One window of 30 s over 3000 units: the older sample sits halfway.
    assert_eq!(line[0].x, 1600);
    assert_eq!(line[1].x, 3100);
    assert_eq!(line[2], Vector2::new(3100, line[1].y));
}

#[test]
fn plot_keeps_the_latest_hundred() {
    let mut p = Plot::new("Prey".to_string(), EntityType::Prey);
    for i in 0..(MAX_DATA_POINTS + 1) {
        p.update(&population(0, i % 7, 0));
    }
    assert_eq!(p.data_points.len(), MAX_DATA_POINTS);
    assert_eq!(p.data_points[0], 1);
    assert_eq!(*p.data_points.last().unwrap(), (MAX_DATA_POINTS % 7) as u64);
}

#[test]
fn plot_line_points() {
    let mut p = Plot::new("Prey".to_string(), EntityType::Prey);
    assert_eq!(p.peak(), 1);
    p.update(&population(0, 1, 0));
    assert!(p.line_points(0, 0, 100, 140).is_empty());
    p.update(&population(0, 3, 0));
    assert_eq!(p.peak(), 3);
    assert_eq!(
        p.line_points(0, 0, 100, 140),
        vec![Vector2::new(0, 107), Vector2::new(100, 40)]
    );
}

#[test]
fn rise_is_proportional() {
    assert_eq!(rise_of(1, 3, 100), 33);
    assert_eq!(rise_of(3, 3, 100), 100);
    assert_eq!(rise_of(0, 3, 100), 0);
}
