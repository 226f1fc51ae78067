use vstd::prelude::*;

use crate::entity::{grid_ok, Entity, EntityType, JITTER, MAX_STEP_MS};
use crate::random::random_in;
use crate::vector::{Vector2, MAX_EXTENT};

verus! {

/// Shortest delay, in milliseconds, between two spawns.
pub const SPAWN_DELAY_MIN_MS: u64 = 1000;

/// Bound (exclusive), in milliseconds, on the delay between two spawns.
pub const SPAWN_DELAY_MAX_MS: u64 = 3000;

/// Largest simulated time, in milliseconds.
pub const MAX_TIME_MS: u64 = 1_000_000_000_000_000;

/// Smallest cell size, in milliunits, that gives every kind a positive size.
pub const MIN_CELL_SIZE: i64 = 3;

/// Number of predators, prey and plants in the initial population.
pub const INITIAL_PREDATORS: usize = 3;

pub const INITIAL_PREY: usize = 10;

pub const INITIAL_PLANTS: usize = 20;

pub const INITIAL_POPULATION: usize = 33;

/// The size of an entity of this kind: four fifths of a cell for a predator,
/// three fifths for a prey, two fifths for a plant.
pub open spec fn size_for(kind: EntityType, cell_size: int) -> int {
    match kind {
        EntityType::Predator => cell_size * 4 / 5,
        EntityType::Prey => cell_size * 3 / 5,
        EntityType::Plant => cell_size * 2 / 5,
    }
}

/// The kind of the `i`-th entity of the initial population.
pub open spec fn initial_kind(i: int) -> EntityType {
    if i < INITIAL_PREDATORS {
        EntityType::Predator
    } else if i < INITIAL_PREDATORS + INITIAL_PREY {
        EntityType::Prey
    } else {
        EntityType::Plant
    }
}

/// A position at which an entity of the given size lies within the grid.
pub open spec fn position_ok(x: int, y: int, size: int, grid: Vector2) -> bool {
    size / 2 <= x <= grid.x - size / 2 && size / 2 <= y <= grid.y - size / 2
}

/// What one spawn was drawn: the kind, the position, and the delay until the
/// next spawn.
#[derive(Clone, Copy, Debug)]
pub struct SpawnDraw {
    pub entity_type: EntityType,
    pub x: i64,
    pub y: i64,
    pub delay_ms: u64,
}

/// Each entity advanced by one step with its own pair of draws.
pub open spec fn stepped_entities(
    entities: Seq<Entity>,
    jitter: Seq<(i64, i64)>,
    dt: int,
    grid: Vector2,
) -> Seq<Entity> {
    Seq::new(
        entities.len(),
        |i: int| entities[i].advanced(jitter[i].0 as int, jitter[i].1 as int, dt, grid),
    )
}

/// The initial population: the kinds in order, each at its position, at
/// rest, with its kind's size.
pub open spec fn initial_population(positions: Seq<(i64, i64)>, cell_size: int) -> Seq<Entity> {
    Seq::new(
        INITIAL_POPULATION as nat,
        |i: int|
            Entity::constructed(
                initial_kind(i),
                positions[i].0,
                positions[i].1,
                size_for(initial_kind(i), cell_size) as i64,
            ),
    )
}

/// The extent of a grid of `width` by `height` cells.
pub open spec fn grid_of(width: int, height: int, cell_size: int) -> Vector2 {
    Vector2 { x: (width * cell_size) as i64, y: (height * cell_size) as i64 }
}

/// Grid dimensions that a simulation can be made with.
pub open spec fn grid_args_ok(width: int, height: int, cell_size: int) -> bool {
    &&& 0 < width
    &&& 0 < height
    &&& MIN_CELL_SIZE <= cell_size
    &&& width * cell_size <= MAX_EXTENT
    &&& height * cell_size <= MAX_EXTENT
}

/// Positions for the initial population, each inside the grid for its
/// entity's size.
pub open spec fn initial_positions_ok(
    positions: Seq<(i64, i64)>,
    cell_size: int,
    grid: Vector2,
) -> bool {
    &&& positions.len() == INITIAL_POPULATION
    &&& forall|i: int|
        0 <= i < positions.len() ==> position_ok(
            (#[trigger] positions[i]).0 as int,
            positions[i].1 as int,
            size_for(initial_kind(i), cell_size),
            grid,
        )
}

fn initial_kind_at(i: usize) -> (r: EntityType)
    ensures
        r == initial_kind(i as int),
{
    if i < INITIAL_PREDATORS {
        EntityType::Predator
    } else if i < INITIAL_PREDATORS + INITIAL_PREY {
        EntityType::Prey
    } else {
        EntityType::Plant
    }
}

proof fn lemma_kind_size_fits(kind: EntityType, cell_size: int)
    requires
        MIN_CELL_SIZE <= cell_size,
    ensures
        0 < size_for(kind, cell_size) <= cell_size,
{
}

pub fn kind_size(kind: EntityType, cell_size: i64) -> (r: i64)
    requires
        0 <= cell_size <= MAX_EXTENT,
    ensures
        r == size_for(kind, cell_size as int),
{
    match kind {
        EntityType::Predator => cell_size * 4 / 5,
        EntityType::Prey => cell_size * 3 / 5,
        EntityType::Plant => cell_size * 2 / 5,
    }
}

/// The grid, its entities and the clock of the spawner.
pub struct SimulationState {
    pub grid_size: Vector2,
    pub cell_size: i64,
    pub entities: Vec<Entity>,
    pub time: u64,
    pub next_spawn_time: u64,
}

impl SimulationState {
    pub open spec fn wf(&self) -> bool {
        &&& grid_ok(self.grid_size)
        &&& MIN_CELL_SIZE <= self.cell_size <= self.grid_size.x
        &&& self.cell_size <= self.grid_size.y
        &&& forall|i: int|
            0 <= i < self.entities@.len() ==> {
                &&& (#[trigger] self.entities@[i]).wf()
                &&& self.entities@[i].fits(self.grid_size)
                &&& self.entities@[i].within(self.grid_size)
            }
        &&& self.time <= MAX_TIME_MS
        &&& self.next_spawn_time <= self.time + SPAWN_DELAY_MAX_MS
    }

    /// A spawn that this state can take: a position inside the grid for the
    /// kind's size and a delay in `[SPAWN_DELAY_MIN_MS, SPAWN_DELAY_MAX_MS)`.
    pub open spec fn spawn_ok(&self, d: SpawnDraw) -> bool {
        &&& position_ok(
            d.x as int,
            d.y as int,
            size_for(d.entity_type, self.cell_size as int),
            self.grid_size,
        )
        &&& SPAWN_DELAY_MIN_MS <= d.delay_ms < SPAWN_DELAY_MAX_MS
    }

    pub open spec fn spawned(&self, d: SpawnDraw) -> Entity {
        Entity::constructed(
            d.entity_type,
            d.x,
            d.y,
            size_for(d.entity_type, self.cell_size as int) as i64,
        )
    }

    /// Draws that a step of `dt` milliseconds from this state can take: one
    /// valid pair for each entity, and a valid spawn when one is due.
    pub open spec fn draws_ok(
        &self,
        dt: int,
        jitter: Seq<(i64, i64)>,
        spawn: Option<SpawnDraw>,
    ) -> bool {
        &&& jitter.len() == self.entities@.len()
        &&& forall|i: int|
            0 <= i < jitter.len() ==> -JITTER <= (#[trigger] jitter[i]).0 < JITTER && -JITTER
                <= jitter[i].1 < JITTER
        &&& self.time + dt >= self.next_spawn_time ==> spawn.is_some() && self.spawn_ok(
            spawn.unwrap(),
        )
    }

    /// `self` is what one step of `dt` milliseconds makes of `prev` with these
    /// draws: the clock moves on, every entity advances in order, and when the
    /// clock has reached the spawn time one new entity is appended and the
    /// next spawn time is set `delay_ms` later.
    pub open spec fn is_step_of(
        &self,
        prev: &SimulationState,
        dt: int,
        jitter: Seq<(i64, i64)>,
        spawn: Option<SpawnDraw>,
    ) -> bool {
        let time = prev.time + dt;
        let moved = stepped_entities(prev.entities@, jitter, dt, prev.grid_size);
        &&& self.grid_size == prev.grid_size
        &&& self.cell_size == prev.cell_size
        &&& self.time == time
        &&& if time >= prev.next_spawn_time {
            &&& self.entities@ == moved.push(prev.spawned(spawn.unwrap()))
            &&& self.next_spawn_time == time + spawn.unwrap().delay_ms
        } else {
            &&& self.entities@ == moved
            &&& self.next_spawn_time == prev.next_spawn_time
        }
    }

    /// A simulation of `grid_width` by `grid_height` cells at time zero,
    /// holding the initial population at the given positions, whose first
    /// spawn comes after `first_spawn_delay_ms`.
    pub fn seeded(
        grid_width: i32,
        grid_height: i32,
        cell_size: i64,
        positions: &Vec<(i64, i64)>,
        first_spawn_delay_ms: u64,
    ) -> (r: SimulationState)
        requires
            grid_args_ok(grid_width as int, grid_height as int, cell_size as int),
            initial_positions_ok(
                positions@,
                cell_size as int,
                grid_of(grid_width as int, grid_height as int, cell_size as int),
            ),
            SPAWN_DELAY_MIN_MS <= first_spawn_delay_ms < SPAWN_DELAY_MAX_MS,
        ensures
            r.wf(),
            r.grid_size == grid_of(grid_width as int, grid_height as int, cell_size as int),
            r.cell_size == cell_size,
            r.time == 0,
            r.next_spawn_time == first_spawn_delay_ms,
            r.entities@ == initial_population(positions@, cell_size as int),
    {
        assert(grid_width * cell_size >= cell_size && grid_height * cell_size >= cell_size)
            by (nonlinear_arith)
            requires
                grid_width >= 1,
                grid_height >= 1,
                cell_size >= 0,
        ;
        let grid = Vector2::new(grid_width as i64 * cell_size, grid_height as i64 * cell_size);
        let mut entities: Vec<Entity> = Vec::new();
        let mut i: usize = 0;
        while i < INITIAL_POPULATION
            invariant
                0 <= i <= INITIAL_POPULATION,
                grid_ok(grid),
                MIN_CELL_SIZE <= cell_size <= grid.x,
                cell_size <= grid.y,
                initial_positions_ok(positions@, cell_size as int, grid),
                entities@.len() == i,
                forall|k: int|
                    0 <= k < i ==> #[trigger] entities@[k] == initial_population(
                        positions@,
                        cell_size as int,
                    )[k],
                forall|k: int|
                    0 <= k < i ==> {
                        &&& (#[trigger] entities@[k]).wf()
                        &&& entities@[k].fits(grid)
                        &&& entities@[k].within(grid)
                    },
            decreases INITIAL_POPULATION - i,
        {
            let kind = initial_kind_at(i);
            proof {
                lemma_kind_size_fits(kind, cell_size as int);
            }
            let size = kind_size(kind, cell_size);
            let (x, y) = positions[i];
            assert(position_ok(x as int, y as int, size as int, grid));
            let e = Entity::of_kind(kind, x, y, size);
            entities.push(e);
            i = i + 1;
        }
        assert(entities@ == initial_population(positions@, cell_size as int));
        SimulationState {
            grid_size: grid,
            cell_size,
            entities,
            time: 0,
            next_spawn_time: first_spawn_delay_ms,
        }
    }

    /// A simulation of `grid_width` by `grid_height` cells at time zero with
    /// the initial population at random positions inside the grid, and the
    /// first spawn after a random delay.
    pub fn new(grid_width: i32, grid_height: i32, cell_size: i64) -> (r: SimulationState)
        requires
            grid_args_ok(grid_width as int, grid_height as int, cell_size as int),
        ensures
            r.wf(),
            r.grid_size == grid_of(grid_width as int, grid_height as int, cell_size as int),
            r.cell_size == cell_size,
            r.time == 0,
            SPAWN_DELAY_MIN_MS <= r.next_spawn_time < SPAWN_DELAY_MAX_MS,
            exists|positions: Seq<(i64, i64)>|
                r.entities@ == initial_population(positions, cell_size as int),
    {
        assert(grid_width * cell_size >= cell_size && grid_height * cell_size >= cell_size)
            by (nonlinear_arith)
            requires
                grid_width >= 1,
                grid_height >= 1,
                cell_size >= 0,
        ;
        let width = grid_width as i64 * cell_size;
        let height = grid_height as i64 * cell_size;
        let mut positions: Vec<(i64, i64)> = Vec::new();
        let mut i: usize = 0;
        while i < INITIAL_POPULATION
            invariant
                0 <= i <= INITIAL_POPULATION,
                MIN_CELL_SIZE <= cell_size <= width <= MAX_EXTENT,
                cell_size <= height <= MAX_EXTENT,
                width == grid_of(grid_width as int, grid_height as int, cell_size as int).x,
                height == grid_of(grid_width as int, grid_height as int, cell_size as int).y,
                positions@.len() == i,
                forall|k: int|
                    0 <= k < i ==> position_ok(
                        (#[trigger] positions@[k]).0 as int,
                        positions@[k].1 as int,
                        size_for(initial_kind(k), cell_size as int),
                        grid_of(grid_width as int, grid_height as int, cell_size as int),
                    ),
            decreases INITIAL_POPULATION - i,
        {
            let kind = initial_kind_at(i);
            proof {
                lemma_kind_size_fits(kind, cell_size as int);
            }
            let half = kind_size(kind, cell_size) / 2;
            let x = random_in(half, width - half + 1);
            let y = random_in(half, height - half + 1);
            positions.push((x, y));
            i = i + 1;
        }
        let delay = random_in(SPAWN_DELAY_MIN_MS as i64, SPAWN_DELAY_MAX_MS as i64) as u64;
        SimulationState::seeded(grid_width, grid_height, cell_size, &positions, delay)
    }

    /// One step of `dt` milliseconds: every entity moves with its own random
    /// draws, and when the spawn time has come a random entity is appended.
    pub fn update(&mut self, dt: u64)
        requires
            old(self).wf(),
            dt <= MAX_STEP_MS,
            old(self).time + dt <= MAX_TIME_MS,
        ensures
            final(self).wf(),
            exists|jitter: Seq<(i64, i64)>, spawn: Option<SpawnDraw>|
                old(self).draws_ok(dt as int, jitter, spawn) && final(self).is_step_of(
                    old(self),
                    dt as int,
                    jitter,
                    spawn,
                ),
    {
        let n = self.entities.len();
        let mut jitter: Vec<(i64, i64)> = Vec::new();
        let mut i: usize = 0;
        while i < n
            invariant
                n == self.entities@.len(),
                0 <= i <= n,
                jitter@.len() == i,
                forall|k: int|
                    0 <= k < i ==> -JITTER <= (#[trigger] jitter@[k]).0 < JITTER && -JITTER
                        <= jitter@[k].1 < JITTER,
            decreases n - i,
        {
            if self.entities[i].entity_type == EntityType::Plant {
                jitter.push((0, 0));
            } else {
                let jx = random_in(-JITTER, JITTER);
                let jy = random_in(-JITTER, JITTER);
                jitter.push((jx, jy));
            }
            i = i + 1;
        }
        let spawn = if self.time + dt >= self.next_spawn_time {
            Some(self.spawn_new_entity())
        } else {
            None
        };
        assert(old(self).draws_ok(dt as int, jitter@, spawn));
        self.update_with(dt, &jitter, spawn);
    }

    /// Draws the kind, the position and the following delay of a spawn.
    fn spawn_new_entity(&self) -> (d: SpawnDraw)
        requires
            self.wf(),
        ensures
            self.spawn_ok(d),
    {
        let k = random_in(0, 3);
        let kind = if k == 0 {
            EntityType::Predator
        } else if k == 1 {
            EntityType::Prey
        } else {
            EntityType::Plant
        };
        proof {
            lemma_kind_size_fits(kind, self.cell_size as int);
        }
        let half = kind_size(kind, self.cell_size) / 2;
        let x = random_in(half, self.grid_size.x - half + 1);
        let y = random_in(half, self.grid_size.y - half + 1);
        let delay = random_in(SPAWN_DELAY_MIN_MS as i64, SPAWN_DELAY_MAX_MS as i64) as u64;
        SpawnDraw { entity_type: kind, x, y, delay_ms: delay }
    }

    /// One step of `dt` milliseconds with the given draws.
    pub fn update_with(&mut self, dt: u64, jitter: &Vec<(i64, i64)>, spawn: Option<SpawnDraw>)
        requires
            old(self).wf(),
            dt <= MAX_STEP_MS,
            old(self).time + dt <= MAX_TIME_MS,
            old(self).draws_ok(dt as int, jitter@, spawn),
        ensures
            final(self).wf(),
            final(self).is_step_of(old(self), dt as int, jitter@, spawn),
    {
        self.time = self.time + dt;
        let grid = self.grid_size;
        let n = self.entities.len();
        let mut i: usize = 0;
        while i < n
            invariant
                self.grid_size == grid,
                grid == old(self).grid_size,
                self.cell_size == old(self).cell_size,
                self.time == old(self).time + dt,
                self.next_spawn_time == old(self).next_spawn_time,
                grid_ok(grid),
                dt <= MAX_STEP_MS,
                n == self.entities@.len(),
                n == old(self).entities@.len(),
                n == jitter@.len(),
                0 <= i <= n,
                forall|k: int|
                    0 <= k < jitter@.len() ==> -JITTER <= (#[trigger] jitter@[k]).0 < JITTER
                        && -JITTER <= jitter@[k].1 < JITTER,
                forall|k: int|
                    0 <= k < n ==> {
                        &&& (#[trigger] old(self).entities@[k]).wf()
                        &&& old(self).entities@[k].fits(grid)
                        &&& old(self).entities@[k].within(grid)
                    },
                forall|k: int|
                    0 <= k < i ==> #[trigger] self.entities@[k] == old(self).entities@[k].advanced(
                        jitter@[k].0 as int,
                        jitter@[k].1 as int,
                        dt as int,
                        grid,
                    ),
                forall|k: int|
                    i <= k < n ==> #[trigger] self.entities@[k] == old(self).entities@[k],
                forall|k: int|
                    0 <= k < i ==> {
                        &&& (#[trigger] self.entities@[k]).wf()
                        &&& self.entities@[k].fits(grid)
                        &&& self.entities@[k].within(grid)
                    },
            decreases n - i,
        {
            let mut e = self.entities[i];
            let (jx, jy) = jitter[i];
            proof {
                e.lemma_advanced(jx as int, jy as int, dt as int, grid);
            }
            e.advance(jx, jy, dt, grid);
            self.entities.set(i, e);
            i = i + 1;
        }
        assert(self.entities@ == stepped_entities(old(self).entities@, jitter@, dt as int, grid));
        if self.time >= self.next_spawn_time {
            let d = spawn.unwrap();
            let size = kind_size(d.entity_type, self.cell_size);
            let e = Entity::of_kind(d.entity_type, d.x, d.y, size);
            self.entities.push(e);
            self.next_spawn_time = self.time + d.delay_ms;
        }
    }
}

} // verus!
