use vstd::prelude::*;

use crate::random::random_in;
use crate::vector::{
    ceil_sqrt, ceil_sqrt_u64, lemma_abs_from_square, lemma_ceil_sqrt_exists,
    lemma_scale_trunc_bound, lemma_scale_trunc_square, mul_div_trunc, scale_trunc, Vector2,
    MAX_EXTENT,
};

verus! {

/// Largest speed of a predator, in milliunits per second.
pub const PREDATOR_MAX_SPEED: i64 = 120_000;

/// Largest speed of a prey, in milliunits per second.
pub const PREY_MAX_SPEED: i64 = 100_000;

/// Bound on the random change of velocity per second, on each axis
/// (milliunits per second, per second).
pub const JITTER: i64 = 50_000;

/// Longest time step, in milliseconds, that one update may take.
pub const MAX_STEP_MS: u64 = 1_000_000;

#[derive(Clone, Copy, Debug, PartialEq, Eq, Structural)]
pub enum EntityType {
    Predator,
    Prey,
    Plant,
}

pub open spec fn max_speed(kind: EntityType) -> int {
    match kind {
        EntityType::Predator => PREDATOR_MAX_SPEED as int,
        EntityType::Prey => PREY_MAX_SPEED as int,
        EntityType::Plant => 0,
    }
}

/// A grid extent that the simulation can hold.
pub open spec fn grid_ok(grid: Vector2) -> bool {
    0 < grid.x <= MAX_EXTENT && 0 < grid.y <= MAX_EXTENT
}

/// `v`, shrunk toward zero so that its length is at most `max` when it was
/// longer.
pub open spec fn limited(vx: int, vy: int, max: int) -> (int, int) {
    if vx * vx + vy * vy > max * max {
        let len = ceil_sqrt(vx * vx + vy * vy);
        (scale_trunc(vx, max, len), scale_trunc(vy, max, len))
    } else {
        (vx, vy)
    }
}

/// The velocity component after a position `p` has been checked against
/// `[lo, hi]`: reversed when `p` lies outside.
pub open spec fn reflected(p: int, v: int, lo: int, hi: int) -> int {
    if p < lo || p > hi {
        -v
    } else {
        v
    }
}

pub open spec fn clamped(p: int, lo: int, hi: int) -> int {
    if p < lo {
        lo
    } else if p > hi {
        hi
    } else {
        p
    }
}

/// The limited velocity is no longer than `max`.
pub proof fn lemma_limited_length(vx: int, vy: int, max: int)
    requires
        max > 0,
    ensures
        limited(vx, vy, max).0 * limited(vx, vy, max).0 + limited(vx, vy, max).1 * limited(
            vx,
            vy,
            max,
        ).1 <= max * max,
{
    let n = vx * vx + vy * vy;
    if n > max * max {
        assert(n >= 0) by (nonlinear_arith)
            requires
                n == vx * vx + vy * vy,
        ;
        lemma_ceil_sqrt_exists(n);
        let len = ceil_sqrt(n);
        assert(max * max > 0) by (nonlinear_arith)
            requires
                max > 0,
        ;
        if len == 0 {
            assert(len * len == 0);
        }
        lemma_scale_trunc_square(vx, max, len);
        lemma_scale_trunc_square(vy, max, len);
        let sx = scale_trunc(vx, max, len);
        let sy = scale_trunc(vy, max, len);
        lemma_sum_of_scaled(
            sx * sx,
            sy * sy,
            len * len,
            max * max,
            vx * vx,
            vy * vy,
        );
    }
}

/// From `a * l <= x * m`, `b * l <= y * m` and `x + y <= l`, with `l > 0`,
/// follows `a + b <= m`.
proof fn lemma_sum_of_scaled(a: int, b: int, l: int, m: int, x: int, y: int)
    requires
        a * l <= x * m,
        b * l <= y * m,
        x + y <= l,
        m >= 0,
        l > 0,
    ensures
        a + b <= m,
{
    assert((a + b) * l <= (x + y) * m) by (nonlinear_arith)
        requires
            a * l <= x * m,
            b * l <= y * m,
    ;
    assert((x + y) * m <= l * m) by (nonlinear_arith)
        requires
            x + y <= l,
            m >= 0,
    ;
    assert(a + b <= m) by (nonlinear_arith)
        requires
            (a + b) * l <= l * m,
            l > 0,
    ;
}

/// Both components of a vector whose squared length is at most `m * m` lie
/// in `[-m, m]`.
pub proof fn lemma_components_bounded(vx: int, vy: int, m: int)
    requires
        m >= 0,
        vx * vx + vy * vy <= m * m,
    ensures
        -m <= vx <= m,
        -m <= vy <= m,
{
    assert(vx * vx <= m * m && vy * vy <= m * m) by (nonlinear_arith)
        requires
            vx * vx + vy * vy <= m * m,
    ;
    lemma_abs_from_square(vx, m);
    lemma_abs_from_square(vy, m);
}

/// `limited` on machine integers.
fn limit_speed(vx: i64, vy: i64, max: i64) -> (r: (i64, i64))
    requires
        -100_000_000 <= vx <= 100_000_000,
        -100_000_000 <= vy <= 100_000_000,
        0 < max <= PREDATOR_MAX_SPEED,
    ensures
        r.0 == limited(vx as int, vy as int, max as int).0,
        r.1 == limited(vx as int, vy as int, max as int).1,
{
    assert(vx * vx <= 100_000_000 * 100_000_000 && vy * vy <= 100_000_000 * 100_000_000)
        by (nonlinear_arith)
        requires
            -100_000_000 <= vx <= 100_000_000,
            -100_000_000 <= vy <= 100_000_000,
    ;
    assert(vx * vx >= 0 && vy * vy >= 0) by (nonlinear_arith);
    assert(max * max <= PREDATOR_MAX_SPEED * PREDATOR_MAX_SPEED) by (nonlinear_arith)
        requires
            0 < max <= PREDATOR_MAX_SPEED,
    ;
    let n = vx * vx + vy * vy;
    if n > max * max {
        let len = ceil_sqrt_u64(n as u64);
        (mul_div_trunc(vx, max as u64, len), mul_div_trunc(vy, max as u64, len))
    } else {
        (vx, vy)
    }
}

/// A tick that `advance` accepts: draws in `[-JITTER, JITTER)` and a step of
/// at most `MAX_STEP_MS`.
pub open spec fn tick_ok(t: (int, int, int)) -> bool {
    -JITTER <= t.0 < JITTER && -JITTER <= t.1 < JITTER && 0 <= t.2 <= MAX_STEP_MS
}

/// Where a moving entity's eyes are drawn: two eyes above its centre, each
/// with a pupil.
#[derive(Clone, Copy, Debug, PartialEq, Eq, Structural)]
pub struct Eyes {
    pub left: Vector2,
    pub right: Vector2,
    pub eye_radius: i64,
    pub pupil_radius: i64,
}

/// A simulated organism: a kind, a position, a velocity and a size.
#[derive(Clone, Copy, Debug)]
pub struct Entity {
    pub entity_type: EntityType,
    pub position: Vector2,
    pub velocity: Vector2,
    pub size: i64,
}

impl Entity {
    pub open spec fn is_mobile(self) -> bool {
        self.entity_type != EntityType::Plant
    }

    /// Half the size: the least distance between the centre and a wall.
    pub open spec fn half(self) -> int {
        self.size / 2
    }

    /// The entity fits in a grid of this extent on both axes.
    pub open spec fn fits(self, grid: Vector2) -> bool {
        self.size <= grid.x && self.size <= grid.y
    }

    /// The position lies in `[size/2, extent - size/2]` on both axes.
    pub open spec fn within(self, grid: Vector2) -> bool {
        &&& self.half() <= self.position.x <= grid.x - self.half()
        &&& self.half() <= self.position.y <= grid.y - self.half()
    }

    pub open spec fn wf(self) -> bool {
        &&& 0 < self.size <= MAX_EXTENT
        &&& -MAX_EXTENT <= self.position.x <= MAX_EXTENT
        &&& -MAX_EXTENT <= self.position.y <= MAX_EXTENT
        &&& if self.is_mobile() {
            self.velocity.length_sq() <= max_speed(self.entity_type) * max_speed(
                self.entity_type,
            )
        } else {
            self.velocity == Vector2 { x: 0, y: 0 }
        }
    }

    /// The entity after one step of `dt` milliseconds in which the random
    /// draws per second were `jx` and `jy`.
    pub open spec fn advanced(self, jx: int, jy: int, dt: int, grid: Vector2) -> Entity {
        if !self.is_mobile() {
            self
        } else {
            let (vx, vy) = limited(
                self.velocity.x + scale_trunc(jx, dt, 1000),
                self.velocity.y + scale_trunc(jy, dt, 1000),
                max_speed(self.entity_type),
            );
            let px = self.position.x + scale_trunc(vx, dt, 1000);
            let py = self.position.y + scale_trunc(vy, dt, 1000);
            let lo = self.half();
            Entity {
                entity_type: self.entity_type,
                position: Vector2 {
                    x: clamped(px, lo, grid.x - lo) as i64,
                    y: clamped(py, lo, grid.y - lo) as i64,
                },
                velocity: Vector2 {
                    x: reflected(px, vx, lo, grid.x - lo) as i64,
                    y: reflected(py, vy, lo, grid.y - lo) as i64,
                },
                size: self.size,
            }
        }
    }

    /// What one step keeps: the entity stays well formed, keeps its kind and
    /// size, a mobile one ends inside the grid and within its speed limit,
    /// and a plant is left as it was.
    pub proof fn lemma_advanced(self, jx: int, jy: int, dt: int, grid: Vector2)
        requires
            self.wf(),
            grid_ok(grid),
            self.fits(grid),
            -JITTER <= jx < JITTER,
            -JITTER <= jy < JITTER,
            0 <= dt <= MAX_STEP_MS,
        ensures
            self.advanced(jx, jy, dt, grid).wf(),
            self.advanced(jx, jy, dt, grid).entity_type == self.entity_type,
            self.advanced(jx, jy, dt, grid).size == self.size,
            self.advanced(jx, jy, dt, grid).fits(grid),
            self.is_mobile() ==> self.advanced(jx, jy, dt, grid).within(grid),
            !self.is_mobile() ==> self.advanced(jx, jy, dt, grid) == self,
    {
        if self.is_mobile() {
            let m = max_speed(self.entity_type);
            lemma_components_bounded(self.velocity.x as int, self.velocity.y as int, m);
            lemma_scale_trunc_bound(jx, dt, 1000, JITTER as int, MAX_STEP_MS as int);
            lemma_scale_trunc_bound(jy, dt, 1000, JITTER as int, MAX_STEP_MS as int);
            let vx1 = self.velocity.x + scale_trunc(jx, dt, 1000);
            let vy1 = self.velocity.y + scale_trunc(jy, dt, 1000);
            let (vx, vy) = limited(vx1, vy1, m);
            lemma_limited_length(vx1, vy1, m);
            lemma_components_bounded(vx, vy, m);
            lemma_scale_trunc_bound(vx, dt, 1000, m, MAX_STEP_MS as int);
            lemma_scale_trunc_bound(vy, dt, 1000, m, MAX_STEP_MS as int);
            let a = self.advanced(jx, jy, dt, grid);
            assert(a.velocity.x == vx || a.velocity.x == -vx);
            assert(a.velocity.y == vy || a.velocity.y == -vy);
            assert(a.velocity.length_sq() == vx * vx + vy * vy) by (nonlinear_arith)
                requires
                    a.velocity.x == vx || a.velocity.x == -vx,
                    a.velocity.y == vy || a.velocity.y == -vy,
                    a.velocity.length_sq() == a.velocity.x * a.velocity.x + a.velocity.y
                        * a.velocity.y,
            ;
        }
    }

    /// The entity after a sequence of ticks, each given as the two random
    /// draws per second and the step in milliseconds.
    pub open spec fn run(self, ticks: Seq<(int, int, int)>, grid: Vector2) -> Entity
        decreases ticks.len(),
    {
        if ticks.len() == 0 {
            self
        } else {
            let t = ticks.last();
            self.run(ticks.drop_last(), grid).advanced(t.0, t.1, t.2, grid)
        }
    }

    proof fn lemma_run_wf(self, ticks: Seq<(int, int, int)>, grid: Vector2)
        requires
            self.wf(),
            grid_ok(grid),
            self.fits(grid),
            forall|i: int| 0 <= i < ticks.len() ==> tick_ok(#[trigger] ticks[i]),
        ensures
            self.run(ticks, grid).wf(),
            self.run(ticks, grid).fits(grid),
            self.run(ticks, grid).entity_type == self.entity_type,
            self.run(ticks, grid).size == self.size,
            self.within(grid) ==> self.run(ticks, grid).within(grid),
            self.is_mobile() && ticks.len() > 0 ==> self.run(ticks, grid).within(grid),
        decreases ticks.len(),
    {
        if ticks.len() > 0 {
            let rest = ticks.drop_last();
            assert forall|i: int| 0 <= i < rest.len() implies tick_ok(#[trigger] rest[i]) by {
                assert(rest[i] == ticks[i]);
            }
            self.lemma_run_wf(rest, grid);
            let t = ticks.last();
            assert(tick_ok(ticks[ticks.len() - 1]));
            self.run(rest, grid).lemma_advanced(t.0, t.1, t.2, grid);
        }
    }

    /// After any number of ticks, an entity that fits the grid lies within
    /// `[size/2, extent - size/2]` on both axes, provided it started there or
    /// it moves and at least one tick has passed.
    pub proof fn lemma_positions_stay_within(self, ticks: Seq<(int, int, int)>, grid: Vector2)
        requires
            self.wf(),
            grid_ok(grid),
            self.fits(grid),
            forall|i: int| 0 <= i < ticks.len() ==> tick_ok(#[trigger] ticks[i]),
            self.within(grid) || (self.is_mobile() && ticks.len() > 0),
        ensures
            self.run(ticks, grid).within(grid),
    {
        self.lemma_run_wf(ticks, grid);
    }

    /// After any number of ticks, a predator or a prey is no faster than its
    /// maximum speed.
    pub proof fn lemma_speed_stays_limited(self, ticks: Seq<(int, int, int)>, grid: Vector2)
        requires
            self.wf(),
            grid_ok(grid),
            self.fits(grid),
            forall|i: int| 0 <= i < ticks.len() ==> tick_ok(#[trigger] ticks[i]),
            self.is_mobile(),
        ensures
            self.run(ticks, grid).velocity.length_sq() <= max_speed(self.entity_type) * max_speed(
                self.entity_type,
            ),
    {
        self.lemma_run_wf(ticks, grid);
    }

    /// A plant keeps its position, whatever ticks pass.
    pub proof fn lemma_plant_never_moves(self, ticks: Seq<(int, int, int)>, grid: Vector2)
        requires
            self.entity_type == EntityType::Plant,
        ensures
            self.run(ticks, grid).position == self.position,
            self.run(ticks, grid) == self,
        decreases ticks.len(),
    {
        if ticks.len() > 0 {
            self.lemma_plant_never_moves(ticks.drop_last(), grid);
        }
    }

    pub open spec fn constructed(kind: EntityType, x: i64, y: i64, size: i64) -> Entity {
        Entity {
            entity_type: kind,
            position: Vector2 { x, y },
            velocity: Vector2 { x: 0, y: 0 },
            size,
        }
    }

    pub fn new_predator(x: i64, y: i64, size: i64) -> (r: Entity)
        requires
            0 < size <= MAX_EXTENT,
            -MAX_EXTENT <= x <= MAX_EXTENT,
            -MAX_EXTENT <= y <= MAX_EXTENT,
        ensures
            r == Entity::constructed(EntityType::Predator, x, y, size),
            r.wf(),
    {
        Entity::of_kind(EntityType::Predator, x, y, size)
    }

    pub fn new_prey(x: i64, y: i64, size: i64) -> (r: Entity)
        requires
            0 < size <= MAX_EXTENT,
            -MAX_EXTENT <= x <= MAX_EXTENT,
            -MAX_EXTENT <= y <= MAX_EXTENT,
        ensures
            r == Entity::constructed(EntityType::Prey, x, y, size),
            r.wf(),
    {
        Entity::of_kind(EntityType::Prey, x, y, size)
    }

    pub fn new_plant(x: i64, y: i64, size: i64) -> (r: Entity)
        requires
            0 < size <= MAX_EXTENT,
            -MAX_EXTENT <= x <= MAX_EXTENT,
            -MAX_EXTENT <= y <= MAX_EXTENT,
        ensures
            r == Entity::constructed(EntityType::Plant, x, y, size),
            r.wf(),
    {
        Entity::of_kind(EntityType::Plant, x, y, size)
    }

    /// An entity of the given kind at rest at `(x, y)`.
    pub fn of_kind(kind: EntityType, x: i64, y: i64, size: i64) -> (r: Entity)
        requires
            0 < size <= MAX_EXTENT,
            -MAX_EXTENT <= x <= MAX_EXTENT,
            -MAX_EXTENT <= y <= MAX_EXTENT,
        ensures
            r == Entity::constructed(kind, x, y, size),
            r.wf(),
    {
        Entity { entity_type: kind, position: Vector2::new(x, y), velocity: Vector2::new(0, 0), size }
    }

    /// One step of `dt` milliseconds with the given random draws:
    /// perturb the velocity by `jitter * dt`, limit the speed, move, reverse
    /// each velocity component whose coordinate left the grid, and clamp the
    /// position back inside. Plants stay as they are.
    pub fn advance(&mut self, jitter_x: i64, jitter_y: i64, dt: u64, grid_size: Vector2)
        requires
            old(self).wf(),
            grid_ok(grid_size),
            old(self).fits(grid_size),
            -JITTER <= jitter_x < JITTER,
            -JITTER <= jitter_y < JITTER,
            dt <= MAX_STEP_MS,
        ensures
            *final(self) == old(self).advanced(
                jitter_x as int,
                jitter_y as int,
                dt as int,
                grid_size,
            ),
            final(self).wf(),
            final(self).is_mobile() ==> final(self).within(grid_size),
    {
        proof {
            self.lemma_advanced(jitter_x as int, jitter_y as int, dt as int, grid_size);
        }
        if self.entity_type == EntityType::Plant {
            return ;
        }
        let max = if self.entity_type == EntityType::Predator {
            PREDATOR_MAX_SPEED
        } else {
            PREY_MAX_SPEED
        };
        proof {
            lemma_components_bounded(self.velocity.x as int, self.velocity.y as int, max as int);
            lemma_scale_trunc_bound(jitter_x as int, dt as int, 1000, JITTER as int, MAX_STEP_MS as int);
            lemma_scale_trunc_bound(jitter_y as int, dt as int, 1000, JITTER as int, MAX_STEP_MS as int);
        }
        let vx1 = self.velocity.x + mul_div_trunc(jitter_x, dt, 1000);
        let vy1 = self.velocity.y + mul_div_trunc(jitter_y, dt, 1000);
        let (vx, vy) = limit_speed(vx1, vy1, max);
        proof {
            lemma_limited_length(vx1 as int, vy1 as int, max as int);
            lemma_components_bounded(vx as int, vy as int, max as int);
            lemma_scale_trunc_bound(vx as int, dt as int, 1000, max as int, MAX_STEP_MS as int);
            lemma_scale_trunc_bound(vy as int, dt as int, 1000, max as int, MAX_STEP_MS as int);
        }
        let px = self.position.x + mul_div_trunc(vx, dt, 1000);
        let py = self.position.y + mul_div_trunc(vy, dt, 1000);
        let lo = self.size / 2;
        let hi_x = grid_size.x - lo;
        let hi_y = grid_size.y - lo;
        let new_vx = if px < lo || px > hi_x { -vx } else { vx };
        let new_vy = if py < lo || py > hi_y { -vy } else { vy };
        let new_px = if px < lo { lo } else if px > hi_x { hi_x } else { px };
        let new_py = if py < lo { lo } else if py > hi_y { hi_y } else { py };
        self.velocity = Vector2::new(new_vx, new_vy);
        self.position = Vector2::new(new_px, new_py);
    }

    /// One step of `dt` milliseconds: a mobile entity draws its random
    /// velocity change and then moves as `advance` says.
    pub fn update(&mut self, dt: u64, grid_size: Vector2)
        requires
            old(self).wf(),
            grid_ok(grid_size),
            old(self).fits(grid_size),
            dt <= MAX_STEP_MS,
        ensures
            exists|jx: int, jy: int|
                -JITTER <= jx < JITTER && -JITTER <= jy < JITTER && *final(self) == old(
                    self,
                ).advanced(jx, jy, dt as int, grid_size),
            final(self).wf(),
            final(self).is_mobile() ==> final(self).within(grid_size),
            !old(self).is_mobile() ==> *final(self) == *old(self),
    {
        let (jx, jy) = if self.entity_type == EntityType::Plant {
            (0, 0)
        } else {
            (random_in(-JITTER, JITTER), random_in(-JITTER, JITTER))
        };
        self.advance(jx, jy, dt, grid_size);
        assert(-JITTER <= jx < JITTER && -JITTER <= jy < JITTER && *self == old(self).advanced(
            jx as int,
            jy as int,
            dt as int,
            grid_size,
        ));
    }

    /// The eyes of a moving entity: three tenths of its size across, set a
    /// fifth of its size up and to each side of the centre; each pupil is
    /// six tenths of its eye. Plants have none.
    pub open spec fn eyes_of(self) -> Option<Eyes> {
        if !self.is_mobile() {
            None
        } else {
            let eye = self.size * 3 / 10;
            let d = self.size * 2 / 10;
            Some(
                Eyes {
                    left: Vector2 {
                        x: (self.position.x - d) as i64,
                        y: (self.position.y - d) as i64,
                    },
                    right: Vector2 {
                        x: (self.position.x + d) as i64,
                        y: (self.position.y - d) as i64,
                    },
                    eye_radius: (eye / 2) as i64,
                    pupil_radius: (eye * 6 / 10 / 2) as i64,
                },
            )
        }
    }

    pub fn eyes(&self) -> (r: Option<Eyes>)
        requires
            self.wf(),
        ensures
            r == self.eyes_of(),
    {
        if self.entity_type == EntityType::Plant {
            return None;
        }
        let eye = self.size * 3 / 10;
        let d = self.size * 2 / 10;
        Some(
            Eyes {
                left: Vector2::new(self.position.x - d, self.position.y - d),
                right: Vector2::new(self.position.x + d, self.position.y - d),
                eye_radius: eye / 2,
                pupil_radius: eye * 6 / 10 / 2,
            },
        )
    }

    pub fn entity_type(&self) -> (r: EntityType)
        ensures
            r == self.entity_type,
    {
        self.entity_type
    }

    pub fn position(&self) -> (r: Vector2)
        ensures
            r == self.position,
    {
        self.position
    }

    pub fn velocity(&self) -> (r: Vector2)
        ensures
            r == self.velocity,
    {
        self.velocity
    }

    pub fn size(&self) -> (r: i64)
        ensures
            r == self.size,
    {
        self.size
    }
}

} // verus!

verus! {

/// The number of entities of the given kind.
pub open spec fn count_of(entities: Seq<Entity>, kind: EntityType) -> nat
    decreases entities.len(),
{
    if entities.len() == 0 {
        0
    } else {
        count_of(entities.drop_last(), kind) + if entities.last().entity_type == kind {
            1nat
        } else {
            0nat
        }
    }
}

pub proof fn lemma_count_of_bounded(entities: Seq<Entity>, kind: EntityType)
    ensures
        count_of(entities, kind) <= entities.len(),
    decreases entities.len(),
{
    if entities.len() > 0 {
        lemma_count_of_bounded(entities.drop_last(), kind);
    }
}

/// The number of entities of the given kind.
pub fn count_kind(entities: &[Entity], kind: EntityType) -> (r: u64)
    requires
        entities@.len() <= u64::MAX,
    ensures
        r == count_of(entities@, kind),
{
    let mut n: u64 = 0;
    let mut i: usize = 0;
    while i < entities.len()
        invariant
            0 <= i <= entities@.len(),
            entities@.len() <= u64::MAX,
            n == count_of(entities@.take(i as int), kind),
        decreases entities@.len() - i,
    {
        proof {
            assert(entities@.take(i as int + 1).drop_last() == entities@.take(i as int));
            lemma_count_of_bounded(entities@.take(i as int), kind);
        }
        if entities[i].entity_type == kind {
            n = n + 1;
        }
        i = i + 1;
    }
    assert(entities@.take(i as int) == entities@);
    n
}

} // verus!
