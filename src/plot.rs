use vstd::prelude::*;

use crate::entity::{count_kind, count_of, Entity, EntityType};
use crate::vector::Vector2;

verus! {

/// Most samples that a plot keeps.
pub const MAX_DATA_POINTS: usize = 100;

/// Headroom, in the units of the plot's rectangle, kept free above the line.
pub const PLOT_HEADROOM: i64 = 40;

/// `points`, without its oldest sample when it holds more than
/// `MAX_DATA_POINTS`.
pub open spec fn kept(points: Seq<u64>) -> Seq<u64> {
    if points.len() > MAX_DATA_POINTS {
        points.drop_first()
    } else {
        points
    }
}

/// The largest sample, and at least one.
pub open spec fn peak_of(points: Seq<u64>) -> int
    decreases points.len(),
{
    if points.len() == 0 {
        1
    } else {
        let p = peak_of(points.drop_last());
        if points.last() > p {
            points.last() as int
        } else {
            p
        }
    }
}

/// The `i`-th point of the line through `points`, drawn in the rectangle at
/// `(left, top)` of the given extent: spread evenly from the left edge to the
/// right one, and raised from the bottom in proportion to the peak.
pub open spec fn plot_point(
    points: Seq<u64>,
    i: int,
    left: int,
    top: int,
    width: int,
    height: int,
) -> Vector2 {
    Vector2 {
        x: (left + i * width / (points.len() - 1)) as i64,
        y: (top + height - points[i] * (height - PLOT_HEADROOM) / peak_of(points)) as i64,
    }
}

pub proof fn lemma_peak_of_bounds(points: Seq<u64>)
    ensures
        1 <= peak_of(points),
        points.len() > 0 ==> peak_of(points) <= u64::MAX,
        forall|i: int| 0 <= i < points.len() ==> points[i] <= peak_of(points),
    decreases points.len(),
{
    if points.len() > 0 {
        lemma_peak_of_bounds(points.drop_last());
        assert forall|i: int| 0 <= i < points.len() implies points[i] <= peak_of(points) by {
            if i < points.len() - 1 {
                assert(points[i] == points.drop_last()[i]);
            }
        }
    }
}

/// A series of the population counts of one kind, one per update, holding
/// the latest `MAX_DATA_POINTS`.
pub struct Plot {
    pub title: String,
    pub entity_type: EntityType,
    pub data_points: Vec<u64>,
}

impl Plot {
    pub open spec fn wf(&self) -> bool {
        self.data_points@.len() <= MAX_DATA_POINTS
    }

    pub fn new(title: String, entity_type: EntityType) -> (r: Plot)
        ensures
            r.wf(),
            r.title@ == title@,
            r.entity_type == entity_type,
            r.data_points@.len() == 0,
    {
        Plot { title, entity_type, data_points: Vec::new() }
    }

    /// Appends the count of the plot's kind, dropping the oldest sample when
    /// more than `MAX_DATA_POINTS` would be kept.
    pub fn update(&mut self, entities: &[Entity])
        requires
            old(self).wf(),
            entities@.len() <= u64::MAX,
        ensures
            final(self).wf(),
            final(self).data_points@ == kept(
                old(self).data_points@.push(count_of(entities@, old(self).entity_type) as u64),
            ),
            final(self).data_points@.last() == count_of(entities@, old(self).entity_type) as u64,
            final(self).title@ == old(self).title@,
            final(self).entity_type == old(self).entity_type,
    {
        let count = count_kind(entities, self.entity_type);
        self.data_points.push(count);
        if self.data_points.len() > MAX_DATA_POINTS {
            self.data_points.remove(0);
        }
    }

    /// The largest sample, and at least one.
    pub fn peak(&self) -> (r: u64)
        ensures
            r == peak_of(self.data_points@),
    {
        let mut p: u64 = 1;
        let mut i: usize = 0;
        while i < self.data_points.len()
            invariant
                0 <= i <= self.data_points@.len(),
                p == peak_of(self.data_points@.take(i as int)),
            decreases self.data_points@.len() - i,
        {
            assert(self.data_points@.take(i as int + 1).drop_last() == self.data_points@.take(
                i as int,
            ));
            if self.data_points[i] > p {
                p = self.data_points[i];
            }
            i = i + 1;
        }
        assert(self.data_points@.take(i as int) == self.data_points@);
        p
    }

    /// The points of the plot's line in the rectangle at `(left, top)`; none
    /// unless there are two samples or more.
    pub fn line_points(&self, left: i64, top: i64, width: i64, height: i64) -> (r: Vec<Vector2>)
        requires
            self.wf(),
            0 <= left <= 1_000_000_000,
            0 <= top <= 1_000_000_000,
            PLOT_HEADROOM <= width <= 1_000_000_000,
            PLOT_HEADROOM <= height <= 1_000_000_000,
        ensures
            self.data_points@.len() <= 1 ==> r@.len() == 0,
            self.data_points@.len() > 1 ==> r@ == Seq::new(
                self.data_points@.len(),
                |i: int|
                    plot_point(
                        self.data_points@,
                        i,
                        left as int,
                        top as int,
                        width as int,
                        height as int,
                    ),
            ),
    {
        let mut r: Vec<Vector2> = Vec::new();
        let n = self.data_points.len();
        if n <= 1 {
            return r;
        }
        let peak = self.peak();
        proof {
            lemma_peak_of_bounds(self.data_points@);
        }
        let mut i: usize = 0;
        while i < n
            invariant
                n == self.data_points@.len(),
                1 < n <= MAX_DATA_POINTS,
                0 <= i <= n,
                peak == peak_of(self.data_points@),
                1 <= peak,
                forall|k: int| 0 <= k < n ==> self.data_points@[k] <= peak,
                0 <= left <= 1_000_000_000,
                0 <= top <= 1_000_000_000,
                PLOT_HEADROOM <= width <= 1_000_000_000,
                PLOT_HEADROOM <= height <= 1_000_000_000,
                r@.len() == i,
                forall|k: int|
                    0 <= k < i ==> #[trigger] r@[k] == plot_point(
                        self.data_points@,
                        k,
                        left as int,
                        top as int,
                        width as int,
                        height as int,
                    ),
            decreases n - i,
        {
            let v = self.data_points[i];
            assert(i * width <= 100 * 1_000_000_000) by (nonlinear_arith)
                requires
                    i < 100,
                    0 <= width <= 1_000_000_000,
            ;
            let dx = (i as i64) * width / ((n - 1) as i64);
            assert(dx <= i * width) by (nonlinear_arith)
                requires
                    dx == (i as int * width as int) / (n - 1) as int,
                    n > 1,
                    i * width >= 0,
            ;
            let rise = rise_of(v as u128, peak as u128, height - PLOT_HEADROOM);
            r.push(Vector2::new(left + dx, top + height - rise));
            i = i + 1;
        }
        assert(r@ =~= Seq::new(
            self.data_points@.len(),
            |i: int|
                plot_point(
                    self.data_points@,
                    i,
                    left as int,
                    top as int,
                    width as int,
                    height as int,
                ),
        ));
        r
    }
}

/// `value * span / peak` for a value at most the peak: a height in `[0, span]`.
pub fn rise_of(value: u128, peak: u128, span: i64) -> (r: i64)
    requires
        1 <= peak <= 0x10_0000_0000_0000_0000,
        value <= peak,
        0 <= span <= 1_000_000_000,
    ensures
        r == (value as int) * (span as int) / (peak as int),
        0 <= r <= span,
{
    assert((value as int) * (span as int) <= 0x10_0000_0000_0000_0000 * 1_000_000_000)
        by (nonlinear_arith)
        requires
            value <= 0x10_0000_0000_0000_0000u128,
            0 <= span <= 1_000_000_000,
    ;
    let num: u128 = (value as u128) * (span as u128);
    assert(num <= peak * span) by (nonlinear_arith)
        requires
            num == value * span,
            value <= peak,
            span >= 0,
    ;
    let q: u128 = num / (peak as u128);
    assert(q <= span) by (nonlinear_arith)
        requires
            num <= peak * span,
            q == num as int / peak as int,
            peak >= 1,
            span >= 0,
    ;
    q as i64
}

} // verus!
