use vstd::prelude::*;

use crate::entity::{count_kind, count_of, Entity, EntityType};
use crate::plot::rise_of;
use crate::vector::Vector2;

verus! {

/// How long a sample stays in the window, in milliseconds.
pub const WINDOW_DURATION_MS: u64 = 30_000;

/// Space, in the units of the chart's rectangle, kept below the baseline.
pub const CHART_BASELINE_MARGIN: i64 = 20;

/// Space kept for the title and the axis label.
pub const CHART_LABEL_SPACE: i64 = 40;

/// Height of a sample of value `v` above the baseline, in a plot area of
/// height `span`, with ten percent of headroom above `peak`.
pub open spec fn chart_rise(v: int, peak: int, span: int) -> int {
    (v * 10) * span / (peak * 11)
}

/// The point of the `i`-th sample of a chart in the rectangle at
/// `(left, top)`: the window ending at the latest sample spans the width.
pub open spec fn chart_point(
    data: Seq<(u64, u64)>,
    peak: int,
    i: int,
    left: int,
    top: int,
    width: int,
    height: int,
) -> Vector2 {
    let offset = WINDOW_DURATION_MS - (data.last().0 - data[i].0);
    Vector2 {
        x: (left + offset * width / WINDOW_DURATION_MS as int) as i64,
        y: (top + height - CHART_BASELINE_MARGIN - chart_rise(
            data[i].1 as int,
            peak,
            height - CHART_LABEL_SPACE,
        )) as i64,
    }
}

/// What a chart counts.
#[derive(Clone, Copy, Debug, PartialEq, Eq, Structural)]
pub enum TrackingStat {
    Population,
}

/// Timestamps strictly increase along the window.
pub open spec fn strictly_sorted(data: Seq<(u64, u64)>) -> bool {
    forall|i: int, j: int| 0 <= i < j < data.len() ==> data[i].0 < data[j].0
}

/// `data` after dropping, from the front, every sample older than the
/// window at `time`.
pub open spec fn retained(data: Seq<(u64, u64)>, time: int) -> Seq<(u64, u64)>
    decreases data.len(),
{
    if data.len() > 0 && time - data[0].0 > WINDOW_DURATION_MS {
        retained(data.drop_first(), time)
    } else {
        data
    }
}

pub open spec fn max(a: int, b: int) -> int {
    if a >= b {
        a
    } else {
        b
    }
}

/// The running maximum after observing `counts` in order, from `peak`.
pub open spec fn peak_after(peak: int, counts: Seq<int>) -> int
    decreases counts.len(),
{
    if counts.len() == 0 {
        peak
    } else {
        max(peak_after(peak, counts.drop_last()), counts.last())
    }
}

/// The running maximum never decreases: after more observations it is at
/// least what it was after fewer.
pub proof fn lemma_peak_never_decreases(peak: int, counts: Seq<int>, i: int, j: int)
    requires
        0 <= i <= j <= counts.len(),
    ensures
        peak <= peak_after(peak, counts.take(i)) <= peak_after(peak, counts.take(j)),
    decreases j,
{
    if i < j {
        lemma_peak_never_decreases(peak, counts, i, j - 1);
        assert(counts.take(j).drop_last() == counts.take(j - 1));
    } else if j > 0 {
        lemma_peak_never_decreases(peak, counts, j - 1, j - 1);
        assert(counts.take(j).drop_last() == counts.take(j - 1));
    } else {
        assert(counts.take(0).len() == 0);
    }
}

/// In a sorted window whose samples are no later than `time`, every sample
/// that stays after eviction is at most `WINDOW_DURATION_MS` old, and what
/// stays is a suffix that keeps the order.
pub proof fn lemma_retained_within_window(data: Seq<(u64, u64)>, time: int)
    requires
        strictly_sorted(data),
    ensures
        forall|i: int|
            0 <= i < retained(data, time).len() ==> time - (#[trigger] retained(data, time)[i]).0
                <= WINDOW_DURATION_MS,
        strictly_sorted(retained(data, time)),
        exists|k: int| 0 <= k <= data.len() && retained(data, time) == data.subrange(k, data.len() as int),
    decreases data.len(),
{
    if data.len() > 0 && time - data[0].0 > WINDOW_DURATION_MS {
        lemma_retained_within_window(data.drop_first(), time);
        let k = choose|k: int|
            0 <= k <= data.drop_first().len() && retained(data.drop_first(), time)
                == data.drop_first().subrange(k, data.drop_first().len() as int);
        assert(data.drop_first().subrange(k, data.drop_first().len() as int) == data.subrange(
            k + 1,
            data.len() as int,
        ));
    } else if data.len() > 0 {
        assert forall|i: int| 0 <= i < data.len() implies time - (#[trigger] data[i]).0
            <= WINDOW_DURATION_MS by {
            if i > 0 {
                assert(data[0].0 < data[i].0);
            }
        }
        assert(data.subrange(0, data.len() as int) == data);
    } else {
        assert(data.subrange(0, 0) == data);
    }
}

/// A sliding window of population samples `(time, count)` for one kind,
/// with the largest count seen so far.
pub struct AreaChart {
    pub title: String,
    pub entity_type: EntityType,
    pub tracking_stat: TrackingStat,
    pub data: Vec<(u64, u64)>,
    pub max_value: u64,
    pub start_time: u64,
}

impl AreaChart {
    pub open spec fn wf(&self) -> bool {
        &&& strictly_sorted(self.data@)
        &&& self.data@.len() > 0 ==> forall|i: int|
            0 <= i < self.data@.len() ==> self.data@.last().0 - (#[trigger] self.data@[i]).0
                <= WINDOW_DURATION_MS
        &&& self.max_value >= 1
        &&& forall|i: int| 0 <= i < self.data@.len() ==> (#[trigger] self.data@[i]).1 <= self.max_value
    }

    /// The line through the samples of the window in the rectangle at
    /// `(left, top)`, extended flat to the right edge, and the polygon under
    /// it, closed along the baseline. Both are empty when there is no sample.
    pub fn chart_points(&self, left: i64, top: i64, width: i64, height: i64) -> (r: (
        Vec<Vector2>,
        Vec<Vector2>,
    ))
        requires
            self.wf(),
            0 <= left <= 1_000_000_000,
            0 <= top <= 1_000_000_000,
            CHART_LABEL_SPACE <= width <= 1_000_000_000,
            CHART_LABEL_SPACE <= height <= 1_000_000_000,
        ensures
            ({
                let (area, line) = r;
                let data = self.data@;
                let base = Vector2 {
                    x: left,
                    y: (top + height - CHART_BASELINE_MARGIN) as i64,
                };
                let pts = Seq::new(
                    data.len(),
                    |i: int|
                        chart_point(
                            data,
                            self.max_value as int,
                            i,
                            left as int,
                            top as int,
                            width as int,
                            height as int,
                        ),
                );
                let edge = Vector2 { x: (left + width) as i64, y: pts.last().y };
                let corner = Vector2 {
                    x: (left + width) as i64,
                    y: (top + height - CHART_BASELINE_MARGIN) as i64,
                };
                if data.len() == 0 {
                    area@.len() == 0 && line@.len() == 0
                } else {
                    &&& line@ == pts.push(edge)
                    &&& area@ == seq![base] + pts.push(edge).push(corner)
                }
            }),
    {
        let mut area: Vec<Vector2> = Vec::new();
        let mut line: Vec<Vector2> = Vec::new();
        let n = self.data.len();
        if n == 0 {
            return (area, line);
        }
        let base_y = top + height - CHART_BASELINE_MARGIN;
        area.push(Vector2::new(left, base_y));
        let current = self.data[n - 1].0;
        let ghost pts = Seq::new(
            self.data@.len(),
            |i: int|
                chart_point(
                    self.data@,
                    self.max_value as int,
                    i,
                    left as int,
                    top as int,
                    width as int,
                    height as int,
                ),
        );
        let mut i: usize = 0;
        while i < n
            invariant
                self.wf(),
                n == self.data@.len(),
                n > 0,
                current == self.data@.last().0,
                0 <= i <= n,
                0 <= left <= 1_000_000_000,
                0 <= top <= 1_000_000_000,
                CHART_LABEL_SPACE <= width <= 1_000_000_000,
                CHART_LABEL_SPACE <= height <= 1_000_000_000,
                base_y == top + height - CHART_BASELINE_MARGIN,
                pts.len() == n,
                forall|k: int|
                    0 <= k < n ==> #[trigger] pts[k] == chart_point(
                        self.data@,
                        self.max_value as int,
                        k,
                        left as int,
                        top as int,
                        width as int,
                        height as int,
                    ),
                line@ == pts.take(i as int),
                area@ == seq![Vector2 { x: left, y: base_y }] + pts.take(i as int),
            decreases n - i,
        {
            let (t, v) = self.data[i];
            assert(current - t <= WINDOW_DURATION_MS);
            if i < n - 1 {
                assert(t < current);
            }
            let offset = (WINDOW_DURATION_MS - (current - t)) as i64;
            assert(offset * width <= 30_000 * 1_000_000_000) by (nonlinear_arith)
                requires
                    0 <= offset <= 30_000,
                    0 <= width <= 1_000_000_000,
            ;
            assert(offset * width >= 0) by (nonlinear_arith)
                requires
                    0 <= offset,
                    0 <= width,
            ;
            let dx = offset * width / (WINDOW_DURATION_MS as i64);
            assert(dx <= offset * width);
            let rise = rise_of(
                (v as u128) * 10,
                (self.max_value as u128) * 11,
                height - CHART_LABEL_SPACE,
            );
            let p = Vector2::new(left + dx, base_y - rise);
            assert(p == pts[i as int]);
            line.push(p);
            area.push(p);
            assert(line@ =~= pts.take(i as int + 1));
            assert(area@ =~= seq![Vector2 { x: left, y: base_y }] + pts.take(i as int + 1));
            i = i + 1;
        }
        assert(pts.take(n as int) == pts);
        let last_y = line[n - 1].y;
        let edge = Vector2::new(left + width, last_y);
        line.push(edge);
        area.push(edge);
        let corner = Vector2::new(left + width, base_y);
        area.push(corner);
        assert(area@ =~= seq![Vector2 { x: left, y: base_y }] + pts.push(edge).push(corner));
        (area, line)
    }

    /// An empty chart for one kind; its peak starts at one.
    pub fn new(title: String, entity_type: EntityType, tracking_stat: TrackingStat) -> (r: AreaChart)
        ensures
            r.wf(),
            r.title@ == title@,
            r.entity_type == entity_type,
            r.tracking_stat == tracking_stat,
            r.data@.len() == 0,
            r.max_value == 1,
            r.start_time == 0,
    {
        AreaChart {
            title,
            entity_type,
            tracking_stat,
            data: Vec::new(),
            max_value: 1,
            start_time: 0,
        }
    }

    /// Samples the population of the tracked kind at `time`: appends
    /// `(time, count)`, raises the peak to the count, and evicts from the
    /// front the samples more than `WINDOW_DURATION_MS` older than `time`.
    pub fn update(&mut self, time: u64, entities: &[Entity])
        requires
            old(self).wf(),
            old(self).data@.len() > 0 ==> old(self).data@.last().0 < time,
            entities@.len() <= u64::MAX,
        ensures
            final(self).wf(),
            final(self).data@ == retained(
                old(self).data@.push((time, count_of(entities@, old(self).entity_type) as u64)),
                time as int,
            ),
            final(self).data@.len() > 0,
            final(self).data@.last() == (time, count_of(entities@, old(self).entity_type) as u64),
            forall|i: int|
                0 <= i < final(self).data@.len() ==> time - (#[trigger] final(self).data@[i]).0
                    <= WINDOW_DURATION_MS,
            final(self).max_value == max(
                old(self).max_value as int,
                count_of(entities@, old(self).entity_type) as int,
            ),
            final(self).max_value >= old(self).max_value,
            final(self).start_time == if old(self).data@.len() == 0 {
                time
            } else {
                old(self).start_time
            },
            final(self).title@ == old(self).title@,
            final(self).entity_type == old(self).entity_type,
            final(self).tracking_stat == old(self).tracking_stat,
    {
        if self.data.len() == 0 {
            self.start_time = time;
        }
        let value = match self.tracking_stat {
            TrackingStat::Population => count_kind(entities, self.entity_type),
        };
        if value > self.max_value {
            self.max_value = value;
        }
        self.data.push((time, value));
        let ghost appended = self.data@;
        let ghost peak = self.max_value;
        let ghost start = self.start_time;
        assert(strictly_sorted(appended));
        proof {
            lemma_retained_within_window(appended, time as int);
        }
        while self.data.len() > 0 && time - self.data[0].0 > WINDOW_DURATION_MS
            invariant
                retained(self.data@, time as int) == retained(appended, time as int),
                strictly_sorted(self.data@),
                self.data@.len() > 0,
                self.data@.last() == (time, value),
                forall|i: int| 0 <= i < self.data@.len() ==> (#[trigger] self.data@[i]).0 <= time,
                forall|i: int| 0 <= i < self.data@.len() ==> (#[trigger] self.data@[i]).1 <= peak,
                self.max_value == peak,
                self.start_time == start,
                self.title@ == old(self).title@,
                self.entity_type == old(self).entity_type,
                self.tracking_stat == old(self).tracking_stat,
            decreases self.data@.len(),
        {
            let ghost before = self.data@;
            self.data.remove(0);
            assert(self.data@ == before.drop_first());
        }
    }
}

} // verus!
