use vstd::prelude::*;

use crate::vector::{Vector2, MAX_EXTENT};

verus! {

/// The offsets of the grid lines across an extent: every multiple of the
/// cell size from zero up to the extent.
pub open spec fn line_offsets(extent: int, cell_size: int) -> Seq<i64> {
    Seq::new((extent / cell_size + 1) as nat, |i: int| (i * cell_size) as i64)
}

/// Every multiple of `cell_size` from zero up to `extent`, in order.
pub fn grid_lines(extent: i64, cell_size: i64) -> (r: Vec<i64>)
    requires
        0 < cell_size,
        0 <= extent <= MAX_EXTENT,
    ensures
        r@ == line_offsets(extent as int, cell_size as int),
        forall|i: int| 0 <= i < r@.len() ==> 0 <= #[trigger] r@[i] <= extent,
{
    let count = extent / cell_size + 1;
    let mut r: Vec<i64> = Vec::new();
    let mut i: i64 = 0;
    while i < count
        invariant
            0 < cell_size,
            0 <= extent <= MAX_EXTENT,
            count == extent / cell_size + 1,
            0 <= i <= count,
            r@ =~= line_offsets(extent as int, cell_size as int).take(i as int),
        decreases count - i,
    {
        assert(i * cell_size <= extent) by (nonlinear_arith)
            requires
                i <= extent / cell_size,
                cell_size > 0,
                extent >= 0,
        ;
        assert(i * cell_size >= 0) by (nonlinear_arith)
            requires
                i >= 0,
                cell_size > 0,
        ;
        r.push(i * cell_size);
        i = i + 1;
        assert(r@ =~= line_offsets(extent as int, cell_size as int).take(i as int));
    }
    assert(line_offsets(extent as int, cell_size as int).take(count as int) =~= line_offsets(
        extent as int,
        cell_size as int,
    ));
    assert forall|i: int| 0 <= i < r@.len() implies 0 <= #[trigger] r@[i] <= extent by {
        assert(i * cell_size <= extent) by (nonlinear_arith)
            requires
                i <= extent / cell_size,
                cell_size > 0,
                extent >= 0,
        ;
        assert(i * cell_size >= 0) by (nonlinear_arith)
            requires
                i >= 0,
                cell_size > 0,
        ;
    }
    r
}

/// The drawing area of a simulation: its extent and its cell size.
pub struct SimulationSpace {
    pub size: Vector2,
    pub cell_size: i64,
}

impl SimulationSpace {
    pub fn new(grid_size: Vector2, cell_size: i64) -> (r: SimulationSpace)
        ensures
            r.size == grid_size,
            r.cell_size == cell_size,
    {
        SimulationSpace { size: grid_size, cell_size }
    }

    /// The offsets of the vertical grid lines.
    pub fn column_lines(&self) -> (r: Vec<i64>)
        requires
            0 < self.cell_size,
            0 <= self.size.x <= MAX_EXTENT,
        ensures
            r@ == line_offsets(self.size.x as int, self.cell_size as int),
    {
        grid_lines(self.size.x, self.cell_size)
    }

    /// The offsets of the horizontal grid lines.
    pub fn row_lines(&self) -> (r: Vec<i64>)
        requires
            0 < self.cell_size,
            0 <= self.size.y <= MAX_EXTENT,
        ensures
            r@ == line_offsets(self.size.y as int, self.cell_size as int),
    {
        grid_lines(self.size.y, self.cell_size)
    }
}

} // verus!
