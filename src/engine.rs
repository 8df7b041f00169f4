use vstd::prelude::*;

use crate::contour::{FieldSlice, Segment, horizontal_edge, present, vertical_edge};
use crate::field::{Axis, Crossing, crossing_between};

verus! {

/// The nested sequences that a grid of vectors holds.
pub open spec fn grid_view<T>(g: Seq<Vec<T>>) -> Seq<Seq<T>> {
    Seq::new(g.len(), |i: int| g[i]@)
}

/// A grid of `rows` rows of `cols` zeros.
pub open spec fn zero_grid(cols: nat, rows: nat) -> Seq<Seq<i32>> {
    Seq::new(rows, |y: int| Seq::new(cols, |x: int| 0i32))
}

/// The contour engine: the current field slice and the crossings of every edge.
pub struct Engine {
    cols: usize,
    rows: usize,
    values: Vec<Vec<i32>>,
    centers: Vec<Vec<i32>>,
    interpolation_values_vertical: Vec<Vec<Option<Crossing>>>,
    interpolation_values_horizontal: Vec<Vec<Option<Crossing>>>,
}

impl View for Engine {
    type V = FieldSlice;

    closed spec fn view(&self) -> FieldSlice {
        FieldSlice {
            cols: self.cols as nat,
            rows: self.rows as nat,
            values: grid_view(self.values@),
            centers: grid_view(self.centers@),
        }
    }
}

/// `g` holds `rows` rows of `cols` elements each.
pub open spec fn has_shape<T>(g: Seq<Vec<T>>, cols: int, rows: int) -> bool {
    &&& g.len() == rows
    &&& forall|y: int| 0 <= y < rows ==> (#[trigger] g[y])@.len() == cols
}

/// Both caches hold, for every vertex, the crossings of its two edges in `values`.
pub open spec fn caches_match(
    vertical: Seq<Vec<Option<Crossing>>>,
    horizontal: Seq<Vec<Option<Crossing>>>,
    cols: nat,
    rows: nat,
    values: Seq<Seq<i32>>,
) -> bool {
    &&& has_shape(vertical, cols + 1int, rows + 1int)
    &&& has_shape(horizontal, cols + 1int, rows + 1int)
    &&& forall|x: int, y: int|
        0 <= x <= cols && 0 <= y <= rows ==> (#[trigger] vertical[y]@[x]) == vertical_edge(values, rows, x, y)
    &&& forall|x: int, y: int|
        0 <= x <= cols && 0 <= y <= rows ==> (#[trigger] horizontal[y]@[x]) == horizontal_edge(
            values,
            cols,
            x,
            y,
        )
}

/// Computes the crossings of every edge of the grid of vertex samples `values`.
fn build_caches(cols: usize, rows: usize, values: &Vec<Vec<i32>>) -> (r: (
    Vec<Vec<Option<Crossing>>>,
    Vec<Vec<Option<Crossing>>>,
))
    requires
        cols < usize::MAX,
        rows < usize::MAX,
        has_shape(values@, cols + 1, rows + 1),
    ensures
        caches_match(r.0@, r.1@, cols as nat, rows as nat, grid_view(values@)),
{
    let ghost vals = grid_view(values@);
    let mut vertical: Vec<Vec<Option<Crossing>>> = Vec::new();
    let mut horizontal: Vec<Vec<Option<Crossing>>> = Vec::new();
    let mut y: usize = 0;
    while y <= rows
        invariant
            cols < usize::MAX,
            rows < usize::MAX,
            y <= rows + 1,
            has_shape(values@, cols + 1, rows + 1),
            vals == grid_view(values@),
            has_shape(vertical@, cols + 1, y as int),
            has_shape(horizontal@, cols + 1, y as int),
            forall|x: int, j: int|
                0 <= x <= cols && 0 <= j < y ==> (#[trigger] vertical@[j]@[x]) == vertical_edge(
                    vals,
                    rows as nat,
                    x,
                    j,
                ),
            forall|x: int, j: int|
                0 <= x <= cols && 0 <= j < y ==> (#[trigger] horizontal@[j]@[x]) == horizontal_edge(
                    vals,
                    cols as nat,
                    x,
                    j,
                ),
        decreases rows + 1 - y,
    {
        let mut vrow: Vec<Option<Crossing>> = Vec::new();
        let mut hrow: Vec<Option<Crossing>> = Vec::new();
        let mut x: usize = 0;
        while x <= cols
            invariant
                cols < usize::MAX,
                rows < usize::MAX,
                y <= rows,
                x <= cols + 1,
                has_shape(values@, cols + 1, rows + 1),
                vals == grid_view(values@),
                vrow@.len() == x,
                hrow@.len() == x,
                forall|i: int| 0 <= i < x ==> (#[trigger] vrow@[i]) == vertical_edge(vals, rows as nat, i, y as int),
                forall|i: int| 0 <= i < x ==> (#[trigger] hrow@[i]) == horizontal_edge(vals, cols as nat, i, y as int),
            decreases cols + 1 - x,
        {
            let v = values[y][x];
            let vc = if y < rows {
                crossing_between(x, y, Axis::Vertical, v, values[y + 1][x])
            } else {
                None
            };
            let hc = if x < cols {
                crossing_between(x, y, Axis::Horizontal, v, values[y][x + 1])
            } else {
                None
            };
            vrow.push(vc);
            hrow.push(hc);
            x = x + 1;
        }
        vertical.push(vrow);
        horizontal.push(hrow);
        y = y + 1;
    }
    (vertical, horizontal)
}

/// A grid of `rows` rows of `cols` zero samples.
fn zeros(cols: usize, rows: usize) -> (r: Vec<Vec<i32>>)
    ensures
        has_shape(r@, cols as int, rows as int),
        grid_view(r@) == zero_grid(cols as nat, rows as nat),
{
    let mut r: Vec<Vec<i32>> = Vec::new();
    let mut y: usize = 0;
    while y < rows
        invariant
            y <= rows,
            has_shape(r@, cols as int, y as int),
            forall|j: int, i: int| 0 <= j < y && 0 <= i < cols ==> (#[trigger] r@[j]@[i]) == 0i32,
        decreases rows - y,
    {
        let mut row: Vec<i32> = Vec::new();
        let mut x: usize = 0;
        while x < cols
            invariant
                x <= cols,
                row@.len() == x,
                forall|i: int| 0 <= i < x ==> (#[trigger] row@[i]) == 0i32,
            decreases cols - x,
        {
            row.push(0);
            x = x + 1;
        }
        r.push(row);
        y = y + 1;
    }
    assert(grid_view(r@) =~~= zero_grid(cols as nat, rows as nat));
    r
}

proof fn lemma_negative_product_by_sign(a: int, b: int)
    ensures
        a * b < 0 <==> ((a < 0 && b > 0) || (a > 0 && b < 0)),
{
    assert(a * b < 0 <==> ((a < 0 && b > 0) || (a > 0 && b < 0))) by (nonlinear_arith);
}

impl Engine {
    /// The engine's fields agree: sample grids of the right sizes, and caches
    /// that hold the crossings of the current samples.
    pub closed spec fn wf(&self) -> bool {
        &&& self.cols < usize::MAX
        &&& self.rows < usize::MAX
        &&& has_shape(self.values@, self.cols + 1, self.rows + 1)
        &&& has_shape(self.centers@, self.cols as int, self.rows as int)
        &&& caches_match(
            self.interpolation_values_vertical@,
            self.interpolation_values_horizontal@,
            self.cols as nat,
            self.rows as nat,
            self@.values,
        )
    }

    /// The crossings that the engine holds: the vertical edges' grid, then the
    /// horizontal edges'.
    pub closed spec fn crossings(&self) -> (Seq<Seq<Option<Crossing>>>, Seq<Seq<Option<Crossing>>>) {
        (grid_view(self.interpolation_values_vertical@), grid_view(self.interpolation_values_horizontal@))
    }

    /// The crossings that an engine holds depend on its current field slice
    /// alone: two engines that hold the same slice hold the same crossings,
    /// whatever slices they held before.
    pub proof fn lemma_crossings_determined(a: &Engine, b: &Engine)
        requires
            a.wf(),
            b.wf(),
            a@ == b@,
        ensures
            a.crossings() == b.crossings(),
    {
        assert(a.crossings().0 =~~= b.crossings().0);
        assert(a.crossings().1 =~~= b.crossings().1);
    }

    proof fn lemma_wf_shaped(&self)
        requires
            self.wf(),
        ensures
            self@.well_shaped(),
            forall|x: int, y: int|
                0 <= x <= self.cols && 0 <= y <= self.rows ==> (#[trigger] self@.value(x, y)) == self.values@[y]@[x],
            forall|x: int, y: int|
                0 <= x < self.cols && 0 <= y < self.rows ==> (#[trigger] self@.centers[y][x]) == self.centers@[y]@[x],
    {
    }

    /// An engine for a grid of `cols` x `rows` cells, holding the zero field.
    pub fn new(cols: usize, rows: usize) -> (r: Engine)
        requires
            cols < usize::MAX,
            rows < usize::MAX,
        ensures
            r.wf(),
            r@.well_shaped(),
            r@.cols == cols,
            r@.rows == rows,
            r@.values == zero_grid((cols + 1) as nat, (rows + 1) as nat),
            r@.centers == zero_grid(cols as nat, rows as nat),
    {
        let values = zeros(cols + 1, rows + 1);
        let centers = zeros(cols, rows);
        let (vertical, horizontal) = build_caches(cols, rows, &values);
        let r = Engine {
            cols,
            rows,
            values,
            centers,
            interpolation_values_vertical: vertical,
            interpolation_values_horizontal: horizontal,
        };
        proof {
            r.lemma_wf_shaped();
        }
        r
    }

    /// Replaces the field slice with the vertex samples `values` and the cell
    /// center samples `centers`, and recomputes the crossing of every edge.
    pub fn update_interpolation_values(&mut self, values: Vec<Vec<i32>>, centers: Vec<Vec<i32>>)
        requires
            old(self).wf(),
            has_shape(values@, (old(self)@.cols + 1) as int, (old(self)@.rows + 1) as int),
            has_shape(centers@, old(self)@.cols as int, old(self)@.rows as int),
        ensures
            final(self).wf(),
            final(self)@.well_shaped(),
            final(self)@ == (FieldSlice {
                cols: old(self)@.cols,
                rows: old(self)@.rows,
                values: grid_view(values@),
                centers: grid_view(centers@),
            }),
    {
        let (vertical, horizontal) = build_caches(self.cols, self.rows, &values);
        self.values = values;
        self.centers = centers;
        self.interpolation_values_vertical = vertical;
        self.interpolation_values_horizontal = horizontal;
        proof {
            self.lemma_wf_shaped();
        }
    }

    /// The crossings on the edges of cell `(x, y)`, in order around the cell.
    fn cell_points(&self, x: usize, y: usize) -> (r: Vec<Crossing>)
        requires
            self.wf(),
            x < self@.cols,
            y < self@.rows,
        ensures
            r@ == self@.cell_points(x as int, y as int),
    {
        let a = self.interpolation_values_horizontal[y][x];
        let b = self.interpolation_values_vertical[y][x + 1];
        let c = self.interpolation_values_horizontal[y + 1][x];
        let d = self.interpolation_values_vertical[y][x];
        let mut pts: Vec<Crossing> = Vec::new();
        if let Some(p) = a {
            pts.push(p);
        }
        assert(pts@ =~= present(a));
        if let Some(p) = b {
            pts.push(p);
        }
        assert(pts@ =~= present(a) + present(b));
        if let Some(p) = c {
            pts.push(p);
        }
        assert(pts@ =~= present(a) + present(b) + present(c));
        if let Some(p) = d {
            pts.push(p);
        }
        assert(pts@ =~= present(a) + present(b) + present(c) + present(d));
        pts
    }

    /// Appends the segments of cell `(x, y)` to `out`.
    fn push_cell_segments(&self, x: usize, y: usize, out: &mut Vec<Segment>)
        requires
            self.wf(),
            x < self@.cols,
            y < self@.rows,
        ensures
            final(out)@ == old(out)@ + self@.cell_segments(x as int, y as int),
    {
        proof {
            self.lemma_wf_shaped();
        }
        let pts = self.cell_points(x, y);
        let n = pts.len();
        if n == 2 {
            out.push(Segment { start: pts[0], end: pts[1] });
        } else if n == 4 {
            let center = self.centers[y][x];
            let corner = self.values[y][x];
            proof {
                lemma_negative_product_by_sign(center as int, corner as int);
            }
            if (center < 0 && corner > 0) || (center > 0 && corner < 0) {
                out.push(Segment { start: pts[0], end: pts[3] });
                out.push(Segment { start: pts[1], end: pts[2] });
            } else {
                out.push(Segment { start: pts[0], end: pts[1] });
                out.push(Segment { start: pts[3], end: pts[2] });
            }
        }
        assert(final(out)@ =~= old(out)@ + self@.cell_segments(x as int, y as int));
    }

    /// The contour of the current slice: the segments of every cell, row by row.
    pub fn draw_marching_squares(&self) -> (r: Vec<Segment>)
        requires
            self.wf(),
        ensures
            r@ == self@.segments(),
    {
        let mut out: Vec<Segment> = Vec::new();
        let mut y: usize = 0;
        while y < self.rows
            invariant
                self.wf(),
                y <= self.rows,
                out@ == self@.segments_upto(y as nat),
            decreases self.rows - y,
        {
            let mut x: usize = 0;
            while x < self.cols
                invariant
                    self.wf(),
                    y < self.rows,
                    x <= self.cols,
                    out@ == self@.segments_upto(y as nat) + self@.row_segments(y as int, x as nat),
                decreases self.cols - x,
            {
                self.push_cell_segments(x, y, &mut out);
                assert(out@ =~= self@.segments_upto(y as nat) + self@.row_segments(y as int, (x + 1) as nat));
                x = x + 1;
            }
            assert(out@ =~= self@.segments_upto((y + 1) as nat));
            y = y + 1;
        }
        out
    }

    /// Every recorded crossing, vertex by vertex: the vertical edge's, then the
    /// horizontal edge's.
    pub fn draw_interpolation_points(&self) -> (r: Vec<Crossing>)
        requires
            self.wf(),
        ensures
            r@ == self@.points(),
    {
        let mut out: Vec<Crossing> = Vec::new();
        let mut y: usize = 0;
        while y <= self.rows
            invariant
                self.wf(),
                y <= self.rows + 1,
                out@ == self@.points_upto(y as nat),
            decreases self.rows + 1 - y,
        {
            let mut x: usize = 0;
            while x <= self.cols
                invariant
                    self.wf(),
                    y <= self.rows,
                    x <= self.cols + 1,
                    out@ == self@.points_upto(y as nat) + self@.row_points(y as int, x as nat),
                decreases self.cols + 1 - x,
            {
                let ghost before = out@;
                let v = self.interpolation_values_vertical[y][x];
                let h = self.interpolation_values_horizontal[y][x];
                if let Some(p) = v {
                    out.push(p);
                }
                if let Some(p) = h {
                    out.push(p);
                }
                assert(out@ =~= before + present(v) + present(h));
                assert(out@ =~= self@.points_upto(y as nat) + self@.row_points(y as int, (x + 1) as nat));
                x = x + 1;
            }
            assert(out@ =~= self@.points_upto((y + 1) as nat));
            y = y + 1;
        }
        out
    }
}

} // verus!
