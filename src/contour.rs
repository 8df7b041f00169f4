use vstd::prelude::*;

use crate::field::{Axis, Crossing, crosses, edge_crossing, lemma_crosses_by_sign, lemma_crossing_interpolates};

verus! {

/// A line segment of the contour, joining two edge crossings of one cell.
#[derive(Clone, Copy, Debug, PartialEq, Eq, Structural)]
pub struct Segment {
    pub start: Crossing,
    pub end: Crossing,
}

/// The field sampled at one depth on a grid of `cols` x `rows` cells.
///
/// `values[y][x]` is the sample at vertex `(x, y)`, for `0 <= x <= cols` and
/// `0 <= y <= rows`; `centers[y][x]` is the sample at the center of cell `(x, y)`.
pub struct FieldSlice {
    pub cols: nat,
    pub rows: nat,
    pub values: Seq<Seq<i32>>,
    pub centers: Seq<Seq<i32>>,
}

/// The crossing of the vertical edge below vertex `(x, y)`; the edges that
/// leave the grid have none.
pub open spec fn vertical_edge(values: Seq<Seq<i32>>, rows: nat, x: int, y: int) -> Option<Crossing> {
    if y < rows {
        edge_crossing(x as usize, y as usize, Axis::Vertical, values[y][x], values[y + 1][x])
    } else {
        None
    }
}

/// The crossing of the horizontal edge right of vertex `(x, y)`; the edges that
/// leave the grid have none.
pub open spec fn horizontal_edge(values: Seq<Seq<i32>>, cols: nat, x: int, y: int) -> Option<Crossing> {
    if x < cols {
        edge_crossing(x as usize, y as usize, Axis::Horizontal, values[y][x], values[y][x + 1])
    } else {
        None
    }
}

/// The crossing held by `o`, as a sequence of zero or one element.
pub open spec fn present(o: Option<Crossing>) -> Seq<Crossing> {
    match o {
        Some(c) => seq![c],
        None => Seq::empty(),
    }
}

/// The horizontal position of a crossing relative to the left side of cell
/// `(x, _)`, in units of `1 / c.den` of a cell.
pub open spec fn local_u(c: Crossing, x: int) -> int {
    if c.axis == Axis::Horizontal {
        c.num as int
    } else if c.x as int == x {
        0
    } else {
        c.den as int
    }
}

/// The vertical position of a crossing relative to the side `y` of cell
/// `(_, y)`, in units of `1 / c.den` of a cell.
pub open spec fn local_v(c: Crossing, y: int) -> int {
    if c.axis == Axis::Vertical {
        c.num as int
    } else if c.y as int == y {
        0
    } else {
        c.den as int
    }
}

/// Positive on one side of the cell diagonal through corners `(x, y)` and
/// `(x + 1, y + 1)`, negative on the other, zero on it.
pub open spec fn side_of_diagonal(c: Crossing, x: int, y: int) -> int {
    local_u(c, x) - local_v(c, y)
}

/// Positive on one side of the cell diagonal through corners `(x + 1, y)` and
/// `(x, y + 1)`, negative on the other, zero on it.
pub open spec fn side_of_antidiagonal(c: Crossing, x: int, y: int) -> int {
    local_u(c, x) + local_v(c, y) - c.den
}

impl FieldSlice {
    /// The sample grids have the sizes that the grid dimensions give.
    pub open spec fn well_shaped(self) -> bool {
        &&& self.cols < usize::MAX
        &&& self.rows < usize::MAX
        &&& self.values.len() == self.rows + 1
        &&& forall|y: int| 0 <= y < self.values.len() ==> #[trigger] self.values[y].len() == self.cols + 1
        &&& self.centers.len() == self.rows
        &&& forall|y: int| 0 <= y < self.centers.len() ==> #[trigger] self.centers[y].len() == self.cols
    }

    pub open spec fn value(self, x: int, y: int) -> i32 {
        self.values[y][x]
    }

    pub open spec fn vertical_at(self, x: int, y: int) -> Option<Crossing> {
        vertical_edge(self.values, self.rows, x, y)
    }

    pub open spec fn horizontal_at(self, x: int, y: int) -> Option<Crossing> {
        horizontal_edge(self.values, self.cols, x, y)
    }

    /// The crossings recorded at vertex `(x, y)`: its vertical edge, then its horizontal one.
    pub open spec fn vertex_points(self, x: int, y: int) -> Seq<Crossing> {
        present(self.vertical_at(x, y)) + present(self.horizontal_at(x, y))
    }

    /// The crossings on the edges of cell `(x, y)` in order around it: the
    /// horizontal edge at row `y`, the vertical edge at column `x + 1`, the
    /// horizontal edge at row `y + 1`, the vertical edge at column `x`.
    pub open spec fn cell_points(self, x: int, y: int) -> Seq<Crossing> {
        present(self.horizontal_at(x, y)) + present(self.vertical_at(x + 1, y)) + present(
            self.horizontal_at(x, y + 1),
        ) + present(self.vertical_at(x, y))
    }

    /// The center of a saddle cell has the opposite sign of its corner `(x, y)`.
    pub open spec fn saddle_flipped(self, x: int, y: int) -> bool {
        (self.centers[y][x] as int) * (self.value(x, y) as int) < 0
    }

    /// The segments of cell `(x, y)`: one through two crossings; for four, two
    /// segments paired by the center sample; none otherwise.
    pub open spec fn cell_segments(self, x: int, y: int) -> Seq<Segment> {
        let p = self.cell_points(x, y);
        if p.len() == 2 {
            seq![Segment { start: p[0], end: p[1] }]
        } else if p.len() == 4 {
            if self.saddle_flipped(x, y) {
                seq![Segment { start: p[0], end: p[3] }, Segment { start: p[1], end: p[2] }]
            } else {
                seq![Segment { start: p[0], end: p[1] }, Segment { start: p[3], end: p[2] }]
            }
        } else {
            Seq::empty()
        }
    }

    /// The segments of the first `n` cells of row `y`.
    pub open spec fn row_segments(self, y: int, n: nat) -> Seq<Segment>
        decreases n,
    {
        if n == 0 {
            Seq::empty()
        } else {
            self.row_segments(y, (n - 1) as nat) + self.cell_segments(n - 1, y)
        }
    }

    /// The segments of the first `m` rows of cells.
    pub open spec fn segments_upto(self, m: nat) -> Seq<Segment>
        decreases m,
    {
        if m == 0 {
            Seq::empty()
        } else {
            self.segments_upto((m - 1) as nat) + self.row_segments(m - 1, self.cols)
        }
    }

    /// The whole contour, cell by cell in row-major order.
    pub open spec fn segments(self) -> Seq<Segment> {
        self.segments_upto(self.rows)
    }

    /// The crossings of the first `n` vertices of row `y`.
    pub open spec fn row_points(self, y: int, n: nat) -> Seq<Crossing>
        decreases n,
    {
        if n == 0 {
            Seq::empty()
        } else {
            self.row_points(y, (n - 1) as nat) + self.vertex_points(n - 1, y)
        }
    }

    /// The crossings of the first `m` rows of vertices.
    pub open spec fn points_upto(self, m: nat) -> Seq<Crossing>
        decreases m,
    {
        if m == 0 {
            Seq::empty()
        } else {
            self.points_upto((m - 1) as nat) + self.row_points(m - 1, self.cols + 1)
        }
    }

    /// Every recorded crossing, vertex by vertex in row-major order.
    pub open spec fn points(self) -> Seq<Crossing> {
        self.points_upto(self.rows + 1)
    }

    /// The four corner samples of cell `(x, y)` are non-zero.
    pub open spec fn corners_nonzero(self, x: int, y: int) -> bool {
        &&& self.value(x, y) != 0
        &&& self.value(x + 1, y) != 0
        &&& self.value(x, y + 1) != 0
        &&& self.value(x + 1, y + 1) != 0
    }

    pub open spec fn in_cells(self, x: int, y: int) -> bool {
        0 <= x < self.cols && 0 <= y < self.rows
    }
}

/// Which edges of a cell hold a crossing, given its corner samples.
proof fn lemma_cell_edges(s: FieldSlice, x: int, y: int)
    requires
        s.well_shaped(),
        s.in_cells(x, y),
    ensures
        s.horizontal_at(x, y) is Some <==> crosses(s.value(x, y) as int, s.value(x + 1, y) as int),
        s.vertical_at(x + 1, y) is Some <==> crosses(s.value(x + 1, y) as int, s.value(x + 1, y + 1) as int),
        s.horizontal_at(x, y + 1) is Some <==> crosses(s.value(x, y + 1) as int, s.value(x + 1, y + 1) as int),
        s.vertical_at(x, y) is Some <==> crosses(s.value(x, y) as int, s.value(x, y + 1) as int),
        s.cell_points(x, y).len() == (if s.horizontal_at(x, y) is Some { 1int } else { 0 }) + (if s.vertical_at(
            x + 1,
            y,
        ) is Some { 1int } else { 0 }) + (if s.horizontal_at(x, y + 1) is Some { 1int } else { 0 }) + (
        if s.vertical_at(x, y) is Some { 1int } else { 0 }),
{
}

/// For every pattern of corner signs, a cell with non-zero corner samples has
/// 0, 2 or 4 edges that the contour crosses, never 1 or 3.
pub proof fn lemma_cell_crossing_count(s: FieldSlice, x: int, y: int)
    requires
        s.well_shaped(),
        s.in_cells(x, y),
        s.corners_nonzero(x, y),
    ensures
        s.cell_points(x, y).len() == 0 || s.cell_points(x, y).len() == 2 || s.cell_points(x, y).len() == 4,
{
    lemma_cell_edges(s, x, y);
    let a = s.value(x, y) as int;
    let b = s.value(x + 1, y) as int;
    let c = s.value(x, y + 1) as int;
    let d = s.value(x + 1, y + 1) as int;
    lemma_crosses_by_sign(a, b);
    lemma_crosses_by_sign(b, d);
    lemma_crosses_by_sign(c, d);
    lemma_crosses_by_sign(a, c);
}

/// A cell whose four corner samples are all positive, or all negative, holds no
/// crossing and yields no segment.
pub proof fn lemma_same_sign_cell_empty(s: FieldSlice, x: int, y: int)
    requires
        s.well_shaped(),
        s.in_cells(x, y),
        (s.value(x, y) > 0 && s.value(x + 1, y) > 0 && s.value(x, y + 1) > 0 && s.value(x + 1, y + 1) > 0)
            || (s.value(x, y) < 0 && s.value(x + 1, y) < 0 && s.value(x, y + 1) < 0 && s.value(x + 1, y + 1)
            < 0),
    ensures
        s.cell_points(x, y).len() == 0,
        s.cell_segments(x, y) == Seq::<Segment>::empty(),
{
    lemma_cell_crossing_count(s, x, y);
    lemma_cell_edges(s, x, y);
    let a = s.value(x, y) as int;
    let b = s.value(x + 1, y) as int;
    let c = s.value(x, y + 1) as int;
    let d = s.value(x + 1, y + 1) as int;
    lemma_crosses_by_sign(a, b);
    lemma_crosses_by_sign(b, d);
    lemma_crosses_by_sign(c, d);
    lemma_crosses_by_sign(a, c);
}

/// In a saddle cell (four crossings) with non-zero corner samples, one diagonal
/// of the cell strictly separates the two segments: both ends of the first lie
/// on one side of it, both ends of the second on the other, so the two segments
/// share no point.
pub proof fn lemma_saddle_segments_apart(s: FieldSlice, x: int, y: int)
    requires
        s.well_shaped(),
        s.in_cells(x, y),
        s.corners_nonzero(x, y),
        s.cell_points(x, y).len() == 4,
    ensures
        ({
            let g = s.cell_segments(x, y);
            &&& g.len() == 2
            &&& {
                ||| (side_of_diagonal(g[0].start, x, y) > 0 && side_of_diagonal(g[0].end, x, y) > 0
                    && side_of_diagonal(g[1].start, x, y) < 0 && side_of_diagonal(g[1].end, x, y) < 0)
                ||| (side_of_antidiagonal(g[0].start, x, y) < 0 && side_of_antidiagonal(g[0].end, x, y) < 0
                    && side_of_antidiagonal(g[1].start, x, y) > 0 && side_of_antidiagonal(g[1].end, x, y)
                    > 0)
            }
        }),
{
    lemma_cell_edges(s, x, y);
    let p0 = s.horizontal_at(x, y);
    let p1 = s.vertical_at(x + 1, y);
    let p2 = s.horizontal_at(x, y + 1);
    let p3 = s.vertical_at(x, y);
    lemma_crossing_interpolates(x as usize, y as usize, Axis::Horizontal, s.value(x, y), s.value(x + 1, y));
    lemma_crossing_interpolates((x + 1) as usize, y as usize, Axis::Vertical, s.value(x + 1, y), s.value(x + 1, y + 1));
    lemma_crossing_interpolates(x as usize, (y + 1) as usize, Axis::Horizontal, s.value(x, y + 1), s.value(x + 1, y + 1));
    lemma_crossing_interpolates(x as usize, y as usize, Axis::Vertical, s.value(x, y), s.value(x, y + 1));
    let q0 = p0.unwrap();
    let q1 = p1.unwrap();
    let q2 = p2.unwrap();
    let q3 = p3.unwrap();
    let pts = s.cell_points(x, y);
    assert(pts =~= seq![q0, q1, q2, q3]);
    assert(side_of_diagonal(q0, x, y) > 0 && side_of_antidiagonal(q0, x, y) < 0);
    assert(side_of_diagonal(q1, x, y) > 0 && side_of_antidiagonal(q1, x, y) > 0);
    assert(side_of_diagonal(q2, x, y) < 0 && side_of_antidiagonal(q2, x, y) > 0);
    assert(side_of_diagonal(q3, x, y) < 0 && side_of_antidiagonal(q3, x, y) < 0);
}

} // verus!
