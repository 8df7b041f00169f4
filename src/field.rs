use vstd::prelude::*;

verus! {

/// Orientation of a cell edge.
#[derive(Clone, Copy, Debug, PartialEq, Eq, Structural)]
pub enum Axis {
    /// The edge from vertex `(x, y)` to vertex `(x, y + 1)`.
    Vertical,
    /// The edge from vertex `(x, y)` to vertex `(x + 1, y)`.
    Horizontal,
}

/// The point where the field crosses zero on one edge, in grid units.
///
/// The edge starts at vertex `(x, y)` and runs along `axis`; the point lies
/// the fraction `num / den` of the way from that vertex to the other end.
#[derive(Clone, Copy, Debug, PartialEq, Eq, Structural)]
pub struct Crossing {
    pub x: usize,
    pub y: usize,
    pub axis: Axis,
    pub num: u64,
    pub den: u64,
}

/// Whether the field crosses zero between two samples: their product is not positive.
pub open spec fn crosses(a: int, b: int) -> bool {
    a * b <= 0
}

pub open spec fn abs(a: int) -> int {
    if a < 0 { -a } else { a }
}

/// The crossing on the edge from a vertex with sample `a` to one with sample `b`,
/// found by linear interpolation; an edge whose two samples are both zero
/// crosses at its start.
pub open spec fn edge_crossing(x: usize, y: usize, axis: Axis, a: i32, b: i32) -> Option<Crossing> {
    if crosses(a as int, b as int) {
        Some(Crossing {
            x,
            y,
            axis,
            num: abs(a as int) as u64,
            den: (if a == b { 1 } else { abs(b - a) }) as u64,
        })
    } else {
        None
    }
}

pub(crate) proof fn lemma_crosses_by_sign(a: int, b: int)
    ensures
        crosses(a, b) <==> ((a <= 0 && b >= 0) || (a >= 0 && b <= 0)),
{
    assert(crosses(a, b) <==> ((a <= 0 && b >= 0) || (a >= 0 && b <= 0))) by (nonlinear_arith);
}

/// Computes the zero crossing of the edge starting at vertex `(x, y)` along `axis`,
/// whose end samples are `a` and `b`.
pub fn crossing_between(x: usize, y: usize, axis: Axis, a: i32, b: i32) -> (r: Option<Crossing>)
    ensures
        r == edge_crossing(x, y, axis, a, b),
{
    proof {
        lemma_crosses_by_sign(a as int, b as int);
    }
    if (a <= 0 && b >= 0) || (a >= 0 && b <= 0) {
        let wide_a = a as i64;
        let diff: i64 = b as i64 - wide_a;
        let num: u64 = if wide_a < 0 { (-wide_a) as u64 } else { wide_a as u64 };
        let den: u64 = if diff == 0 { 1 } else if diff < 0 { (-diff) as u64 } else { diff as u64 };
        Some(Crossing { x, y, axis, num, den })
    } else {
        None
    }
}

/// A recorded crossing lies on its edge (`0 <= num / den <= 1`) and sits exactly where
/// the straight line through the two end samples reaches zero, strictly inside the
/// edge when neither sample is zero. An edge records no crossing only when its two
/// samples have a positive product.
pub proof fn lemma_crossing_interpolates(x: usize, y: usize, axis: Axis, a: i32, b: i32)
    ensures
        match edge_crossing(x, y, axis, a, b) {
            Some(c) => {
                &&& c.den > 0
                &&& c.num <= c.den
                &&& (a as int) * (c.den as int) + (c.num as int) * (b - a) == 0
                &&& (a != 0 && b != 0 ==> 0 < c.num && c.num < c.den)
            },
            None => (a as int) * (b as int) > 0,
        },
{
    lemma_crosses_by_sign(a as int, b as int);
    let ai = a as int;
    let bi = b as int;
    if crosses(ai, bi) {
        if a == b {
            assert(ai == 0);
        } else if ai <= 0 {
            assert(ai * (bi - ai) + (-ai) * (bi - ai) == 0) by (nonlinear_arith);
        } else {
            assert(ai * (ai - bi) + ai * (bi - ai) == 0) by (nonlinear_arith);
        }
    }
}

} // verus!
