use marching_squares::engine::Engine;
use marching_squares::field::{crossing_between, Axis, Crossing};
use marching_squares::contour::Segment;

fn cr(x: usize, y: usize, axis: Axis, num: u64, den: u64) -> Crossing {
    Crossing { x, y, axis, num, den }
}

fn seg(start: Crossing, end: Crossing) -> Segment {
    Segment { start, end }
}

fn fixture_values() -> Vec<Vec<i32>> {
    vec![
        vec![5, 5, 5, 5, 5],
        vec![5, -3, 5, 5, 5],
        vec![5, 5, 4, -2, 5],
        vec![5, 5, -6, 2, 5],
        vec![5, 5, 5, 5, 5],
    ]
}

fn fixture_centers() -> Vec<Vec<i32>> {
    vec![vec![1, 1, 1, 1], vec![1, 1, 1, 1], vec![1, 1, -1, 1], vec![1, 1, 1, 1]]
}

fn single_cell(v00: i32, v10: i32, v01: i32, v11: i32, center: i32) -> Engine {
    let mut e = Engine::new(1, 1);
    e.update_interpolation_values(vec![vec![v00, v10], vec![v01, v11]], vec![vec![center]]);
    e
}

#[test]
fn crossing_interpolates_linearly() {
    let c = crossing_between(2, 3, Axis::Vertical, 3, -1).unwrap();
    assert_eq!(c, cr(2, 3, Axis::Vertical, 3, 4));
    let c = crossing_between(0, 0, Axis::Horizontal, -2, 6).unwrap();
    assert_eq!(c, cr(0, 0, Axis::Horizontal, 2, 8));
    // the interpolated fraction reaches zero on the line through the samples
    assert_eq!(-2 * c.den as i64 + c.num as i64 * (6 - -2), 0);
    assert!(c.num <= c.den);
}

#[test]
fn crossing_absent_for_same_sign() {
    assert_eq!(crossing_between(0, 0, Axis::Vertical, 4, 9), None);
    assert_eq!(crossing_between(0, 0, Axis::Vertical, -4, -9), None);
}

#[test]
fn crossing_at_zero_samples() {
    assert_eq!(crossing_between(1, 1, Axis::Vertical, 0, 0), Some(cr(1, 1, Axis::Vertical, 0, 1)));
    assert_eq!(crossing_between(1, 1, Axis::Vertical, 0, 7), Some(cr(1, 1, Axis::Vertical, 0, 7)));
    assert_eq!(crossing_between(1, 1, Axis::Horizontal, 7, 0), Some(cr(1, 1, Axis::Horizontal, 7, 7)));
}

#[test]
fn crossing_extreme_samples() {
    let c = crossing_between(0, 0, Axis::Vertical, i32::MIN, i32::MAX).unwrap();
    assert_eq!(c.num, 1u64 << 31);
    assert_eq!(c.den, (1u64 << 32) - 1);
}

#[test]
fn golden_contour_of_fixture_grid() {
    let mut e = Engine::new(4, 4);
    e.update_interpolation_values(fixture_values(), fixture_centers());
    let v = Axis::Vertical;
    let h = Axis::Horizontal;
    let expected = vec![
        seg(cr(1, 0, v, 5, 8), cr(0, 1, h, 5, 8)),
        seg(cr(1, 1, h, 3, 8), cr(1, 0, v, 5, 8)),
        seg(cr(0, 1, h, 5, 8), cr(1, 1, v, 3, 8)),
        seg(cr(1, 1, h, 3, 8), cr(1, 1, v, 3, 8)),
        seg(cr(3, 1, v, 5, 7), cr(2, 2, h, 4, 6)),
        seg(cr(3, 2, h, 2, 7), cr(3, 1, v, 5, 7)),
        seg(cr(2, 2, v, 4, 10), cr(1, 3, h, 5, 11)),
        seg(cr(2, 2, h, 4, 6), cr(2, 2, v, 4, 10)),
        seg(cr(3, 2, v, 2, 4), cr(2, 3, h, 6, 8)),
        seg(cr(3, 2, h, 2, 7), cr(3, 2, v, 2, 4)),
        seg(cr(1, 3, h, 5, 11), cr(2, 3, v, 6, 11)),
        seg(cr(2, 3, h, 6, 8), cr(2, 3, v, 6, 11)),
    ];
    assert_eq!(e.draw_marching_squares(), expected);
    let points = vec![
        cr(1, 0, v, 5, 8),
        cr(0, 1, h, 5, 8),
        cr(1, 1, v, 3, 8),
        cr(1, 1, h, 3, 8),
        cr(3, 1, v, 5, 7),
        cr(2, 2, v, 4, 10),
        cr(2, 2, h, 4, 6),
        cr(3, 2, v, 2, 4),
        cr(3, 2, h, 2, 7),
        cr(1, 3, h, 5, 11),
        cr(2, 3, v, 6, 11),
        cr(2, 3, h, 6, 8),
    ];
    assert_eq!(e.draw_interpolation_points(), points);
}

#[test]
fn repeated_update_is_idempotent() {
    let mut e = Engine::new(4, 4);
    e.update_interpolation_values(fixture_values(), fixture_centers());
    let points = e.draw_interpolation_points();
    let segments = e.draw_marching_squares();
    e.update_interpolation_values(fixture_values(), fixture_centers());
    assert_eq!(e.draw_interpolation_points(), points);
    assert_eq!(e.draw_marching_squares(), segments);
}

#[test]
fn update_replaces_previous_depth() {
    let mut e = Engine::new(1, 1);
    e.update_interpolation_values(vec![vec![3, -1], vec![2, 2]], vec![vec![1]]);
    assert_eq!(e.draw_interpolation_points().len(), 2);
    assert_eq!(e.draw_marching_squares().len(), 1);
    e.update_interpolation_values(vec![vec![3, 1], vec![2, 2]], vec![vec![1]]);
    assert_eq!(e.draw_interpolation_points(), vec![]);
    assert_eq!(e.draw_marching_squares(), vec![]);
    e.update_interpolation_values(vec![vec![-3, -1], vec![-2, -2]], vec![vec![1]]);
    assert_eq!(e.draw_interpolation_points(), vec![]);
    assert_eq!(e.draw_marching_squares(), vec![]);
}

#[test]
fn every_sign_pattern_has_even_crossings() {
    for pattern in 0..16u32 {
        let s = |bit: u32| if pattern & (1 << bit) != 0 { -1 } else { 1 };
        let e = single_cell(s(0), s(1), s(2), s(3), 1);
        let n = e.draw_interpolation_points().len();
        assert!(n == 0 || n == 2 || n == 4, "pattern {} gave {}", pattern, n);
        let segments = e.draw_marching_squares().len();
        assert_eq!(segments, n / 2);
        if pattern == 0 || pattern == 15 {
            assert_eq!(n, 0);
        }
    }
}

#[test]
fn same_sign_cell_is_empty() {
    assert_eq!(single_cell(1, 2, 3, 4, -7).draw_marching_squares(), vec![]);
    assert_eq!(single_cell(-1, -2, -3, -4, 7).draw_marching_squares(), vec![]);
}

#[test]
fn single_segment_cell() {
    let e = single_cell(-1, 1, 1, 1, 1);
    let expected = vec![seg(cr(0, 0, Axis::Horizontal, 1, 2), cr(0, 0, Axis::Vertical, 1, 2))];
    assert_eq!(e.draw_marching_squares(), expected);
}

#[test]
fn saddle_center_matching_corner() {
    let e = single_cell(2, -2, -2, 2, 1);
    let h0 = cr(0, 0, Axis::Horizontal, 2, 4);
    let v1 = cr(1, 0, Axis::Vertical, 2, 4);
    let h1 = cr(0, 1, Axis::Horizontal, 2, 4);
    let v0 = cr(0, 0, Axis::Vertical, 2, 4);
    assert_eq!(e.draw_marching_squares(), vec![seg(h0, v1), seg(v0, h1)]);
}

#[test]
fn saddle_center_opposite_corner() {
    let e = single_cell(2, -2, -2, 2, -1);
    let h0 = cr(0, 0, Axis::Horizontal, 2, 4);
    let v1 = cr(1, 0, Axis::Vertical, 2, 4);
    let h1 = cr(0, 1, Axis::Horizontal, 2, 4);
    let v0 = cr(0, 0, Axis::Vertical, 2, 4);
    assert_eq!(e.draw_marching_squares(), vec![seg(h0, v0), seg(v1, h1)]);
}

#[test]
fn saddle_center_zero_keeps_default_pairing() {
    let e = single_cell(-3, 1, 1, -3, 0);
    let segments = e.draw_marching_squares();
    assert_eq!(segments.len(), 2);
    assert_eq!(segments[0].start.axis, Axis::Horizontal);
    assert_eq!(segments[0].end, cr(1, 0, Axis::Vertical, 1, 4));
}

#[test]
fn fresh_engine_holds_zero_field() {
    let e = Engine::new(2, 1);
    let points = e.draw_interpolation_points();
    // every edge inside the grid crosses at its start: 3 vertical edges and 4 horizontal ones
    assert_eq!(points.len(), 3 + 2 + 2);
    assert!(points.iter().all(|c| c.num == 0 && c.den == 1));
    assert_eq!(e.draw_marching_squares().len(), 4);
}

#[test]
fn empty_grid() {
    let mut e = Engine::new(0, 0);
    e.update_interpolation_values(vec![vec![-4]], vec![]);
    assert_eq!(e.draw_interpolation_points(), vec![]);
    assert_eq!(e.draw_marching_squares(), vec![]);
}

#[test]
fn boundary_edges_hold_no_crossing() {
    let e = single_cell(1, 1, 1, -1, 1);
    let points = e.draw_interpolation_points();
    assert_eq!(
        points,
        vec![cr(1, 0, Axis::Vertical, 1, 2), cr(0, 1, Axis::Horizontal, 1, 2)]
    );
}
