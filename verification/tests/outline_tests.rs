use truetype::glyph::{Glyph, Point};
use truetype::outline::{
    CURVE_RES, check_well_formed, flatten_contour, flatten_outline, reconstruct_contour,
    reconstruct_outline,
};

fn pt(x: i64, y: i64) -> Point {
    Point { x, y }
}

#[test]
fn alternating_contour_gets_no_midpoints() {
    // on/off alternation all the way around: nothing to insert, so one
    // output point (doubled) per input point
    let contour = vec![
        (pt(0, 0), true),
        (pt(10, 0), false),
        (pt(10, 10), true),
        (pt(0, 10), false),
    ];
    let rebuilt = reconstruct_contour(&contour);
    assert_eq!(rebuilt.len(), contour.len());
    assert_eq!(rebuilt, vec![pt(0, 0), pt(20, 0), pt(20, 20), pt(0, 20)]);
}

#[test]
fn same_type_neighbours_get_a_midpoint() {
    // both points on-curve: each step inserts the exact midpoint (in
    // doubled coordinates, the coordinate sums)
    let contour = vec![(pt(0, 0), true), (pt(10, 0), true)];
    let rebuilt = reconstruct_contour(&contour);
    assert_eq!(rebuilt, vec![pt(0, 0), pt(10, 0), pt(20, 0), pt(10, 0)]);
}

#[test]
fn walk_starts_at_first_on_curve_point() {
    let contour = vec![(pt(5, 5), false), (pt(1, 2), true)];
    let rebuilt = reconstruct_contour(&contour);
    // the walk starts at the on-curve point (1, 2)
    assert_eq!(rebuilt, vec![pt(2, 4), pt(10, 10)]);
}

#[test]
fn all_off_curve_contour_starts_at_index_zero() {
    let contour = vec![(pt(1, 0), false), (pt(3, 0), false)];
    let rebuilt = reconstruct_contour(&contour);
    // every adjacent pair shares a type, so every step inserts a midpoint
    assert_eq!(rebuilt, vec![pt(2, 0), pt(4, 0), pt(6, 0), pt(4, 0)]);
}

#[test]
fn flatten_single_point_is_constant() {
    let pts = vec![pt(1, 2)];
    let flat = flatten_contour(&pts, 2);
    // one segment whose start, control and end coincide: every sample is
    // the same point, scaled by res * res = 4
    assert_eq!(flat, vec![pt(4, 8), pt(4, 8), pt(4, 8)]);
}

#[test]
fn flatten_exact_quadratic_samples() {
    let pts = vec![pt(0, 0), pt(2, 0), pt(2, 2)];
    let flat = flatten_contour(&pts, 2);
    // scaled by 4: the start point, two samples of (a, b, c), then two
    // samples of the wrapped segment (c, a, b)
    assert_eq!(
        flat,
        vec![pt(0, 0), pt(6, 2), pt(8, 8), pt(4, 2), pt(8, 0)]
    );
}

#[test]
fn well_formedness_check() {
    let good = Glyph {
        coordinates: vec![(pt(0, 0), true), (pt(1, 1), true), (pt(2, 0), true)],
        contour_end_pts: vec![2],
    };
    assert!(check_well_formed(&good));

    let bad_len = Glyph {
        coordinates: vec![(pt(0, 0), true)],
        contour_end_pts: vec![2],
    };
    assert!(!check_well_formed(&bad_len));

    let bad_order = Glyph {
        coordinates: vec![(pt(0, 0), true), (pt(1, 1), true), (pt(2, 0), true)],
        contour_end_pts: vec![1, 1],
    };
    assert!(!check_well_formed(&bad_order));
}

#[test]
fn reconstruct_outline_splits_contours() {
    let g = Glyph {
        coordinates: vec![
            (pt(0, 0), true),
            (pt(4, 0), false),
            (pt(10, 10), true),
            (pt(12, 10), false),
        ],
        contour_end_pts: vec![1, 3],
    };
    let contours = reconstruct_outline(&g).unwrap();
    assert_eq!(contours.len(), 2);
    // each two-point contour alternates on/off, so both keep their two
    // points, doubled
    assert_eq!(contours[0], vec![pt(0, 0), pt(8, 0)]);
    assert_eq!(contours[1], vec![pt(20, 20), pt(24, 20)]);
}

#[test]
fn reconstruct_outline_rejects_malformed_glyph() {
    let g = Glyph {
        coordinates: vec![(pt(0, 0), true)],
        contour_end_pts: vec![5],
    };
    assert!(reconstruct_outline(&g).is_none());
    assert!(flatten_outline(&g, CURVE_RES).is_none());
}

#[test]
fn flatten_outline_produces_one_polyline_per_contour() {
    let g = Glyph {
        coordinates: vec![(pt(0, 0), true), (pt(1, 0), false), (pt(1, 1), true)],
        contour_end_pts: vec![2],
    };
    let polylines = flatten_outline(&g, CURVE_RES).unwrap();
    assert_eq!(polylines.len(), 1);
    // the reconstruction inserts one midpoint (for the on-curve pair that
    // wraps around), giving 4 points and so 2 quadratic segments: one
    // start point plus CURVE_RES samples per segment
    assert_eq!(polylines[0].len(), 1 + 2 * CURVE_RES);
}
