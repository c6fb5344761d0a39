use sark_grids::geometry::grid_cone::{point_in_triangle, sign};
use sark_grids::geometry::{
    GridCircle, GridCircleOutline, GridCone, GridConeIter, GridDiamond, GridLine, GridLineOrtho,
    GridShape, GridShapeIterator, PointIter,
};
use sark_grids::{GridPoint, GridRect, GridSize};

fn pt(x: i32, y: i32) -> GridPoint {
    GridPoint::new(x, y)
}

#[test]
fn line_includes_both_ends() {
    let points = GridLine::new(pt(0, 0), pt(9, 4)).into_iter().collect();
    assert_eq!(points.len(), 10);
    assert_eq!(
        points,
        vec![
            pt(0, 0),
            pt(1, 0),
            pt(2, 1),
            pt(3, 1),
            pt(4, 2),
            pt(5, 2),
            pt(6, 3),
            pt(7, 3),
            pt(8, 4),
            pt(9, 4)
        ]
    );
}

#[test]
fn iter_orthogonal() {
    let line = GridLine::new([9, 4].into(), [0, 0].into());
    let bounds = GridRect::new(pt(0, 0), GridSize::new(10, 5));
    let mut n = 0;
    let mut it = line.iter();
    while let Some(p) = it.next() {
        assert!(bounds.contains_point(p));
        n += 1;
    }
    assert_eq!(n, 10);
}

#[test]
fn line_of_one_cell() {
    let points = GridLine::new(pt(3, -3), pt(3, -3)).into_iter().collect();
    assert_eq!(points, vec![pt(3, -3)]);
}

#[test]
fn line_rounds_halves_away_from_zero() {
    assert_eq!(
        GridLine::new(pt(0, 0), pt(2, 1)).into_iter().collect(),
        vec![pt(0, 0), pt(1, 1), pt(2, 1)]
    );
    assert_eq!(
        GridLine::new(pt(0, 0), pt(2, -1)).into_iter().collect(),
        vec![pt(0, 0), pt(1, -1), pt(2, -1)]
    );
    assert_eq!(
        GridLine::new(pt(-1, -1), pt(1, 0)).into_iter().collect(),
        vec![pt(-1, -1), pt(0, -1), pt(1, 0)]
    );
}

#[test]
fn line_along_an_axis() {
    assert_eq!(
        GridLine::new(pt(-4, 4), pt(-4, 1)).into_iter().collect(),
        vec![pt(-4, 4), pt(-4, 3), pt(-4, 2), pt(-4, 1)]
    );
    assert_eq!(GridLine::origin(pt(2, 0)).into_iter().collect(), vec![pt(0, 0), pt(1, 0), pt(2, 0)]);
}

#[test]
fn line_length_is_truncated() {
    assert_eq!(GridLine::new(pt(0, 0), pt(3, 4)).length(), 5);
    assert_eq!(GridLine::new(pt(0, 0), pt(1, 1)).length(), 1);
    assert_eq!(GridLine::new(pt(-2, 0), pt(2, 3)).length(), 5);
    assert_eq!(GridLine::new(pt(5, 5), pt(5, 5)).length(), 0);
}

#[test]
fn line_as_shape() {
    let mut line = GridLine::new(pt(1, 1), pt(4, -2));
    assert_eq!(line.pos(), pt(1, 1));
    assert_eq!(line.bounds(), GridRect::from_points(pt(1, -2), pt(4, 1)));
    line.set_pos(pt(0, 0));
    assert_eq!(line, GridLine::new(pt(0, 0), pt(3, -3)));
    assert_eq!(line.iter().collect(), vec![pt(0, 0), pt(1, -1), pt(2, -2), pt(3, -3)]);
}

#[test]
fn ortho_line_steps_one_axis_at_a_time() {
    let points = GridLineOrtho::new(pt(0, 0), pt(4, 4)).into_iter().collect();
    assert_eq!(points.len(), 9);
    assert_eq!(
        points,
        vec![
            pt(0, 0),
            pt(0, 1),
            pt(1, 1),
            pt(1, 2),
            pt(2, 2),
            pt(2, 3),
            pt(3, 3),
            pt(3, 4),
            pt(4, 4)
        ]
    );
    for pair in points.windows(2) {
        assert_eq!(pair[0].taxi_dist(pair[1]), 1);
        assert!(pair[0].x == pair[1].x || pair[0].y == pair[1].y);
    }
}

#[test]
fn ortho_line_in_every_quadrant() {
    assert_eq!(
        GridLineOrtho::new(pt(0, 0), pt(-2, 1)).into_iter().collect(),
        vec![pt(0, 0), pt(-1, 0), pt(-1, 1), pt(-2, 1)]
    );
    assert_eq!(
        GridLineOrtho::new(pt(0, 0), pt(1, -3)).into_iter().collect(),
        vec![pt(0, 0), pt(0, -1), pt(0, -2), pt(1, -2), pt(1, -3)]
    );
    assert_eq!(
        GridLineOrtho::origin(pt(-1, -1)).into_iter().collect(),
        vec![pt(0, 0), pt(0, -1), pt(-1, -1)]
    );
}

#[test]
fn ortho_line_of_one_cell_and_along_an_axis() {
    assert_eq!(GridLineOrtho::new(pt(2, 2), pt(2, 2)).into_iter().collect(), vec![pt(2, 2)]);
    assert_eq!(
        GridLineOrtho::new(pt(0, 0), pt(3, 0)).into_iter().collect(),
        vec![pt(0, 0), pt(1, 0), pt(2, 0), pt(3, 0)]
    );
    assert_eq!(
        GridLineOrtho::new(pt(0, 0), pt(0, -2)).into_iter().collect(),
        vec![pt(0, 0), pt(0, -1), pt(0, -2)]
    );
}

#[test]
fn ortho_line_as_shape() {
    let mut line = GridLineOrtho::new(pt(1, 1), pt(2, 3));
    assert_eq!(line.pos(), pt(1, 1));
    assert_eq!(line.bounds(), GridRect::from_points(pt(1, 1), pt(2, 3)));
    line.set_pos(pt(-1, -1));
    assert_eq!(line, GridLineOrtho::new(pt(-1, -1), pt(0, 1)));
    assert_eq!(line.iter().collect().len(), 4);
}

#[test]
fn circle_of_radius_zero_is_its_center() {
    assert_eq!(GridCircle::new(pt(4, -7), 0).into_iter().collect(), vec![pt(4, -7)]);
    assert_eq!(GridCircle::origin(0).into_iter().collect(), vec![pt(0, 0)]);
}

#[test]
fn circle_of_radius_one_is_a_square() {
    let c = GridCircle::new(pt(-5, 5), 1);
    assert_eq!(c.into_iter().collect(), c.bounds().iter_points().collect());
    assert_eq!(c.bounds(), GridRect::new(pt(-6, 4), GridSize::new(3, 3)));
}

#[test]
fn circle_sizes() {
    assert_eq!(GridCircle::origin(2).into_iter().collect().len(), 21);
    assert_eq!(GridCircle::origin(3).into_iter().collect().len(), 37);
    let points = GridCircle::origin(2).into_iter().collect();
    assert_eq!(points[0], pt(-1, -2));
    assert!(!points.contains(&pt(2, 2)));
    assert!(points.contains(&pt(2, 1)));
    assert!(points.contains(&pt(-2, 0)));
}

#[test]
fn circle_around_a_negative_center() {
    let points = GridCircle::new(pt(-3, -3), 2).into_iter().collect();
    assert_eq!(points.len(), 21);
    assert!(points.contains(&pt(-3, -3)));
    assert!(points.contains(&pt(-5, -3)));
    assert!(points.contains(&pt(-1, -3)));
    assert!(!points.contains(&pt(-5, -5)));
}

#[test]
fn circle_overlaps_and_contains() {
    let a = GridCircle::new(pt(0, 0), 2);
    let b = GridCircle::new(pt(3, 0), 2);
    let c = GridCircle::new(pt(4, 0), 2);
    assert!(a.overlaps(b));
    assert!(!a.overlaps(c));
    assert!(a.contains(pt(2, 0)));
    assert!(a.contains(pt(1, 1)));
    assert!(!a.contains(pt(2, 1)));
    assert!(a.overlaps(GridCircle::new(pt(100, 100), usize::MAX)));
    assert!(GridCircle::new(pt(0, 0), usize::MAX).contains(pt(i32::MIN, i32::MAX)));
}

#[test]
fn circle_as_shape() {
    let mut c = GridCircle::origin(1);
    c.set_pos(pt(9, 9));
    assert_eq!(c.pos(), pt(9, 9));
    assert_eq!(c.radius, 1);
    assert_eq!(c.iter().collect().len(), 9);
    assert_eq!(c.outline(), GridCircleOutline::new(pt(9, 9), 1));
    assert_eq!(c.outline().filled(), c);
}

#[test]
fn outline_of_radius_zero_repeats_the_center() {
    let points = GridCircleOutline::new(pt(2, 3), 0).into_iter().collect();
    assert_eq!(points, vec![pt(2, 3); 8]);
}

#[test]
fn outline_of_radius_two() {
    let points = GridCircleOutline::origin(2).into_iter().collect();
    assert_eq!(
        points,
        vec![
            pt(-2, 0),
            pt(2, 0),
            pt(-2, 0),
            pt(2, 0),
            pt(0, -2),
            pt(0, 2),
            pt(0, -2),
            pt(0, 2),
            pt(-2, 1),
            pt(2, 1),
            pt(-2, -1),
            pt(2, -1),
            pt(1, -2),
            pt(1, 2),
            pt(-1, -2),
            pt(-1, 2)
        ]
    );
}

#[test]
fn outline_of_radius_three() {
    let points = GridCircleOutline::new(pt(10, 10), 3).into_iter().collect();
    assert_eq!(points.len(), 24);
    assert_eq!(points[0], pt(7, 10));
    assert_eq!(points[8], pt(7, 11));
    assert_eq!(points[16], pt(8, 12));
    assert_eq!(points[23], pt(8, 12));
    assert_eq!(points[21], pt(12, 12));
}

#[test]
fn outline_as_shape() {
    let mut o = GridCircleOutline::origin(3);
    o.set_pos(pt(1, 1));
    assert_eq!(o.pos(), pt(1, 1));
    assert_eq!(o.bounds(), GridRect::new(pt(-2, -2), GridSize::new(7, 7)));
    let b = o.bounds();
    let mut it = o.iter();
    while let Some(p) = it.next() {
        assert!(b.contains_point(p));
    }
}

#[test]
fn diamond_rings() {
    assert_eq!(GridDiamond::new(pt(5, 5), 0).into_iter().collect(), vec![pt(5, 5)]);
    assert_eq!(
        GridDiamond::origin(1).into_iter().collect(),
        vec![pt(0, 0), pt(0, 1), pt(1, 0), pt(0, -1), pt(-1, 0)]
    );
    assert_eq!(
        GridDiamond::origin(2).into_iter().collect(),
        vec![
            pt(0, 0),
            pt(0, 1),
            pt(1, 0),
            pt(0, -1),
            pt(-1, 0),
            pt(0, 2),
            pt(1, 1),
            pt(2, 0),
            pt(1, -1),
            pt(0, -2),
            pt(-1, -1),
            pt(-2, 0),
            pt(-1, 1)
        ]
    );
}

#[test]
fn diamond_ring_sizes() {
    let center = pt(-2, 7);
    let mut before = 0;
    for radius in 0..6usize {
        let points = GridDiamond::new(center, radius).into_iter().collect();
        let ring = points.len() - before;
        assert_eq!(ring, if radius == 0 { 1 } else { 4 * radius });
        for p in &points[before..] {
            assert_eq!(p.taxi_dist(center), radius);
        }
        let mut seen = points.clone();
        seen.sort_by_key(|p| (p.y, p.x));
        seen.dedup();
        assert_eq!(seen.len(), points.len());
        before = points.len();
    }
}

#[test]
fn diamond_as_shape() {
    let mut d = GridDiamond::origin(2);
    d.set_pos(pt(3, 3));
    assert_eq!(d.pos(), pt(3, 3));
    assert_eq!(d.bounds(), GridRect::new(pt(1, 1), GridSize::new(5, 5)));
    assert_eq!(d.iter().collect().len(), 13);
}

#[test]
fn cone_is_a_filled_triangle() {
    let cone = GridCone::origin(pt(3, 0), pt(0, 2));
    assert_eq!(cone.corners(), [pt(0, 0), pt(3, 2), pt(3, -2)]);
    assert_eq!(
        cone.into_iter().collect(),
        vec![
            pt(3, -2),
            pt(2, -1),
            pt(3, -1),
            pt(0, 0),
            pt(1, 0),
            pt(2, 0),
            pt(3, 0),
            pt(2, 1),
            pt(3, 1),
            pt(3, 2)
        ]
    );
}

#[test]
fn perp() {
    let bounds = GridRect::center_origin(GridSize::new(21, 21));
    let cones = [
        GridCone::origin(pt(9, 0), pt(0, 8)),
        GridCone::origin(pt(0, 9), pt(-8, 0)),
        GridCone::origin(pt(-9, 0), pt(0, -8)),
        GridCone::origin(pt(0, -9), pt(8, 0)),
    ];

    for cone in cones {
        let points = cone.into_iter().collect();
        for p in &points {
            assert!(bounds.contains_point(*p));
        }
        for c in cone.corners() {
            assert!(points.contains(&c));
        }
    }
}

#[test]
fn diag() {
    let bounds = GridRect::center_origin(GridSize::new(12, 12));
    let cones = [
        GridCone::origin(pt(3, 3), pt(-1, 1)),
        GridCone::origin(pt(-3, 3), pt(-1, -1)),
        GridCone::origin(pt(-3, -3), pt(1, -1)),
        GridCone::origin(pt(3, -3), pt(1, 1)),
    ];

    for cone in cones {
        let points = cone.into_iter().collect();
        for p in &points {
            assert!(bounds.contains_point(*p));
        }
        for c in cone.corners() {
            assert!(points.contains(&c));
        }
    }
}

#[test]
fn cone_as_shape() {
    let mut cone = GridCone::new(pt(1, 1), pt(0, 2), pt(1, 0));
    assert_eq!(cone.corners(), [pt(1, 1), pt(2, 3), pt(0, 3)]);
    assert_eq!(cone.bounds(), GridRect::from_points(pt(0, 1), pt(2, 3)));
    assert_eq!(cone.pos(), pt(1, 1));
    cone.set_pos(pt(0, 0));
    assert_eq!(cone.corners(), [pt(0, 0), pt(1, 2), pt(-1, 2)]);
    assert_eq!(
        GridConeIter::from_cone(&cone).collect(),
        vec![pt(0, 0), pt(0, 1), pt(-1, 2), pt(0, 2), pt(1, 2)]
    );
    assert_eq!(cone.iter().collect().len(), 5);
}

#[test]
fn triangle_edges_count_as_inside() {
    let tri = [pt(0, 0), pt(4, 0), pt(0, 4)];
    assert!(point_in_triangle(pt(0, 0), &tri));
    assert!(point_in_triangle(pt(2, 2), &tri));
    assert!(point_in_triangle(pt(1, 1), &tri));
    assert!(!point_in_triangle(pt(3, 2), &tri));
    assert!(!point_in_triangle(pt(-1, 0), &tri));
    assert_eq!(sign(pt(0, 1), pt(0, 0), pt(4, 0)), 4);
    assert_eq!(sign(pt(0, -1), pt(0, 0), pt(4, 0)), -4);
    assert_eq!(sign(pt(2, 0), pt(0, 0), pt(4, 0)), 0);
    assert_eq!(
        sign(pt(i32::MIN, i32::MIN), pt(i32::MAX, i32::MIN), pt(i32::MAX, i32::MAX)),
        4294967295i128 * 4294967295i128
    );
}

#[test]
fn shape_iterator_of_a_point() {
    let mut it = GridShapeIterator::Point(Some(pt(1, 2)));
    assert_eq!(it.next(), Some(pt(1, 2)));
    assert_eq!(it.next(), None);
    assert_eq!(it.next(), None);
}

#[test]
fn shape_iterator_yields_what_the_shape_yields() {
    let circle = GridCircle::new(pt(1, 1), 2);
    assert_eq!(circle.iter().collect(), circle.into_iter().collect());
    let outline = GridCircleOutline::new(pt(1, 1), 2);
    assert_eq!(outline.iter().collect(), outline.into_iter().collect());
    let line = GridLine::new(pt(1, 1), pt(-5, 3));
    assert_eq!(line.iter().collect(), line.into_iter().collect());
    let ortho = GridLineOrtho::new(pt(1, 1), pt(-5, 3));
    assert_eq!(ortho.iter().collect(), ortho.into_iter().collect());
    let diamond = GridDiamond::new(pt(1, 1), 3);
    assert_eq!(diamond.iter().collect(), diamond.into_iter().collect());
    let cone = GridCone::new(pt(1, 1), pt(4, 0), pt(0, 3));
    assert_eq!(cone.iter().collect(), cone.into_iter().collect());
}

#[test]
fn line_reversed_is_the_reverse_line() {
    let ends = [(pt(0, 0), pt(9, 4)), (pt(-3, 5), pt(4, -2)), (pt(0, 0), pt(2, 1)), (pt(1, 1), pt(1, 1))];
    for (a, b) in ends {
        let forward = GridLine::new(a, b).into_iter().collect();
        let mut backward = GridLine::new(b, a).into_iter().collect();
        backward.reverse();
        assert_eq!(forward, backward);
    }
}

#[test]
fn line_has_no_gaps() {
    let points = GridLine::new(pt(-7, 3), pt(5, -2)).into_iter().collect();
    assert_eq!(points.len(), 13);
    for pair in points.windows(2) {
        assert!((pair[1].x - pair[0].x).abs() <= 1);
        assert!((pair[1].y - pair[0].y).abs() <= 1);
        assert_eq!(pair[1].x - pair[0].x, 1);
    }
}

#[test]
fn circle_holds_exactly_the_cells_within_reach() {
    let c = GridCircle::new(pt(2, -1), 4);
    let points = c.into_iter().collect();
    let bounds = c.bounds();
    for p in bounds.iter_points().collect() {
        let (dx, dy) = ((p.x - 2) as i64, (p.y + 1) as i64);
        let within = 4 * (dx * dx + dy * dy) <= 81;
        assert_eq!(points.contains(&p), within);
    }
    assert_eq!(points.iter().map(|p| p.x).min(), Some(bounds.left()));
    assert_eq!(points.iter().map(|p| p.x).max(), Some(bounds.right()));
    assert_eq!(points.iter().map(|p| p.y).min(), Some(bounds.bottom()));
    assert_eq!(points.iter().map(|p| p.y).max(), Some(bounds.top()));
}

#[test]
fn diamond_is_filled() {
    let d = GridDiamond::new(pt(-1, 2), 3);
    let points = d.into_iter().collect();
    for p in d.bounds().iter_points().collect() {
        assert_eq!(points.contains(&p), p.taxi_dist(d.pos) <= 3);
    }
}
