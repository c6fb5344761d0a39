use sark_grids::geometry::PointIter;
use sark_grids::math::{isqrt, round_div};
use sark_grids::{GridPoint, GridSize, Pivot, PivotedPoint, WorldGrid, WorldSpace};

#[test]
fn taxi() {
    let a: GridPoint = [10, 10].into();
    let b: GridPoint = [20, 20].into();

    let dist = GridPoint::taxi_dist(a, b);
    assert_eq!(dist, 20);
}

#[test]
fn adj() {
    let p: GridPoint = [10, 10].into();
    let points: Vec<GridPoint> = p.adj_4().collect();
    assert!(points.contains(&GridPoint::new(10, 9)));
    assert!(points.contains(&GridPoint::new(9, 10)));
    assert!(points.contains(&GridPoint::new(11, 10)));
    assert!(points.contains(&GridPoint::new(10, 11)));

    let points: Vec<GridPoint> = p.adj_8().collect();
    assert!(points.contains(&GridPoint::new(10, 9)));
    assert!(points.contains(&GridPoint::new(9, 10)));
    assert!(points.contains(&GridPoint::new(11, 10)));
    assert!(points.contains(&GridPoint::new(10, 11)));
    assert!(points.contains(&GridPoint::new(11, 11)));
    assert!(points.contains(&GridPoint::new(9, 9)));
    assert!(points.contains(&GridPoint::new(11, 9)));
    assert!(points.contains(&GridPoint::new(9, 11)));
}

#[test]
fn transform_point() {
    let size: GridSize = [10, 10].into();
    let pivot = Pivot::TopRight;
    assert_eq!([8, 8], pivot.transform_point([1, 1].into(), size).to_array());
    assert_eq!([9, 9], pivot.transform_point([0, 0].into(), size).to_array());
    let pivot = Pivot::TopLeft;
    assert_eq!([1, 8], pivot.transform_point([1, 1].into(), size).to_array());
    let pivot = Pivot::BottomLeft;
    assert_eq!([1, 1], pivot.transform_point([1, 1].into(), size).to_array());
    let pivot = Pivot::BottomRight;
    assert_eq!([8, 1], pivot.transform_point([1, 1].into(), size).to_array());
}

#[test]
fn adj_order() {
    let p = GridPoint::new(0, 0);
    assert_eq!(
        p.adj_4().collect(),
        vec![
            GridPoint::new(0, 1),
            GridPoint::new(0, -1),
            GridPoint::new(-1, 0),
            GridPoint::new(1, 0)
        ]
    );
    let all = p.adj_8().collect();
    assert_eq!(all.len(), 8);
    assert_eq!(
        all[4..],
        [
            GridPoint::new(-1, 1),
            GridPoint::new(1, 1),
            GridPoint::new(-1, -1),
            GridPoint::new(1, -1)
        ]
    );
}

#[test]
fn point_moves() {
    let p = GridPoint::new(3, -4);
    assert_eq!(p.up(2), GridPoint::new(3, -2));
    assert_eq!(p.down(2), GridPoint::new(3, -6));
    assert_eq!(p.left(5), GridPoint::new(-2, -4));
    assert_eq!(p.right(5), GridPoint::new(8, -4));
    assert_eq!(p.offset(GridPoint::new(-3, 4)), GridPoint::new(0, 0));
    assert_eq!(p.min(GridPoint::new(0, 0)), GridPoint::new(0, -4));
    assert_eq!(p.max(GridPoint::new(0, 0)), GridPoint::new(3, 0));
    assert_eq!(GridPoint::splat(7), GridPoint::new(7, 7));
    assert_eq!(GridPoint::default(), GridPoint::new(0, 0));
}

#[test]
fn point_as_index() {
    let p = GridPoint::new(3, 2);
    assert_eq!(p.as_index(10), 23);
    assert_eq!(p.x(), 3);
    assert_eq!(p.y(), 2);
    assert_eq!(p.width(), 3);
    assert_eq!(p.height(), 2);
    assert_eq!(p.len(), 6);
    assert_eq!(p.as_array(), [3, 2]);
    assert_eq!(p.get_pivot(), None);
    let tagged = p.pivot(Pivot::Center);
    assert_eq!(tagged, PivotedPoint::new(p, Pivot::Center));
    assert_eq!(tagged.get_pivot(), Some(Pivot::Center));
    assert_eq!(tagged.x(), 3);
    assert_eq!(tagged.y(), 2);
}

#[test]
fn taxi_dist_spans_the_whole_range() {
    let a = GridPoint::new(i32::MIN, 0);
    let b = GridPoint::new(i32::MAX, -5);
    assert_eq!(a.taxi_dist(b), 4294967295 + 5);
    assert_eq!(a.taxi_dist(a), 0);
}

#[test]
fn size_counts_tiles() {
    let s = GridSize::new(7, 3);
    assert_eq!(s.tile_count(), 21);
    assert_eq!(s.len(), 21);
    assert_eq!(s.width(), 7);
    assert_eq!(s.height(), 3);
    assert_eq!(s.as_array(), [7, 3]);
    assert_eq!(s.to_array(), [7, 3]);
    assert_eq!(GridSize::new(u32::MAX, u32::MAX).tile_count_u64(), 18446744065119617025);
    assert_eq!(GridSize::splat(2), GridSize::new(2, 2));
    assert_eq!(GridSize::default(), GridSize::new(0, 0));
}

#[test]
fn pivot_axis_and_anchor() {
    assert_eq!(Pivot::TopLeft.axis(), GridPoint::new(1, -1));
    assert_eq!(Pivot::TopRight.axis(), GridPoint::new(-1, -1));
    assert_eq!(Pivot::Center.axis(), GridPoint::new(1, 1));
    assert_eq!(Pivot::BottomLeft.axis(), GridPoint::new(1, 1));
    assert_eq!(Pivot::BottomRight.axis(), GridPoint::new(-1, 1));
    assert_eq!(Pivot::TopLeft.anchor_halves(), (0, 2));
    assert_eq!(Pivot::Center.anchor_halves(), (1, 1));
    assert_eq!(Pivot::BottomRight.anchor_halves(), (2, 0));
}

#[test]
fn pivot_position_in_even_and_odd_sizes() {
    let even = GridSize::new(10, 10);
    let odd = GridSize::new(5, 5);
    assert_eq!(Pivot::Center.pivot_position(even), GridPoint::new(5, 5));
    assert_eq!(Pivot::Center.pivot_position(odd), GridPoint::new(2, 2));
    assert_eq!(Pivot::TopRight.pivot_position(even), GridPoint::new(9, 9));
    assert_eq!(Pivot::TopLeft.pivot_position(odd), GridPoint::new(0, 4));
    assert_eq!(Pivot::BottomRight.pivot_position(odd), GridPoint::new(4, 0));
    assert_eq!(Pivot::BottomLeft.pivot_position(odd), GridPoint::new(0, 0));
    assert_eq!(Pivot::Center.transform_point(GridPoint::new(1, -1), even), GridPoint::new(6, 4));
    assert_eq!(
        PivotedPoint::new(GridPoint::new(2, 1), Pivot::TopRight).calculate(even),
        GridPoint::new(7, 8)
    );
    let plain: PivotedPoint = GridPoint::new(2, 1).into();
    assert_eq!(plain.calculate(even), GridPoint::new(2, 1));
}

#[test]
fn integer_square_root() {
    assert_eq!(isqrt(0), 0);
    assert_eq!(isqrt(1), 1);
    assert_eq!(isqrt(3), 1);
    assert_eq!(isqrt(4), 2);
    assert_eq!(isqrt(15), 3);
    assert_eq!(isqrt(16), 4);
    assert_eq!(isqrt(1 << 64), 1 << 32);
    assert_eq!(isqrt((1 << 64) - 1), (1 << 32) - 1);
    assert_eq!(isqrt(u128::MAX), u64::MAX as u128);
}

#[test]
fn rounded_division() {
    assert_eq!(round_div(1, 2), 1);
    assert_eq!(round_div(-1, 2), -1);
    assert_eq!(round_div(3, 2), 2);
    assert_eq!(round_div(-3, 2), -2);
    assert_eq!(round_div(1, 3), 0);
    assert_eq!(round_div(2, 3), 1);
    assert_eq!(round_div(-2, 3), -1);
    assert_eq!(round_div(-1, 3), 0);
    assert_eq!(round_div(12, 4), 3);
    assert_eq!(round_div(0, 7), 0);
}

#[test]
fn world_space_other() {
    assert_eq!(WorldSpace::Units.other(), WorldSpace::Pixels);
    assert_eq!(WorldSpace::Pixels.other(), WorldSpace::Units);
    assert_eq!(WorldSpace::Units.other().other(), WorldSpace::Units);
}

#[test]
fn world_grid_index_in_bounds() {
    let grid = WorldGrid::unit_grid(GridSize::new(3, 3), GridSize::new(8, 8));
    assert_eq!(grid.world_space, WorldSpace::Units);
    assert!(grid.index_in_bounds(GridPoint::new(-1, -1)));
    assert!(grid.index_in_bounds(GridPoint::new(1, 1)));
    assert!(!grid.index_in_bounds(GridPoint::new(2, 0)));
    assert!(!grid.index_in_bounds(GridPoint::new(0, -2)));
    let grid = WorldGrid::pixel_grid(GridSize::new(2, 2), GridSize::new(8, 8));
    assert_eq!(grid.world_space, WorldSpace::Pixels);
    assert!(grid.index_in_bounds(GridPoint::new(-1, 0)));
    assert!(!grid.index_in_bounds(GridPoint::new(1, 0)));
}
