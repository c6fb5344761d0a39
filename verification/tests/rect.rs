use sark_grids::geometry::{GridShape, PointIter, PositionedGrid, SizedGrid};
use sark_grids::{GridPoint, GridRect, GridRectIter, GridSize, Pivot, PivotedPoint};

fn pt(x: i32, y: i32) -> GridPoint {
    GridPoint::new(x, y)
}

fn sz(w: u32, h: u32) -> GridSize {
    GridSize::new(w, h)
}

#[test]
fn rect_min_max() {
    let rect = GridRect::from_points([1, 1].into(), [3, 3].into());
    assert_eq!([1, 1], rect.min().to_array());
    assert_eq!([3, 3], rect.max().to_array());

    let rect = GridRect::from_points([0, 0].into(), [3, 3].into());
    assert_eq!([0, 0], rect.min().to_array());
    assert_eq!([3, 3], rect.max().to_array());

    let rect = GridRect::from_points([-1, -1].into(), [4, 4].into());
    assert_eq!([-1, -1], rect.min().to_array());
    assert_eq!([4, 4], rect.max().to_array());

    let rect = GridRect::from_points([-5, -5].into(), [3, 3].into());
    assert_eq!([-5, -5], rect.min().to_array());
    assert_eq!([3, 3], rect.max().to_array());

    let rect = GridRect::from_points([6, 6].into(), [7, 7].into());
    assert_eq!([6, 6], rect.min().to_array());
    assert_eq!([7, 7], rect.max().to_array());
}

#[test]
fn contains_point() {
    let rect = GridRect::center_origin([5, 5].into());
    assert!(rect.contains_point([-2, -2].into()));
    assert!(rect.contains_point([2, 2].into()));
    assert!(!rect.contains_point([3, 3].into()));
    assert!(!rect.contains_point([-3, -3].into()));
}

#[test]
fn from_bl() {
    let rect = GridRect::center_origin([5, 5].into());
    let rect2 = GridRect::new([-2, -2].into(), [5, 5].into());

    assert_eq!(rect, rect2);
}

#[test]
fn overlap() {
    let a = GridRect::new([-1, -1].into(), [3, 3].into());
    let b = GridRect::new([1, 1].into(), [3, 3].into());
    let c = GridRect::new([3, 3].into(), [3, 3].into());
    assert!(a.overlaps(b));
    assert!(b.overlaps(a));
    assert!(b.overlaps(c));
    assert!(c.overlaps(b));
    assert!(!a.overlaps(c));
    assert!(!c.overlaps(a));

    assert!(a.overlaps(a));
    assert!(b.overlaps(b));
    assert!(c.overlaps(c));

    let a = GridRect::new([-2, -2].into(), [4, 4].into());
    let b = GridRect::new([1, 1].into(), [4, 4].into());
    let c = GridRect::new([4, 4].into(), [4, 4].into());
    assert!(a.overlaps(b));
    assert!(b.overlaps(a));
    assert!(b.overlaps(c));
    assert!(c.overlaps(b));
    assert!(!a.overlaps(c));
    assert!(!c.overlaps(a));

    assert!(a.overlaps(a));
    assert!(b.overlaps(b));
    assert!(c.overlaps(c));
}

#[test]
fn envelope_point() {
    let mut rect = GridRect::from_points([1, 1].into(), [3, 3].into());
    rect.envelope_point([0, 0].into());
    assert_eq!([0, 0], rect.min().to_array());
    assert_eq!([3, 3], rect.max().to_array());
    assert_eq!(4, rect.width());

    rect.envelope_point([4, 3].into());
    assert_eq!([0, 0], rect.min().to_array());
    assert_eq!([4, 3], rect.max().to_array());
    assert_eq!(4, rect.height());

    rect.envelope_point([0, 0].into());
    assert_eq!([0, 0], rect.min().to_array());
    assert_eq!([4, 3], rect.max().to_array());
}

#[test]
fn envelope_rect() {
    let mut rect = GridRect::from_points([1, 1].into(), [3, 3].into());
    rect.merge(GridRect::from_points([4, 4].into(), [8, 8].into()));
    assert_eq!([8, 8], rect.max().to_array());
    assert_eq!([1, 1], rect.min().to_array());

    rect.merge(GridRect::from_points([-10, -10].into(), [4, 8].into()));
    assert_eq!([-10, -10], rect.min().to_array());
}

#[test]
fn pivot_corners() {
    let rect = GridRect::from_points([0, 0].into(), [5, 5].into());
    assert_eq!([0, 0], rect.pivot_point(Pivot::BottomLeft).to_array());
    assert_eq!([0, 5], rect.pivot_point(Pivot::TopLeft).to_array());
    assert_eq!([5, 5], rect.pivot_point(Pivot::TopRight).to_array());
    assert_eq!([5, 0], rect.pivot_point(Pivot::BottomRight).to_array());

    let rect = GridRect::from_points([0, 0].into(), [6, 6].into());
    assert_eq!([0, 0], rect.pivot_point(Pivot::BottomLeft).to_array());
    assert_eq!([0, 6], rect.pivot_point(Pivot::TopLeft).to_array());
    assert_eq!([6, 6], rect.pivot_point(Pivot::TopRight).to_array());
    assert_eq!([6, 0], rect.pivot_point(Pivot::BottomRight).to_array());

    let rect = GridRect::from_points([-5, -5].into(), [5, 5].into());
    assert_eq!([-5, -5], rect.pivot_point(Pivot::BottomLeft).to_array());
    assert_eq!([-5, 5], rect.pivot_point(Pivot::TopLeft).to_array());
    assert_eq!([5, 5], rect.pivot_point(Pivot::TopRight).to_array());
    assert_eq!([5, -5], rect.pivot_point(Pivot::BottomRight).to_array());

    let rect = GridRect::from_points([-4, -4].into(), [5, 5].into());
    assert_eq!([-4, -4], rect.pivot_point(Pivot::BottomLeft).to_array());
    assert_eq!([-4, 5], rect.pivot_point(Pivot::TopLeft).to_array());
    assert_eq!([5, 5], rect.pivot_point(Pivot::TopRight).to_array());
    assert_eq!([5, -4], rect.pivot_point(Pivot::BottomRight).to_array());
}

#[test]
fn clipped() {
    let a = GridRect::from_points([4, 5].into(), [10, 13].into());
    let b = GridRect::from_points([9, 10].into(), [13, 15].into());
    let c = GridRect::from_points([1, 2].into(), [7, 10].into());

    let clipped = b.clipped(a);
    assert_eq!([9, 10], clipped.min().to_array());
    assert_eq!([10, 13], clipped.max().to_array());

    let clipped = a.clipped(c);
    assert_eq!([4, 5], clipped.min().to_array());
    assert_eq!([7, 10], clipped.max().to_array());
}

#[test]
fn from_points_three_by_three() {
    let rect = GridRect::from_points(pt(1, 1), pt(3, 3));
    assert_eq!(rect.min(), pt(1, 1));
    assert_eq!(rect.max(), pt(3, 3));
    assert_eq!(rect.width(), 3);
    assert_eq!(rect.height(), 3);
}

#[test]
fn from_points_takes_corners_either_way_round() {
    let rect = GridRect::from_points(pt(3, -1), pt(-2, 4));
    assert_eq!(rect, GridRect::new(pt(-2, -1), sz(6, 6)));
    let unit = GridRect::from_points(pt(7, 7), pt(7, 7));
    assert_eq!(unit, GridRect::new(pt(7, 7), sz(1, 1)));
}

#[test]
fn origin_is_centered() {
    let rect = GridRect::origin(sz(5, 5));
    assert!(rect.contains_point(pt(-2, -2)));
    assert!(!rect.contains_point(pt(3, 3)));
    assert_eq!(rect.center(), pt(0, 0));
}

#[test]
fn center_of_even_size_rounds_up() {
    let rect = GridRect::new(pt(0, 0), sz(4, 6));
    assert_eq!(rect.center(), pt(2, 3));
    let back = GridRect::from_center_size(pt(2, 3), sz(4, 6));
    assert_eq!(back, rect);
    assert_eq!(GridRect::from_center_size(pt(0, 0), sz(4, 4)).pos, pt(-2, -2));
}

#[test]
fn rect_holds_its_corners() {
    let rect = GridRect::new(pt(-3, 2), sz(4, 1));
    assert!(rect.contains_point(rect.min()));
    assert!(rect.contains_point(rect.max()));
    assert_eq!(rect.max(), pt(0, 2));
}

#[test]
fn empty_rect_holds_nothing() {
    let rect = GridRect::new(pt(0, 0), sz(0, 3));
    assert_eq!(rect.max(), pt(-1, 2));
    assert!(!rect.contains_point(rect.min()));
    assert_eq!(rect.iter_points().collect(), vec![]);
    assert!(!rect.iter_points().can_iterate());
    assert_eq!(rect.iter_border(), vec![]);
}

#[test]
fn iter_points_is_row_major() {
    let rect = GridRect::new(pt(-1, 2), sz(2, 2));
    let points = rect.iter_points().collect();
    assert_eq!(points, vec![pt(-1, 2), pt(0, 2), pt(-1, 3), pt(0, 3)]);
}

#[test]
fn iter_points_counts_width_times_height() {
    let rect = GridRect::new(pt(5, -7), sz(7, 3));
    let it = rect.iter_points();
    assert_eq!(it.len(), 21);
    assert_eq!(it.size_hint(), (21, Some(21)));
    assert_eq!(it.collect().len(), 21);
}

#[test]
fn reverse_is_exact_reverse() {
    let rect = GridRect::new(pt(2, 1), sz(3, 2));
    let forward = rect.iter_points().collect();
    let mut backward = rect.iter_points().collect_rev();
    assert_eq!(backward[0], pt(4, 2));
    backward.reverse();
    assert_eq!(forward, backward);
}

#[test]
fn cursors_never_cross() {
    let rect = GridRect::new(pt(0, 0), sz(2, 2));
    let mut it = GridRectIter::new(rect);
    assert_eq!(it.next(), Some(pt(0, 0)));
    assert_eq!(it.next_back(), Some(pt(1, 1)));
    assert_eq!(it.len(), 2);
    assert_eq!(it.next_back(), Some(pt(0, 1)));
    assert_eq!(it.next(), Some(pt(1, 0)));
    assert!(!it.can_iterate());
    assert_eq!(it.next(), None);
    assert_eq!(it.next_back(), None);
    assert_eq!(it.len(), 0);
}

#[test]
fn overlaps_is_symmetric() {
    let a = GridRect::new(pt(0, 0), sz(2, 2));
    let b = GridRect::new(pt(1, 1), sz(5, 1));
    let c = GridRect::new(pt(2, 0), sz(1, 1));
    assert_eq!(a.overlaps_rect(b), b.overlaps_rect(a));
    assert!(a.overlaps_rect(b));
    assert_eq!(a.overlaps_rect(c), c.overlaps_rect(a));
    assert!(!a.overlaps_rect(c));
    assert!(a.overlaps_rect(a));
}

#[test]
fn contains_rect_compares_corners() {
    let a = GridRect::new(pt(0, 0), sz(4, 4));
    assert!(a.contains_rect(GridRect::new(pt(1, 1), sz(3, 3))));
    assert!(a.contains_rect(a));
    assert!(!a.contains_rect(GridRect::new(pt(1, 1), sz(4, 3))));
    assert!(!a.contains_rect(GridRect::new(pt(-1, 0), sz(2, 2))));
}

#[test]
fn clipping_apart_gives_empty_rect() {
    let a = GridRect::from_points(pt(0, 0), pt(1, 1));
    let b = GridRect::from_points(pt(5, 0), pt(6, 1));
    let c = a.clipped(b);
    assert_eq!(c, GridRect::new(pt(5, 0), sz(0, 2)));
    assert_eq!(c.iter_points().collect(), vec![]);
    assert_eq!(c.max(), pt(4, 1));
}

#[test]
fn clipping_twice_changes_nothing() {
    let a = GridRect::from_points(pt(4, 5), pt(10, 13));
    let b = GridRect::from_points(pt(9, 10), pt(13, 15));
    let apart = GridRect::from_points(pt(20, 20), pt(21, 21));
    assert_eq!(a.clipped(b).clipped(b), a.clipped(b));
    assert_eq!(a.clipped(apart).clipped(apart), a.clipped(apart));
}

#[test]
fn translated_and_resized() {
    let a = GridRect::new(pt(1, 1), sz(2, 3));
    assert_eq!(a.translated(pt(-3, 4)), GridRect::new(pt(-2, 5), sz(2, 3)));
    assert_eq!(a.resized(pt(1, 2)), GridRect::new(pt(0, -1), sz(4, 7)));
}

#[test]
fn merged_holds_both() {
    let a = GridRect::from_points(pt(0, 0), pt(1, 1));
    let b = GridRect::from_points(pt(3, -2), pt(4, 0));
    let m = a.merged(b);
    assert_eq!(m, GridRect::from_points(pt(0, -2), pt(4, 1)));
    assert!(m.contains_rect(a));
    assert!(m.contains_rect(b));
}

#[test]
fn resize_from_pivot_grows_a_corner() {
    let mut r = GridRect::from_points(pt(0, 0), pt(2, 2));
    r.resize_from_pivot(Pivot::TopRight, 2);
    assert_eq!(r, GridRect::from_points(pt(0, 0), pt(4, 4)));
    r.resize_from_pivot(Pivot::BottomLeft, 1);
    assert_eq!(r, GridRect::from_points(pt(-1, -1), pt(4, 4)));
    r.resize_from_pivot(Pivot::TopLeft, 1);
    assert_eq!(r, GridRect::from_points(pt(-2, -1), pt(4, 5)));
    r.resize_from_pivot(Pivot::BottomRight, 3);
    assert_eq!(r, GridRect::from_points(pt(-2, -4), pt(7, 5)));
    let before = r;
    r.resize_from_pivot(Pivot::Center, 5);
    assert_eq!(r, before);
}

#[test]
fn sides_and_corners() {
    let r = GridRect::new(pt(-1, 2), sz(3, 4));
    assert_eq!(r.left(), -1);
    assert_eq!(r.right(), 1);
    assert_eq!(r.bottom(), 2);
    assert_eq!(r.top(), 5);
    assert_eq!(r.top_left(), pt(-1, 5));
    assert_eq!(r.top_right(), pt(1, 5));
    assert_eq!(r.bottom_left(), pt(-1, 2));
    assert_eq!(r.bottom_right(), pt(1, 2));
    assert_eq!(r.corners(), [pt(-1, 2), pt(-1, 5), pt(1, 5), pt(1, 2)]);
    assert_eq!(r.bottom_index(), 0);
    assert_eq!(r.top_index(), 3);
    assert_eq!(r.left_index(), 0);
    assert_eq!(r.right_index(), 2);
    assert_eq!(r.pivot_point(Pivot::Center), r.center());
    assert_eq!(r.center(), pt(0, 4));
}

#[test]
fn pivoted_point_counts_from_the_pivot() {
    let r = GridRect::new(pt(10, 20), sz(4, 4));
    assert_eq!(r.pivoted_point(Pivot::TopRight, pt(1, 1)), pt(12, 22));
    assert_eq!(r.pivoted_point(Pivot::BottomLeft, pt(1, 1)), pt(11, 21));
    assert_eq!(r.pivoted_point(Pivot::TopLeft, pt(1, 1)), pt(11, 22));
    assert_eq!(r.pivoted_point(Pivot::Center, pt(-1, 1)), pt(11, 23));
}

#[test]
fn column_and_row() {
    let r = GridRect::new(pt(1, 1), sz(3, 2));
    assert_eq!(r.iter_column(0), vec![pt(1, 1), pt(1, 2)]);
    assert_eq!(r.iter_column(2), vec![pt(3, 1), pt(3, 2)]);
    assert_eq!(r.iter_column(4), vec![pt(2, 2)]);
    assert_eq!(r.iter_column(6), vec![]);
    assert_eq!(r.iter_row(0), vec![pt(1, 1), pt(2, 1), pt(3, 1)]);
    assert_eq!(r.iter_row(1), vec![pt(1, 2), pt(2, 2), pt(3, 2)]);
    assert_eq!(r.iter_row(2), vec![]);
}

#[test]
fn border_is_walked_clockwise() {
    let r = GridRect::new(pt(0, 0), sz(3, 2));
    assert_eq!(
        r.iter_border(),
        vec![pt(0, 0), pt(0, 1), pt(1, 1), pt(2, 1), pt(2, 0), pt(1, 0)]
    );
    let r = GridRect::new(pt(-1, -1), sz(3, 3));
    assert_eq!(
        r.iter_border(),
        vec![
            pt(-1, -1),
            pt(-1, 0),
            pt(-1, 1),
            pt(0, 1),
            pt(1, 1),
            pt(1, 0),
            pt(1, -1),
            pt(0, -1)
        ]
    );
}

#[test]
fn border_count() {
    let r = GridRect::new(pt(0, 0), sz(6, 6));
    assert_eq!(r.iter_border().len(), 20);
    let r = GridRect::from_points(pt(-13, -13), pt(-9, -9));
    assert_eq!(r.iter_border().len(), 16);
    let r = GridRect::new(pt(3, 3), sz(7, 2));
    assert_eq!(r.iter_border().len(), 2 * 7 + 2 * 2 - 4);
    let unit = GridRect::new(pt(3, 3), sz(1, 1));
    assert_eq!(unit.iter_border(), vec![pt(3, 3)]);
}

#[test]
fn border_of_thin_rects_has_every_cell_once() {
    let tall = GridRect::new(pt(0, 0), sz(1, 3));
    assert_eq!(tall.iter_border(), vec![pt(0, 0), pt(0, 1), pt(0, 2)]);
    let wide = GridRect::new(pt(0, 0), sz(4, 1));
    assert_eq!(wide.iter_border(), vec![pt(0, 0), pt(1, 0), pt(2, 0), pt(3, 0)]);
}

#[test]
fn rect_as_shape() {
    let mut r = GridRect::new(pt(0, 0), sz(2, 1));
    assert_eq!(GridShape::pos(&r), pt(0, 0));
    r.set_pos(pt(5, 5));
    assert_eq!(r, GridRect::new(pt(5, 5), sz(2, 1)));
    assert_eq!(r.bounds(), r);
    assert_eq!(r.iter().collect(), vec![pt(5, 5), pt(6, 5)]);
}

#[test]
fn sized_grid_indices() {
    let r = GridRect::new(pt(7, 7), sz(10, 5));
    assert_eq!(r.size(), sz(10, 5));
    assert_eq!(r.tile_count(), 50);
    assert_eq!(r.transform_lti(pt(3, 2).into()), 23);
    assert_eq!(r.transform_itl(23), pt(3, 2));
    assert_eq!(r.try_transform_lti(pt(9, 4).into()), Some(49));
    assert_eq!(r.try_transform_lti(pt(10, 4).into()), None);
    assert_eq!(r.try_transform_lti(pt(-1, 0).into()), None);
    assert_eq!(r.try_transform_itl(49), Some(pt(9, 4)));
    assert_eq!(r.try_transform_itl(50), None);
    assert!(r.in_bounds(pt(0, 0).into()));
    assert!(!r.in_bounds(pt(0, 5).into()));
    assert_eq!(r.grid_bounds(), GridRect::new(pt(0, 0), sz(10, 5)));
    assert_eq!(r.iter_grid_points().len(), 50);
}

#[test]
fn sized_grid_reads_pivoted_points() {
    let r = GridRect::new(pt(0, 0), sz(10, 5));
    let p = PivotedPoint::new(pt(0, 0), Pivot::TopRight);
    assert_eq!(r.transform_lti(p), 49);
    let p = pt(1, 1).pivot(Pivot::TopLeft);
    assert_eq!(r.transform_lti(p), 31);
    assert!(!r.in_bounds(pt(-1, 0).pivot(Pivot::TopLeft)));
    assert!(r.in_bounds(pt(-1, 0).pivot(Pivot::Center)));
}

#[test]
fn positioned_grid_translates() {
    let r = GridRect::new(pt(3, -2), sz(4, 4));
    assert_eq!(r.transform_wtl(pt(5, 0)), pt(2, 2));
    assert_eq!(r.transform_ltw(pt(2, 2)), pt(5, 0));
    assert_eq!(PositionedGrid::pos(&r), pt(3, -2));
    assert_eq!(r.iter_rect_points().collect()[0], pt(3, -2));
    assert_eq!(r.iter_rect_row(1), vec![pt(0, 1), pt(1, 1), pt(2, 1), pt(3, 1)]);
    assert_eq!(r.iter_rect_column(1), vec![pt(1, 0), pt(1, 1), pt(1, 2), pt(1, 3)]);
    assert_eq!(r.iter_rect_border().len(), 12);
}

#[test]
fn rect_into_iter_is_iter_points() {
    let r = GridRect::new(pt(1, 2), sz(3, 3));
    assert_eq!(r.into_iter().collect(), r.iter_points().collect());
}

#[test]
fn indices_and_cells_lead_back_to_each_other() {
    let r = GridRect::new(pt(0, 0), sz(7, 4));
    for i in 0..28 {
        let p = r.transform_itl(i);
        assert_eq!(r.transform_lti(p.into()), i);
    }
    assert_eq!(r.transform_itl(27), pt(6, 3));
}

#[test]
fn overlapping_rects_share_a_cell() {
    let a = GridRect::new(pt(0, 0), sz(3, 3));
    let b = GridRect::new(pt(2, 2), sz(3, 3));
    assert!(a.overlaps_rect(b));
    let shared = a.clipped(b);
    assert_eq!(shared, GridRect::new(pt(2, 2), sz(1, 1)));
    assert!(a.contains_point(pt(2, 2)) && b.contains_point(pt(2, 2)));
}
