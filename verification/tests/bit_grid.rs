use sark_grids::geometry::SizedGrid;
use sark_grids::{BitGrid, GridPoint, GridRect, GridSize};

fn pt(x: i32, y: i32) -> GridPoint {
    GridPoint::new(x, y)
}

#[test]
fn bit_grid_iter() {
    let mut grid = BitGrid::new([10, 5].into());

    grid.set_true([0, 0].into());
    grid.set_true([0, 1].into());
    grid.set_true([9, 2].into());
    grid.set_true([9, 4].into());

    let points: Vec<_> = grid.iter_xy();
    assert!(points[grid.transform_lti(pt(0, 0).into())].1);
    assert!(points[grid.transform_lti(pt(0, 1).into())].1);
    assert!(points[grid.transform_lti(pt(9, 2).into())].1);
    assert!(points[grid.transform_lti(pt(9, 4).into())].1);
}

#[test]
fn bit_grid_starts_unset() {
    let grid = BitGrid::new(GridSize::new(4, 3));
    assert_eq!(grid.size(), GridSize::new(4, 3));
    assert_eq!(grid.iter(), vec![false; 12]);
    assert!(grid.none());
    assert!(!grid.any());
    assert_eq!(grid.bits().len(), 12);
    let empty = BitGrid::default();
    assert_eq!(empty.iter(), vec![]);
    assert_eq!(empty.size(), GridSize::new(0, 0));
}

#[test]
fn bit_grid_set_and_get() {
    let mut grid = BitGrid::new(GridSize::new(4, 3));
    grid.set(pt(1, 2), true);
    assert!(grid.get(pt(1, 2)));
    assert!(grid.get_index(9));
    assert!(!grid.get(pt(2, 1)));
    assert!(grid.any());
    assert!(!grid.none());
    grid.set_false(pt(1, 2));
    assert!(grid.none());
    grid.set_index(5, true);
    assert!(grid.get(pt(1, 1)));
    grid.set_index_false(5);
    grid.set_index_true(11);
    assert!(grid.get(pt(3, 2)));
    assert_eq!(grid.iter().iter().filter(|b| **b).count(), 1);
}

#[test]
fn bit_grid_toggle_and_negate() {
    let mut grid = BitGrid::new(GridSize::new(2, 2));
    grid.toggle(pt(1, 0));
    assert_eq!(grid.iter(), vec![false, true, false, false]);
    grid.toggle_index(1);
    grid.toggle_index(2);
    assert_eq!(grid.iter(), vec![false, false, true, false]);
    grid.all_negate();
    assert_eq!(grid.iter(), vec![true, true, false, true]);
    grid.set_all(true);
    assert_eq!(grid.iter(), vec![true; 4]);
    grid.clear();
    assert_eq!(grid.iter(), vec![false; 4]);
    let grid = grid.with_value(true);
    assert_eq!(grid.iter(), vec![true; 4]);
    let grid = grid.with_value(false);
    assert!(grid.none());
}

#[test]
fn bit_grid_bits_mut_changes_the_grid() {
    let mut grid = BitGrid::new(GridSize::new(3, 1));
    grid.bits_mut().set(2, true);
    assert!(grid.get(pt(2, 0)));
    assert_eq!(grid.clone().iter(), vec![false, false, true]);
}

#[test]
fn bit_grid_iter_xy_pairs_cells_with_bits() {
    let mut grid = BitGrid::new(GridSize::new(2, 2));
    grid.set_true(pt(0, 1));
    assert_eq!(
        grid.iter_xy(),
        vec![(pt(0, 0), false), (pt(1, 0), false), (pt(0, 1), true), (pt(1, 1), false)]
    );
}

#[test]
fn bit_grid_clone_rect() {
    let mut grid = BitGrid::new(GridSize::new(4, 4));
    grid.set_true(pt(1, 1));
    grid.set_true(pt(3, 3));
    grid.set_true(pt(0, 2));
    let part = grid.clone_rect(GridRect::new(pt(0, 0), GridSize::new(2, 3)));
    assert_eq!(part.size(), GridSize::new(2, 3));
    assert_eq!(part.iter(), vec![false, false, false, true, true, false]);
}
