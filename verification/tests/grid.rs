use sark_grids::geometry::{GridCircle, GridDiamond, GridLine, GridLineOrtho, SizedGrid};
use sark_grids::util::Canvas;
use sark_grids::{Grid, GridPoint, GridRect, GridSize};

fn pt(x: i32, y: i32) -> GridPoint {
    GridPoint::new(x, y)
}

#[test]
fn row_iter() {
    let mut grid: Grid<char> = Grid::new([10, 15].into());

    let chars = "hello".chars();

    for (elem, ch) in grid.slice_mut()[30..40].iter_mut().take(5).zip(chars) {
        *elem = ch;
    }

    let hello = grid.iter_row(3).into_iter().take(5).collect::<String>();

    assert_eq!("hello", hello);

    assert_eq!(grid.iter_row(6).into_iter().count(), 10);
}

#[test]
fn column_iter() {
    let mut grid: Grid<char> = Grid::new([10, 15].into());

    let chars = ['h', 'e', 'l', 'l', 'o'];

    for (y, ch) in chars.into_iter().enumerate() {
        *grid.get_mut(pt(5, y as i32)).unwrap() = ch;
    }

    let hello = grid.iter_column(5).into_iter().take(5).collect::<String>();

    assert_eq!("hello", hello);

    assert_eq!(grid.iter_column(2).into_iter().count(), 15);
}

#[test]
fn grid_iter() {
    let grid = Grid::<i32>::filled(5, [10, 10].into());

    let v: Vec<_> = grid.iter();

    assert_eq!(v.len(), 100);
    assert_eq!(*v[0], 5);
    assert_eq!(*v[99], 5);
}

#[test]
fn iter_mut() {
    let mut grid: Grid<i32> = Grid::new([10, 10].into());

    for i in grid.slice_mut().iter_mut() {
        *i = 10;
    }

    assert_eq!(grid.slice()[0], 10);
}

#[test]
fn rect_iter() {
    let mut grid: Grid<i32> = Grid::new([11, 15].into());

    *grid.get_mut([2, 2].into()).unwrap() = 5;
    *grid.get_mut([4, 4].into()).unwrap() = 10;

    let vec = grid.iter_rect(GridRect::from_points([2, 2].into(), [4, 4].into()));

    assert_eq!(vec.len(), 9);
    assert_eq!(*vec[0].1, 5);
    assert_eq!(*vec[8].1, 10);

    let mut iter = grid
        .iter_rect(GridRect::from_points([2, 2].into(), [4, 4].into()))
        .into_iter();

    let (p, _) = iter.next().unwrap();
    assert_eq!(p, GridPoint::new(2, 2));
    assert_eq!(iter.nth(7).unwrap().0, GridPoint::new(4, 4));
}

#[test]
fn column_insert() {
    let mut grid: Grid<char> = Grid::new([10, 10].into());

    grid.insert_column(3, "Hello".chars().collect());

    let hello: String = grid.iter_column(3).into_iter().take(5).collect();

    assert_eq!(hello, "Hello");
}

#[test]
fn row_insert() {
    let mut grid: Grid<char> = Grid::new([10, 10].into());

    grid.insert_row(3, "Hello".chars().collect());

    let hello: String = grid.iter_row(3).into_iter().take(5).collect();

    assert_eq!(hello, "Hello");
}

#[test]
fn grid_new_holds_defaults() {
    let grid: Grid<i32> = Grid::new(GridSize::new(3, 2));
    assert_eq!(grid.size(), GridSize::new(3, 2));
    assert_eq!(grid.slice(), &[0; 6]);
    assert_eq!(grid.bounds(), GridRect::new(pt(0, 0), GridSize::new(3, 2)));
    let empty: Grid<i32> = Grid::default();
    assert_eq!(empty.slice().len(), 0);
    assert_eq!(grid.clone(), grid);
}

#[test]
fn grid_get_is_none_outside() {
    let mut grid: Grid<u8> = Grid::filled(7, GridSize::new(3, 2));
    assert_eq!(grid.get(pt(2, 1)), Some(&7));
    assert_eq!(grid.get(pt(3, 1)), None);
    assert_eq!(grid.get(pt(0, 2)), None);
    assert_eq!(grid.get(pt(-1, 0)), None);
    assert!(grid.get_mut(pt(0, -1)).is_none());
    *grid.get_mut(pt(1, 1)).unwrap() = 9;
    assert_eq!(grid.slice(), &[7, 7, 7, 7, 9, 7]);
}

#[test]
fn insert_row_at_stops_at_the_edge() {
    let mut grid: Grid<u8> = Grid::new(GridSize::new(4, 2));
    grid.insert_row_at(pt(2, 1), vec![1, 2, 3, 4]);
    assert_eq!(grid.slice(), &[0, 0, 0, 0, 0, 0, 1, 2]);
    grid.insert_row_at(pt(1, 0), vec![9]);
    assert_eq!(grid.slice(), &[0, 9, 0, 0, 0, 0, 1, 2]);
    grid.insert_row_at(pt(4, 0), vec![5, 5]);
    assert_eq!(grid.slice(), &[0, 9, 0, 0, 0, 0, 1, 2]);
}

#[test]
fn insert_column_at_stops_at_the_edge() {
    let mut grid: Grid<u8> = Grid::new(GridSize::new(2, 3));
    grid.insert_column_at(pt(1, 1), vec![1, 2, 3]);
    assert_eq!(grid.slice(), &[0, 0, 0, 1, 0, 2]);
    grid.insert_column_at(pt(0, 0), vec![7]);
    assert_eq!(grid.slice(), &[7, 0, 0, 1, 0, 2]);
    grid.insert_column_at(pt(0, 3), vec![8]);
    assert_eq!(grid.slice(), &[7, 0, 0, 1, 0, 2]);
}

#[test]
fn grid_iter_xy_pairs_cells_with_values() {
    let mut grid: Grid<u8> = Grid::new(GridSize::new(2, 2));
    *grid.get_mut(pt(1, 0)).unwrap() = 4;
    let cells = grid.iter_xy();
    assert_eq!(cells, vec![(pt(0, 0), &0), (pt(1, 0), &4), (pt(0, 1), &0), (pt(1, 1), &0)]);
}

fn text(canvas: &Canvas) -> Vec<String> {
    canvas.lines().into_iter().map(|row| row.into_iter().collect()).collect()
}

#[test]
fn odd() {
    let mut canvas = Canvas::new([5, 5].into());
    canvas.put([-2, -2].into(), '*');
    canvas.put([-1, -1].into(), '*');
    canvas.put([0, 0].into(), '*');
    canvas.put([1, 1].into(), '*');
    canvas.put([2, 2].into(), '*');

    assert_eq!(text(&canvas), vec!["....*", "...*.", "..*..", ".*...", "*...."]);
}

#[test]
fn even() {
    let mut canvas = Canvas::new([6, 6].into());
    canvas.put([-3, -3].into(), '*');
    canvas.put([-2, -2].into(), '*');
    canvas.put([-1, -1].into(), '*');
    canvas.put([0, 0].into(), '*');
    canvas.put([1, 1].into(), '*');
    canvas.put([2, 2].into(), '*');

    assert_eq!(
        text(&canvas),
        vec![".....*", "....*.", "...*..", "..*...", ".*....", "*....."]
    );
}

#[test]
fn draw() {
    let mut canvas = Canvas::new([5, 5].into());
    let diamond = GridDiamond::origin(2);
    canvas.put_shape(diamond, '*');
    canvas.put(diamond.pos, 'o');
    assert_eq!(text(&canvas), vec!["..*..", ".***.", "**o**", ".***.", "..*.."]);
}

#[test]
fn draw_circles() {
    let mut canvas = Canvas::new([7, 7].into());
    canvas.put_shape(GridCircle::origin(3), '*');
    assert_eq!(
        text(&canvas),
        vec!["..***..", ".*****.", "*******", "*******", "*******", ".*****.", "..***.."]
    );
    canvas.clear();
    canvas.put_shape(GridCircle::origin(2).outline(), '*');
    assert_eq!(
        text(&canvas),
        vec![".......", "..***..", ".*...*.", ".*...*.", ".*...*.", "..***..", "......."]
    );
    canvas.clear();
    assert_eq!(text(&canvas), vec!["......."; 7]);
}

#[test]
fn canvas_put_bl_counts_from_the_corner() {
    let mut canvas = Canvas::new([3, 2].into());
    canvas.put_bl(pt(0, 0), 'a');
    canvas.put_bl(pt(2, 1), 'b');
    assert_eq!(text(&canvas), vec!["..b", "a.."]);
}

#[test]
fn sparse_grid_stores_by_cell() {
    let mut grid: sark_grids::SparseGrid<char> = sark_grids::SparseGrid::new(GridSize::new(4, 4));
    assert_eq!(grid.size(), GridSize::new(4, 4));
    assert_eq!(grid.get(pt(1, 1)), None);
    grid.insert(pt(1, 1), 'a');
    grid.insert(pt(-3, 0), 'b');
    grid.insert(pt(1, 1), 'c');
    assert_eq!(grid.get(pt(1, 1)), Some(&'c'));
    assert_eq!(grid.get(pt(-3, 0)), Some(&'b'));
    assert_eq!(grid.remove(pt(1, 1)), Some('c'));
    assert_eq!(grid.remove(pt(1, 1)), None);
    assert_eq!(grid.get(pt(1, 1)), None);
}

#[test]
fn sparse_grid_iterates_by_row_then_column() {
    let mut grid: sark_grids::SparseGrid<u8> = sark_grids::SparseGrid::new(GridSize::new(4, 4));
    grid.insert(pt(2, 1), 1);
    grid.insert(pt(-1, 1), 2);
    grid.insert(pt(5, -7), 3);
    grid.insert(pt(i32::MIN, i32::MAX), 4);
    grid.insert(pt(i32::MAX, i32::MIN), 5);
    assert_eq!(
        grid.iter(),
        vec![
            (pt(i32::MAX, i32::MIN), &5),
            (pt(5, -7), &3),
            (pt(-1, 1), &2),
            (pt(2, 1), &1),
            (pt(i32::MIN, i32::MAX), &4)
        ]
    );
}

fn stars(canvas: &Canvas) -> usize {
    text(canvas).iter().map(|row| row.chars().filter(|c| *c == '*').count()).sum()
}

#[test]
fn big() {
    let rect = GridRect::center_origin([30, 30].into());
    let mut canvas = Canvas::new([32, 32].into());

    canvas.put_shape(rect, '*');
    assert_eq!(stars(&canvas), 900);
    let rows = text(&canvas);
    assert_eq!(rows[0], ".".repeat(32));
    assert_eq!(rows[1], format!(".{}.", "*".repeat(30)));
    assert_eq!(rows[30], format!(".{}.", "*".repeat(30)));
    assert_eq!(rows[31], ".".repeat(32));
}

#[test]
fn line_rect() {
    let mut canvas = Canvas::new([11, 11].into());
    let lines = [
        GridLine::new([-4, -4].into(), [-4, 4].into()),
        GridLine::new([-4, 4].into(), [4, 4].into()),
        GridLine::new([4, 4].into(), [4, -4].into()),
        GridLine::new([4, -4].into(), [-4, -4].into()),
    ];
    for line in lines {
        canvas.put_shape(line, '*');
    }
    let rows = text(&canvas);
    assert_eq!(rows[0], "...........");
    assert_eq!(rows[1], ".*********.");
    assert_eq!(rows[2], ".*.......*.");
    assert_eq!(rows[8], ".*.......*.");
    assert_eq!(rows[9], ".*********.");
    assert_eq!(rows[10], "...........");
    assert_eq!(stars(&canvas), 32);
}

#[test]
fn line_orthogonal() {
    let mut canvas = Canvas::new([11, 11].into());
    let lines = [
        GridLineOrtho::new([0, 0].into(), [4, 4].into()),
        GridLineOrtho::new([0, 0].into(), [-4, 4].into()),
        GridLineOrtho::new([0, 0].into(), [-4, -4].into()),
        GridLineOrtho::new([0, 0].into(), [4, -4].into()),
    ];
    for line in lines {
        canvas.put_shape(line, '*');
    }
    assert_eq!(stars(&canvas), 31);
    let rows = text(&canvas);
    assert_eq!(rows[1], ".**.....**.");
    assert_eq!(rows[5], ".....*.....");
    assert_eq!(rows[9], ".**.....**.");
}
