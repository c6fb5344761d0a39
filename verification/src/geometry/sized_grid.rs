//! What a grid offers to the code that stores cells: its size, the way
//! from a cell to its array index and back, and, once it has a position,
//! the way from its own coordinates to the world's and back.
use vstd::prelude::*;
use crate::geometry::grid_rect::{GridRect, GridRectIter, lemma_index_splits};
use crate::geometry::grid_shape::PointIter;
use crate::pivot::{Pivot, PivotedPoint, lemma_bottom_left_is_identity};
use crate::point::{GridPoint, GridSize, fits_i32};

verus! {

/// Whether the cell that `p` names lies in a grid of the given size.
pub open spec fn spec_in_bounds(size: GridSize, p: PivotedPoint) -> bool {
    &&& 0 <= p.spec_calculate(size).0 < size.width
    &&& 0 <= p.spec_calculate(size).1 < size.height
}

/// The array index of the cell that `p` names in a grid of the given size,
/// whose cells are stored row by row from the bottom.
pub open spec fn spec_local_to_index(size: GridSize, p: PivotedPoint) -> int {
    p.spec_calculate(size).1 * size.width + p.spec_calculate(size).0
}

/// The cell at array index `i` in a grid of the given size.
pub open spec fn spec_index_to_local(size: GridSize, i: int) -> GridPoint {
    GridPoint { x: (i % (size.width as int)) as i32, y: (i / (size.width as int)) as i32 }
}

/// The rectangle of the given size whose bottom-left cell is the origin.
pub open spec fn spec_bounds_at_origin(size: GridSize) -> GridRect {
    GridRect { pos: GridPoint { x: 0, y: 0 }, size }
}

/// An index made from a cell of the grid leads back to that cell, and it is
/// an index of the grid.
pub proof fn lemma_local_index_round_trip(size: GridSize, p: PivotedPoint)
    requires
        spec_in_bounds(size, p),
    ensures
        0 <= spec_local_to_index(size, p) < size.spec_tile_count(),
        spec_local_to_index(size, p) % (size.width as int) == p.spec_calculate(size).0,
        spec_local_to_index(size, p) / (size.width as int) == p.spec_calculate(size).1,
        spec_bounds_at_origin(size).in_range() ==> spec_index_to_local(
            size,
            spec_local_to_index(size, p),
        ) == (GridPoint { x: p.spec_calculate(size).0 as i32, y: p.spec_calculate(size).1 as i32 }),
{
    let x = p.spec_calculate(size).0;
    let y = p.spec_calculate(size).1;
    let w = size.width as int;
    let h = size.height as int;
    assert(0 <= y * w + x < w * h) by (nonlinear_arith)
        requires
            0 <= x < w,
            0 <= y < h,
    ;
    vstd::arithmetic::div_mod::lemma_fundamental_div_mod_converse(y * w + x, w, y, x);
}

/// A cell made from an index of the grid lies in the grid and leads back to
/// that index.
pub proof fn lemma_index_local_round_trip(size: GridSize, i: int)
    requires
        0 <= i < size.spec_tile_count(),
        spec_bounds_at_origin(size).in_range(),
    ensures
        spec_in_bounds(
            size,
            PivotedPoint { point: spec_index_to_local(size, i), pivot: Pivot::BottomLeft },
        ),
        spec_local_to_index(
            size,
            PivotedPoint { point: spec_index_to_local(size, i), pivot: Pivot::BottomLeft },
        ) == i,
{
    lemma_index_splits(i, size.width as int, size.height as int);
    let p = spec_index_to_local(size, i);
    assert(Pivot::BottomLeft.spec_axis() == GridPoint { x: 1, y: 1 });
    assert(Pivot::BottomLeft.spec_pivot_offset(size) == (0int, 0int));
    assert(Pivot::BottomLeft.spec_transform(p, size) == (p.x as int, p.y as int));
}

/// The array index of the cell `xy` in a grid of the given size.
pub open spec fn spec_cell_index(size: GridSize, xy: GridPoint) -> int {
    xy.y * size.width + xy.x
}

/// Whether `xy` is a cell of a grid of the given size.
pub open spec fn spec_holds(size: GridSize, xy: GridPoint) -> bool {
    0 <= xy.x < size.width && 0 <= xy.y < size.height
}

/// A plain point names the cell at its own coordinates.
pub proof fn lemma_plain_point(size: GridSize, xy: GridPoint)
    ensures
        spec_in_bounds(size, PivotedPoint { point: xy, pivot: Pivot::BottomLeft }) == spec_holds(
            size,
            xy,
        ),
        spec_local_to_index(size, PivotedPoint { point: xy, pivot: Pivot::BottomLeft })
            == spec_cell_index(size, xy),
        spec_holds(size, xy) ==> 0 <= spec_cell_index(size, xy) < size.spec_tile_count(),
{
    lemma_bottom_left_is_identity(xy, size);
    if spec_holds(size, xy) {
        lemma_local_index_round_trip(size, PivotedPoint { point: xy, pivot: Pivot::BottomLeft });
    }
}

/// Two cells of a grid that have the same array index are the same cell.
pub proof fn lemma_cell_index_injective(size: GridSize, a: GridPoint, b: GridPoint)
    requires
        spec_holds(size, a),
        spec_holds(size, b),
        spec_cell_index(size, a) == spec_cell_index(size, b),
    ensures
        a == b,
{
    let w = size.width as int;
    vstd::arithmetic::div_mod::lemma_fundamental_div_mod_converse(
        spec_cell_index(size, a),
        w,
        a.y as int,
        a.x as int,
    );
    vstd::arithmetic::div_mod::lemma_fundamental_div_mod_converse(
        spec_cell_index(size, b),
        w,
        b.y as int,
        b.x as int,
    );
}

/// A rectangular grid with a size.
pub trait SizedGrid: Sized {
    /// The size of the grid.
    spec fn spec_size(&self) -> GridSize;

    fn size(&self) -> (s: GridSize)
        ensures
            s == self.spec_size(),
    ;

    fn width(&self) -> (w: usize)
        ensures
            w == self.spec_size().width,
    {
        self.size().width as usize
    }

    fn height(&self) -> (h: usize)
        ensures
            h == self.spec_size().height,
    {
        self.size().height as usize
    }

    /// The number of cells of the grid.
    fn tile_count(&self) -> (n: usize)
        requires
            self.spec_size().indexable(),
        ensures
            n == self.spec_size().spec_tile_count(),
    {
        self.size().tile_count()
    }

    /// Whether the cell that `p` names lies in the grid.
    fn in_bounds(&self, p: PivotedPoint) -> (b: bool)
        ensures
            b == spec_in_bounds(self.spec_size(), p),
    {
        let size = self.size();
        let t = p.calculate_wide(size);
        0 <= t.0 && t.0 < size.width as i64 && 0 <= t.1 && t.1 < size.height as i64
    }

    /// The array index of a cell of the grid. It is for the caller to make
    /// sure that the cell lies in the grid.
    fn transform_lti(&self, pos: PivotedPoint) -> (i: usize)
        requires
            spec_in_bounds(self.spec_size(), pos),
            self.spec_size().indexable(),
        ensures
            i == spec_local_to_index(self.spec_size(), pos),
            i < self.spec_size().spec_tile_count(),
    {
        let size = self.size();
        let t = pos.calculate_wide(size);
        proof {
            lemma_local_index_round_trip(size, pos);
        }
        let w: u64 = size.width as u64;
        let x: u64 = t.0 as u64;
        let y: u64 = t.1 as u64;
        assert(y * w <= y * w + x);
        assert(y * w + x == t.1 * size.width + t.0) by (nonlinear_arith)
            requires
                y == t.1,
                x == t.0,
                w == size.width,
        ;
        (y * w + x) as usize
    }

    /// The cell at an array index of the grid. It is for the caller to make
    /// sure that the index is one of the grid.
    fn transform_itl(&self, i: usize) -> (p: GridPoint)
        requires
            i < self.spec_size().spec_tile_count(),
            spec_bounds_at_origin(self.spec_size()).in_range(),
        ensures
            p == spec_index_to_local(self.spec_size(), i as int),
            0 <= p.x < self.spec_size().width,
            0 <= p.y < self.spec_size().height,
    {
        let size = self.size();
        proof {
            lemma_index_splits(i as int, size.width as int, size.height as int);
        }
        let w: u64 = size.width as u64;
        let x: u64 = i as u64 % w;
        let y: u64 = i as u64 / w;
        GridPoint { x: x as i32, y: y as i32 }
    }

    /// The array index of the cell that `pos` names, or `None` if the cell
    /// does not lie in the grid.
    fn try_transform_lti(&self, pos: PivotedPoint) -> (r: Option<usize>)
        requires
            self.spec_size().indexable(),
        ensures
            spec_in_bounds(self.spec_size(), pos) ==> r == Some(
                spec_local_to_index(self.spec_size(), pos) as usize,
            ),
            !spec_in_bounds(self.spec_size(), pos) ==> r.is_none(),
    {
        if self.in_bounds(pos) {
            Some(self.transform_lti(pos))
        } else {
            None
        }
    }

    /// The cell at array index `i`, or `None` if the grid has no such
    /// index.
    fn try_transform_itl(&self, i: usize) -> (r: Option<GridPoint>)
        requires
            spec_bounds_at_origin(self.spec_size()).in_range(),
        ensures
            i < self.spec_size().spec_tile_count() ==> r == Some(
                spec_index_to_local(self.spec_size(), i as int),
            ),
            i >= self.spec_size().spec_tile_count() ==> r.is_none(),
    {
        let n: u64 = self.size().tile_count_u64();
        if i as u128 >= n as u128 {
            return None;
        }
        Some(self.transform_itl(i))
    }

    /// The index of the bottom row.
    fn bottom_index(&self) -> (i: usize)
        ensures
            i == 0,
    {
        0
    }

    /// The index of the top row.
    fn top_index(&self) -> (i: usize)
        requires
            self.spec_size().height > 0,
        ensures
            i == self.spec_size().height - 1,
    {
        (self.size().height - 1) as usize
    }

    /// The index of the left column.
    fn left_index(&self) -> (i: usize)
        ensures
            i == 0,
    {
        0
    }

    /// The index of the right column.
    fn right_index(&self) -> (i: usize)
        requires
            self.spec_size().width > 0,
        ensures
            i == self.spec_size().width - 1,
    {
        (self.size().width - 1) as usize
    }

    /// The rectangle of the grid's own coordinates: its bottom-left cell is
    /// the origin.
    fn grid_bounds(&self) -> (r: GridRect)
        ensures
            r == spec_bounds_at_origin(self.spec_size()),
    {
        GridRect::new(GridPoint { x: 0, y: 0 }, self.size())
    }

    /// A cursor over the grid's own coordinates.
    fn iter_grid_points(&self) -> (it: GridRectIter)
        requires
            spec_bounds_at_origin(self.spec_size()).in_range(),
        ensures
            it.remaining() == spec_bounds_at_origin(self.spec_size()).spec_points(),
    {
        GridRectIter::new(self.grid_bounds())
    }
}

/// The rectangle that a grid of the given size covers in the world when its
/// bottom-left cell lies at `pos`.
pub open spec fn spec_world_rect(pos: GridPoint, size: GridSize) -> GridRect {
    GridRect { pos, size }
}

/// Whether both coordinates of a world point, taken relative to `min`, can
/// be held.
pub open spec fn spec_local_fits(min: GridPoint, pos: GridPoint) -> bool {
    fits_i32(pos.x - min.x) && fits_i32(pos.y - min.y)
}

/// A rectangular grid with a size and a position in the world.
pub trait PositionedGrid: SizedGrid {
    /// The position in the world of the grid's bottom-left cell.
    spec fn spec_pos(&self) -> GridPoint;

    /// The position in the world of the grid's bottom-left cell.
    fn pos(&self) -> (p: GridPoint)
        ensures
            p == self.spec_pos(),
    ;

    /// The center cell of the grid.
    fn center(&self) -> (p: GridPoint)
        requires
            spec_world_rect(self.spec_pos(), self.spec_size()).in_range(),
        ensures
            p == spec_world_rect(self.spec_pos(), self.spec_size()).spec_center(),
    {
        GridRect::new(self.pos(), self.size()).center()
    }

    /// The x coordinate of the rightmost column.
    fn right(&self) -> (r: i32)
        requires
            spec_world_rect(self.spec_pos(), self.spec_size()).in_range(),
        ensures
            r == spec_world_rect(self.spec_pos(), self.spec_size()).max_x(),
    {
        GridRect::new(self.pos(), self.size()).right()
    }

    /// The y coordinate of the top row.
    fn top(&self) -> (r: i32)
        requires
            spec_world_rect(self.spec_pos(), self.spec_size()).in_range(),
        ensures
            r == spec_world_rect(self.spec_pos(), self.spec_size()).max_y(),
    {
        GridRect::new(self.pos(), self.size()).top()
    }

    /// The x coordinate of the leftmost column.
    fn left(&self) -> (r: i32)
        ensures
            r == self.spec_pos().x,
    {
        self.pos().x
    }

    /// The y coordinate of the bottom row.
    fn bottom(&self) -> (r: i32)
        ensures
            r == self.spec_pos().y,
    {
        self.pos().y
    }

    /// The top-left cell.
    fn top_left(&self) -> (p: GridPoint)
        requires
            spec_world_rect(self.spec_pos(), self.spec_size()).in_range(),
        ensures
            p.x == self.spec_pos().x,
            p.y == spec_world_rect(self.spec_pos(), self.spec_size()).max_y(),
    {
        GridRect::new(self.pos(), self.size()).top_left()
    }

    /// The top-right cell.
    fn top_right(&self) -> (p: GridPoint)
        requires
            spec_world_rect(self.spec_pos(), self.spec_size()).in_range(),
        ensures
            p == spec_world_rect(self.spec_pos(), self.spec_size()).spec_max(),
    {
        GridRect::new(self.pos(), self.size()).max()
    }

    /// The bottom-left cell.
    fn bottom_left(&self) -> (p: GridPoint)
        ensures
            p == self.spec_pos(),
    {
        self.pos()
    }

    /// The bottom-right cell.
    fn bottom_right(&self) -> (p: GridPoint)
        requires
            spec_world_rect(self.spec_pos(), self.spec_size()).in_range(),
        ensures
            p.x == spec_world_rect(self.spec_pos(), self.spec_size()).max_x(),
            p.y == self.spec_pos().y,
    {
        GridRect::new(self.pos(), self.size()).bottom_right()
    }

    /// The bottom-left cell.
    fn min(&self) -> (p: GridPoint)
        ensures
            p == self.spec_pos(),
    {
        self.pos()
    }

    /// The top-right cell.
    fn max(&self) -> (p: GridPoint)
        requires
            spec_world_rect(self.spec_pos(), self.spec_size()).in_range(),
        ensures
            p == spec_world_rect(self.spec_pos(), self.spec_size()).spec_max(),
    {
        GridRect::new(self.pos(), self.size()).max()
    }

    /// Whether the world point `p` is a cell of the grid.
    fn contains_point(&self, p: GridPoint) -> (b: bool)
        requires
            spec_world_rect(self.spec_pos(), self.spec_size()).in_range(),
        ensures
            b == spec_world_rect(self.spec_pos(), self.spec_size()).spec_contains_point(p),
    {
        GridRect::new(self.pos(), self.size()).contains_point(p)
    }

    /// Whether the rectangle `other` lies entirely within this grid.
    fn contains_rect(&self, other: GridRect) -> (b: bool)
        requires
            spec_world_rect(self.spec_pos(), self.spec_size()).in_range(),
            other.in_range(),
        ensures
            b == spec_world_rect(self.spec_pos(), self.spec_size()).spec_contains_rect(other),
    {
        GridRect::new(self.pos(), self.size()).contains_rect(other)
    }

    /// Whether any cell of this grid overlaps the rectangle `other`.
    fn overlaps(&self, other: GridRect) -> (b: bool)
        requires
            spec_world_rect(self.spec_pos(), self.spec_size()).in_range(),
            other.in_range(),
        ensures
            b == spec_world_rect(self.spec_pos(), self.spec_size()).spec_overlaps(other),
    {
        GridRect::new(self.pos(), self.size()).overlaps_rect(other)
    }

    /// A cursor over the world position of every cell of the grid.
    fn iter_rect_points(&self) -> (it: GridRectIter)
        requires
            spec_world_rect(self.spec_pos(), self.spec_size()).in_range(),
        ensures
            it.remaining() == spec_world_rect(self.spec_pos(), self.spec_size()).spec_points(),
    {
        GridRectIter::new(GridRect::new(self.pos(), self.size()))
    }

    /// The cells of one column, in the grid's own coordinates.
    fn iter_rect_column(&self, col: usize) -> (v: Vec<GridPoint>)
        requires
            spec_bounds_at_origin(self.spec_size()).in_range(),
            self.spec_size().width > 0,
        ensures
            v@ == spec_bounds_at_origin(self.spec_size()).spec_column(col as int),
    {
        self.grid_bounds().iter_column(col)
    }

    /// The cells of one row, in the grid's own coordinates.
    fn iter_rect_row(&self, row: usize) -> (v: Vec<GridPoint>)
        requires
            spec_bounds_at_origin(self.spec_size()).in_range(),
        ensures
            v@ == spec_bounds_at_origin(self.spec_size()).spec_row(row as int),
    {
        self.grid_bounds().iter_row(row)
    }

    /// The border cells of the grid, in the grid's own coordinates,
    /// clockwise from the bottom-left cell.
    fn iter_rect_border(&self) -> (v: Vec<GridPoint>)
        requires
            spec_bounds_at_origin(self.spec_size()).in_range(),
        ensures
            v@ == spec_bounds_at_origin(self.spec_size()).spec_border(),
    {
        self.grid_bounds().iter_border()
    }

    /// The world position of the cell that the pivot names.
    fn pivot_point(&self, pivot: Pivot) -> (p: GridPoint)
        requires
            spec_world_rect(self.spec_pos(), self.spec_size()).in_range(),
        ensures
            p == spec_world_rect(self.spec_pos(), self.spec_size()).spec_pivot_point(pivot),
    {
        GridRect::new(self.pos(), self.size()).pivot_point(pivot)
    }

    /// The world position of the cell that lies at `point` when seen from
    /// the pivot.
    fn pivoted_point(&self, pivot: Pivot, point: GridPoint) -> (p: GridPoint)
        requires
            fits_i32(spec_world_rect(self.spec_pos(), self.spec_size()).spec_pivoted_point(pivot, point).0),
            fits_i32(spec_world_rect(self.spec_pos(), self.spec_size()).spec_pivoted_point(pivot, point).1),
        ensures
            p.x == spec_world_rect(self.spec_pos(), self.spec_size()).spec_pivoted_point(pivot, point).0,
            p.y == spec_world_rect(self.spec_pos(), self.spec_size()).spec_pivoted_point(pivot, point).1,
    {
        GridRect::new(self.pos(), self.size()).pivoted_point(pivot, point)
    }

    /// Translates a world point into the grid's own coordinates.
    fn transform_wtl(&self, pos: GridPoint) -> (p: GridPoint)
        requires
            spec_local_fits(self.spec_pos(), pos),
        ensures
            p.x == pos.x - self.spec_pos().x,
            p.y == pos.y - self.spec_pos().y,
    {
        let min = self.pos();
        GridPoint { x: pos.x - min.x, y: pos.y - min.y }
    }

    /// Translates a point of the grid's own coordinates into a world point.
    fn transform_ltw(&self, pos: GridPoint) -> (p: GridPoint)
        requires
            fits_i32(pos.x + self.spec_pos().x),
            fits_i32(pos.y + self.spec_pos().y),
        ensures
            p.x == pos.x + self.spec_pos().x,
            p.y == pos.y + self.spec_pos().y,
    {
        let min = self.pos();
        GridPoint { x: pos.x + min.x, y: pos.y + min.y }
    }
}

impl SizedGrid for GridRect {
    open spec fn spec_size(&self) -> GridSize {
        self.size
    }

    fn size(&self) -> (s: GridSize) {
        self.size
    }
}

impl PositionedGrid for GridRect {
    open spec fn spec_pos(&self) -> GridPoint {
        self.pos
    }

    fn pos(&self) -> (p: GridPoint) {
        self.pos
    }
}

} // verus!
