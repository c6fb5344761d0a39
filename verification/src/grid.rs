//! A dense grid that stores one value for each of its cells in a vector,
//! row by row from the bottom.
use vstd::prelude::*;
use crate::geometry::grid_rect::{GridRect, GridRectIter, lemma_rect_encloses_itself};
use crate::geometry::grid_shape::{PointIter, spec_encloses};
use crate::geometry::sized_grid::{
    SizedGrid, lemma_plain_point, spec_bounds_at_origin, spec_cell_index, spec_holds,
};
use crate::pivot::{Pivot, PivotedPoint};
use crate::point::{GridPoint, GridSize};

verus! {

/// A dense grid of values.
#[derive(Debug, Clone, PartialEq, Eq)]
pub struct Grid<T> {
    data: Vec<T>,
    size: GridSize,
}

impl<T> View for Grid<T> {
    type V = Seq<T>;

    /// The values of the grid, row by row from the bottom.
    closed spec fn view(&self) -> Seq<T> {
        self.data@
    }
}

impl<T> SizedGrid for Grid<T> {
    closed spec fn spec_size(&self) -> GridSize {
        self.size
    }

    fn size(&self) -> (s: GridSize) {
        self.size
    }
}

impl<T> Default for Grid<T> {
    fn default() -> (g: Grid<T>)
        ensures
            g.wf(),
            g@ == Seq::<T>::empty(),
            g.spec_size() == (GridSize { width: 0, height: 0 }),
    {
        Grid { data: Vec::new(), size: GridSize { width: 0, height: 0 } }
    }
}

/// The smaller of two lengths.
pub open spec fn spec_min_len(a: int, b: int) -> int {
    if a <= b {
        a
    } else {
        b
    }
}

/// The values of a grid after the first values of `row` have been written
/// into the cells of row `y` from column `x` on: as many as the row has
/// cells left, and no more than `row` holds.
pub open spec fn spec_row_inserted<T>(old: Seq<T>, size: GridSize, xy: GridPoint, row: Seq<T>)
    -> Seq<T> {
    let base = spec_cell_index(size, xy);
    let n = spec_min_len(row.len() as int, size.width - xy.x);
    Seq::new(
        old.len(),
        |i: int|
            if base <= i < base + n {
                row[i - base]
            } else {
                old[i]
            },
    )
}

/// The values of a grid after the first values of `column` have been
/// written into the cells of column `x` from row `y` on: as many as the
/// column has cells left, and no more than `column` holds.
pub open spec fn spec_column_inserted<T>(
    old: Seq<T>,
    size: GridSize,
    xy: GridPoint,
    column: Seq<T>,
) -> Seq<T> {
    let w = size.width as int;
    let n = spec_min_len(column.len() as int, size.height - xy.y);
    Seq::new(
        old.len(),
        |i: int|
            if i % w == xy.x && xy.y <= i / w < xy.y + n {
                column[i / w - xy.y]
            } else {
                old[i]
            },
    )
}

impl<T> Grid<T> {
    /// Whether the grid holds one value for each of its cells, and their
    /// number fits the platform's indexing integer.
    pub open spec fn wf(&self) -> bool {
        self@.len() == self.spec_size().spec_tile_count() && self.spec_size().indexable()
    }

    /// The value of the cell `xy`.
    pub open spec fn spec_get(&self, xy: GridPoint) -> T {
        self@[spec_cell_index(self.spec_size(), xy)]
    }

    /// A grid of the given size in which every cell holds a clone of the
    /// default value.
    pub fn new(size: GridSize) -> (g: Grid<T>) where T: Default + Clone
        requires
            size.indexable(),
        ensures
            g.wf(),
            g.spec_size() == size,
            exists|d: T|
                call_ensures(T::default, (), d) && forall|i: int|
                    0 <= i < g@.len() ==> cloned(d, #[trigger] g@[i]),
    {
        let d = T::default();
        let g = Grid { data: vec![d; size.tile_count()], size };
        assert(call_ensures(T::default, (), d) && forall|i: int|
            0 <= i < g@.len() ==> cloned(d, #[trigger] g@[i]));
        g
    }

    /// A grid of the given size in which every cell holds a clone of
    /// `value`.
    pub fn filled(value: T, size: GridSize) -> (g: Grid<T>) where T: Clone
        requires
            size.indexable(),
        ensures
            g.wf(),
            g.spec_size() == size,
            forall|i: int| 0 <= i < g@.len() ==> cloned(value, #[trigger] g@[i]),
    {
        Grid { data: vec![value; size.tile_count()], size }
    }

    /// The array index of a cell of the grid.
    fn index_of(&self, xy: GridPoint) -> (i: usize)
        requires
            self.wf(),
            spec_holds(self.spec_size(), xy),
        ensures
            i == spec_cell_index(self.spec_size(), xy),
            i < self@.len(),
    {
        proof {
            lemma_plain_point(self.size, xy);
        }
        self.transform_lti(PivotedPoint::new(xy, Pivot::BottomLeft))
    }

    /// Writes the values of `row` into row `y`, from the left, as far as
    /// the row reaches.
    pub fn insert_row(&mut self, y: usize, row: Vec<T>)
        requires
            old(self).wf(),
            y < old(self).spec_size().height,
            old(self).spec_size().height <= i32::MAX,
        ensures
            final(self).wf(),
            final(self).spec_size() == old(self).spec_size(),
            final(self)@ == spec_row_inserted(
                old(self)@,
                old(self).spec_size(),
                GridPoint { x: 0, y: y as i32 },
                row@,
            ),
    {
        self.insert_row_at(GridPoint { x: 0, y: y as i32 }, row);
    }

    /// Writes the values of `row` into the row of `xy`, from `xy` to the
    /// right, as far as the row reaches.
    pub fn insert_row_at(&mut self, xy: GridPoint, row: Vec<T>)
        requires
            old(self).wf(),
            0 <= xy.x,
            0 <= xy.y < old(self).spec_size().height,
        ensures
            final(self).wf(),
            final(self).spec_size() == old(self).spec_size(),
            final(self)@ == spec_row_inserted(old(self)@, old(self).spec_size(), xy, row@),
    {
        let w: u64 = self.size.width as u64;
        let x: u64 = xy.x as u64;
        if x >= w {
            assert(self@ =~= spec_row_inserted(old(self)@, old(self).spec_size(), xy, row@));
            return ;
        }
        let mut row = row;
        let ghost full = row@;
        let room: u64 = w - x;
        if row.len() as u64 > room {
            row.truncate(room as usize);
        }
        let n: usize = row.len();
        let base: usize = self.index_of(GridPoint { x: xy.x, y: xy.y });
        proof {
            lemma_plain_point(self.size, GridPoint { x: (self.size.width - 1) as i32, y: xy.y });
            assert(base + n <= self@.len()) by (nonlinear_arith)
                requires
                    base == xy.y * w + x,
                    n <= w - x,
                    xy.y < self.size.height,
                    self@.len() == w * self.size.height,
            ;
        }
        let len: usize = self.data.len();
        let mut k: usize = n;
        while k > 0
            invariant
                k <= n,
                row@ == full.subrange(0, k as int),
                n <= full.len(),
                len == self.data@.len(),
                base + n <= self.data@.len(),
                self.size == old(self).size,
                self.data@.len() == old(self).data@.len(),
                forall|i: int|
                    0 <= i < self.data@.len() ==> #[trigger] self.data@[i] == (if base + k <= i
                        < base + n {
                        full[i - base]
                    } else {
                        old(self).data@[i]
                    }),
            decreases k,
        {
            let value = row.pop().unwrap();
            k = k - 1;
            self.data[base + k] = value;
        }
        assert(self@ =~= spec_row_inserted(old(self)@, old(self).spec_size(), xy, full));
    }

    /// Writes the values of `column` into column `x`, from the bottom, as
    /// far as the column reaches.
    pub fn insert_column(&mut self, x: usize, column: Vec<T>)
        requires
            old(self).wf(),
            x < old(self).spec_size().width,
            old(self).spec_size().width <= i32::MAX,
        ensures
            final(self).wf(),
            final(self).spec_size() == old(self).spec_size(),
            final(self)@ == spec_column_inserted(
                old(self)@,
                old(self).spec_size(),
                GridPoint { x: x as i32, y: 0 },
                column@,
            ),
    {
        self.insert_column_at(GridPoint { x: x as i32, y: 0 }, column);
    }

    /// Writes the values of `column` into the column of `xy`, from `xy`
    /// upwards, as far as the column reaches.
    pub fn insert_column_at(&mut self, xy: GridPoint, column: Vec<T>)
        requires
            old(self).wf(),
            0 <= xy.x < old(self).spec_size().width,
            0 <= xy.y,
        ensures
            final(self).wf(),
            final(self).spec_size() == old(self).spec_size(),
            final(self)@ == spec_column_inserted(old(self)@, old(self).spec_size(), xy, column@),
    {
        let w: usize = self.size.width as usize;
        let h: u64 = self.size.height as u64;
        let y: u64 = xy.y as u64;
        let x: usize = xy.x as usize;
        if y >= h {
            assert(self@ =~= spec_column_inserted(old(self)@, old(self).spec_size(), xy, column@));
            return ;
        }
        let mut column = column;
        let ghost full = column@;
        let room: u64 = h - y;
        if column.len() as u64 > room {
            column.truncate(room as usize);
        }
        let n: usize = column.len();
        let len: usize = self.data.len();
        let mut k: usize = n;
        while k > 0
            invariant
                k <= n,
                column@ == full.subrange(0, k as int),
                n <= full.len(),
                n <= h - y,
                len == self.data@.len(),
                len == w * h,
                w == self.size.width,
                h == self.size.height,
                y == xy.y,
                x == xy.x,
                x < w,
                self.size == old(self).size,
                self.data@.len() == old(self).data@.len(),
                forall|i: int|
                    0 <= i < self.data@.len() ==> #[trigger] self.data@[i] == (if i % (w as int)
                        == x && y + k <= i / (w as int) < y + n {
                        full[i / (w as int) - y]
                    } else {
                        old(self).data@[i]
                    }),
            decreases k,
        {
            let value = column.pop().unwrap();
            k = k - 1;
            let row: usize = y as usize + k;
            assert(0 <= row * w + x < w * h && row * w <= row * w + x) by (nonlinear_arith)
                requires
                    0 <= row < h,
                    0 <= x < w,
            ;
            let i: usize = row * w + x;
            let ghost before = self.data@;
            self.data[i] = value;
            proof {
                vstd::arithmetic::div_mod::lemma_fundamental_div_mod_converse(
                    i as int,
                    w as int,
                    row as int,
                    x as int,
                );
                assert forall|j: int| 0 <= j < self.data@.len() implies #[trigger] self.data@[j]
                    == (if j % (w as int) == x && y + k <= j / (w as int) < y + n {
                    full[j / (w as int) - y]
                } else {
                    old(self).data@[j]
                }) by {
                    if j != i {
                        assert(self.data@[j] == before[j]);
                        if j % (w as int) == x && j / (w as int) == row {
                            vstd::arithmetic::div_mod::lemma_fundamental_div_mod(j, w as int);
                            assert((w as int) * (j / (w as int)) == row * w) by (nonlinear_arith)
                                requires
                                    j / (w as int) == row,
                            ;
                        }
                    }
                }
            }
        }
        assert(self@ =~= spec_column_inserted(old(self)@, old(self).spec_size(), xy, full));
    }

    /// The value of the cell `xy`, or `None` if the grid has no such cell.
    pub fn get(&self, xy: GridPoint) -> (r: Option<&T>)
        requires
            self.wf(),
        ensures
            spec_holds(self.spec_size(), xy) ==> r == Some(&self.spec_get(xy)),
            !spec_holds(self.spec_size(), xy) ==> r.is_none(),
    {
        proof {
            lemma_plain_point(self.size, xy);
        }
        if !self.in_bounds(PivotedPoint::new(xy, Pivot::BottomLeft)) {
            return None;
        }
        let i = self.index_of(xy);
        Some(&self.data[i])
    }

    /// The value of the cell `xy`, to be changed in place, or `None` if the
    /// grid has no such cell. No other cell changes.
    pub fn get_mut(&mut self, xy: GridPoint) -> (r: Option<&mut T>)
        requires
            old(self).wf(),
        ensures
            final(self).spec_size() == old(self).spec_size(),
            match r {
                Some(cell) => spec_holds(old(self).spec_size(), xy) && *cell == old(self).spec_get(
                    xy,
                ) && final(self)@ == old(self)@.update(
                    spec_cell_index(old(self).spec_size(), xy),
                    *final(cell),
                ),
                None => !spec_holds(old(self).spec_size(), xy) && final(self)@ == old(self)@,
            },
    {
        proof {
            lemma_plain_point(self.size, xy);
        }
        if !self.in_bounds(PivotedPoint::new(xy, Pivot::BottomLeft)) {
            return None;
        }
        let i = self.index_of(xy);
        Some(&mut self.data[i])
    }

    /// The values of the grid, row by row from the bottom.
    pub fn iter(&self) -> (v: Vec<&T>)
        ensures
            v@.len() == self@.len(),
            forall|i: int| 0 <= i < v@.len() ==> *(#[trigger] v@[i]) == self@[i],
    {
        let mut v: Vec<&T> = Vec::new();
        let mut i: usize = 0;
        while i < self.data.len()
            invariant
                i <= self.data@.len(),
                v@.len() == i,
                forall|k: int| 0 <= k < i ==> *(#[trigger] v@[k]) == self.data@[k],
            decreases self.data@.len() - i,
        {
            v.push(&self.data[i]);
            i = i + 1;
        }
        v
    }

    /// The values of row `y`, from the left to the right.
    pub fn iter_row(&self, y: usize) -> (v: Vec<&T>)
        requires
            self.wf(),
            y < self.spec_size().height,
        ensures
            v@.len() == self.spec_size().width,
            forall|k: int|
                0 <= k < v@.len() ==> *(#[trigger] v@[k]) == self@[y * self.spec_size().width
                    + k],
    {
        let w: usize = self.size.width as usize;
        proof {
            assert(y * w + w <= self@.len()) by (nonlinear_arith)
                requires
                    y < self.size.height,
                    w == self.size.width,
                    self@.len() == self.size.width * self.size.height,
            ;
        }
        let len: usize = self.data.len();
        assert(y * w <= y * w + w);
        let base: usize = y * w;
        let mut v: Vec<&T> = Vec::new();
        let mut k: usize = 0;
        while k < w
            invariant
                k <= w,
                len == self.data@.len(),
                base + w <= self.data@.len(),
                v@.len() == k,
                forall|j: int| 0 <= j < k ==> *(#[trigger] v@[j]) == self.data@[base + j],
            decreases w - k,
        {
            v.push(&self.data[base + k]);
            k = k + 1;
        }
        v
    }

    /// The values of column `x`, from the bottom to the top.
    pub fn iter_column(&self, x: usize) -> (v: Vec<&T>)
        requires
            self.wf(),
            x < self.spec_size().width,
        ensures
            v@.len() == self.spec_size().height,
            forall|k: int|
                0 <= k < v@.len() ==> *(#[trigger] v@[k]) == self@[k * self.spec_size().width
                    + x],
    {
        let w: usize = self.size.width as usize;
        let h: usize = self.size.height as usize;
        let len: usize = self.data.len();
        let mut v: Vec<&T> = Vec::new();
        let mut k: usize = 0;
        while k < h
            invariant
                k <= h,
                x < w,
                w == self.size.width,
                h == self.size.height,
                len == self.data@.len(),
                self.data@.len() == w * h,
                v@.len() == k,
                forall|j: int| 0 <= j < k ==> *(#[trigger] v@[j]) == self.data@[j * w + x],
            decreases h - k,
        {
            assert(0 <= k * w + x < w * h && k * w <= k * w + x) by (nonlinear_arith)
                requires
                    0 <= k < h,
                    0 <= x < w,
            ;
            v.push(&self.data[k * w + x]);
            k = k + 1;
        }
        v
    }

    /// Every cell of the grid with its value, row by row from the bottom.
    pub fn iter_xy(&self) -> (v: Vec<(GridPoint, &T)>)
        requires
            self.wf(),
            spec_bounds_at_origin(self.spec_size()).in_range(),
        ensures
            v@.len() == self@.len(),
            forall|i: int|
                0 <= i < v@.len() ==> (#[trigger] v@[i]).0 == spec_bounds_at_origin(
                    self.spec_size(),
                ).spec_points()[i] && *v@[i].1 == self@[i],
    {
        let bounds = self.bounds();
        proof {
            lemma_rect_encloses_itself(bounds);
        }
        let v = self.iter_rect(bounds);
        proof {
            assert forall|i: int| 0 <= i < v@.len() implies *(#[trigger] v@[i]).1 == self@[i] by {
                let p = bounds.spec_points()[i];
                crate::geometry::grid_rect::lemma_index_splits(
                    i,
                    self.size.width as int,
                    self.size.height as int,
                );
            }
        }
        v
    }

    /// Every cell of `rect` with the value that the grid has for it, in the
    /// row-major order of `rect`.
    pub fn iter_rect(&self, rect: GridRect) -> (v: Vec<(GridPoint, &T)>)
        requires
            self.wf(),
            rect.in_range(),
            spec_bounds_at_origin(self.spec_size()).in_range(),
            spec_bounds_at_origin(self.spec_size()).spec_contains_rect(rect) || rect.is_empty(),
        ensures
            v@.len() == rect.spec_points().len(),
            forall|i: int|
                0 <= i < v@.len() ==> (#[trigger] v@[i]).0 == rect.spec_points()[i] && *v@[i].1
                    == self.spec_get(rect.spec_points()[i]),
    {
        let ghost points = rect.spec_points();
        let mut it = rect.iter_points();
        let mut v: Vec<(GridPoint, &T)> = Vec::new();
        proof {
            lemma_rect_encloses_itself(rect);
            crate::geometry::grid_rect::lemma_points_count(rect);
        }
        loop
            invariant
                self.wf(),
                points == rect.spec_points(),
                spec_encloses(rect, points),
                spec_bounds_at_origin(self.spec_size()).spec_contains_rect(rect) || points.len()
                    == 0,
                v@.len() <= points.len(),
                it.remaining() == points.skip(v@.len() as int),
                forall|i: int|
                    0 <= i < v@.len() ==> (#[trigger] v@[i]).0 == points[i] && *v@[i].1
                        == self.spec_get(points[i]),
            ensures
                v@.len() == points.len(),
            decreases it.remaining().len(),
        {
            match it.next() {
                Some(p) => {
                    assert(p == points[v@.len() as int]);
                    assert(rect.spec_contains_point(p));
                    let i = self.index_of(p);
                    v.push((p, &self.data[i]));
                },
                None => {
                    break ;
                },
            }
        }
        v
    }

    /// The values of the grid as a slice, row by row from the bottom.
    pub fn slice(&self) -> (s: &[T])
        ensures
            s@ == self@,
    {
        self.data.as_slice()
    }

    /// The values of the grid as a slice that can be written to. The grid
    /// holds whatever the caller leaves in the slice.
    pub fn slice_mut(&mut self) -> (s: &mut [T])
        ensures
            s@ == old(self)@,
            final(s)@ == final(self)@,
            final(self).spec_size() == old(self).spec_size(),
    {
        self.data.as_mut_slice()
    }

    /// The rectangle of the grid's cells: its bottom-left cell is the
    /// origin.
    pub fn bounds(&self) -> (r: GridRect)
        ensures
            r == spec_bounds_at_origin(self.spec_size()),
    {
        GridRect::new(GridPoint { x: 0, y: 0 }, self.size)
    }
}

} // verus!
