//! The canonical coordinate and size types of the grid.
use vstd::prelude::*;
use vstd::std_specs::convert::FromSpecImpl;
use crate::geometry::grid_shape::PointIter;
use crate::pivot::{Pivot, PivotedPoint};

verus! {

/// A cell of the grid: a pair of signed coordinates, one unit per cell.
#[derive(Clone, Copy, Debug, PartialEq, Eq, Structural, Hash)]
pub struct GridPoint {
    pub x: i32,
    pub y: i32,
}

/// The extent of a rectangle of cells.
#[derive(Clone, Copy, Debug, PartialEq, Eq, Structural, Hash)]
pub struct GridSize {
    pub width: u32,
    pub height: u32,
}

impl Default for GridPoint {
    fn default() -> (p: GridPoint)
        ensures
            p == (GridPoint { x: 0, y: 0 }),
    {
        GridPoint { x: 0, y: 0 }
    }
}

impl Default for GridSize {
    fn default() -> (s: GridSize)
        ensures
            s == (GridSize { width: 0, height: 0 }),
    {
        GridSize { width: 0, height: 0 }
    }
}

impl From<[i32; 2]> for GridPoint {
    fn from(a: [i32; 2]) -> (p: GridPoint) {
        GridPoint { x: a[0], y: a[1] }
    }
}

impl FromSpecImpl<[i32; 2]> for GridPoint {
    open spec fn obeys_from_spec() -> bool {
        true
    }

    open spec fn from_spec(a: [i32; 2]) -> GridPoint {
        GridPoint { x: a[0], y: a[1] }
    }
}

impl From<[u32; 2]> for GridSize {
    fn from(a: [u32; 2]) -> (s: GridSize) {
        GridSize { width: a[0], height: a[1] }
    }
}

impl FromSpecImpl<[u32; 2]> for GridSize {
    open spec fn obeys_from_spec() -> bool {
        true
    }

    open spec fn from_spec(a: [u32; 2]) -> GridSize {
        GridSize { width: a[0], height: a[1] }
    }
}

/// Whether the integer `v` can be held in a coordinate.
pub open spec fn fits_i32(v: int) -> bool {
    i32::MIN <= v <= i32::MAX
}

/// The offset of the `i`-th neighbour of a cell: the four orthogonal
/// neighbours (up, down, left, right) come first, then the four diagonal
/// ones (up-left, up-right, down-left, down-right).
pub open spec fn spec_neighbour_offset(i: int) -> (int, int) {
    if i == 0 {
        (0, 1)
    } else if i == 1 {
        (0, -1)
    } else if i == 2 {
        (-1, 0)
    } else if i == 3 {
        (1, 0)
    } else if i == 4 {
        (-1, 1)
    } else if i == 5 {
        (1, 1)
    } else if i == 6 {
        (-1, -1)
    } else {
        (1, -1)
    }
}

impl GridPoint {
    /// The point `(x, y)`.
    pub fn new(x: i32, y: i32) -> (p: GridPoint)
        ensures
            p.x == x,
            p.y == y,
    {
        GridPoint { x, y }
    }

    /// The point whose two coordinates are both `v`.
    pub fn splat(v: i32) -> (p: GridPoint)
        ensures
            p.x == v,
            p.y == v,
    {
        GridPoint { x: v, y: v }
    }

    pub fn x(&self) -> (r: i32)
        ensures
            r == self.x,
    {
        self.x
    }

    pub fn y(&self) -> (r: i32)
        ensures
            r == self.y,
    {
        self.y
    }

    /// The x coordinate, read as a width.
    pub fn width(&self) -> (r: i32)
        ensures
            r == self.x,
    {
        self.x
    }

    /// The y coordinate, read as a height.
    pub fn height(&self) -> (r: i32)
        ensures
            r == self.y,
    {
        self.y
    }

    /// The number of cells in a grid whose extent is this point.
    pub fn len(&self) -> (n: usize)
        requires
            self.x >= 0,
            self.y >= 0,
            self.x * self.y <= usize::MAX,
        ensures
            n == self.x * self.y,
    {
        let w: u64 = self.x as u64;
        let h: u64 = self.y as u64;
        assert(w * h <= 0x7fff_ffff * 0x7fff_ffff) by (nonlinear_arith)
            requires
                0 <= w <= 0x7fff_ffff,
                0 <= h <= 0x7fff_ffff,
        ;
        (w * h) as usize
    }

    pub fn as_array(&self) -> (a: [i32; 2])
        ensures
            a[0] == self.x,
            a[1] == self.y,
    {
        [self.x, self.y]
    }

    pub fn to_array(&self) -> (a: [i32; 2])
        ensures
            a[0] == self.x,
            a[1] == self.y,
    {
        [self.x, self.y]
    }

    /// The position of this cell in a row-major array of rows `grid_width`
    /// cells wide.
    pub open spec fn spec_as_index(&self, grid_width: int) -> int {
        self.y * grid_width + self.x
    }

    pub fn as_index(&self, grid_width: usize) -> (i: usize)
        requires
            self.x >= 0,
            self.y >= 0,
            self.spec_as_index(grid_width as int) <= usize::MAX,
        ensures
            i == self.spec_as_index(grid_width as int),
    {
        let y: usize = self.y as usize;
        let x: usize = self.x as usize;
        assert(y * grid_width <= y * grid_width + x);
        y * grid_width + x
    }

    /// Tags the point with the pivot it is to be read from.
    pub fn pivot(&self, pivot: Pivot) -> (p: PivotedPoint)
        ensures
            p.point == *self,
            p.pivot == pivot,
    {
        PivotedPoint { point: *self, pivot }
    }

    /// A plain point carries no pivot.
    pub fn get_pivot(self) -> (p: Option<Pivot>)
        ensures
            p.is_none(),
    {
        None
    }

    /// The point moved by `(dx, dy)`.
    pub open spec fn spec_shift(self, dx: int, dy: int) -> GridPoint {
        GridPoint { x: (self.x + dx) as i32, y: (self.y + dy) as i32 }
    }

    /// The point `amount` cells above this one.
    pub fn up(&self, amount: i32) -> (p: GridPoint)
        requires
            fits_i32(self.y + amount),
        ensures
            p == self.spec_shift(0, amount as int),
    {
        GridPoint { x: self.x, y: self.y + amount }
    }

    /// The point `amount` cells below this one.
    pub fn down(&self, amount: i32) -> (p: GridPoint)
        requires
            fits_i32(self.y - amount),
        ensures
            p == self.spec_shift(0, -amount),
    {
        GridPoint { x: self.x, y: self.y - amount }
    }

    /// The point `amount` cells to the right of this one.
    pub fn right(&self, amount: i32) -> (p: GridPoint)
        requires
            fits_i32(self.x + amount),
        ensures
            p == self.spec_shift(amount as int, 0),
    {
        GridPoint { x: self.x + amount, y: self.y }
    }

    /// The point `amount` cells to the left of this one.
    pub fn left(&self, amount: i32) -> (p: GridPoint)
        requires
            fits_i32(self.x - amount),
        ensures
            p == self.spec_shift(-amount, 0),
    {
        GridPoint { x: self.x - amount, y: self.y }
    }

    /// The point moved by the coordinates of `xy`.
    pub fn offset(&self, xy: GridPoint) -> (p: GridPoint)
        requires
            fits_i32(self.x + xy.x),
            fits_i32(self.y + xy.y),
        ensures
            p == self.spec_shift(xy.x as int, xy.y as int),
    {
        GridPoint { x: self.x + xy.x, y: self.y + xy.y }
    }

    /// The component-wise minimum of two points.
    pub open spec fn spec_min(self, other: GridPoint) -> GridPoint {
        GridPoint {
            x: if self.x <= other.x { self.x } else { other.x },
            y: if self.y <= other.y { self.y } else { other.y },
        }
    }

    /// The component-wise maximum of two points.
    pub open spec fn spec_max(self, other: GridPoint) -> GridPoint {
        GridPoint {
            x: if self.x >= other.x { self.x } else { other.x },
            y: if self.y >= other.y { self.y } else { other.y },
        }
    }

    #[verifier::when_used_as_spec(spec_min)]
    pub fn min(self, other: GridPoint) -> (p: GridPoint)
        ensures
            p == self.spec_min(other),
    {
        GridPoint {
            x: if self.x <= other.x { self.x } else { other.x },
            y: if self.y <= other.y { self.y } else { other.y },
        }
    }

    #[verifier::when_used_as_spec(spec_max)]
    pub fn max(self, other: GridPoint) -> (p: GridPoint)
        ensures
            p == self.spec_max(other),
    {
        GridPoint {
            x: if self.x >= other.x { self.x } else { other.x },
            y: if self.y >= other.y { self.y } else { other.y },
        }
    }

    /// The taxicab distance between two points: the sum of the distances
    /// along each axis.
    pub open spec fn spec_taxi_dist(self, other: GridPoint) -> nat {
        vstd::math::abs(self.x - other.x) + vstd::math::abs(self.y - other.y)
    }

    pub fn taxi_dist(self, other: GridPoint) -> (d: usize)
        requires
            self.spec_taxi_dist(other) <= usize::MAX,
        ensures
            d == self.spec_taxi_dist(other),
    {
        let dx: i64 = self.x as i64 - other.x as i64;
        let dy: i64 = self.y as i64 - other.y as i64;
        let ax: i64 = if dx < 0 { -dx } else { dx };
        let ay: i64 = if dy < 0 { -dy } else { dy };
        (ax + ay) as usize
    }

    /// Whether every neighbour of the point is itself a point.
    pub open spec fn has_neighbours(self) -> bool {
        i32::MIN < self.x < i32::MAX && i32::MIN < self.y < i32::MAX
    }

    /// The `i`-th neighbour of the point, in the order of
    /// [`spec_neighbour_offset`].
    pub open spec fn spec_neighbour(self, i: int) -> GridPoint {
        self.spec_shift(spec_neighbour_offset(i).0, spec_neighbour_offset(i).1)
    }

    /// The four cells that share an edge with this one.
    pub open spec fn spec_adj_4(self) -> Seq<GridPoint> {
        Seq::new(4, |i: int| self.spec_neighbour(i))
    }

    /// The eight cells that share an edge or a corner with this one.
    pub open spec fn spec_adj_8(self) -> Seq<GridPoint> {
        Seq::new(8, |i: int| self.spec_neighbour(i))
    }

    /// A cursor over the four orthogonal neighbours.
    pub fn adj_4(&self) -> (it: AdjIterator)
        requires
            self.has_neighbours(),
        ensures
            it.remaining() == self.spec_adj_4(),
    {
        let it = AdjIterator { i: 0, p: *self, count: 4 };
        assert(it.remaining() =~= self.spec_adj_4());
        it
    }

    /// A cursor over all eight neighbours.
    pub fn adj_8(&self) -> (it: AdjIterator)
        requires
            self.has_neighbours(),
        ensures
            it.remaining() == self.spec_adj_8(),
    {
        let it = AdjIterator { i: 0, p: *self, count: 8 };
        assert(it.remaining() =~= self.spec_adj_8());
        it
    }
}

/// A cursor over the neighbours of a cell.
#[derive(Clone, Copy, Debug)]
pub struct AdjIterator {
    i: usize,
    p: GridPoint,
    count: usize,
}

impl AdjIterator {
    #[verifier::type_invariant]
    spec fn inv(self) -> bool {
        self.i <= self.count <= 8 && self.p.has_neighbours()
    }

}

impl PointIter for AdjIterator {
    closed spec fn remaining(&self) -> Seq<GridPoint> {
        Seq::new((self.count - self.i) as nat, |k: int| self.p.spec_neighbour(self.i + k))
    }

    fn next(&mut self) -> (r: Option<GridPoint>) {
        proof {
            use_type_invariant(&*self);
        }
        if self.i >= self.count {
            return None;
        }
        let i: usize = self.i;
        let dx: i32 = if i == 2 || i == 4 || i == 6 {
            -1
        } else if i == 0 || i == 1 {
            0
        } else {
            1
        };
        let dy: i32 = if i == 0 || i == 4 || i == 5 {
            1
        } else if i == 2 || i == 3 {
            0
        } else {
            -1
        };
        let p = GridPoint { x: self.p.x + dx, y: self.p.y + dy };
        self.i = i + 1;
        assert(self.remaining() =~= old(self).remaining().skip(1));
        Some(p)
    }
}

impl GridSize {
    /// The size `width` by `height`.
    pub fn new(width: u32, height: u32) -> (s: GridSize)
        ensures
            s.width == width,
            s.height == height,
    {
        GridSize { width, height }
    }

    /// The square size whose sides are both `v`.
    pub fn splat(v: u32) -> (s: GridSize)
        ensures
            s.width == v,
            s.height == v,
    {
        GridSize { width: v, height: v }
    }

    pub fn width(&self) -> (w: usize)
        ensures
            w == self.width,
    {
        self.width as usize
    }

    pub fn height(&self) -> (h: usize)
        ensures
            h == self.height,
    {
        self.height as usize
    }

    /// The number of cells in a rectangle of this size.
    pub open spec fn spec_tile_count(&self) -> nat {
        (self.width * self.height) as nat
    }

    /// Whether the number of cells fits the platform's indexing integer.
    pub open spec fn indexable(&self) -> bool {
        self.spec_tile_count() <= usize::MAX
    }

    pub fn tile_count(&self) -> (n: usize)
        requires
            self.indexable(),
        ensures
            n == self.spec_tile_count(),
    {
        let n: u64 = self.tile_count_u64();
        n as usize
    }

    /// The number of cells, which always fits in 64 bits.
    pub fn tile_count_u64(&self) -> (n: u64)
        ensures
            n == self.spec_tile_count(),
    {
        let w: u64 = self.width as u64;
        let h: u64 = self.height as u64;
        assert(0 <= w * h <= 0xffff_ffff * 0xffff_ffff) by (nonlinear_arith)
            requires
                0 <= w <= 0xffff_ffff,
                0 <= h <= 0xffff_ffff,
        ;
        w * h
    }

    /// The number of cells in a rectangle of this size.
    pub fn len(&self) -> (n: usize)
        requires
            self.indexable(),
        ensures
            n == self.spec_tile_count(),
    {
        self.tile_count()
    }

    pub fn as_array(&self) -> (a: [usize; 2])
        ensures
            a[0] == self.width,
            a[1] == self.height,
    {
        [self.width as usize, self.height as usize]
    }

    pub fn to_array(&self) -> (a: [u32; 2])
        ensures
            a[0] == self.width,
            a[1] == self.height,
    {
        [self.width, self.height]
    }
}

} // verus!
