//! A canvas of characters on which shapes can be drawn.
use vstd::prelude::*;
use crate::geometry::grid_shape::{GridShape, GridShapeIterator, PointIter};
use crate::point::{GridPoint, GridSize};

verus! {

/// The character of a cell on which nothing has been drawn.
pub open spec fn spec_blank() -> char {
    '.'
}

/// A canvas of characters whose middle cell is the origin.
#[derive(Debug)]
pub struct Canvas {
    size: GridSize,
    cells: Vec<char>,
}

impl View for Canvas {
    type V = Seq<char>;

    /// The characters of the canvas, row by row from the bottom.
    closed spec fn view(&self) -> Seq<char> {
        self.cells@
    }
}

impl Canvas {
    /// The size of the canvas.
    pub closed spec fn spec_size(&self) -> GridSize {
        self.size
    }

    /// Whether the canvas holds one character for each of its cells.
    pub open spec fn wf(&self) -> bool {
        self@.len() == self.spec_size().spec_tile_count() && self.spec_size().indexable()
    }

    /// Whether the canvas has a cell for `pos`, where the origin is the
    /// middle cell of the canvas.
    pub open spec fn spec_holds(&self, pos: GridPoint) -> bool {
        &&& 0 <= pos.x + self.spec_size().width / 2 < self.spec_size().width
        &&& 0 <= pos.y + self.spec_size().height / 2 < self.spec_size().height
    }

    /// The array index of the cell for `pos`, where the origin is the
    /// middle cell of the canvas.
    pub open spec fn spec_index(&self, pos: GridPoint) -> int {
        (pos.y + self.spec_size().height / 2) * self.spec_size().width + (pos.x
            + self.spec_size().width / 2)
    }

    /// Whether the canvas has a cell for `pos`, where the origin is the
    /// bottom-left cell of the canvas.
    pub open spec fn spec_holds_bl(&self, pos: GridPoint) -> bool {
        0 <= pos.x < self.spec_size().width && 0 <= pos.y < self.spec_size().height
    }

    /// Whether the canvas has a cell for every point of the sequence.
    pub open spec fn spec_holds_all(&self, points: Seq<GridPoint>) -> bool {
        forall|i: int| 0 <= i < points.len() ==> self.spec_holds(#[trigger] points[i])
    }

    /// The characters of a canvas after `glyph` has been drawn at every
    /// point of the sequence, one after the other.
    pub open spec fn spec_drawn(&self, cells: Seq<char>, points: Seq<GridPoint>, glyph: char)
        -> Seq<char>
        decreases points.len(),
    {
        if points.len() == 0 {
            cells
        } else {
            self.spec_drawn(cells, points.drop_last(), glyph).update(
                self.spec_index(points.last()),
                glyph,
            )
        }
    }

    /// A blank canvas of the given size.
    pub fn new(size: GridSize) -> (c: Canvas)
        requires
            size.indexable(),
        ensures
            c.wf(),
            c.spec_size() == size,
            c@ == Seq::new(size.spec_tile_count(), |i: int| spec_blank()),
    {
        let n: usize = size.tile_count();
        let mut cells: Vec<char> = Vec::new();
        let mut i: usize = 0;
        while i < n
            invariant
                i <= n,
                cells@ == Seq::new(i as nat, |k: int| spec_blank()),
            decreases n - i,
        {
            cells.push('.');
            assert(cells@ =~= Seq::new((i + 1) as nat, |k: int| spec_blank()));
            i = i + 1;
        }
        Canvas { size, cells }
    }

    /// The array index of the cell for `point`.
    fn to_index(&self, point: GridPoint) -> (i: usize)
        requires
            self.wf(),
            self.spec_holds(point),
        ensures
            i == self.spec_index(point),
            i < self@.len(),
    {
        let w: u64 = self.size.width as u64;
        let h: u64 = self.size.height as u64;
        let x: u64 = (point.x as i64 + (self.size.width / 2) as i64) as u64;
        let y: u64 = (point.y as i64 + (self.size.height / 2) as i64) as u64;
        assert(0 <= y * w + x < w * h && y * w <= y * w + x) by (nonlinear_arith)
            requires
                0 <= x < w,
                0 <= y < h,
        ;
        (y * w + x) as usize
    }

    /// Draws `glyph` at `pos`, where the origin is the middle cell of the
    /// canvas.
    pub fn put(&mut self, pos: GridPoint, glyph: char)
        requires
            old(self).wf(),
            old(self).spec_holds(pos),
        ensures
            final(self).wf(),
            final(self).spec_size() == old(self).spec_size(),
            final(self)@ == old(self)@.update(old(self).spec_index(pos), glyph),
    {
        let i = self.to_index(pos);
        self.cells[i] = glyph;
    }

    /// Draws `glyph` at `pos`, where the origin is the bottom-left cell of
    /// the canvas.
    pub fn put_bl(&mut self, pos: GridPoint, glyph: char)
        requires
            old(self).wf(),
            old(self).spec_holds_bl(pos),
        ensures
            final(self).wf(),
            final(self).spec_size() == old(self).spec_size(),
            final(self)@ == old(self)@.update(pos.y * old(self).spec_size().width + pos.x, glyph),
    {
        let x: i64 = pos.x as i64 - (self.size.width / 2) as i64;
        let y: i64 = pos.y as i64 - (self.size.height / 2) as i64;
        let i = self.to_index(GridPoint { x: x as i32, y: y as i32 });
        self.cells[i] = glyph;
    }

    /// Draws `glyph` at every cell of the shape.
    pub fn put_shape<S: GridShape>(&mut self, shape: S, glyph: char)
        requires
            old(self).wf(),
            shape.shape_in_range(),
            old(self).spec_holds_all(shape.shape_points()),
        ensures
            final(self).wf(),
            final(self).spec_size() == old(self).spec_size(),
            final(self)@ == old(self).spec_drawn(old(self)@, shape.shape_points(), glyph),
    {
        let ghost points = shape.shape_points();
        let mut it = shape.iter();
        let ghost mut done: int = 0;
        loop
            invariant
                self.wf(),
                self.spec_size() == old(self).spec_size(),
                old(self).spec_holds_all(points),
                0 <= done <= points.len(),
                it.remaining() == points.skip(done),
                self@ == old(self).spec_drawn(old(self)@, points.take(done), glyph),
            ensures
                done == points.len(),
                self.wf(),
                self.spec_size() == old(self).spec_size(),
                self@ == old(self).spec_drawn(old(self)@, points.take(done), glyph),
            decreases it.remaining().len(),
        {
            match it.next() {
                Some(p) => {
                    assert(p == points[done]);
                    self.put(p, glyph);
                    proof {
                        assert(points.take(done + 1).drop_last() =~= points.take(done));
                        done = done + 1;
                    }
                },
                None => {
                    break ;
                },
            }
        }
        assert(points.take(done) =~= points);
    }

    /// Makes the canvas blank again.
    pub fn clear(&mut self)
        requires
            old(self).wf(),
        ensures
            final(self).wf(),
            final(self).spec_size() == old(self).spec_size(),
            final(self)@ == Seq::new(old(self)@.len(), |i: int| spec_blank()),
    {
        let n: usize = self.cells.len();
        let mut i: usize = 0;
        while i < n
            invariant
                i <= n,
                n == self.cells@.len(),
                self.size == old(self).size,
                self.cells@.len() == old(self).cells@.len(),
                forall|k: int| 0 <= k < i ==> self.cells@[k] == spec_blank(),
            decreases n - i,
        {
            self.cells[i] = '.';
            i = i + 1;
        }
        assert(self@ =~= Seq::new(old(self)@.len(), |i: int| spec_blank()));
    }

    /// The rows of the canvas as they are printed: the top row first.
    pub fn lines(&self) -> (rows: Vec<Vec<char>>)
        requires
            self.wf(),
        ensures
            rows@.len() == self.spec_size().height,
            forall|r: int|
                0 <= r < rows@.len() ==> (#[trigger] rows@[r])@ == self@.subrange(
                    (self.spec_size().height - 1 - r) * self.spec_size().width,
                    (self.spec_size().height - r) * self.spec_size().width,
                ),
    {
        let w: usize = self.size.width as usize;
        let h: usize = self.size.height as usize;
        let len: usize = self.cells.len();
        let mut rows: Vec<Vec<char>> = Vec::new();
        let mut r: usize = 0;
        while r < h
            invariant
                r <= h,
                w == self.size.width,
                h == self.size.height,
                len == self.cells@.len(),
                len == w * h,
                rows@.len() == r,
                forall|j: int|
                    0 <= j < r ==> (#[trigger] rows@[j])@ == self.cells@.subrange(
                        (h - 1 - j) * w,
                        (h - j) * w,
                    ),
            decreases h - r,
        {
            let y: usize = h - 1 - r;
            assert(0 <= y * w && y * w + w <= w * h && (y + 1) * w == y * w + w) by (nonlinear_arith)
                requires
                    0 <= y < h,
                    0 <= w,
            ;
            let base: usize = y * w;
            let mut row: Vec<char> = Vec::new();
            let mut k: usize = 0;
            while k < w
                invariant
                    k <= w,
                    base + w <= self.cells@.len(),
                    len == self.cells@.len(),
                    row@ == self.cells@.subrange(base as int, base + k),
                decreases w - k,
            {
                row.push(self.cells[base + k]);
                assert(row@ =~= self.cells@.subrange(base as int, base + k + 1));
                k = k + 1;
            }
            rows.push(row);
            r = r + 1;
        }
        rows
    }
}

} // verus!
