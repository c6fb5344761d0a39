//! The axis-aligned rectangle of cells, and the cursor over its cells.
use vstd::prelude::*;
use crate::geometry::grid_shape::{
    GridShape, GridShapeIterator, PointIter, lemma_touches, spec_encloses, spec_touches,
};
use crate::pivot::Pivot;
use crate::point::{GridPoint, GridSize, fits_i32};

verus! {

/// A rectangle of cells, given by its bottom-left cell and its size.
///
/// A rectangle with a zero dimension is empty: it holds no cell, and its
/// top-right corner lies one step before its bottom-left cell on that axis.
#[derive(Clone, Copy, Debug, PartialEq, Eq, Structural, Hash)]
pub struct GridRect {
    /// The bottom-left cell.
    pub pos: GridPoint,
    pub size: GridSize,
}

impl Default for GridRect {
    fn default() -> (r: GridRect)
        ensures
            r == (GridRect { pos: GridPoint { x: 0, y: 0 }, size: GridSize { width: 0, height: 0 } }),
    {
        GridRect { pos: GridPoint { x: 0, y: 0 }, size: GridSize { width: 0, height: 0 } }
    }
}

/// The smaller of two integers.
pub open spec fn spec_min_int(a: int, b: int) -> int {
    if a <= b {
        a
    } else {
        b
    }
}

/// The larger of two integers.
pub open spec fn spec_max_int(a: int, b: int) -> int {
    if a >= b {
        a
    } else {
        b
    }
}

impl GridRect {
    /// The x coordinate of the rightmost column.
    pub open spec fn max_x(&self) -> int {
        self.pos.x + self.size.width - 1
    }

    /// The y coordinate of the topmost row.
    pub open spec fn max_y(&self) -> int {
        self.pos.y + self.size.height - 1
    }

    /// Whether the top-right corner of the rectangle is a point, that is
    /// whether its coordinates can be held.
    pub open spec fn in_range(&self) -> bool {
        fits_i32(self.max_x()) && fits_i32(self.max_y())
    }

    /// Whether the rectangle holds no cell.
    pub open spec fn is_empty(&self) -> bool {
        self.size.width == 0 || self.size.height == 0
    }

    /// The bottom-left cell.
    pub open spec fn spec_min(&self) -> GridPoint {
        self.pos
    }

    /// The top-right cell.
    pub open spec fn spec_max(&self) -> GridPoint {
        GridPoint { x: self.max_x() as i32, y: self.max_y() as i32 }
    }

    /// The center cell: the position plus half the size, the half rounded
    /// down.
    pub open spec fn spec_center(&self) -> GridPoint {
        GridPoint {
            x: (self.pos.x + self.size.width / 2) as i32,
            y: (self.pos.y + self.size.height / 2) as i32,
        }
    }

    /// Whether `p` is a cell of the rectangle.
    pub open spec fn spec_contains_point(&self, p: GridPoint) -> bool {
        self.pos.x <= p.x <= self.max_x() && self.pos.y <= p.y <= self.max_y()
    }

    /// Whether the corners of `other` lie within the corners of this
    /// rectangle.
    pub open spec fn spec_contains_rect(&self, other: GridRect) -> bool {
        &&& other.pos.x >= self.pos.x
        &&& other.pos.y >= self.pos.y
        &&& other.max_x() <= self.max_x()
        &&& other.max_y() <= self.max_y()
    }

    /// Whether the extents of the two rectangles meet on both axes. Two
    /// rectangles that share only a border cell overlap.
    pub open spec fn spec_overlaps(&self, other: GridRect) -> bool {
        &&& self.pos.x <= other.max_x()
        &&& other.pos.x <= self.max_x()
        &&& self.pos.y <= other.max_y()
        &&& other.pos.y <= self.max_y()
    }

    /// The `i`-th cell of the rectangle in row-major order, counted from the
    /// bottom-left.
    pub open spec fn spec_point_at(&self, i: int) -> GridPoint {
        GridPoint {
            x: (self.pos.x + i % (self.size.width as int)) as i32,
            y: (self.pos.y + i / (self.size.width as int)) as i32,
        }
    }

    /// All cells of the rectangle, row by row from the bottom, each row from
    /// the left.
    pub open spec fn spec_points(&self) -> Seq<GridPoint> {
        Seq::new(self.size.spec_tile_count(), |i: int| self.spec_point_at(i))
    }

    /// The smallest rectangle that holds both `a` and `b`.
    pub open spec fn spec_from_points(a: GridPoint, b: GridPoint) -> GridRect {
        GridRect {
            pos: a.spec_min(b),
            size: GridSize {
                width: (a.spec_max(b).x - a.spec_min(b).x + 1) as u32,
                height: (a.spec_max(b).y - a.spec_min(b).y + 1) as u32,
            },
        }
    }

    /// Whether the rectangle spanned by `a` and `b` has a size that can be
    /// held.
    pub open spec fn span_fits(a: GridPoint, b: GridPoint) -> bool {
        a.spec_max(b).x - a.spec_min(b).x + 1 <= u32::MAX && a.spec_max(b).y - a.spec_min(b).y
            + 1 <= u32::MAX
    }

    /// A rectangle from its bottom-left cell and its size. Nothing is
    /// checked: an empty rectangle is a value like any other.
    pub fn new(pos: GridPoint, size: GridSize) -> (r: GridRect)
        ensures
            r.pos == pos,
            r.size == size,
    {
        GridRect { pos, size }
    }

    /// The smallest rectangle that holds both `a` and `b`, whichever way
    /// round the two corners are given.
    pub fn from_points(a: GridPoint, b: GridPoint) -> (r: GridRect)
        requires
            Self::span_fits(a, b),
        ensures
            r == Self::spec_from_points(a, b),
            r.in_range(),
            !r.is_empty(),
            r.spec_min() == a.spec_min(b),
            r.spec_max() == a.spec_max(b),
    {
        let min = a.min(b);
        let max = a.max(b);
        let w: i64 = max.x as i64 - min.x as i64 + 1;
        let h: i64 = max.y as i64 - min.y as i64 + 1;
        GridRect { pos: min, size: GridSize { width: w as u32, height: h as u32 } }
    }

    /// The rectangle of the given size whose center cell is `center`.
    pub fn from_center_size(center: GridPoint, size: GridSize) -> (r: GridRect)
        requires
            fits_i32(center.x - size.width / 2),
            fits_i32(center.y - size.height / 2),
        ensures
            r.size == size,
            r.pos.x == center.x - size.width / 2,
            r.pos.y == center.y - size.height / 2,
            r.spec_center() == center,
    {
        let x: i64 = center.x as i64 - (size.width / 2) as i64;
        let y: i64 = center.y as i64 - (size.height / 2) as i64;
        GridRect { pos: GridPoint { x: x as i32, y: y as i32 }, size }
    }

    /// The rectangle of the given size whose center cell is the origin.
    pub fn center_origin(size: GridSize) -> (r: GridRect)
        ensures
            r.size == size,
            r.pos.x == -(size.width / 2),
            r.pos.y == -(size.height / 2),
            r.spec_center() == (GridPoint { x: 0, y: 0 }),
            r.in_range(),
    {
        Self::from_center_size(GridPoint { x: 0, y: 0 }, size)
    }

    /// The rectangle of the given size whose center cell is the origin.
    pub fn origin(size: GridSize) -> (r: GridRect)
        ensures
            r.size == size,
            r.pos.x == -(size.width / 2),
            r.pos.y == -(size.height / 2),
            r.spec_center() == (GridPoint { x: 0, y: 0 }),
            r.in_range(),
    {
        Self::center_origin(size)
    }

    /// The bottom-left cell.
    #[verifier::when_used_as_spec(spec_min)]
    pub fn min(&self) -> (p: GridPoint)
        ensures
            p == self.spec_min(),
    {
        self.pos
    }

    /// The top-right cell.
    #[verifier::when_used_as_spec(spec_max)]
    pub fn max(&self) -> (p: GridPoint)
        requires
            self.in_range(),
        ensures
            p == self.spec_max(),
    {
        let x: i64 = self.pos.x as i64 + self.size.width as i64 - 1;
        let y: i64 = self.pos.y as i64 + self.size.height as i64 - 1;
        GridPoint { x: x as i32, y: y as i32 }
    }

    /// The center cell. For an even size it is the upper or right one of the
    /// two middle cells.
    #[verifier::when_used_as_spec(spec_center)]
    pub fn center(&self) -> (p: GridPoint)
        requires
            self.in_range(),
        ensures
            p == self.spec_center(),
    {
        let x: i64 = self.pos.x as i64 + (self.size.width / 2) as i64;
        let y: i64 = self.pos.y as i64 + (self.size.height / 2) as i64;
        GridPoint { x: x as i32, y: y as i32 }
    }

    /// Whether `p` is a cell of the rectangle.
    #[verifier::when_used_as_spec(spec_contains_point)]
    pub fn contains_point(&self, p: GridPoint) -> (b: bool)
        requires
            self.in_range(),
        ensures
            b == self.spec_contains_point(p),
    {
        let max = self.max();
        !(p.x < self.pos.x || p.y < self.pos.y || p.x > max.x || p.y > max.y)
    }

    /// Whether `other` lies entirely within this rectangle.
    #[verifier::when_used_as_spec(spec_contains_rect)]
    pub fn contains_rect(&self, other: GridRect) -> (b: bool)
        requires
            self.in_range(),
            other.in_range(),
        ensures
            b == self.spec_contains_rect(other),
    {
        let max = self.max();
        let omax = other.max();
        other.pos.x >= self.pos.x && other.pos.y >= self.pos.y && omax.x <= max.x && omax.y
            <= max.y
    }

    /// Whether any part of this rectangle overlaps `other`.
    #[verifier::when_used_as_spec(spec_overlaps)]
    pub fn overlaps_rect(&self, other: GridRect) -> (b: bool)
        requires
            self.in_range(),
            other.in_range(),
        ensures
            b == self.spec_overlaps(other),
    {
        let max = self.max();
        let omax = other.max();
        self.pos.x <= omax.x && other.pos.x <= max.x && self.pos.y <= omax.y && other.pos.y
            <= max.y
    }

    /// A cursor over every cell of the rectangle.
    pub fn iter_points(&self) -> (it: GridRectIter)
        requires
            self.in_range(),
        ensures
            it.rect() == *self,
            it.remaining() == self.spec_points(),
    {
        GridRectIter::new(*self)
    }

    /// A cursor over every cell of the rectangle.
    pub fn into_iter(self) -> (it: GridRectIter)
        requires
            self.in_range(),
        ensures
            it.rect() == self,
            it.remaining() == self.spec_points(),
    {
        GridRectIter::new(self)
    }
}

impl GridRect {
    /// The part of this rectangle that lies within `clipper`. Where the two
    /// do not meet along an axis, the result is empty along that axis.
    pub open spec fn spec_clipped(&self, clipper: GridRect) -> GridRect {
        let x0 = spec_max_int(self.pos.x as int, clipper.pos.x as int);
        let y0 = spec_max_int(self.pos.y as int, clipper.pos.y as int);
        let x1 = spec_min_int(self.max_x(), clipper.max_x());
        let y1 = spec_min_int(self.max_y(), clipper.max_y());
        GridRect {
            pos: GridPoint { x: x0 as i32, y: y0 as i32 },
            size: GridSize {
                width: spec_max_int(0, x1 - x0 + 1) as u32,
                height: spec_max_int(0, y1 - y0 + 1) as u32,
            },
        }
    }

    /// The rectangle grown so that it holds `p`: its corners are moved
    /// outwards as far as `p` asks, and never inwards.
    pub open spec fn spec_enveloped(&self, p: GridPoint) -> GridRect {
        Self::spec_from_points(self.spec_min().spec_min(p), self.spec_max().spec_max(p))
    }

    /// Whether the rectangle can be grown to hold `p` with a size that can
    /// be held.
    pub open spec fn can_envelope(&self, p: GridPoint) -> bool {
        self.in_range() && Self::span_fits(self.spec_min().spec_min(p), self.spec_max().spec_max(p))
    }

    /// The rectangle moved by `delta`.
    pub open spec fn spec_translated(&self, delta: GridPoint) -> GridRect {
        GridRect {
            pos: GridPoint { x: (self.pos.x + delta.x) as i32, y: (self.pos.y + delta.y) as i32 },
            size: self.size,
        }
    }

    /// The cell towards which the rectangle grows when it is resized by
    /// `amount` from the given pivot: the corner that the pivot names, moved
    /// outwards by `amount` along both axes, or the center.
    pub open spec fn spec_resize_target(&self, pivot: Pivot, amount: int) -> (int, int) {
        match pivot {
            Pivot::TopLeft => (self.pos.x - amount, self.max_y() + amount),
            Pivot::TopRight => (self.max_x() + amount, self.max_y() + amount),
            Pivot::BottomLeft => (self.pos.x - amount, self.pos.y - amount),
            Pivot::BottomRight => (self.max_x() + amount, self.pos.y - amount),
            Pivot::Center => (self.spec_center().x as int, self.spec_center().y as int),
        }
    }

    /// The cell of the rectangle that the pivot names.
    pub open spec fn spec_pivot_point(&self, pivot: Pivot) -> GridPoint {
        GridPoint {
            x: (self.pos.x + pivot.spec_pivot_offset(self.size).0) as i32,
            y: (self.pos.y + pivot.spec_pivot_offset(self.size).1) as i32,
        }
    }

    /// The coordinates of the cell that lies at `point` when seen from the
    /// pivot.
    pub open spec fn spec_pivoted_point(&self, pivot: Pivot, point: GridPoint) -> (int, int) {
        (
            self.pos.x + pivot.spec_transform(point, self.size).0,
            self.pos.y + pivot.spec_transform(point, self.size).1,
        )
    }

    /// The part of this rectangle that lies within `clipper`: a cell
    /// belongs to the result exactly if it belongs to both. Two rectangles
    /// that do not meet give an empty rectangle.
    pub fn clipped(&self, clipper: GridRect) -> (r: GridRect)
        requires
            self.in_range(),
            clipper.in_range(),
        ensures
            r == self.spec_clipped(clipper),
            r.in_range(),
            forall|p: GridPoint|
                r.spec_contains_point(p) <==> self.spec_contains_point(p)
                    && clipper.spec_contains_point(p),
    {
        let amax = self.max();
        let bmax = clipper.max();
        let min = self.pos.max(clipper.pos);
        let max = amax.min(bmax);
        let w: i64 = max.x as i64 - min.x as i64 + 1;
        let h: i64 = max.y as i64 - min.y as i64 + 1;
        GridRect {
            pos: min,
            size: GridSize {
                width: if w > 0 { w as u32 } else { 0 },
                height: if h > 0 { h as u32 } else { 0 },
            },
        }
    }

    /// The rectangle moved by `pos`.
    pub fn translated(&self, pos: GridPoint) -> (r: GridRect)
        requires
            fits_i32(self.pos.x + pos.x),
            fits_i32(self.pos.y + pos.y),
        ensures
            r == self.spec_translated(pos),
    {
        GridRect { pos: GridPoint { x: self.pos.x + pos.x, y: self.pos.y + pos.y }, size: self.size }
    }

    /// The rectangle spanned by the bottom-left corner moved down and left
    /// by `delta` and the top-right corner moved up and right by `delta`.
    pub fn resized(&self, delta: GridPoint) -> (r: GridRect)
        requires
            self.in_range(),
            fits_i32(self.pos.x - delta.x),
            fits_i32(self.pos.y - delta.y),
            fits_i32(self.max_x() + delta.x),
            fits_i32(self.max_y() + delta.y),
            Self::span_fits(
                GridPoint { x: (self.pos.x - delta.x) as i32, y: (self.pos.y - delta.y) as i32 },
                GridPoint {
                    x: (self.max_x() + delta.x) as i32,
                    y: (self.max_y() + delta.y) as i32,
                },
            ),
        ensures
            r == Self::spec_from_points(
                GridPoint { x: (self.pos.x - delta.x) as i32, y: (self.pos.y - delta.y) as i32 },
                GridPoint {
                    x: (self.max_x() + delta.x) as i32,
                    y: (self.max_y() + delta.y) as i32,
                },
            ),
            r.in_range(),
    {
        let max = self.max();
        GridRect::from_points(
            GridPoint { x: self.pos.x - delta.x, y: self.pos.y - delta.y },
            GridPoint { x: max.x + delta.x, y: max.y + delta.y },
        )
    }

    /// Grows one corner of the rectangle so that it holds `point`. The
    /// rectangle never shrinks: every cell it held it still holds.
    pub fn envelope_point(&mut self, point: GridPoint)
        requires
            old(self).can_envelope(point),
        ensures
            *final(self) == old(self).spec_enveloped(point),
            final(self).in_range(),
            final(self).spec_contains_point(point),
            final(self).spec_contains_rect(*old(self)),
            forall|p: GridPoint|
                old(self).spec_contains_point(p) ==> final(self).spec_contains_point(p),
    {
        let min = self.min().min(point);
        let max = self.max().max(point);
        *self = GridRect::from_points(min, max);
    }

    /// Grows the rectangle so that it holds the two corners of `rect`.
    pub fn merge(&mut self, rect: GridRect)
        requires
            rect.in_range(),
            old(self).can_envelope(rect.spec_min()),
            old(self).spec_enveloped(rect.spec_min()).can_envelope(rect.spec_max()),
        ensures
            *final(self) == old(self).spec_enveloped(rect.spec_min()).spec_enveloped(
                rect.spec_max(),
            ),
            final(self).in_range(),
            final(self).spec_contains_point(rect.spec_min()),
            final(self).spec_contains_point(rect.spec_max()),
            final(self).spec_contains_rect(*old(self)),
            !rect.is_empty() ==> final(self).spec_contains_rect(rect),
    {
        let min = rect.min();
        let max = rect.max();
        self.envelope_point(min);
        self.envelope_point(max);
    }

    /// A rectangle that holds `other` and the two corners of this one.
    pub fn merged(&self, other: GridRect) -> (r: GridRect)
        requires
            self.in_range(),
            other.can_envelope(self.spec_min()),
            other.spec_enveloped(self.spec_min()).can_envelope(self.spec_max()),
        ensures
            r == other.spec_enveloped(self.spec_min()).spec_enveloped(self.spec_max()),
            r.in_range(),
            r.spec_contains_rect(other),
            !self.is_empty() ==> r.spec_contains_rect(*self),
    {
        let mut other = other;
        other.envelope_point(self.min());
        other.envelope_point(self.max());
        other
    }

    /// Grows the rectangle by `amount` at the corner that the pivot names.
    /// From the center nothing grows.
    pub fn resize_from_pivot(&mut self, pivot: Pivot, amount: i32)
        requires
            old(self).in_range(),
            fits_i32(old(self).spec_resize_target(pivot, amount as int).0),
            fits_i32(old(self).spec_resize_target(pivot, amount as int).1),
            old(self).can_envelope(
                GridPoint {
                    x: old(self).spec_resize_target(pivot, amount as int).0 as i32,
                    y: old(self).spec_resize_target(pivot, amount as int).1 as i32,
                },
            ),
        ensures
            *final(self) == old(self).spec_enveloped(
                GridPoint {
                    x: old(self).spec_resize_target(pivot, amount as int).0 as i32,
                    y: old(self).spec_resize_target(pivot, amount as int).1 as i32,
                },
            ),
            final(self).in_range(),
            final(self).spec_contains_rect(*old(self)),
    {
        let max = self.max();
        let a: i64 = amount as i64;
        let left: i64 = self.pos.x as i64;
        let bottom: i64 = self.pos.y as i64;
        let right: i64 = max.x as i64;
        let top: i64 = max.y as i64;
        let p = match pivot {
            Pivot::TopLeft => GridPoint { x: (left - a) as i32, y: (top + a) as i32 },
            Pivot::TopRight => GridPoint { x: (right + a) as i32, y: (top + a) as i32 },
            Pivot::BottomLeft => GridPoint { x: (left - a) as i32, y: (bottom - a) as i32 },
            Pivot::BottomRight => GridPoint { x: (right + a) as i32, y: (bottom - a) as i32 },
            Pivot::Center => self.center(),
        };
        self.envelope_point(p);
    }

    /// The y coordinate of the top row.
    pub fn top(&self) -> (r: i32)
        requires
            self.in_range(),
        ensures
            r == self.max_y(),
    {
        self.max().y
    }

    /// The y coordinate of the bottom row.
    pub fn bottom(&self) -> (r: i32)
        ensures
            r == self.pos.y,
    {
        self.pos.y
    }

    /// The x coordinate of the left column.
    pub fn left(&self) -> (r: i32)
        ensures
            r == self.pos.x,
    {
        self.pos.x
    }

    /// The x coordinate of the right column.
    pub fn right(&self) -> (r: i32)
        requires
            self.in_range(),
        ensures
            r == self.max_x(),
    {
        self.max().x
    }

    /// The top-left cell.
    pub fn top_left(&self) -> (p: GridPoint)
        requires
            self.in_range(),
        ensures
            p.x == self.pos.x,
            p.y == self.max_y(),
    {
        GridPoint { x: self.pos.x, y: self.max().y }
    }

    /// The top-right cell.
    pub fn top_right(&self) -> (p: GridPoint)
        requires
            self.in_range(),
        ensures
            p == self.spec_max(),
    {
        self.max()
    }

    /// The bottom-left cell.
    pub fn bottom_left(&self) -> (p: GridPoint)
        ensures
            p == self.pos,
    {
        self.pos
    }

    /// The bottom-right cell.
    pub fn bottom_right(&self) -> (p: GridPoint)
        requires
            self.in_range(),
        ensures
            p.x == self.max_x(),
            p.y == self.pos.y,
    {
        GridPoint { x: self.max().x, y: self.pos.y }
    }

    /// The four corners: bottom-left, top-left, top-right, bottom-right.
    pub fn corners(&self) -> (c: [GridPoint; 4])
        requires
            self.in_range(),
        ensures
            c[0] == self.spec_pivot_point(Pivot::BottomLeft),
            c[1] == self.spec_pivot_point(Pivot::TopLeft),
            c[2] == self.spec_pivot_point(Pivot::TopRight),
            c[3] == self.spec_pivot_point(Pivot::BottomRight),
            c[0] == self.spec_min(),
            c[2] == self.spec_max(),
            c[1].x == c[0].x && c[1].y == c[2].y,
            c[3].x == c[2].x && c[3].y == c[0].y,
    {
        [self.bottom_left(), self.top_left(), self.top_right(), self.bottom_right()]
    }

    pub fn width(&self) -> (w: usize)
        ensures
            w == self.size.width,
    {
        self.size.width as usize
    }

    pub fn height(&self) -> (h: usize)
        ensures
            h == self.size.height,
    {
        self.size.height as usize
    }

    /// The index of the bottom row, counted within the rectangle.
    pub fn bottom_index(&self) -> (i: usize)
        ensures
            i == 0,
    {
        0
    }

    /// The index of the top row, counted within the rectangle.
    pub fn top_index(&self) -> (i: usize)
        requires
            self.size.height > 0,
        ensures
            i == self.size.height - 1,
    {
        (self.size.height - 1) as usize
    }

    /// The index of the left column, counted within the rectangle.
    pub fn left_index(&self) -> (i: usize)
        ensures
            i == 0,
    {
        0
    }

    /// The index of the right column, counted within the rectangle.
    pub fn right_index(&self) -> (i: usize)
        requires
            self.size.width > 0,
        ensures
            i == self.size.width - 1,
    {
        (self.size.width - 1) as usize
    }

    /// The cell of the rectangle that the pivot names: a corner, or the
    /// center.
    pub fn pivot_point(&self, pivot: Pivot) -> (p: GridPoint)
        requires
            self.in_range(),
        ensures
            p == self.spec_pivot_point(pivot),
            pivot == Pivot::Center ==> p == self.spec_center(),
            pivot == Pivot::BottomLeft ==> p == self.spec_min(),
            pivot == Pivot::TopRight ==> p == self.spec_max(),
    {
        let t = pivot.transform_wide(GridPoint { x: 0, y: 0 }, self.size);
        GridPoint { x: (self.pos.x as i64 + t.0) as i32, y: (self.pos.y as i64 + t.1) as i32 }
    }

    /// The cell that lies at `point` when seen from the pivot.
    pub fn pivoted_point(&self, pivot: Pivot, point: GridPoint) -> (p: GridPoint)
        requires
            fits_i32(self.spec_pivoted_point(pivot, point).0),
            fits_i32(self.spec_pivoted_point(pivot, point).1),
        ensures
            p.x == self.spec_pivoted_point(pivot, point).0,
            p.y == self.spec_pivoted_point(pivot, point).1,
    {
        let t = pivot.transform_wide(point, self.size);
        GridPoint { x: (self.pos.x as i64 + t.0) as i32, y: (self.pos.y as i64 + t.1) as i32 }
    }
}

/// The run of `count` cells that starts at `start` and moves by `(dx, dy)`
/// from each cell to the next.
pub open spec fn spec_run(start: GridPoint, dx: int, dy: int, count: int) -> Seq<GridPoint> {
    Seq::new(
        spec_max_int(0, count) as nat,
        |k: int| GridPoint { x: (start.x + k * dx) as i32, y: (start.y + k * dy) as i32 },
    )
}

/// Appends a run of cells to `v`.
fn push_run(v: &mut Vec<GridPoint>, start: GridPoint, dx: i32, dy: i32, count: u32)
    requires
        -1 <= dx <= 1,
        -1 <= dy <= 1,
        count > 0 ==> fits_i32(start.x + (count - 1) * dx) && fits_i32(start.y + (count - 1) * dy),
    ensures
        final(v)@ == old(v)@ + spec_run(start, dx as int, dy as int, count as int),
{
    let mut k: u32 = 0;
    let mut x: i64 = start.x as i64;
    let mut y: i64 = start.y as i64;
    assert(v@ =~= old(v)@ + spec_run(start, dx as int, dy as int, 0));
    while k < count
        invariant
            k <= count,
            -1 <= dx <= 1,
            -1 <= dy <= 1,
            x == start.x + k * dx,
            y == start.y + k * dy,
            count > 0 ==> fits_i32(start.x + (count - 1) * dx) && fits_i32(
                start.y + (count - 1) * dy,
            ),
            v@ == old(v)@ + spec_run(start, dx as int, dy as int, k as int),
        decreases count - k,
    {
        proof {
            lemma_run_stays_between(start.x as int, dx as int, k as int, count as int);
            lemma_run_stays_between(start.y as int, dy as int, k as int, count as int);
            assert((k + 1) * dx == k * dx + dx) by (nonlinear_arith);
            assert((k + 1) * dy == k * dy + dy) by (nonlinear_arith);
        }
        v.push(GridPoint { x: x as i32, y: y as i32 });
        assert(v@ =~= old(v)@ + spec_run(start, dx as int, dy as int, k + 1));
        k = k + 1;
        x = x + dx as i64;
        y = y + dy as i64;
    }
}

/// A coordinate that moves by a unit step stays between where it starts and
/// where it ends.
proof fn lemma_run_stays_between(a: int, d: int, k: int, count: int)
    requires
        -1 <= d <= 1,
        0 <= k < count,
        fits_i32(a),
        fits_i32(a + (count - 1) * d),
    ensures
        fits_i32(a + k * d),
{
    assert(a + k * d == (if d == 1 {
        a + k
    } else if d == 0 {
        a
    } else {
        a - k
    })) by (nonlinear_arith)
        requires
            -1 <= d <= 1,
    ;
    assert(a + (count - 1) * d == (if d == 1 {
        a + count - 1
    } else if d == 0 {
        a
    } else {
        a - count + 1
    })) by (nonlinear_arith)
        requires
            -1 <= d <= 1,
    ;
}

impl GridRect {
    /// Every `width`-th cell of the rectangle, counted in row-major order
    /// from the cell at index `col`. For a `col` below the width these are
    /// the cells of that column, from the bottom to the top.
    pub open spec fn spec_column(&self, col: int) -> Seq<GridPoint> {
        let n = self.size.spec_tile_count() as int;
        let w = self.size.width as int;
        if w == 0 || col >= n {
            Seq::empty()
        } else {
            Seq::new(((n - col + w - 1) / w) as nat, |k: int| self.spec_point_at(col + k * w))
        }
    }

    /// The cells of the row at index `row`, from the left to the right. A
    /// rectangle has no row at or above its height.
    pub open spec fn spec_row(&self, row: int) -> Seq<GridPoint> {
        if row < self.size.height {
            spec_run(
                GridPoint { x: self.pos.x, y: (self.pos.y + row) as i32 },
                1,
                0,
                self.size.width as int,
            )
        } else {
            Seq::empty()
        }
    }

    /// The left column of the border, from the bottom to the top.
    pub open spec fn spec_border_left(&self) -> Seq<GridPoint> {
        spec_run(self.pos, 0, 1, self.size.height as int)
    }

    /// The top row of the border without its left end, from the left to the
    /// right.
    pub open spec fn spec_border_top(&self) -> Seq<GridPoint> {
        spec_run(
            GridPoint { x: (self.pos.x + 1) as i32, y: self.max_y() as i32 },
            1,
            0,
            self.size.width - 1,
        )
    }

    /// The right column of the border without its top end, from the top to
    /// the bottom. A rectangle one cell wide has none.
    pub open spec fn spec_border_right(&self) -> Seq<GridPoint> {
        if self.size.width >= 2 {
            spec_run(
                GridPoint { x: self.max_x() as i32, y: (self.max_y() - 1) as i32 },
                0,
                -1,
                self.size.height - 1,
            )
        } else {
            Seq::empty()
        }
    }

    /// The bottom row of the border without its two ends, from the right to
    /// the left. A rectangle one cell tall has none.
    pub open spec fn spec_border_bottom(&self) -> Seq<GridPoint> {
        if self.size.height >= 2 {
            spec_run(
                GridPoint { x: (self.max_x() - 1) as i32, y: self.pos.y },
                -1,
                0,
                self.size.width - 2,
            )
        } else {
            Seq::empty()
        }
    }

    /// The cells on the border of the rectangle, clockwise from the
    /// bottom-left cell: up the left column, along the top row, down the
    /// right column and back along the bottom row.
    pub open spec fn spec_border(&self) -> Seq<GridPoint> {
        if self.is_empty() {
            Seq::empty()
        } else {
            self.spec_border_left() + self.spec_border_top() + self.spec_border_right()
                + self.spec_border_bottom()
        }
    }

    /// Whether `p` is a cell of the rectangle that lies on one of its four
    /// edges.
    pub open spec fn spec_on_border(&self, p: GridPoint) -> bool {
        self.spec_contains_point(p) && (p.x == self.pos.x || p.x == self.max_x() || p.y
            == self.pos.y || p.y == self.max_y())
    }

    /// The cells of one column, from the bottom to the top.
    pub fn iter_column(&self, col: usize) -> (v: Vec<GridPoint>)
        requires
            self.in_range(),
            self.size.width > 0,
        ensures
            v@ == self.spec_column(col as int),
            col < self.size.width ==> v@ == spec_run(
                GridPoint { x: (self.pos.x + col) as i32, y: self.pos.y },
                0,
                1,
                self.size.height as int,
            ),
    {
        let it = GridRectIter::new(*self);
        let n: u128 = self.size.tile_count_u64() as u128;
        let w: u128 = self.size.width as u128;
        let mut i: u128 = col as u128;
        let mut v: Vec<GridPoint> = Vec::new();
        assert(v.len() * w == 0) by (nonlinear_arith)
            requires
                v.len() == 0,
        ;
        while i < n
            invariant
                it.rect() == *self,
                n == self.size.spec_tile_count(),
                n <= 0xffff_ffff_ffff_ffff,
                w == self.size.width,
                w > 0,
                i == col + v.len() * w,
                v.len() > 0 ==> col + (v.len() - 1) * w < n,
                v@ == Seq::new(v.len() as nat, |k: int| self.spec_point_at(col + k * w)),
            decreases
                    (if i < n {
                        n - i
                    } else {
                        0
                    }),
        {
            let p = it.point_at(i as u64);
            let ghost before = v@;
            v.push(p);
            assert((before.len() + 1) * w == before.len() * w + w) by (nonlinear_arith);
            assert(v@[before.len() as int] == self.spec_point_at(col + before.len() * w));
            assert(v@ =~= Seq::new(v.len() as nat, |k: int| self.spec_point_at(col + k * w)));
            i = i + w;
        }
        proof {
            let len = v.len() as int;
            if col >= n {
                assert(len == 0);
                assert(v@ =~= self.spec_column(col as int));
            } else {
                let m = n - col;
                assert(len > 0);
                assert((len - 1) * w == len * w - w) by (nonlinear_arith);
                vstd::arithmetic::div_mod::lemma_fundamental_div_mod_converse(
                    m + w - 1,
                    w as int,
                    len,
                    m + w - 1 - len * w,
                );
                assert(v@ =~= self.spec_column(col as int));
            }
            if col < self.size.width {
                lemma_column_cells(*self, col as int);
            }
        }
        v
    }

    /// The cells of one row, from the left to the right.
    pub fn iter_row(&self, row: usize) -> (v: Vec<GridPoint>)
        requires
            self.in_range(),
        ensures
            v@ == self.spec_row(row as int),
    {
        let mut v: Vec<GridPoint> = Vec::new();
        if (row as u128) < self.size.height as u128 {
            let y: i64 = self.pos.y as i64 + row as i64;
            proof {
                assert((self.size.width - 1) * 1 == self.size.width - 1);
                assert((self.size.width - 1) * 0 == 0);
            }
            push_run(&mut v, GridPoint { x: self.pos.x, y: y as i32 }, 1, 0, self.size.width);
            assert(v@ =~= self.spec_row(row as int));
        }
        v
    }

    /// The cells on the border of the rectangle, clockwise from the
    /// bottom-left cell, each of them once.
    pub fn iter_border(&self) -> (v: Vec<GridPoint>)
        requires
            self.in_range(),
        ensures
            v@ == self.spec_border(),
    {
        let mut v: Vec<GridPoint> = Vec::new();
        let w: u32 = self.size.width;
        let h: u32 = self.size.height;
        if w == 0 || h == 0 {
            return v;
        }
        let max = self.max();
        proof {
            assert((h - 1) * 1 == h - 1 && (h - 1) * 0 == 0);
            assert((w - 1) * 1 == w - 1 && (w - 1) * 0 == 0);
            assert((w - 2) * 1 == w - 2 && (w - 2) * 0 == 0);
            assert((h - 2) * 1 == h - 2 && (h - 2) * 0 == 0);
            assert((h - 2) * -1 == 2 - h);
            assert((w - 3) * -1 == 3 - w && (w - 3) * 0 == 0);
        }
        push_run(&mut v, self.pos, 0, 1, h);
        assert(v@ =~= self.spec_border_left());
        if w >= 2 {
            push_run(&mut v, GridPoint { x: self.pos.x + 1, y: max.y }, 1, 0, w - 1);
        }
        assert(v@ =~= self.spec_border_left() + self.spec_border_top());
        if w >= 2 && h >= 2 {
            push_run(&mut v, GridPoint { x: max.x, y: max.y - 1 }, 0, -1, h - 1);
        }
        assert(v@ =~= self.spec_border_left() + self.spec_border_top()
            + self.spec_border_right());
        if w >= 3 && h >= 2 {
            push_run(&mut v, GridPoint { x: max.x - 1, y: self.pos.y }, -1, 0, w - 2);
        }
        assert(v@ =~= self.spec_border());
        v
    }
}

/// In a rectangle that is not empty, the cells of a column are the cells
/// above the column's bottom cell.
pub proof fn lemma_column_cells(r: GridRect, col: int)
    requires
        r.in_range(),
        0 <= col < r.size.width,
    ensures
        r.spec_column(col) == spec_run(
            GridPoint { x: (r.pos.x + col) as i32, y: r.pos.y },
            0,
            1,
            r.size.height as int,
        ),
{
    let w = r.size.width as int;
    let h = r.size.height as int;
    let n = r.size.spec_tile_count() as int;
    let run = spec_run(GridPoint { x: (r.pos.x + col) as i32, y: r.pos.y }, 0, 1, h);
    if h == 0 {
        assert(n == 0) by (nonlinear_arith)
            requires
                n == w * h,
                h == 0,
        ;
        assert(r.spec_column(col) =~= run);
    } else {
        assert(n == w * h);
        assert(col < n) by (nonlinear_arith)
            requires
                n == w * h,
                h >= 1,
                0 <= col < w,
        ;
        assert(n - col + w - 1 == h * w + (w - 1 - col)) by (nonlinear_arith)
            requires
                n == w * h,
        ;
        vstd::arithmetic::div_mod::lemma_fundamental_div_mod_converse(
            n - col + w - 1,
            w,
            h,
            w - 1 - col,
        );
        assert forall|k: int| 0 <= k < h implies r.spec_point_at(col + k * w) == run[k] by {
            vstd::arithmetic::div_mod::lemma_fundamental_div_mod_converse(col + k * w, w, k, col);
            assert(k * 0 == 0 && k * 1 == k);
        }
        assert(r.spec_column(col) =~= run);
    }
}

/// A rectangle at least two cells wide and two cells tall has
/// `2·width + 2·height − 4` border cells; a rectangle one cell wide or one
/// cell tall has as many border cells as it has cells.
pub proof fn lemma_border_len(r: GridRect)
    ensures
        r.size.width >= 2 && r.size.height >= 2 ==> r.spec_border().len() == 2 * r.size.width + 2
            * r.size.height - 4,
        r.size.width == 1 ==> r.spec_border().len() == r.size.height,
        r.size.height == 1 ==> r.spec_border().len() == r.size.width,
        r.size.width == 1 && r.size.height == 1 ==> r.spec_border().len() == 1,
        r.is_empty() ==> r.spec_border().len() == 0,
{
}

/// The `i`-th border cell, by the side on which it lies.
proof fn lemma_border_at(r: GridRect, i: int)
    requires
        r.in_range(),
        0 <= i < r.spec_border().len(),
    ensures
        ({
            let w = r.size.width as int;
            let h = r.size.height as int;
            let p = r.spec_border()[i];
            if i < h {
                p.x == r.pos.x && p.y == r.pos.y + i
            } else if i < h + w - 1 {
                p.x == r.pos.x + 1 + (i - h) && p.y == r.max_y()
            } else if i < h + w - 1 + h - 1 {
                p.x == r.max_x() && p.y == r.max_y() - 1 - (i - h - w + 1) && w >= 2
            } else {
                p.x == r.max_x() - 1 - (i - h - w + 1 - h + 1) && p.y == r.pos.y && w >= 2 && h
                    >= 2
            }
        }),
{
    let left = r.spec_border_left();
    let top = r.spec_border_top();
    let right = r.spec_border_right();
    let bottom = r.spec_border_bottom();
    let w = r.size.width as int;
    let h = r.size.height as int;
    let all = left + top + right + bottom;
    assert(r.spec_border() == all);
    if i < h {
        assert(all[i] == left[i]);
        assert(i * 0 == 0 && i * 1 == i);
    } else if i < h + w - 1 {
        let k = i - h;
        assert(all[i] == top[k]);
        assert(k * 0 == 0 && k * 1 == k);
    } else if i < h + w - 1 + h - 1 {
        let k = i - h - (w - 1);
        assert(w >= 2);
        assert(all[i] == right[k]);
        assert(k * 0 == 0 && k * -1 == -k);
    } else {
        let k = i - h - (w - 1) - (h - 1);
        assert(w >= 2 && h >= 2);
        assert(all[i] == bottom[k]);
        assert(k * 0 == 0 && k * -1 == -k);
    }
}

/// Every cell of the border enumeration lies on an edge of the rectangle.
pub proof fn lemma_border_on_edge(r: GridRect, i: int)
    requires
        r.in_range(),
        0 <= i < r.spec_border().len(),
    ensures
        r.spec_on_border(r.spec_border()[i]),
{
    lemma_border_at(r, i);
}

/// No cell occurs twice in the border enumeration.
pub proof fn lemma_border_distinct(r: GridRect, i: int, j: int)
    requires
        r.in_range(),
        0 <= i < r.spec_border().len(),
        0 <= j < r.spec_border().len(),
        r.spec_border()[i] == r.spec_border()[j],
    ensures
        i == j,
{
    lemma_border_at(r, i);
    lemma_border_at(r, j);
}

/// Every cell on an edge of the rectangle occurs in the border enumeration.
pub proof fn lemma_border_complete(r: GridRect, p: GridPoint)
    requires
        r.in_range(),
        r.spec_on_border(p),
    ensures
        r.spec_border().contains(p),
{
    let w = r.size.width as int;
    let h = r.size.height as int;
    let i = if p.x == r.pos.x {
        p.y - r.pos.y
    } else if p.y == r.max_y() {
        h + (p.x - r.pos.x - 1)
    } else if p.x == r.max_x() {
        h + (w - 1) + (r.max_y() - 1 - p.y)
    } else {
        h + (w - 1) + (h - 1) + (r.max_x() - 1 - p.x)
    };
    assert(0 <= i < r.spec_border().len());
    lemma_border_at(r, i);
    assert(r.spec_border()[i] == p);
}

/// A rectangle that is not empty holds its bottom-left and its top-right
/// cell.
pub proof fn lemma_rect_holds_its_corners(r: GridRect)
    requires
        r.in_range(),
        !r.is_empty(),
    ensures
        r.spec_contains_point(r.spec_min()),
        r.spec_contains_point(r.spec_max()),
{
}

/// A rectangle enumerates as many cells as the product of its width and its
/// height.
pub proof fn lemma_points_count(r: GridRect)
    ensures
        r.spec_points().len() == r.size.width * r.size.height,
        r.is_empty() ==> r.spec_points().len() == 0,
{
    assert(r.size.width * r.size.height >= 0) by (nonlinear_arith)
        requires
            r.size.width >= 0,
            r.size.height >= 0,
    ;
    if r.is_empty() {
        assert(r.size.width * r.size.height == 0) by (nonlinear_arith)
            requires
                r.size.width == 0 || r.size.height == 0,
        ;
    }
}

/// Whether two rectangles overlap does not depend on which of them is
/// asked.
pub proof fn lemma_overlaps_symmetric(a: GridRect, b: GridRect)
    ensures
        a.spec_overlaps(b) == b.spec_overlaps(a),
{
}

/// A rectangle that is not empty overlaps itself.
pub proof fn lemma_overlaps_reflexive(a: GridRect)
    requires
        !a.is_empty(),
    ensures
        a.spec_overlaps(a),
{
}

/// Two rectangles overlap exactly if, on both axes, the distance between
/// their centers is less than the sum of their half extents. All lengths
/// are doubled here, so that the middle of an even extent is a whole
/// number.
pub proof fn lemma_overlaps_is_separating_axis_test(a: GridRect, b: GridRect)
    ensures
        a.spec_overlaps(b) <==> {
            &&& vstd::math::abs((2 * a.pos.x + a.size.width) - (2 * b.pos.x + b.size.width))
                < a.size.width + b.size.width
            &&& vstd::math::abs((2 * a.pos.y + a.size.height) - (2 * b.pos.y + b.size.height))
                < a.size.height + b.size.height
        },
{
}

/// Two rectangles of which neither is empty overlap exactly if they have a
/// cell in common.
pub proof fn lemma_overlaps_shares_cell(a: GridRect, b: GridRect)
    requires
        a.in_range(),
        b.in_range(),
        !a.is_empty(),
        !b.is_empty(),
    ensures
        a.spec_overlaps(b) <==> exists|p: GridPoint|
            a.spec_contains_point(p) && b.spec_contains_point(p),
{
    if a.spec_overlaps(b) {
        let p = GridPoint {
            x: spec_max_int(a.pos.x as int, b.pos.x as int) as i32,
            y: spec_max_int(a.pos.y as int, b.pos.y as int) as i32,
        };
        assert(a.spec_contains_point(p) && b.spec_contains_point(p));
    }
}

/// Clipping a second time by the same rectangle changes nothing.
pub proof fn lemma_clip_idempotent(a: GridRect, b: GridRect)
    requires
        a.in_range(),
        b.in_range(),
    ensures
        a.spec_clipped(b).spec_clipped(b) == a.spec_clipped(b),
{
}

/// What a cursor over a rectangle yields from the back is the exact
/// reverse of what it yields from the front: the same number of cells, and
/// the `i`-th from the back is the `i`-th before the end from the front.
pub proof fn lemma_reverse_symmetry(r: GridRect, forward: Seq<GridPoint>, backward: Seq<GridPoint>)
    requires
        forward == r.spec_points(),
        backward == r.spec_points().reverse(),
    ensures
        backward == forward.reverse(),
        forward == backward.reverse(),
        forward.len() == backward.len(),
        forward.len() == r.size.width * r.size.height,
        forall|i: int| 0 <= i < forward.len() ==> backward[i] == forward[forward.len() - 1 - i],
{
    lemma_points_count(r);
    assert(forward =~= backward.reverse());
}

/// The row-major index `i` of a rectangle `w` cells wide splits into a
/// column below `w` and a row below `h`.
pub proof fn lemma_index_splits(i: int, w: int, h: int)
    requires
        0 <= i < w * h,
        0 <= w,
        0 <= h,
    ensures
        w > 0,
        0 <= i % w < w,
        0 <= i / w < h,
        i == (i / w) * w + i % w,
{
    assert(w > 0) by (nonlinear_arith)
        requires
            0 <= i < w * h,
            0 <= w,
    ;
    vstd::arithmetic::div_mod::lemma_fundamental_div_mod(i, w);
    vstd::arithmetic::div_mod::lemma_mod_bound(i, w);
    vstd::arithmetic::div_mod::lemma_div_pos_is_pos(i, w);
    vstd::arithmetic::div_mod::lemma_multiply_divide_lt(i, w, h);
    assert(w * (i / w) == (i / w) * w) by (nonlinear_arith);
}

/// A cursor over the cells of a [`GridRect`] that can be advanced from both
/// ends.
///
/// The rectangle is copied into the cursor. The front cursor `head` and the
/// back cursor `tail` bound the cells that are still to come; they never
/// cross.
#[derive(Clone, Copy, Debug)]
pub struct GridRectIter {
    origin: GridPoint,
    size: GridSize,
    head: u64,
    tail: u64,
}

impl GridRectIter {
    #[verifier::type_invariant]
    spec fn inv(self) -> bool {
        &&& self.rect().in_range()
        &&& self.head <= self.tail <= self.size.spec_tile_count()
    }

    /// The rectangle that the cursor walks.
    pub closed spec fn rect(&self) -> GridRect {
        GridRect { pos: self.origin, size: self.size }
    }

    /// A cursor that stands before the first cell of `rect`.
    pub fn new(rect: GridRect) -> (it: GridRectIter)
        requires
            rect.in_range(),
        ensures
            it.rect() == rect,
            it.remaining() == rect.spec_points(),
    {
        let n: u64 = rect.size.tile_count_u64();
        let it = GridRectIter { origin: rect.pos, size: rect.size, head: 0, tail: n };
        assert(it.remaining() =~= rect.spec_points());
        it
    }

    /// Whether a cell is still to come.
    pub fn can_iterate(&self) -> (b: bool)
        ensures
            b == (self.remaining().len() > 0),
    {
        proof {
            use_type_invariant(self);
        }
        self.head < self.tail
    }

    /// The cell at row-major index `i`.
    fn point_at(&self, i: u64) -> (p: GridPoint)
        requires
            i < self.size.spec_tile_count(),
        ensures
            p == self.rect().spec_point_at(i as int),
            p == self.rect().spec_points()[i as int],
    {
        proof {
            use_type_invariant(self);
            lemma_index_splits(i as int, self.size.width as int, self.size.height as int);
        }
        let w: u64 = self.size.width as u64;
        let x: i64 = self.origin.x as i64 + (i % w) as i64;
        let y: i64 = self.origin.y as i64 + (i / w) as i64;
        GridPoint { x: x as i32, y: y as i32 }
    }

    /// Yields the last of the remaining cells, or `None` when none is left.
    pub fn next_back(&mut self) -> (r: Option<GridPoint>)
        ensures
            final(self).rect() == old(self).rect(),
            old(self).remaining().len() == 0 ==> r.is_none() && final(self).remaining()
                == old(self).remaining(),
            old(self).remaining().len() > 0 ==> r == Some(old(self).remaining().last())
                && final(self).remaining() == old(self).remaining().drop_last(),
    {
        proof {
            use_type_invariant(&*self);
        }
        if self.head >= self.tail {
            return None;
        }
        let i: u64 = self.tail - 1;
        let p = self.point_at(i);
        self.tail = i;
        assert(self.remaining() =~= old(self).remaining().drop_last());
        Some(p)
    }

    /// The exact number of cells that are still to come.
    pub fn len(&self) -> (n: usize)
        requires
            self.remaining().len() <= usize::MAX,
        ensures
            n == self.remaining().len(),
    {
        proof {
            use_type_invariant(self);
        }
        (self.tail - self.head) as usize
    }

    /// The number of cells that are still to come, as a lower and an upper
    /// bound that agree.
    pub fn size_hint(&self) -> (r: (usize, Option<usize>))
        requires
            self.remaining().len() <= usize::MAX,
        ensures
            r.0 == self.remaining().len(),
            r.1 == Some(r.0),
    {
        let n = self.len();
        (n, Some(n))
    }

    /// Drains the cursor from the back into a vector.
    pub fn collect_rev(self) -> (v: Vec<GridPoint>)
        ensures
            v@ == self.remaining().reverse(),
    {
        let mut it = self;
        let mut v: Vec<GridPoint> = Vec::new();
        loop
            invariant
                it.remaining() + v@.reverse() == self.remaining(),
            ensures
                v@ == self.remaining().reverse(),
            decreases it.remaining().len(),
        {
            let ghost before = it.remaining();
            let ghost vb = v@;
            match it.next_back() {
                Some(p) => {
                    v.push(p);
                    assert(it.remaining() + v@.reverse() =~= self.remaining()) by {
                        assert(before =~= before.drop_last() + seq![before.last()]);
                        assert(v@.reverse() =~= seq![p] + vb.reverse());
                    }
                },
                None => {
                    assert(v@.reverse() =~= it.remaining() + v@.reverse());
                    assert(v@ =~= v@.reverse().reverse());
                    break ;
                },
            }
        }
        v
    }
}

impl PointIter for GridRectIter {
    closed spec fn remaining(&self) -> Seq<GridPoint> {
        self.rect().spec_points().subrange(self.head as int, self.tail as int)
    }

    fn next(&mut self) -> (r: Option<GridPoint>)
        ensures
            final(self).rect() == old(self).rect(),
    {
        proof {
            use_type_invariant(&*self);
        }
        if self.head >= self.tail {
            return None;
        }
        let i: u64 = self.head;
        let p = self.point_at(i);
        self.head = i + 1;
        assert(self.remaining() =~= old(self).remaining().skip(1));
        Some(p)
    }
}

/// Every cell that a rectangle enumerates is a cell of the rectangle.
pub proof fn lemma_rect_encloses_itself(r: GridRect)
    requires
        r.in_range(),
    ensures
        spec_encloses(r, r.spec_points()),
{
    assert forall|i: int| 0 <= i < r.spec_points().len() implies r.spec_contains_point(
        #[trigger] r.spec_points()[i],
    ) by {
        lemma_index_splits(i, r.size.width as int, r.size.height as int);
    }
}

/// Every cell of a rectangle is enumerated, at the index that its row and
/// column give.
pub proof fn lemma_rect_points_complete(r: GridRect, p: GridPoint)
    requires
        r.in_range(),
        r.spec_contains_point(p),
    ensures
        0 <= (p.y - r.pos.y) * r.size.width + (p.x - r.pos.x) < r.spec_points().len(),
        r.spec_points()[(p.y - r.pos.y) * r.size.width + (p.x - r.pos.x)] == p,
{
    let w = r.size.width as int;
    let h = r.size.height as int;
    let row = p.y - r.pos.y;
    let col = p.x - r.pos.x;
    let i = row * w + col;
    assert(0 <= i < w * h) by (nonlinear_arith)
        requires
            i == row * w + col,
            0 <= row < h,
            0 <= col < w,
    ;
    vstd::arithmetic::div_mod::lemma_fundamental_div_mod_converse(i, w, row, col);
}

/// No cell is enumerated twice.
pub proof fn lemma_rect_points_distinct(r: GridRect, i: int, j: int)
    requires
        r.in_range(),
        0 <= i < r.spec_points().len(),
        0 <= j < r.spec_points().len(),
        r.spec_points()[i] == r.spec_points()[j],
    ensures
        i == j,
{
    lemma_index_splits(i, r.size.width as int, r.size.height as int);
    lemma_index_splits(j, r.size.width as int, r.size.height as int);
}

impl GridShape for GridRect {
    open spec fn shape_points(&self) -> Seq<GridPoint> {
        self.spec_points()
    }

    open spec fn shape_pos(&self) -> GridPoint {
        self.pos
    }

    open spec fn shape_bounds(&self) -> GridRect {
        *self
    }

    open spec fn shape_in_range(&self) -> bool {
        self.in_range()
    }

    open spec fn shape_moved(&self, pos: GridPoint) -> GridRect {
        GridRect { pos, size: self.size }
    }

    open spec fn shape_movable(&self, pos: GridPoint) -> bool {
        true
    }

    fn iter(&self) -> (it: GridShapeIterator) {
        GridShapeIterator::Rect(GridRectIter::new(*self))
    }

    fn pos(&self) -> (p: GridPoint) {
        self.pos
    }

    fn set_pos(&mut self, pos: GridPoint) {
        self.pos = pos;
    }

    fn bounds(&self) -> (b: GridRect) {
        proof {
            lemma_rect_encloses_itself(*self);
            lemma_points_count(*self);
            if !self.is_empty() {
                lemma_rect_points_complete(*self, self.spec_min());
                lemma_rect_points_complete(*self, self.spec_max());
                lemma_touches(
                    *self,
                    self.spec_points(),
                    self.spec_min(),
                    self.spec_max(),
                    self.spec_min(),
                    self.spec_max(),
                );
            }
        }
        *self
    }
}

} // verus!
