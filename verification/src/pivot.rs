//! Anchors of a rectangle and points read relative to them.
use vstd::prelude::*;
use vstd::std_specs::convert::FromSpecImpl;
use crate::point::{GridPoint, GridSize, fits_i32};

verus! {

/// An anchor of a rectangle: one of its four corners, or its center.
#[derive(Clone, Copy, Debug, PartialEq, Eq, Structural, Hash)]
pub enum Pivot {
    /// +X right, +Y down.
    TopLeft,
    /// +X left, +Y down.
    TopRight,
    /// +X right, +Y up.
    Center,
    /// +X right, +Y up.
    BottomLeft,
    /// +X left, +Y up.
    BottomRight,
}

/// A point read from the perspective of a pivot.
#[derive(Clone, Copy, Debug, PartialEq, Eq, Structural, Hash)]
pub struct PivotedPoint {
    pub point: GridPoint,
    pub pivot: Pivot,
}

impl Pivot {
    /// The direction in which each coordinate grows when seen from the
    /// pivot: `1` or `-1` per axis.
    pub open spec fn spec_axis(&self) -> GridPoint {
        match self {
            Pivot::TopLeft => GridPoint { x: 1, y: -1i32 },
            Pivot::TopRight => GridPoint { x: -1i32, y: -1i32 },
            Pivot::Center => GridPoint { x: 1, y: 1 },
            Pivot::BottomLeft => GridPoint { x: 1, y: 1 },
            Pivot::BottomRight => GridPoint { x: -1i32, y: 1 },
        }
    }

    /// Twice the normalized anchor: per axis `0` for the low edge, `1` for
    /// the middle and `2` for the high edge.
    pub open spec fn spec_anchor_halves(&self) -> (int, int) {
        match self {
            Pivot::TopLeft => (0, 2),
            Pivot::TopRight => (2, 2),
            Pivot::Center => (1, 1),
            Pivot::BottomLeft => (0, 0),
            Pivot::BottomRight => (2, 0),
        }
    }

    /// The offset along one axis of an anchor within an extent of `len`
    /// cells: `0` at the low edge, `len - 1` at the high edge and `len / 2`
    /// in the middle.
    pub open spec fn spec_anchor_offset(halves: int, len: int) -> int {
        if halves == 0 {
            0
        } else if halves == 2 {
            len - 1
        } else {
            len / 2
        }
    }

    /// The offset of the pivot from the bottom-left cell of a rectangle of
    /// the given size.
    pub open spec fn spec_pivot_offset(&self, size: GridSize) -> (int, int) {
        (
            Self::spec_anchor_offset(self.spec_anchor_halves().0, size.width as int),
            Self::spec_anchor_offset(self.spec_anchor_halves().1, size.height as int),
        )
    }

    /// Where a point given relative to the pivot lies, relative to the
    /// bottom-left cell of a rectangle of the given size.
    pub open spec fn spec_transform(&self, point: GridPoint, size: GridSize) -> (int, int) {
        (
            self.spec_pivot_offset(size).0 + point.x * self.spec_axis().x,
            self.spec_pivot_offset(size).1 + point.y * self.spec_axis().y,
        )
    }

    #[verifier::when_used_as_spec(spec_axis)]
    pub fn axis(&self) -> (a: GridPoint)
        ensures
            a == self.spec_axis(),
    {
        match self {
            Pivot::TopLeft => GridPoint { x: 1, y: -1 },
            Pivot::TopRight => GridPoint { x: -1, y: -1 },
            Pivot::Center => GridPoint { x: 1, y: 1 },
            Pivot::BottomLeft => GridPoint { x: 1, y: 1 },
            Pivot::BottomRight => GridPoint { x: -1, y: 1 },
        }
    }

    /// Twice the normalized anchor of the pivot, so that the middle of an
    /// axis is the integer `1`.
    pub fn anchor_halves(&self) -> (h: (u8, u8))
        ensures
            h.0 == self.spec_anchor_halves().0,
            h.1 == self.spec_anchor_halves().1,
    {
        match self {
            Pivot::TopLeft => (0, 2),
            Pivot::TopRight => (2, 2),
            Pivot::Center => (1, 1),
            Pivot::BottomLeft => (0, 0),
            Pivot::BottomRight => (2, 0),
        }
    }

    /// The offset of the pivot from the bottom-left cell of a rectangle of
    /// the given size. An empty extent puts a high-edge pivot at `-1`.
    pub fn pivot_position(&self, size: GridSize) -> (p: GridPoint)
        requires
            fits_i32(self.spec_pivot_offset(size).0),
            fits_i32(self.spec_pivot_offset(size).1),
        ensures
            p.x == self.spec_pivot_offset(size).0,
            p.y == self.spec_pivot_offset(size).1,
    {
        let h = self.anchor_halves();
        GridPoint {
            x: anchor_offset(h.0, size.width) as i32,
            y: anchor_offset(h.1, size.height) as i32,
        }
    }

    /// Transforms a point given relative to the pivot into the offset of the
    /// same cell from the bottom-left cell of a rectangle of the given size.
    pub fn transform_point(&self, point: GridPoint, size: GridSize) -> (p: GridPoint)
        requires
            fits_i32(self.spec_transform(point, size).0),
            fits_i32(self.spec_transform(point, size).1),
        ensures
            p.x == self.spec_transform(point, size).0,
            p.y == self.spec_transform(point, size).1,
    {
        let t = self.transform_wide(point, size);
        GridPoint { x: t.0 as i32, y: t.1 as i32 }
    }

    /// The transform of [`Pivot::transform_point`], in integers wide enough
    /// for every point and size.
    pub fn transform_wide(&self, point: GridPoint, size: GridSize) -> (t: (i64, i64))
        ensures
            t.0 == self.spec_transform(point, size).0,
            t.1 == self.spec_transform(point, size).1,
    {
        let h = self.anchor_halves();
        let axis = self.axis();
        let ox: i64 = anchor_offset(h.0, size.width);
        let oy: i64 = anchor_offset(h.1, size.height);
        let x: i64 = if axis.x == 1 { ox + point.x as i64 } else { ox - point.x as i64 };
        let y: i64 = if axis.y == 1 { oy + point.y as i64 } else { oy - point.y as i64 };
        assert(point.x * axis.x == (if axis.x == 1 { point.x as int } else { -point.x }))
            by (nonlinear_arith)
            requires
                axis.x == 1 || axis.x == -1,
        ;
        assert(point.y * axis.y == (if axis.y == 1 { point.y as int } else { -point.y }))
            by (nonlinear_arith)
            requires
                axis.y == 1 || axis.y == -1,
        ;
        (x, y)
    }
}

/// The offset of an anchor along one axis.
fn anchor_offset(halves: u8, len: u32) -> (r: i64)
    requires
        halves <= 2,
    ensures
        r == Pivot::spec_anchor_offset(halves as int, len as int),
{
    if halves == 0 {
        0
    } else if halves == 2 {
        len as i64 - 1
    } else {
        (len / 2) as i64
    }
}

impl From<GridPoint> for PivotedPoint {
    fn from(point: GridPoint) -> (p: PivotedPoint) {
        PivotedPoint { point, pivot: Pivot::BottomLeft }
    }
}

impl FromSpecImpl<GridPoint> for PivotedPoint {
    open spec fn obeys_from_spec() -> bool {
        true
    }

    /// A plain point is read from the bottom-left, where the transform is
    /// the identity.
    open spec fn from_spec(point: GridPoint) -> PivotedPoint {
        PivotedPoint { point, pivot: Pivot::BottomLeft }
    }
}

impl PivotedPoint {
    /// Tags `point` with `pivot`.
    pub fn new(point: GridPoint, pivot: Pivot) -> (p: PivotedPoint)
        ensures
            p.point == point,
            p.pivot == pivot,
    {
        PivotedPoint { point, pivot }
    }

    pub fn x(&self) -> (r: i32)
        ensures
            r == self.point.x,
    {
        self.point.x
    }

    pub fn y(&self) -> (r: i32)
        ensures
            r == self.point.y,
    {
        self.point.y
    }

    pub fn get_pivot(self) -> (p: Option<Pivot>)
        ensures
            p == Some(self.pivot),
    {
        Some(self.pivot)
    }

    /// The offset of the cell from the bottom-left cell of a rectangle of the
    /// given size.
    pub open spec fn spec_calculate(&self, size: GridSize) -> (int, int) {
        self.pivot.spec_transform(self.point, size)
    }

    /// Resolves the point within a rectangle of the given size.
    pub fn calculate(&self, size: GridSize) -> (p: GridPoint)
        requires
            fits_i32(self.spec_calculate(size).0),
            fits_i32(self.spec_calculate(size).1),
        ensures
            p.x == self.spec_calculate(size).0,
            p.y == self.spec_calculate(size).1,
    {
        self.pivot.transform_point(self.point, size)
    }

    /// The offset of [`PivotedPoint::calculate`], in integers wide enough
    /// for every point and size.
    pub fn calculate_wide(&self, size: GridSize) -> (t: (i64, i64))
        ensures
            t.0 == self.spec_calculate(size).0,
            t.1 == self.spec_calculate(size).1,
    {
        self.pivot.transform_wide(self.point, size)
    }
}

/// Read from the bottom-left, a point is the offset it names.
pub proof fn lemma_bottom_left_is_identity(point: GridPoint, size: GridSize)
    ensures
        Pivot::BottomLeft.spec_transform(point, size) == (point.x as int, point.y as int),
{
    assert(Pivot::BottomLeft.spec_axis() == GridPoint { x: 1, y: 1 });
    assert(Pivot::BottomLeft.spec_pivot_offset(size) == (0int, 0int));
}

/// The offset of an anchor is the far end of the extent, `len - 1`, times
/// the normalized anchor, rounded to the nearest cell, a half going up.
pub proof fn lemma_anchor_offset_is_rounded(halves: int, len: int)
    requires
        0 <= halves <= 2,
        len >= 1,
    ensures
        Pivot::spec_anchor_offset(halves, len) == crate::math::spec_round_div(
            (len - 1) * halves,
            2,
        ),
{
    if halves == 0 {
        assert((len - 1) * halves == 0) by (nonlinear_arith)
            requires
                halves == 0,
        ;
        crate::math::lemma_round_div_exact(0, 2);
    } else if halves == 2 {
        assert((len - 1) * halves == (len - 1) * 2) by (nonlinear_arith)
            requires
                halves == 2,
        ;
        crate::math::lemma_round_div_exact(len - 1, 2);
    } else {
        assert((len - 1) * halves == len - 1) by (nonlinear_arith)
            requires
                halves == 1,
        ;
        assert((2 * (len - 1) + 2) / 4 == len / 2) by {
            vstd::arithmetic::div_mod::lemma_fundamental_div_mod(len, 2);
            vstd::arithmetic::div_mod::lemma_mod_bound(len, 2);
            assert(2 * len == (len / 2) * 4 + 2 * (len % 2));
            vstd::arithmetic::div_mod::lemma_fundamental_div_mod_converse(
                2 * len,
                4,
                len / 2,
                2 * (len % 2),
            );
        }
    }
}

} // verus!
