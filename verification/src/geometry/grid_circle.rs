//! Filled circles and circle outlines on the grid.
//!
//! A circle of radius `r` reaches half a cell beyond `r`, so that its
//! boundary is symmetric for even and odd radii alike. All tests are made
//! in whole numbers: the real inequality `dx² + dy² ≤ (r + ½)²` is the
//! integer inequality `4·(dx² + dy²) ≤ (2r + 1)²`.
use vstd::prelude::*;
use crate::geometry::grid_rect::{GridRect, GridRectIter};
use crate::geometry::grid_rect::lemma_rect_encloses_itself;
use crate::geometry::grid_shape::{
    GridShape, GridShapeIterator, PointIter, lemma_filter_empty, lemma_filter_enclosed,
    lemma_filter_first, lemma_touches, spec_encloses, spec_touches,
};
use crate::math::{isqrt, lemma_isqrt_exists, spec_isqrt};
use crate::point::{GridPoint, GridSize, fits_i32};

verus! {

/// The squared distance between two cells.
pub open spec fn spec_dist_sq(a: GridPoint, b: GridPoint) -> int {
    (a.x - b.x) * (a.x - b.x) + (a.y - b.y) * (a.y - b.y)
}

/// Whether `p` lies within `radius` and a half of `center`.
pub open spec fn spec_within_reach(center: GridPoint, radius: int, p: GridPoint) -> bool {
    4 * spec_dist_sq(p, center) <= (2 * radius + 1) * (2 * radius + 1)
}

/// The test of [`spec_within_reach`], as a predicate on cells.
pub open spec fn spec_reach_pred(center: GridPoint, radius: int) -> spec_fn(GridPoint) -> bool {
    |p: GridPoint| spec_within_reach(center, radius, p)
}

/// Whether a circle of the given radius around `center` stays within the
/// coordinates that can be held.
pub open spec fn spec_circle_in_range(center: GridPoint, radius: int) -> bool {
    &&& radius >= 0
    &&& fits_i32(center.x - radius)
    &&& fits_i32(center.x + radius)
    &&& fits_i32(center.y - radius)
    &&& fits_i32(center.y + radius)
}

/// The square of `2·radius + 1` cells centered on `center`.
pub open spec fn spec_circle_bounds(center: GridPoint, radius: int) -> GridRect {
    GridRect {
        pos: GridPoint { x: (center.x - radius) as i32, y: (center.y - radius) as i32 },
        size: GridSize { width: (2 * radius + 1) as u32, height: (2 * radius + 1) as u32 },
    }
}

/// Whole squared distances cannot tell `(r + ½)²` from `r² + r`.
pub proof fn lemma_reach_in_whole_numbers(d: int, r: int)
    ensures
        4 * d <= (2 * r + 1) * (2 * r + 1) <==> d <= r * r + r,
{
    assert((2 * r + 1) * (2 * r + 1) == 4 * (r * r + r) + 1) by (nonlinear_arith);
}

/// The squared distance between two cells, computed without overflow.
fn dist_sq(a: GridPoint, b: GridPoint) -> (d: u128)
    ensures
        d == spec_dist_sq(a, b),
        d <= 0x2_0000_0000_0000_0000,
{
    let dx: i128 = a.x as i128 - b.x as i128;
    let dy: i128 = a.y as i128 - b.y as i128;
    assert(0 <= dx * dx <= 0x1_0000_0000_0000_0000) by (nonlinear_arith)
        requires
            -0x1_0000_0000 <= dx <= 0x1_0000_0000,
    ;
    assert(0 <= dy * dy <= 0x1_0000_0000_0000_0000) by (nonlinear_arith)
        requires
            -0x1_0000_0000 <= dy <= 0x1_0000_0000,
    ;
    (dx * dx + dy * dy) as u128
}

/// Whether `p` lies within `radius` and a half of `center`.
fn within_reach(center: GridPoint, radius: u64, p: GridPoint) -> (b: bool)
    requires
        radius <= 0x8000_0000,
    ensures
        b == spec_within_reach(center, radius as int, p),
{
    let d: u128 = dist_sq(p, center);
    let r: u128 = radius as u128;
    assert(0 <= r * r <= 0x8000_0000 * 0x8000_0000) by (nonlinear_arith)
        requires
            0 <= r <= 0x8000_0000,
    ;
    proof {
        lemma_reach_in_whole_numbers(d as int, r as int);
    }
    d <= r * r + r
}

/// A filled circle.
#[derive(Clone, Copy, Debug, PartialEq, Eq, Structural, Hash)]
pub struct GridCircle {
    pub center: GridPoint,
    pub radius: usize,
}

impl Default for GridCircle {
    fn default() -> (c: GridCircle)
        ensures
            c == (GridCircle { center: GridPoint { x: 0, y: 0 }, radius: 0 }),
    {
        GridCircle { center: GridPoint { x: 0, y: 0 }, radius: 0 }
    }
}

impl GridCircle {
    /// Whether every cell of the circle's bounding square is a point.
    pub open spec fn in_range(&self) -> bool {
        spec_circle_in_range(self.center, self.radius as int)
    }

    /// Whether `p` is a cell of the filled circle.
    pub open spec fn spec_inside(&self, p: GridPoint) -> bool {
        spec_within_reach(self.center, self.radius as int, p)
    }

    /// The bounding square of the circle.
    pub open spec fn spec_bounds(&self) -> GridRect {
        spec_circle_bounds(self.center, self.radius as int)
    }

    /// The cells of the filled circle: those cells of the bounding square
    /// that lie within reach of the center, in the row-major order of the
    /// square.
    pub open spec fn spec_points(&self) -> Seq<GridPoint> {
        self.spec_bounds().spec_points().filter(spec_reach_pred(self.center, self.radius as int))
    }

    /// Whether the two discs, taken with their plain radii, intersect in
    /// more than a point.
    pub open spec fn spec_overlaps(&self, other: GridCircle) -> bool {
        (self.radius + other.radius) * (self.radius + other.radius) > spec_dist_sq(
            self.center,
            other.center,
        )
    }

    /// Whether `p` lies within the plain radius of the center.
    pub open spec fn spec_contains(&self, p: GridPoint) -> bool {
        spec_dist_sq(p, self.center) <= self.radius * self.radius
    }

    pub fn new(center: GridPoint, radius: usize) -> (c: GridCircle)
        ensures
            c.center == center,
            c.radius == radius,
    {
        GridCircle { center, radius }
    }

    /// A circle around the origin.
    pub fn origin(radius: usize) -> (c: GridCircle)
        ensures
            c.center == (GridPoint { x: 0, y: 0 }),
            c.radius == radius,
    {
        GridCircle { center: GridPoint { x: 0, y: 0 }, radius }
    }

    /// The outline with this circle's center and radius.
    pub fn outline(&self) -> (o: GridCircleOutline)
        ensures
            o.center == self.center,
            o.radius == self.radius,
    {
        GridCircleOutline { center: self.center, radius: self.radius }
    }

    #[verifier::when_used_as_spec(spec_overlaps)]
    pub fn overlaps(&self, other: GridCircle) -> (b: bool)
        ensures
            b == self.spec_overlaps(other),
    {
        let d: u128 = dist_sq(self.center, other.center);
        if self.radius as u128 >= 0x8_0000_0000 || other.radius as u128 >= 0x8_0000_0000 {
            proof {
                let a = self.radius + other.radius;
                assert(a * a >= 0x8_0000_0000 * 0x8_0000_0000) by (nonlinear_arith)
                    requires
                        a >= 0x8_0000_0000,
                ;
            }
            return true;
        }
        let a: u128 = self.radius as u128 + other.radius as u128;
        assert(0 <= a * a <= 0x10_0000_0000 * 0x10_0000_0000) by (nonlinear_arith)
            requires
                0 <= a <= 0x10_0000_0000,
        ;
        a * a > d
    }

    #[verifier::when_used_as_spec(spec_contains)]
    pub fn contains(&self, p: GridPoint) -> (b: bool)
        ensures
            b == self.spec_contains(p),
    {
        let d: u128 = dist_sq(p, self.center);
        if self.radius as u128 >= 0x8_0000_0000 {
            proof {
                let r = self.radius as int;
                assert(r * r >= 0x8_0000_0000 * 0x8_0000_0000) by (nonlinear_arith)
                    requires
                        r >= 0x8_0000_0000,
                ;
            }
            return true;
        }
        let r: u128 = self.radius as u128;
        assert(0 <= r * r <= 0x8_0000_0000 * 0x8_0000_0000) by (nonlinear_arith)
            requires
                0 <= r <= 0x8_0000_0000,
        ;
        d <= r * r
    }

    /// A cursor over the cells of the filled circle.
    pub fn into_iter(self) -> (it: GridCircleIter)
        requires
            self.in_range(),
        ensures
            it.remaining() == self.spec_points(),
    {
        GridCircleIter::new(self.center, self.radius)
    }
}

/// A cursor over the cells of a filled circle. It walks the bounding square
/// and keeps the cells within reach of the center.
#[derive(Clone, Copy, Debug)]
pub struct GridCircleIter {
    rect_iter: GridRectIter,
    center: GridPoint,
    radius: u64,
}

impl GridCircleIter {
    #[verifier::type_invariant]
    spec fn inv(self) -> bool {
        &&& spec_circle_in_range(self.center, self.radius as int)
        &&& self.rect_iter.rect() == spec_circle_bounds(self.center, self.radius as int)
    }

    /// A cursor that stands before the first cell of the circle.
    pub fn new(center: GridPoint, radius: usize) -> (it: GridCircleIter)
        requires
            spec_circle_in_range(center, radius as int),
        ensures
            it.remaining() == spec_circle_bounds(center, radius as int).spec_points().filter(
                spec_reach_pred(center, radius as int),
            ),
    {
        let r: i64 = radius as i64;
        let side: u32 = (2 * r + 1) as u32;
        let rect = GridRect {
            pos: GridPoint { x: (center.x as i64 - r) as i32, y: (center.y as i64 - r) as i32 },
            size: GridSize { width: side, height: side },
        };
        GridCircleIter { rect_iter: GridRectIter::new(rect), center, radius: radius as u64 }
    }
}

impl PointIter for GridCircleIter {
    closed spec fn remaining(&self) -> Seq<GridPoint> {
        self.rect_iter.remaining().filter(spec_reach_pred(self.center, self.radius as int))
    }

    fn next(&mut self) -> (r: Option<GridPoint>) {
        proof {
            use_type_invariant(&*self);
        }
        let center = self.center;
        let radius = self.radius;
        let mut it = self.rect_iter;
        let ghost pred = spec_reach_pred(center, radius as int);
        let mut found: Option<GridPoint> = None;
        loop
            invariant_except_break
                found.is_none(),
                it.remaining().filter(pred) == old(self).remaining(),
            invariant
                radius <= 0x8000_0000,
                pred == spec_reach_pred(center, radius as int),
                it.rect() == spec_circle_bounds(center, radius as int),
            ensures
                old(self).remaining().len() == 0 ==> found.is_none() && it.remaining().filter(pred)
                    == old(self).remaining(),
                old(self).remaining().len() > 0 ==> found == Some(old(self).remaining()[0])
                    && it.remaining().filter(pred) == old(self).remaining().skip(1),
            decreases it.remaining().len(),
        {
            let ghost before = it.remaining();
            match it.next() {
                None => {
                    proof {
                        lemma_filter_empty(before, pred);
                    }
                    break ;
                },
                Some(p) => {
                    proof {
                        lemma_filter_first(before, pred);
                    }
                    if within_reach(center, radius, p) {
                        found = Some(p);
                        assert(it.remaining().filter(pred) =~= old(self).remaining().skip(1));
                        break ;
                    }
                },
            }
        }
        *self = GridCircleIter { rect_iter: it, center, radius };
        found
    }
}

/// A filled circle is symmetric about its center: with a cell it holds the
/// mirror images of that cell in both axes and in the diagonal.
pub proof fn lemma_circle_is_symmetric(center: GridPoint, radius: int, dx: int, dy: int)
    requires
        fits_i32(center.x + dx) && fits_i32(center.x - dx) && fits_i32(center.x + dy),
        fits_i32(center.y + dy) && fits_i32(center.y - dy) && fits_i32(center.y + dx),
    ensures
        ({
            let inside = |x: int, y: int|
                spec_within_reach(
                    center,
                    radius,
                    GridPoint { x: (center.x + x) as i32, y: (center.y + y) as i32 },
                );
            &&& inside(dx, dy) == inside(-dx, dy)
            &&& inside(dx, dy) == inside(dx, -dy)
            &&& inside(dx, dy) == inside(dy, dx)
        }),
{
    assert((-dx) * (-dx) == dx * dx && (-dy) * (-dy) == dy * dy) by (nonlinear_arith);
}

/// A filled circle of radius zero is its center cell alone.
pub proof fn lemma_circle_of_radius_zero(center: GridPoint)
    ensures
        spec_circle_in_range(center, 0),
        (GridCircle { center, radius: 0 }).spec_points() == seq![center],
{
    let c = GridCircle { center, radius: 0 };
    let b = c.spec_bounds();
    let pred = spec_reach_pred(center, 0);
    assert(b.size.width == 1 && b.size.height == 1 && b.pos == center);
    assert(b.size.spec_tile_count() == 1);
    assert(b.spec_point_at(0) == center);
    assert(b.spec_points() =~= seq![center]);
    assert(spec_dist_sq(center, center) == 0) by (nonlinear_arith)
        requires
            spec_dist_sq(center, center) == (center.x - center.x) * (center.x - center.x) + (
            center.y - center.y) * (center.y - center.y),
    ;
    assert(pred(center));
    lemma_filter_first(b.spec_points(), pred);
    lemma_filter_empty(b.spec_points().skip(1), pred);
    assert(seq![center] + b.spec_points().skip(1) =~= seq![center]);
}

/// The outline of a circle.
#[derive(Clone, Copy, Debug, PartialEq, Eq, Structural, Hash)]
pub struct GridCircleOutline {
    pub center: GridPoint,
    pub radius: usize,
}

impl Default for GridCircleOutline {
    fn default() -> (c: GridCircleOutline)
        ensures
            c == (GridCircleOutline { center: GridPoint { x: 0, y: 0 }, radius: 0 }),
    {
        GridCircleOutline { center: GridPoint { x: 0, y: 0 }, radius: 0 }
    }
}

/// The whole part of `(r + ½)²`.
pub open spec fn spec_reach_sq(radius: int) -> int {
    radius * radius + radius
}

/// The last row of the first octant: the whole part of `(r + ½) / √2`, which
/// is the largest `e` with `2·e² ≤ (r + ½)²`.
pub open spec fn spec_last_row(radius: int) -> nat {
    spec_isqrt((spec_reach_sq(radius) / 2) as nat)
}

/// How far the outline lies from the vertical axis in the given row: the
/// whole part of `√((r + ½)² − row²)`.
pub open spec fn spec_row_reach(radius: int, row: int) -> nat {
    spec_isqrt((spec_reach_sq(radius) - row * row) as nat)
}

/// The `k`-th of the eight cells that the outline has for the given row of
/// the first octant, `reach` cells from the axis: the cell and its mirror
/// images.
pub open spec fn spec_octant_point(center: GridPoint, row: int, reach: int, k: int) -> GridPoint {
    if k == 0 {
        GridPoint { x: (center.x - reach) as i32, y: (center.y + row) as i32 }
    } else if k == 1 {
        GridPoint { x: (center.x + reach) as i32, y: (center.y + row) as i32 }
    } else if k == 2 {
        GridPoint { x: (center.x - reach) as i32, y: (center.y - row) as i32 }
    } else if k == 3 {
        GridPoint { x: (center.x + reach) as i32, y: (center.y - row) as i32 }
    } else if k == 4 {
        GridPoint { x: (center.x + row) as i32, y: (center.y - reach) as i32 }
    } else if k == 5 {
        GridPoint { x: (center.x + row) as i32, y: (center.y + reach) as i32 }
    } else if k == 6 {
        GridPoint { x: (center.x - row) as i32, y: (center.y - reach) as i32 }
    } else {
        GridPoint { x: (center.x - row) as i32, y: (center.y + reach) as i32 }
    }
}

/// The `j`-th cell of the outline: eight cells for each row of the first
/// octant.
pub open spec fn spec_outline_point(center: GridPoint, radius: int, j: int) -> GridPoint {
    spec_octant_point(center, j / 8, spec_row_reach(radius, j / 8) as int, j % 8)
}

/// The cells of the outline in the order in which they are yielded. A cell
/// that is its own mirror image occurs more than once.
pub open spec fn spec_outline_points(center: GridPoint, radius: int) -> Seq<GridPoint> {
    Seq::new(8 * (spec_last_row(radius) + 1), |j: int| spec_outline_point(center, radius, j))
}

/// In every row up to the last one the outline stays within the radius, and
/// the row itself is not farther out than the radius.
pub proof fn lemma_row_reach_bounds(radius: int, row: int)
    requires
        0 <= radius,
        0 <= row <= spec_last_row(radius),
    ensures
        row <= radius,
        row * row <= spec_reach_sq(radius),
        spec_row_reach(radius, row) <= radius,
{
    let n = spec_reach_sq(radius);
    assert(n >= 0) by (nonlinear_arith)
        requires
            n == radius * radius + radius,
            radius >= 0,
    ;
    let e = spec_last_row(radius);
    lemma_isqrt_exists((n / 2) as nat);
    assert(e * e <= n / 2);
    assert(row * row <= e * e) by (nonlinear_arith)
        requires
            0 <= row <= e,
    ;
    assert(row * row <= n);
    if row > radius {
        assert(row * row >= (radius + 1) * (radius + 1)) by (nonlinear_arith)
            requires
                row >= radius + 1,
                radius >= 0,
        ;
        assert((radius + 1) * (radius + 1) > radius * radius + radius) by (nonlinear_arith)
            requires
                radius >= 0,
        ;
    }
    let m = (n - row * row) as nat;
    lemma_isqrt_exists(m);
    let d = spec_row_reach(radius, row);
    if d > radius {
        assert(d * d >= (radius + 1) * (radius + 1)) by (nonlinear_arith)
            requires
                d >= radius + 1,
                radius >= 0,
        ;
        assert((radius + 1) * (radius + 1) > radius * radius + radius) by (nonlinear_arith)
            requires
                radius >= 0,
        ;
        assert(row * row >= 0) by (nonlinear_arith);
    }
}

/// In real numbers: the last row `e` of the first octant is the whole part
/// of `(r + ½) / √2`, and the reach `d` of the outline in a row is the whole
/// part of `√((r + ½)² − row²)`. With all lengths doubled these are
/// statements about whole numbers.
pub proof fn lemma_outline_in_real_terms(radius: int, row: int)
    requires
        0 <= radius,
        0 <= row <= spec_last_row(radius),
    ensures
        ({
            let e = spec_last_row(radius) as int;
            let d = spec_row_reach(radius, row) as int;
            let reach = (2 * radius + 1) * (2 * radius + 1);
            &&& 2 * ((2 * e) * (2 * e)) <= reach < 2 * ((2 * e + 2) * (2 * e + 2))
            &&& (2 * d) * (2 * d) <= reach - (2 * row) * (2 * row) < (2 * d + 2) * (2 * d + 2)
        }),
{
    let n = spec_reach_sq(radius);
    let e = spec_last_row(radius) as int;
    let d = spec_row_reach(radius, row) as int;
    lemma_row_reach_bounds(radius, row);
    assert(n >= 0) by (nonlinear_arith)
        requires
            n == radius * radius + radius,
            radius >= 0,
    ;
    lemma_isqrt_exists((n / 2) as nat);
    lemma_isqrt_exists((n - row * row) as nat);
    assert((2 * radius + 1) * (2 * radius + 1) == 4 * n + 1) by (nonlinear_arith)
        requires
            n == radius * radius + radius,
    ;
    assert(2 * ((2 * e) * (2 * e)) == 8 * (e * e) && 2 * ((2 * e + 2) * (2 * e + 2)) == 8 * ((e
        + 1) * (e + 1))) by (nonlinear_arith);
    assert((2 * d) * (2 * d) == 4 * (d * d) && (2 * d + 2) * (2 * d + 2) == 4 * ((d + 1) * (d
        + 1)) && (2 * row) * (2 * row) == 4 * (row * row)) by (nonlinear_arith);
}

impl GridCircleOutline {
    /// Whether every cell of the outline's bounding square is a point.
    pub open spec fn in_range(&self) -> bool {
        spec_circle_in_range(self.center, self.radius as int)
    }

    /// The cells of the outline in the order in which they are yielded.
    pub open spec fn spec_points(&self) -> Seq<GridPoint> {
        spec_outline_points(self.center, self.radius as int)
    }

    /// The bounding square of the outline.
    pub open spec fn spec_bounds(&self) -> GridRect {
        spec_circle_bounds(self.center, self.radius as int)
    }

    pub fn new(center: GridPoint, radius: usize) -> (c: GridCircleOutline)
        ensures
            c.center == center,
            c.radius == radius,
    {
        GridCircleOutline { center, radius }
    }

    /// An outline around the origin.
    pub fn origin(radius: usize) -> (c: GridCircleOutline)
        ensures
            c.center == (GridPoint { x: 0, y: 0 }),
            c.radius == radius,
    {
        GridCircleOutline { center: GridPoint { x: 0, y: 0 }, radius }
    }

    /// The filled circle with this outline's center and radius.
    pub fn filled(&self) -> (c: GridCircle)
        ensures
            c.center == self.center,
            c.radius == self.radius,
    {
        GridCircle { center: self.center, radius: self.radius }
    }

    /// A cursor over the cells of the outline.
    pub fn into_iter(self) -> (it: GridCircleOutlineIter)
        requires
            self.in_range(),
        ensures
            it.remaining() == self.spec_points(),
    {
        GridCircleOutlineIter::new(self.center, self.radius)
    }
}

/// A cursor over the cells of a circle outline. It walks the rows of the
/// first octant and yields, for each row, the cell of the outline in that
/// row together with its seven mirror images.
#[derive(Clone, Copy, Debug)]
pub struct GridCircleOutlineIter {
    center: GridPoint,
    radius: u64,
    /// The next row to be worked out.
    r: u64,
    /// The last row of the octant.
    end: u64,
    /// The reach of the outline in row `r - 1`.
    reach: u64,
    /// How many of the eight cells of row `r - 1` have been yielded.
    curr: u8,
}

impl GridCircleOutlineIter {
    #[verifier::type_invariant]
    spec fn inv(self) -> bool {
        &&& spec_circle_in_range(self.center, self.radius as int)
        &&& self.end == spec_last_row(self.radius as int)
        &&& self.r <= self.end + 1
        &&& self.curr <= 8
        &&& self.curr < 8 ==> self.r >= 1 && self.reach == spec_row_reach(
            self.radius as int,
            self.r - 1,
        )
        &&& self.r == 0 ==> self.curr == 8
    }

    /// How many cells the cursor has yielded.
    spec fn yielded(&self) -> int {
        8 * self.r + self.curr - 8
    }

    /// A cursor that stands before the first cell of the outline.
    pub fn new(center: GridPoint, radius: usize) -> (it: GridCircleOutlineIter)
        requires
            spec_circle_in_range(center, radius as int),
        ensures
            it.remaining() == spec_outline_points(center, radius as int),
    {
        let r: u128 = radius as u128;
        assert(0 <= r * r <= 0x8000_0000 * 0x8000_0000) by (nonlinear_arith)
            requires
                0 <= r <= 0x8000_0000,
        ;
        let end: u128 = isqrt((r * r + r) / 2);
        proof {
            lemma_square_bound(end as int, 0x8000_0000);
        }
        let it = GridCircleOutlineIter {
            center,
            radius: radius as u64,
            r: 0,
            end: end as u64,
            reach: 0,
            curr: 8,
        };
        assert(it.remaining() =~= spec_outline_points(center, radius as int));
        it
    }
}

/// A number whose square is at most the square of `b` is at most `b`.
pub proof fn lemma_square_bound(a: int, b: int)
    requires
        0 <= a,
        0 <= b,
        a * a <= b * b + b,
    ensures
        a <= b,
{
    if a > b {
        assert(a * a >= (b + 1) * (b + 1)) by (nonlinear_arith)
            requires
                a >= b + 1,
                b >= 0,
        ;
        assert((b + 1) * (b + 1) > b * b + b) by (nonlinear_arith)
            requires
                b >= 0,
        ;
    }
}

impl PointIter for GridCircleOutlineIter {
    closed spec fn remaining(&self) -> Seq<GridPoint> {
        spec_outline_points(self.center, self.radius as int).skip(self.yielded())
    }

    fn next(&mut self) -> (res: Option<GridPoint>) {
        proof {
            use_type_invariant(&*self);
        }
        proof {
            lemma_row_reach_bounds(self.radius as int, self.end as int);
        }
        let center = self.center;
        let mut row_next: u64 = self.r;
        let mut reach: u64 = self.reach;
        let mut curr: u8 = self.curr;
        if curr >= 8 {
            if row_next > self.end {
                return None;
            }
            let r: u128 = self.radius as u128;
            let row: u128 = row_next as u128;
            proof {
                lemma_row_reach_bounds(self.radius as int, row_next as int);
            }
            assert(0 <= r * r <= 0x8000_0000 * 0x8000_0000) by (nonlinear_arith)
                requires
                    0 <= r <= 0x8000_0000,
            ;
            assert(0 <= row * row <= 0x8000_0000 * 0x8000_0000) by (nonlinear_arith)
                requires
                    0 <= row <= 0x8000_0000,
            ;
            let d: u128 = isqrt(r * r + r - row * row);
            reach = d as u64;
            curr = 0;
            row_next = row_next + 1;
        }
        let row: i64 = (row_next - 1) as i64;
        proof {
            lemma_row_reach_bounds(self.radius as int, row as int);
        }
        let d: i64 = reach as i64;
        let cx: i64 = center.x as i64;
        let cy: i64 = center.y as i64;
        let p = if curr == 0 {
            GridPoint { x: (cx - d) as i32, y: (cy + row) as i32 }
        } else if curr == 1 {
            GridPoint { x: (cx + d) as i32, y: (cy + row) as i32 }
        } else if curr == 2 {
            GridPoint { x: (cx - d) as i32, y: (cy - row) as i32 }
        } else if curr == 3 {
            GridPoint { x: (cx + d) as i32, y: (cy - row) as i32 }
        } else if curr == 4 {
            GridPoint { x: (cx + row) as i32, y: (cy - d) as i32 }
        } else if curr == 5 {
            GridPoint { x: (cx + row) as i32, y: (cy + d) as i32 }
        } else if curr == 6 {
            GridPoint { x: (cx - row) as i32, y: (cy - d) as i32 }
        } else {
            GridPoint { x: (cx - row) as i32, y: (cy + d) as i32 }
        };
        let ghost j = old(self).yielded();
        assert(j == 8 * row + curr);
        assert(j / 8 == row && j % 8 == curr as int);
        *self = GridCircleOutlineIter {
            center,
            radius: self.radius,
            r: row_next,
            end: self.end,
            reach,
            curr: curr + 1,
        };
        assert(old(self).remaining()[0] == p);
        assert(self.remaining() =~= old(self).remaining().skip(1));
        Some(p)
    }
}

/// The bounding square of a circle.
fn circle_bounds(center: GridPoint, radius: usize) -> (b: GridRect)
    requires
        spec_circle_in_range(center, radius as int),
    ensures
        b == spec_circle_bounds(center, radius as int),
        b.in_range(),
{
    let r: i64 = radius as i64;
    let side: u32 = (2 * r + 1) as u32;
    GridRect {
        pos: GridPoint { x: (center.x as i64 - r) as i32, y: (center.y as i64 - r) as i32 },
        size: GridSize { width: side, height: side },
    }
}

impl GridShape for GridCircle {
    open spec fn shape_points(&self) -> Seq<GridPoint> {
        self.spec_points()
    }

    open spec fn shape_pos(&self) -> GridPoint {
        self.center
    }

    open spec fn shape_bounds(&self) -> GridRect {
        self.spec_bounds()
    }

    open spec fn shape_in_range(&self) -> bool {
        self.in_range()
    }

    open spec fn shape_moved(&self, pos: GridPoint) -> GridCircle {
        GridCircle { center: pos, radius: self.radius }
    }

    open spec fn shape_movable(&self, pos: GridPoint) -> bool {
        true
    }

    fn iter(&self) -> (it: GridShapeIterator) {
        GridShapeIterator::Circle(GridCircleIter::new(self.center, self.radius))
    }

    fn pos(&self) -> (p: GridPoint) {
        self.center
    }

    fn set_pos(&mut self, pos: GridPoint) {
        self.center = pos;
    }

    fn bounds(&self) -> (b: GridRect) {
        let b = circle_bounds(self.center, self.radius);
        proof {
            lemma_rect_encloses_itself(b);
            lemma_filter_enclosed(
                b,
                b.spec_points(),
                spec_reach_pred(self.center, self.radius as int),
            );
            lemma_circle_touches_its_bounds(*self);
        }
        b
    }
}

/// Every cell of a circle outline lies in the bounding square of the
/// circle.
pub proof fn lemma_outline_enclosed(center: GridPoint, radius: int)
    requires
        spec_circle_in_range(center, radius),
    ensures
        spec_encloses(spec_circle_bounds(center, radius), spec_outline_points(center, radius)),
{
    let b = spec_circle_bounds(center, radius);
    let points = spec_outline_points(center, radius);
    assert forall|j: int| 0 <= j < points.len() implies b.spec_contains_point(
        #[trigger] points[j],
    ) by {
        lemma_row_reach_bounds(radius, j / 8);
    }
}

impl GridShape for GridCircleOutline {
    open spec fn shape_points(&self) -> Seq<GridPoint> {
        self.spec_points()
    }

    open spec fn shape_pos(&self) -> GridPoint {
        self.center
    }

    open spec fn shape_bounds(&self) -> GridRect {
        self.spec_bounds()
    }

    open spec fn shape_in_range(&self) -> bool {
        self.in_range()
    }

    open spec fn shape_moved(&self, pos: GridPoint) -> GridCircleOutline {
        GridCircleOutline { center: pos, radius: self.radius }
    }

    open spec fn shape_movable(&self, pos: GridPoint) -> bool {
        true
    }

    fn iter(&self) -> (it: GridShapeIterator) {
        GridShapeIterator::CircleOutline(GridCircleOutlineIter::new(self.center, self.radius))
    }

    fn pos(&self) -> (p: GridPoint) {
        self.center
    }

    fn set_pos(&mut self, pos: GridPoint) {
        self.center = pos;
    }

    fn bounds(&self) -> (b: GridRect) {
        proof {
            lemma_outline_enclosed(self.center, self.radius as int);
            lemma_outline_touches_its_bounds(self.center, self.radius as int);
        }
        circle_bounds(self.center, self.radius)
    }
}

/// A cell within reach of the center lies in the bounding square.
pub proof fn lemma_reach_is_bounded(center: GridPoint, radius: int, p: GridPoint)
    requires
        radius >= 0,
        spec_within_reach(center, radius, p),
    ensures
        -radius <= p.x - center.x <= radius,
        -radius <= p.y - center.y <= radius,
{
    let dx = p.x - center.x;
    let dy = p.y - center.y;
    lemma_reach_in_whole_numbers(spec_dist_sq(p, center), radius);
    assert(dx * dx <= radius * radius + radius && dy * dy <= radius * radius + radius)
        by (nonlinear_arith)
        requires
            dx * dx + dy * dy <= radius * radius + radius,
    ;
    if dx > radius || dx < -radius {
        assert(dx * dx >= (radius + 1) * (radius + 1)) by (nonlinear_arith)
            requires
                dx >= radius + 1 || dx <= -(radius + 1),
                radius >= 0,
        ;
        assert((radius + 1) * (radius + 1) > radius * radius + radius) by (nonlinear_arith)
            requires
                radius >= 0,
        ;
    }
    if dy > radius || dy < -radius {
        assert(dy * dy >= (radius + 1) * (radius + 1)) by (nonlinear_arith)
            requires
                dy >= radius + 1 || dy <= -(radius + 1),
                radius >= 0,
        ;
        assert((radius + 1) * (radius + 1) > radius * radius + radius) by (nonlinear_arith)
            requires
                radius >= 0,
        ;
    }
}

/// The cells that a filled circle enumerates are exactly the cells within
/// reach of its center.
pub proof fn lemma_circle_points_are_the_cells_within_reach(c: GridCircle, p: GridPoint)
    requires
        c.in_range(),
    ensures
        c.spec_points().contains(p) <==> c.spec_inside(p),
{
    let b = c.spec_bounds();
    let pred = spec_reach_pred(c.center, c.radius as int);
    if c.spec_points().contains(p) {
        b.spec_points().lemma_filter_contains_rev(pred, p);
        let i = choose|i: int| 0 <= i < c.spec_points().len() && c.spec_points()[i] == p;
        b.spec_points().lemma_filter_pred(pred, i);
    }
    if c.spec_inside(p) {
        lemma_reach_is_bounded(c.center, c.radius as int, p);
        crate::geometry::grid_rect::lemma_rect_points_complete(b, p);
        let i = (p.y - b.pos.y) * b.size.width + (p.x - b.pos.x);
        assert(pred(b.spec_points()[i]));
        b.spec_points().lemma_filter_contains(pred, i);
    }
}

/// The four cells that lie `radius` cells from the center along an axis are
/// cells of the filled circle, so that the circle touches all four edges of
/// its bounding square.
pub proof fn lemma_circle_touches_its_bounds(c: GridCircle)
    requires
        c.in_range(),
    ensures
        spec_touches(c.spec_bounds(), c.spec_points()),
{
    let r = c.radius as int;
    let left = GridPoint { x: (c.center.x - r) as i32, y: c.center.y };
    let right = GridPoint { x: (c.center.x + r) as i32, y: c.center.y };
    let bottom = GridPoint { x: c.center.x, y: (c.center.y - r) as i32 };
    let top = GridPoint { x: c.center.x, y: (c.center.y + r) as i32 };
    assert(4 * (r * r) <= (2 * r + 1) * (2 * r + 1) && (-r) * (-r) == r * r && 0 * 0 == 0)
        by (nonlinear_arith)
        requires
            r >= 0,
    ;
    assert(spec_dist_sq(left, c.center) == (-r) * (-r) + 0 * 0);
    assert(spec_dist_sq(right, c.center) == r * r + 0 * 0);
    assert(spec_dist_sq(bottom, c.center) == 0 * 0 + (-r) * (-r));
    assert(spec_dist_sq(top, c.center) == 0 * 0 + r * r);
    lemma_circle_points_are_the_cells_within_reach(c, left);
    lemma_circle_points_are_the_cells_within_reach(c, right);
    lemma_circle_points_are_the_cells_within_reach(c, bottom);
    lemma_circle_points_are_the_cells_within_reach(c, top);
    lemma_touches(c.spec_bounds(), c.spec_points(), left, right, bottom, top);
}

/// In row `0` the outline reaches `radius` cells from the center, so that
/// it touches all four edges of its bounding square.
pub proof fn lemma_outline_touches_its_bounds(center: GridPoint, radius: int)
    requires
        spec_circle_in_range(center, radius),
    ensures
        spec_row_reach(radius, 0) == radius,
        spec_touches(spec_circle_bounds(center, radius), spec_outline_points(center, radius)),
{
    let n = spec_reach_sq(radius);
    assert(radius * radius <= n < (radius + 1) * (radius + 1) && n >= 0 && 0 * 0 == 0)
        by (nonlinear_arith)
        requires
            n == radius * radius + radius,
            radius >= 0,
    ;
    assert(n - 0 * 0 == n);
    crate::math::lemma_isqrt_is(n as nat, radius as nat);
    let points = spec_outline_points(center, radius);
    let b = spec_circle_bounds(center, radius);
    assert(points.len() >= 8);
    assert(points[0].x == b.pos.x);
    assert(points[1].x == b.max_x());
    assert(points[4].y == b.pos.y);
    assert(points[5].y == b.max_y());
}

} // verus!
