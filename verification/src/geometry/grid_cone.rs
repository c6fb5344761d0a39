//! Cones on the grid: triangles that open from an apex.
//!
//! A cone is held as the three whole-numbered vectors that span its
//! triangle. Turning a direction and an opening angle into those vectors
//! takes trigonometry, which is left to the caller.
use vstd::prelude::*;
use crate::geometry::grid_rect::{
    GridRect, GridRectIter, lemma_rect_encloses_itself, lemma_rect_points_complete,
};
use crate::geometry::grid_shape::{
    GridShape, GridShapeIterator, PointIter, lemma_filter_empty, lemma_filter_enclosed,
    lemma_filter_first, lemma_touches, spec_encloses, spec_touches,
};
use crate::point::{GridPoint, fits_i32};

verus! {

/// Twice the signed area of the triangle `p`, `a`, `b`: positive when the
/// three points turn one way, negative when they turn the other, and zero
/// when they lie on one line.
pub open spec fn spec_sign(p: GridPoint, a: GridPoint, b: GridPoint) -> int {
    (p.x - b.x) * (a.y - b.y) - (a.x - b.x) * (p.y - b.y)
}

/// Whether `pt` lies in the triangle `a`, `b`, `c`, its edges included: `pt`
/// does not lie strictly on different sides of two edges.
pub open spec fn spec_point_in_triangle(pt: GridPoint, a: GridPoint, b: GridPoint, c: GridPoint)
    -> bool
{
    let d1 = spec_sign(pt, a, b);
    let d2 = spec_sign(pt, b, c);
    let d3 = spec_sign(pt, c, a);
    let has_neg = d1 < 0 || d2 < 0 || d3 < 0;
    let has_pos = d1 > 0 || d2 > 0 || d3 > 0;
    !(has_neg && has_pos)
}

/// The test of [`spec_point_in_triangle`], as a predicate on cells.
pub open spec fn spec_triangle_pred(a: GridPoint, b: GridPoint, c: GridPoint) -> spec_fn(
    GridPoint,
) -> bool {
    |p: GridPoint| spec_point_in_triangle(p, a, b, c)
}

/// The smallest rectangle that holds the three points.
pub open spec fn spec_triangle_bounds(a: GridPoint, b: GridPoint, c: GridPoint) -> GridRect {
    GridRect::spec_from_points(a.spec_min(b).spec_min(c), a.spec_max(b).spec_max(c))
}

/// The cells of the triangle `a`, `b`, `c`: those cells of its bounding
/// rectangle that lie in the triangle, in the row-major order of the
/// rectangle.
pub open spec fn spec_triangle_points(a: GridPoint, b: GridPoint, c: GridPoint) -> Seq<GridPoint> {
    spec_triangle_bounds(a, b, c).spec_points().filter(spec_triangle_pred(a, b, c))
}

/// Twice the signed area of the triangle `p`, `a`, `b`.
pub fn sign(p: GridPoint, a: GridPoint, b: GridPoint) -> (s: i128)
    ensures
        s == spec_sign(p, a, b),
{
    let ax: i128 = p.x as i128 - b.x as i128;
    let ay: i128 = a.y as i128 - b.y as i128;
    let bx: i128 = a.x as i128 - b.x as i128;
    let by: i128 = p.y as i128 - b.y as i128;
    assert(-0x1_0000_0000_0000_0000 <= ax * ay <= 0x1_0000_0000_0000_0000) by (nonlinear_arith)
        requires
            -0x1_0000_0000 <= ax <= 0x1_0000_0000,
            -0x1_0000_0000 <= ay <= 0x1_0000_0000,
    ;
    assert(-0x1_0000_0000_0000_0000 <= bx * by <= 0x1_0000_0000_0000_0000) by (nonlinear_arith)
        requires
            -0x1_0000_0000 <= bx <= 0x1_0000_0000,
            -0x1_0000_0000 <= by <= 0x1_0000_0000,
    ;
    ax * ay - bx * by
}

/// Whether `pt` lies in the triangle `tri`, its edges included.
pub fn point_in_triangle(pt: GridPoint, tri: &[GridPoint; 3]) -> (inside: bool)
    ensures
        inside == spec_point_in_triangle(pt, tri[0], tri[1], tri[2]),
{
    let d1: i128 = sign(pt, tri[0], tri[1]);
    let d2: i128 = sign(pt, tri[1], tri[2]);
    let d3: i128 = sign(pt, tri[2], tri[0]);
    let has_neg = d1 < 0 || d2 < 0 || d3 < 0;
    let has_pos = d1 > 0 || d2 > 0 || d3 > 0;
    !(has_neg && has_pos)
}

/// A cone: the triangle between an apex and the two ends of its far edge.
#[derive(Clone, Copy, Debug, PartialEq, Eq, Structural, Hash)]
pub struct GridCone {
    /// The apex.
    pub pos: GridPoint,
    /// The vector from the apex to the middle of the far edge.
    pub reach: GridPoint,
    /// The vector from the middle of the far edge to its first end; the
    /// second end lies as far on the other side.
    pub spread: GridPoint,
}

impl Default for GridCone {
    fn default() -> (c: GridCone)
        ensures
            c == (GridCone {
                pos: GridPoint { x: 0, y: 0 },
                reach: GridPoint { x: 0, y: 0 },
                spread: GridPoint { x: 0, y: 0 },
            }),
    {
        GridCone {
            pos: GridPoint { x: 0, y: 0 },
            reach: GridPoint { x: 0, y: 0 },
            spread: GridPoint { x: 0, y: 0 },
        }
    }
}

impl GridCone {
    /// Whether the two ends of the far edge are points, and the bounding
    /// rectangle of the cone has a size that can be held.
    pub open spec fn in_range(&self) -> bool {
        &&& fits_i32(self.pos.x + self.reach.x + self.spread.x)
        &&& fits_i32(self.pos.y + self.reach.y + self.spread.y)
        &&& fits_i32(self.pos.x + self.reach.x - self.spread.x)
        &&& fits_i32(self.pos.y + self.reach.y - self.spread.y)
        &&& GridRect::span_fits(
            self.spec_corner(0).spec_min(self.spec_corner(1)).spec_min(self.spec_corner(2)),
            self.spec_corner(0).spec_max(self.spec_corner(1)).spec_max(self.spec_corner(2)),
        )
    }

    /// The `i`-th corner of the triangle: the apex, then the two ends of the
    /// far edge.
    pub open spec fn spec_corner(&self, i: int) -> GridPoint {
        if i == 0 {
            self.pos
        } else if i == 1 {
            GridPoint {
                x: (self.pos.x + self.reach.x + self.spread.x) as i32,
                y: (self.pos.y + self.reach.y + self.spread.y) as i32,
            }
        } else {
            GridPoint {
                x: (self.pos.x + self.reach.x - self.spread.x) as i32,
                y: (self.pos.y + self.reach.y - self.spread.y) as i32,
            }
        }
    }

    /// The bounding rectangle of the three corners.
    pub open spec fn spec_bounds(&self) -> GridRect {
        spec_triangle_bounds(self.spec_corner(0), self.spec_corner(1), self.spec_corner(2))
    }

    /// The cells of the cone.
    pub open spec fn spec_points(&self) -> Seq<GridPoint> {
        spec_triangle_points(self.spec_corner(0), self.spec_corner(1), self.spec_corner(2))
    }

    /// A cone with its apex at `pos`, the middle of its far edge at
    /// `pos + reach`, and the ends of that edge at `pos + reach ± spread`.
    pub fn new(pos: GridPoint, reach: GridPoint, spread: GridPoint) -> (c: GridCone)
        ensures
            c.pos == pos,
            c.reach == reach,
            c.spread == spread,
    {
        GridCone { pos, reach, spread }
    }

    /// A cone with its apex at the origin.
    pub fn origin(reach: GridPoint, spread: GridPoint) -> (c: GridCone)
        ensures
            c.pos == (GridPoint { x: 0, y: 0 }),
            c.reach == reach,
            c.spread == spread,
    {
        GridCone { pos: GridPoint { x: 0, y: 0 }, reach, spread }
    }

    /// The three corners of the cone: the apex first, then the two ends of
    /// the far edge.
    pub fn corners(&self) -> (c: [GridPoint; 3])
        requires
            self.in_range(),
        ensures
            c[0] == self.spec_corner(0),
            c[1] == self.spec_corner(1),
            c[2] == self.spec_corner(2),
    {
        let tx: i64 = self.pos.x as i64 + self.reach.x as i64;
        let ty: i64 = self.pos.y as i64 + self.reach.y as i64;
        let first = GridPoint {
            x: (tx + self.spread.x as i64) as i32,
            y: (ty + self.spread.y as i64) as i32,
        };
        let second = GridPoint {
            x: (tx - self.spread.x as i64) as i32,
            y: (ty - self.spread.y as i64) as i32,
        };
        [self.pos, first, second]
    }

    /// A cursor over the cells of the cone.
    pub fn into_iter(self) -> (it: GridConeIter)
        requires
            self.in_range(),
        ensures
            it.remaining() == self.spec_points(),
    {
        GridConeIter::from_cone(&self)
    }
}

/// A cursor over the cells of a cone. It walks the bounding rectangle of the
/// triangle and keeps the cells that lie in the triangle.
#[derive(Clone, Copy, Debug)]
pub struct GridConeIter {
    points: [GridPoint; 3],
    rect_iter: GridRectIter,
}

impl GridConeIter {
    /// A cursor that stands before the first cell of the cone.
    pub fn from_cone(cone: &GridCone) -> (it: GridConeIter)
        requires
            cone.in_range(),
        ensures
            it.remaining() == cone.spec_points(),
    {
        let points = cone.corners();
        let min = points[0].min(points[1]).min(points[2]);
        let max = points[0].max(points[1]).max(points[2]);
        let rect = GridRect::from_points(min, max);
        GridConeIter { points, rect_iter: GridRectIter::new(rect) }
    }
}

impl PointIter for GridConeIter {
    closed spec fn remaining(&self) -> Seq<GridPoint> {
        self.rect_iter.remaining().filter(
            spec_triangle_pred(self.points[0], self.points[1], self.points[2]),
        )
    }

    fn next(&mut self) -> (r: Option<GridPoint>) {
        let ghost pred = spec_triangle_pred(self.points[0], self.points[1], self.points[2]);
        loop
            invariant
                self.points == old(self).points,
                pred == spec_triangle_pred(self.points[0], self.points[1], self.points[2]),
                self.remaining() == old(self).remaining(),
            decreases self.rect_iter.remaining().len(),
        {
            let ghost before = self.rect_iter.remaining();
            match self.rect_iter.next() {
                None => {
                    proof {
                        lemma_filter_empty(before, pred);
                    }
                    return None;
                },
                Some(p) => {
                    proof {
                        lemma_filter_first(before, pred);
                    }
                    if point_in_triangle(p, &self.points) {
                        return Some(p);
                    }
                },
            }
        }
    }
}

impl GridShape for GridCone {
    open spec fn shape_points(&self) -> Seq<GridPoint> {
        self.spec_points()
    }

    open spec fn shape_pos(&self) -> GridPoint {
        self.pos
    }

    open spec fn shape_bounds(&self) -> GridRect {
        self.spec_bounds()
    }

    open spec fn shape_in_range(&self) -> bool {
        self.in_range()
    }

    open spec fn shape_moved(&self, pos: GridPoint) -> GridCone {
        GridCone { pos, reach: self.reach, spread: self.spread }
    }

    open spec fn shape_movable(&self, pos: GridPoint) -> bool {
        true
    }

    fn iter(&self) -> (it: GridShapeIterator) {
        GridShapeIterator::Cone(GridConeIter::from_cone(self))
    }

    fn pos(&self) -> (p: GridPoint) {
        self.pos
    }

    fn set_pos(&mut self, pos: GridPoint) {
        self.pos = pos;
    }

    fn bounds(&self) -> (b: GridRect) {
        let points = self.corners();
        let min = points[0].min(points[1]).min(points[2]);
        let max = points[0].max(points[1]).max(points[2]);
        let b = GridRect::from_points(min, max);
        proof {
            lemma_rect_encloses_itself(b);
            lemma_filter_enclosed(
                b,
                b.spec_points(),
                spec_triangle_pred(points[0], points[1], points[2]),
            );
            lemma_triangle_touches_its_bounds(points[0], points[1], points[2]);
        }
        b
    }
}

/// A corner of a triangle lies in the triangle.
pub proof fn lemma_corners_lie_in_triangle(a: GridPoint, b: GridPoint, c: GridPoint)
    ensures
        spec_point_in_triangle(a, a, b, c),
        spec_point_in_triangle(b, a, b, c),
        spec_point_in_triangle(c, a, b, c),
{
    assert(spec_sign(a, a, b) == 0 && spec_sign(a, c, a) == 0) by (nonlinear_arith)
        requires
            spec_sign(a, a, b) == (a.x - b.x) * (a.y - b.y) - (a.x - b.x) * (a.y - b.y),
            spec_sign(a, c, a) == (a.x - a.x) * (c.y - a.y) - (c.x - a.x) * (a.y - a.y),
    ;
    assert(spec_sign(b, a, b) == 0 && spec_sign(b, b, c) == 0) by (nonlinear_arith)
        requires
            spec_sign(b, a, b) == (b.x - b.x) * (a.y - b.y) - (a.x - b.x) * (b.y - b.y),
            spec_sign(b, b, c) == (b.x - c.x) * (b.y - c.y) - (b.x - c.x) * (b.y - c.y),
    ;
    assert(spec_sign(c, b, c) == 0 && spec_sign(c, c, a) == 0) by (nonlinear_arith)
        requires
            spec_sign(c, b, c) == (c.x - c.x) * (b.y - c.y) - (b.x - c.x) * (c.y - c.y),
            spec_sign(c, c, a) == (c.x - a.x) * (c.y - a.y) - (c.x - a.x) * (c.y - a.y),
    ;
}

/// The three corners of a triangle are among its cells, so that the
/// triangle touches all four edges of its bounding rectangle.
pub proof fn lemma_triangle_touches_its_bounds(a: GridPoint, b: GridPoint, c: GridPoint)
    requires
        GridRect::span_fits(a.spec_min(b).spec_min(c), a.spec_max(b).spec_max(c)),
    ensures
        spec_triangle_points(a, b, c).contains(a),
        spec_triangle_points(a, b, c).contains(b),
        spec_triangle_points(a, b, c).contains(c),
        spec_touches(spec_triangle_bounds(a, b, c), spec_triangle_points(a, b, c)),
{
    let bounds = spec_triangle_bounds(a, b, c);
    let pred = spec_triangle_pred(a, b, c);
    let cells = bounds.spec_points();
    lemma_corners_lie_in_triangle(a, b, c);
    lemma_rect_points_complete(bounds, a);
    lemma_rect_points_complete(bounds, b);
    lemma_rect_points_complete(bounds, c);
    let w = bounds.size.width;
    cells.lemma_filter_contains(pred, (a.y - bounds.pos.y) * w + (a.x - bounds.pos.x));
    cells.lemma_filter_contains(pred, (b.y - bounds.pos.y) * w + (b.x - bounds.pos.x));
    cells.lemma_filter_contains(pred, (c.y - bounds.pos.y) * w + (c.x - bounds.pos.x));
    let points = spec_triangle_points(a, b, c);
    let left = if a.x <= b.x && a.x <= c.x { a } else if b.x <= c.x { b } else { c };
    let right = if a.x >= b.x && a.x >= c.x { a } else if b.x >= c.x { b } else { c };
    let bottom = if a.y <= b.y && a.y <= c.y { a } else if b.y <= c.y { b } else { c };
    let top = if a.y >= b.y && a.y >= c.y { a } else if b.y >= c.y { b } else { c };
    lemma_touches(bounds, points, left, right, bottom, top);
}

} // verus!
