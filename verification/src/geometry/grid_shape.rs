//! What every shape on the grid offers: a cursor over its cells, a position
//! that can be changed, and a bounding rectangle.
use vstd::prelude::*;
use crate::geometry::grid_circle::{GridCircleIter, GridCircleOutlineIter};
use crate::geometry::grid_cone::GridConeIter;
use crate::geometry::grid_diamond::GridDiamondIter;
use crate::geometry::grid_line::{GridLineIter, GridLineOrthoIter};
use crate::geometry::grid_rect::{GridRect, GridRectIter};
use crate::point::GridPoint;

verus! {

/// A cursor over a finite sequence of cells.
///
/// The cells that are still to come are the cursor's whole state as far as
/// its users are concerned: each call of `next` hands out the first of them
/// and leaves the rest.
pub trait PointIter: Sized {
    /// The cells that are still to come, in the order in which `next` will
    /// yield them.
    spec fn remaining(&self) -> Seq<GridPoint>;

    /// Yields the first of the remaining cells, or `None` when none is left.
    fn next(&mut self) -> (r: Option<GridPoint>)
        ensures
            old(self).remaining().len() == 0 ==> r.is_none() && final(self).remaining()
                == old(self).remaining(),
            old(self).remaining().len() > 0 ==> r == Some(old(self).remaining()[0])
                && final(self).remaining() == old(self).remaining().skip(1),
    ;

    /// Drains the cursor into a vector.
    fn collect(self) -> (v: Vec<GridPoint>)
        ensures
            v@ == self.remaining(),
    {
        let mut it = self;
        let mut v: Vec<GridPoint> = Vec::new();
        loop
            invariant
                v@ + it.remaining() == self.remaining(),
            ensures
                v@ == self.remaining(),
            decreases it.remaining().len(),
        {
            let ghost before = it.remaining();
            match it.next() {
                Some(p) => {
                    v.push(p);
                    assert(v@ + it.remaining() =~= self.remaining()) by {
                        assert(before =~= seq![before[0]] + before.skip(1));
                    }
                },
                None => {
                    assert(v@ =~= v@ + it.remaining());
                    break ;
                },
            }
        }
        v
    }
}

/// Whether every cell of `points` is a cell of `bounds`.
pub open spec fn spec_encloses(bounds: GridRect, points: Seq<GridPoint>) -> bool {
    forall|i: int| 0 <= i < points.len() ==> bounds.spec_contains_point(#[trigger] points[i])
}

/// Whether some cell of `points` lies on each of the four edges of
/// `bounds`. A rectangle that holds every cell of `points` and is touched
/// by them on all four edges is the smallest rectangle that holds them.
pub open spec fn spec_touches(bounds: GridRect, points: Seq<GridPoint>) -> bool {
    &&& exists|i: int| 0 <= i < points.len() && (#[trigger] points[i]).x == bounds.pos.x
    &&& exists|i: int| 0 <= i < points.len() && (#[trigger] points[i]).x == bounds.max_x()
    &&& exists|i: int| 0 <= i < points.len() && (#[trigger] points[i]).y == bounds.pos.y
    &&& exists|i: int| 0 <= i < points.len() && (#[trigger] points[i]).y == bounds.max_y()
}

/// Four cells of `points`, one on each edge of `bounds`, show that `points`
/// touches `bounds`.
pub proof fn lemma_touches(
    bounds: GridRect,
    points: Seq<GridPoint>,
    left: GridPoint,
    right: GridPoint,
    bottom: GridPoint,
    top: GridPoint,
)
    requires
        points.contains(left),
        points.contains(right),
        points.contains(bottom),
        points.contains(top),
        left.x == bounds.pos.x,
        right.x == bounds.max_x(),
        bottom.y == bounds.pos.y,
        top.y == bounds.max_y(),
    ensures
        spec_touches(bounds, points),
{
    let l = choose|i: int| 0 <= i < points.len() && points[i] == left;
    let r = choose|i: int| 0 <= i < points.len() && points[i] == right;
    let b = choose|i: int| 0 <= i < points.len() && points[i] == bottom;
    let t = choose|i: int| 0 <= i < points.len() && points[i] == top;
    assert(points[l].x == bounds.pos.x);
    assert(points[r].x == bounds.max_x());
    assert(points[b].y == bounds.pos.y);
    assert(points[t].y == bounds.max_y());
}

/// A rectangle that holds a sequence of cells which touches all four edges
/// of `bounds` holds `bounds`.
pub proof fn lemma_touched_bounds_are_minimal(
    bounds: GridRect,
    points: Seq<GridPoint>,
    other: GridRect,
)
    requires
        spec_touches(bounds, points),
        spec_encloses(other, points),
    ensures
        other.spec_contains_rect(bounds),
{
    let l = choose|i: int| 0 <= i < points.len() && (#[trigger] points[i]).x == bounds.pos.x;
    let r = choose|i: int| 0 <= i < points.len() && (#[trigger] points[i]).x == bounds.max_x();
    let b = choose|i: int| 0 <= i < points.len() && (#[trigger] points[i]).y == bounds.pos.y;
    let t = choose|i: int| 0 <= i < points.len() && (#[trigger] points[i]).y == bounds.max_y();
    assert(other.spec_contains_point(points[l]));
    assert(other.spec_contains_point(points[r]));
    assert(other.spec_contains_point(points[b]));
    assert(other.spec_contains_point(points[t]));
}

/// Filtering a sequence keeps its first element if the predicate holds of
/// it, and goes on with the rest.
pub proof fn lemma_filter_first(s: Seq<GridPoint>, pred: spec_fn(GridPoint) -> bool)
    requires
        s.len() > 0,
    ensures
        pred(s[0]) ==> s.filter(pred) == seq![s[0]] + s.skip(1).filter(pred),
        !pred(s[0]) ==> s.filter(pred) == s.skip(1).filter(pred),
{
    assert(s =~= seq![s[0]] + s.skip(1));
    s.skip(1).lemma_filter_prepend(s[0], pred);
    assert(Seq::<GridPoint>::empty() + s.skip(1).filter(pred) =~= s.skip(1).filter(pred));
}

/// Nothing is left of an empty sequence after filtering.
pub proof fn lemma_filter_empty(s: Seq<GridPoint>, pred: spec_fn(GridPoint) -> bool)
    requires
        s.len() == 0,
    ensures
        s.filter(pred) == s,
{
    reveal(Seq::filter);
}

/// A rectangle that holds every cell of a sequence holds every cell that
/// a filter keeps of it.
pub proof fn lemma_filter_enclosed(
    bounds: GridRect,
    s: Seq<GridPoint>,
    pred: spec_fn(GridPoint) -> bool,
)
    requires
        spec_encloses(bounds, s),
    ensures
        spec_encloses(bounds, s.filter(pred)),
    decreases s.len(),
{
    reveal(Seq::filter);
    if s.len() > 0 {
        assert forall|i: int| 0 <= i < s.drop_last().len() implies bounds.spec_contains_point(
            #[trigger] s.drop_last()[i],
        ) by {
            assert(s.drop_last()[i] == s[i]);
        }
        lemma_filter_enclosed(bounds, s.drop_last(), pred);
        assert(bounds.spec_contains_point(s[s.len() - 1]));
    }
}

/// A shape on the grid.
pub trait GridShape: Sized {
    /// The cells of the shape, in the order in which they are enumerated.
    spec fn shape_points(&self) -> Seq<GridPoint>;

    /// The position of the shape.
    spec fn shape_pos(&self) -> GridPoint;

    /// The smallest rectangle that holds the shape.
    spec fn shape_bounds(&self) -> GridRect;

    /// Whether all the coordinates of the shape can be held, so that it can
    /// be enumerated.
    spec fn shape_in_range(&self) -> bool;

    /// The shape moved to `pos`, its extent unchanged.
    spec fn shape_moved(&self, pos: GridPoint) -> Self;

    /// Whether the shape can be moved to `pos` without a coordinate of its
    /// own description leaving the range that can be held.
    spec fn shape_movable(&self, pos: GridPoint) -> bool;

    /// A cursor over all the cells of the shape.
    fn iter(&self) -> (it: GridShapeIterator)
        requires
            self.shape_in_range(),
        ensures
            it.remaining() == self.shape_points(),
    ;

    /// The position of the shape.
    fn pos(&self) -> (p: GridPoint)
        ensures
            p == self.shape_pos(),
    ;

    /// Moves the shape to `pos` without changing its size.
    fn set_pos(&mut self, pos: GridPoint)
        requires
            old(self).shape_movable(pos),
        ensures
            *final(self) == old(self).shape_moved(pos),
            final(self).shape_pos() == pos,
    ;

    /// The smallest rectangle that holds the whole shape.
    fn bounds(&self) -> (b: GridRect)
        requires
            self.shape_in_range(),
        ensures
            b == self.shape_bounds(),
            b.in_range(),
            spec_encloses(b, self.shape_points()),
            self.shape_points().len() > 0 ==> spec_touches(b, self.shape_points()),
    ;
}

/// A cursor over the cells of any shape. It yields exactly what the cursor
/// it wraps yields, in the same order.
#[derive(Clone, Copy, Debug)]
pub enum GridShapeIterator {
    Point(Option<GridPoint>),
    Circle(GridCircleIter),
    CircleOutline(GridCircleOutlineIter),
    Rect(GridRectIter),
    Line(GridLineIter),
    LineOrtho(GridLineOrthoIter),
    Cone(GridConeIter),
    Diamond(GridDiamondIter),
}

impl PointIter for GridShapeIterator {
    open spec fn remaining(&self) -> Seq<GridPoint> {
        match self {
            GridShapeIterator::Point(p) => match p {
                Some(p) => seq![*p],
                None => Seq::empty(),
            },
            GridShapeIterator::Circle(i) => i.remaining(),
            GridShapeIterator::CircleOutline(i) => i.remaining(),
            GridShapeIterator::Rect(i) => i.remaining(),
            GridShapeIterator::Line(i) => i.remaining(),
            GridShapeIterator::LineOrtho(i) => i.remaining(),
            GridShapeIterator::Cone(i) => i.remaining(),
            GridShapeIterator::Diamond(i) => i.remaining(),
        }
    }

    fn next(&mut self) -> (r: Option<GridPoint>) {
        match self {
            GridShapeIterator::Point(p) => {
                let r = *p;
                *p = None;
                assert(r.is_some() ==> self.remaining() =~= old(self).remaining().skip(1));
                r
            },
            GridShapeIterator::Circle(i) => i.next(),
            GridShapeIterator::CircleOutline(i) => i.next(),
            GridShapeIterator::Rect(i) => i.next(),
            GridShapeIterator::Line(i) => i.next(),
            GridShapeIterator::LineOrtho(i) => i.next(),
            GridShapeIterator::Cone(i) => i.next(),
            GridShapeIterator::Diamond(i) => i.next(),
        }
    }
}

} // verus!
