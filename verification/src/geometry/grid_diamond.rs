//! Diamonds on the grid: the cells within a taxicab distance of a center.
use vstd::prelude::*;
use crate::geometry::grid_circle::{spec_circle_bounds, spec_circle_in_range};
use crate::geometry::grid_rect::GridRect;
use crate::geometry::grid_shape::{
    GridShape, GridShapeIterator, PointIter, lemma_touches, spec_encloses, spec_touches,
};
use crate::point::GridSize;
use crate::point::GridPoint;

verus! {

/// The `j`-th cell of ring `k` around `center`, for `k ≥ 1`.
///
/// The ring starts at the cell `k` steps above the center and runs through
/// four sides of `k` cells each: down-right to the rightmost cell,
/// down-left to the lowest, up-left to the leftmost, and up-right until one
/// step short of the start.
pub open spec fn spec_ring_point(center: GridPoint, k: int, j: int) -> GridPoint {
    let side = j / k;
    let t = j % k;
    if side == 0 {
        GridPoint { x: (center.x + t) as i32, y: (center.y + k - t) as i32 }
    } else if side == 1 {
        GridPoint { x: (center.x + k - t) as i32, y: (center.y - t) as i32 }
    } else if side == 2 {
        GridPoint { x: (center.x - t) as i32, y: (center.y - k + t) as i32 }
    } else {
        GridPoint { x: (center.x - k + t) as i32, y: (center.y + t) as i32 }
    }
}

/// The number of cells in ring `k`: one for the center, `4·k` for every
/// other ring.
pub open spec fn spec_ring_len(k: nat) -> nat {
    if k == 0 {
        1
    } else {
        4 * k
    }
}

/// The cells of ring `k` around `center`, in walking order. Ring `0` is the
/// center alone.
pub open spec fn spec_ring(center: GridPoint, k: nat) -> Seq<GridPoint> {
    if k == 0 {
        seq![center]
    } else {
        Seq::new(4 * k, |j: int| spec_ring_point(center, k as int, j))
    }
}

/// The rings `from ..= to` around `center`, one after the other.
pub open spec fn spec_rings(center: GridPoint, from: nat, to: nat) -> Seq<GridPoint>
    decreases to + 1 - from,
{
    if from > to {
        Seq::empty()
    } else {
        spec_ring(center, from) + spec_rings(center, from + 1, to)
    }
}

/// Every ring holds as many cells as [`spec_ring_len`] says: one for the
/// center, and four times its number for every other ring.
pub proof fn lemma_ring_len(center: GridPoint, k: nat)
    ensures
        spec_ring(center, k).len() == spec_ring_len(k),
        k >= 1 ==> spec_ring(center, k).len() == 4 * k,
        k == 0 ==> spec_ring(center, k).len() == 1,
{
}

/// The rings `from ..= to`, for `from ≥ 1`, hold
/// `2·to·(to + 1) − 2·from·(from − 1)` cells between them.
pub proof fn lemma_rings_len(center: GridPoint, from: nat, to: nat)
    requires
        1 <= from <= to + 1,
    ensures
        spec_rings(center, from, to).len() == 2 * to * (to + 1) - 2 * from * (from - 1),
    decreases to + 1 - from,
{
    if from <= to {
        lemma_rings_len(center, from + 1, to);
        assert(4 * from + 2 * to * (to + 1) - 2 * (from + 1) * from == 2 * to * (to + 1) - 2 * from
            * (from - 1)) by (nonlinear_arith);
    } else {
        assert(2 * to * (to + 1) - 2 * from * (from - 1) == 0) by (nonlinear_arith)
            requires
                from == to + 1,
        ;
    }
}

/// A diamond of radius `r` holds `1 + 2·r·(r + 1)` cells.
pub proof fn lemma_diamond_len(center: GridPoint, radius: nat)
    ensures
        spec_rings(center, 0, radius).len() == 1 + 2 * radius * (radius + 1),
{
    lemma_rings_len(center, 1, radius);
    assert(spec_rings(center, 0, radius) == spec_ring(center, 0) + spec_rings(center, 1, radius));
}

/// An index into ring `k` splits into one of four sides and a step below
/// `k` along that side.
pub proof fn lemma_ring_index(k: int, j: int)
    requires
        k >= 1,
        0 <= j < 4 * k,
    ensures
        0 <= j / k < 4,
        0 <= j % k < k,
        j == (j / k) * k + j % k,
{
    vstd::arithmetic::div_mod::lemma_fundamental_div_mod(j, k);
    vstd::arithmetic::div_mod::lemma_mod_bound(j, k);
    vstd::arithmetic::div_mod::lemma_div_pos_is_pos(j, k);
    assert(j < k * 4);
    vstd::arithmetic::div_mod::lemma_multiply_divide_lt(j, k, 4);
    assert(k * (j / k) == (j / k) * k) by (nonlinear_arith);
}

/// Every cell of ring `k` lies at taxicab distance exactly `k` from the
/// center.
pub proof fn lemma_ring_distance(center: GridPoint, k: nat, j: int)
    requires
        spec_circle_in_range(center, k as int),
        0 <= j < spec_ring_len(k),
    ensures
        spec_ring(center, k)[j].spec_taxi_dist(center) == k,
{
    if k >= 1 {
        lemma_ring_index(k as int, j);
    }
}

/// A diamond: the cells within taxicab distance `radius` of `pos`.
#[derive(Clone, Copy, Debug, PartialEq, Eq, Structural, Hash)]
pub struct GridDiamond {
    pub pos: GridPoint,
    pub radius: usize,
}

impl Default for GridDiamond {
    fn default() -> (d: GridDiamond)
        ensures
            d == (GridDiamond { pos: GridPoint { x: 0, y: 0 }, radius: 0 }),
    {
        GridDiamond { pos: GridPoint { x: 0, y: 0 }, radius: 0 }
    }
}

impl GridDiamond {
    /// Whether every cell of the diamond's bounding square is a point.
    pub open spec fn in_range(&self) -> bool {
        spec_circle_in_range(self.pos, self.radius as int)
    }

    /// The cells of the diamond: the center, then ring after ring outwards.
    pub open spec fn spec_points(&self) -> Seq<GridPoint> {
        spec_rings(self.pos, 0, self.radius as nat)
    }

    /// The bounding square of the diamond.
    pub open spec fn spec_bounds(&self) -> GridRect {
        spec_circle_bounds(self.pos, self.radius as int)
    }

    pub fn new(pos: GridPoint, size: usize) -> (d: GridDiamond)
        ensures
            d.pos == pos,
            d.radius == size,
    {
        GridDiamond { pos, radius: size }
    }

    /// A diamond around the origin.
    pub fn origin(size: usize) -> (d: GridDiamond)
        ensures
            d.pos == (GridPoint { x: 0, y: 0 }),
            d.radius == size,
    {
        GridDiamond { pos: GridPoint { x: 0, y: 0 }, radius: size }
    }

    /// A cursor over the cells of the diamond.
    pub fn into_iter(self) -> (it: GridDiamondIter)
        requires
            self.in_range(),
        ensures
            it.remaining() == self.spec_points(),
    {
        GridDiamondIter::new(self.pos, self.radius)
    }
}

/// A cursor over the cells of a diamond, ring by ring.
#[derive(Clone, Copy, Debug, PartialEq, Eq)]
pub struct GridDiamondIter {
    origin: GridPoint,
    /// The ring that is being walked.
    layer: u64,
    /// The index within the ring of the next cell.
    i: u64,
    /// The number of the last ring.
    size: u64,
}

impl GridDiamondIter {
    #[verifier::type_invariant]
    spec fn inv(self) -> bool {
        &&& spec_circle_in_range(self.origin, self.size as int)
        &&& self.layer <= self.size + 1
        &&& self.layer <= self.size ==> self.i < spec_ring_len(self.layer as nat)
    }

    /// A cursor that stands before the center of the diamond.
    pub fn new(pos: GridPoint, size: usize) -> (it: GridDiamondIter)
        requires
            spec_circle_in_range(pos, size as int),
        ensures
            it.remaining() == spec_rings(pos, 0, size as nat),
    {
        let it = GridDiamondIter { origin: pos, layer: 0, i: 0, size: size as u64 };
        assert(spec_ring(pos, 0).skip(0) =~= spec_ring(pos, 0));
        it
    }
}

impl PointIter for GridDiamondIter {
    closed spec fn remaining(&self) -> Seq<GridPoint> {
        if self.layer > self.size {
            Seq::empty()
        } else {
            spec_ring(self.origin, self.layer as nat).skip(self.i as int) + spec_rings(
                self.origin,
                (self.layer + 1) as nat,
                self.size as nat,
            )
        }
    }

    fn next(&mut self) -> (r: Option<GridPoint>) {
        proof {
            use_type_invariant(&*self);
        }
        if self.layer > self.size {
            return None;
        }
        let k: u64 = self.layer;
        let i: u64 = self.i;
        let cx: i64 = self.origin.x as i64;
        let cy: i64 = self.origin.y as i64;
        let p = if k == 0 {
            self.origin
        } else {
            proof {
                lemma_ring_index(k as int, i as int);
            }
            let side: u64 = i / k;
            let t: i64 = (i % k) as i64;
            let d: i64 = k as i64;
            if side == 0 {
                GridPoint { x: (cx + t) as i32, y: (cy + d - t) as i32 }
            } else if side == 1 {
                GridPoint { x: (cx + d - t) as i32, y: (cy - t) as i32 }
            } else if side == 2 {
                GridPoint { x: (cx - t) as i32, y: (cy - d + t) as i32 }
            } else {
                GridPoint { x: (cx - d + t) as i32, y: (cy + t) as i32 }
            }
        };
        let len: u64 = if k == 0 { 1 } else { 4 * k };
        let ghost ring = spec_ring(self.origin, k as nat);
        let ghost rest = spec_rings(self.origin, (k + 1) as nat, self.size as nat);
        assert(ring.skip(i as int)[0] == p);
        if i + 1 >= len {
            *self = GridDiamondIter { origin: self.origin, layer: k + 1, i: 0, size: self.size };
            assert(self.remaining() =~= old(self).remaining().skip(1)) by {
                assert(ring.skip(i as int).len() == 1);
                if k + 1 <= self.size {
                    let next_ring = spec_ring(self.origin, (k + 1) as nat);
                    assert(next_ring.skip(0) =~= next_ring);
                    assert(rest == next_ring + spec_rings(
                        self.origin,
                        (k + 2) as nat,
                        self.size as nat,
                    ));
                }
            }
        } else {
            *self = GridDiamondIter { origin: self.origin, layer: k, i: i + 1, size: self.size };
            assert(self.remaining() =~= old(self).remaining().skip(1));
        }
        Some(p)
    }
}

/// Every cell of the rings `from ..= to` lies in the bounding square of the
/// diamond of radius `to`.
pub proof fn lemma_rings_enclosed(center: GridPoint, from: nat, to: nat)
    requires
        spec_circle_in_range(center, to as int),
    ensures
        spec_encloses(spec_circle_bounds(center, to as int), spec_rings(center, from, to)),
    decreases to + 1 - from,
{
    let b = spec_circle_bounds(center, to as int);
    if from <= to {
        lemma_rings_enclosed(center, from + 1, to);
        let ring = spec_ring(center, from);
        let rest = spec_rings(center, from + 1, to);
        assert forall|i: int| 0 <= i < (ring + rest).len() implies b.spec_contains_point(
            #[trigger] (ring + rest)[i],
        ) by {
            if i < ring.len() {
                if from >= 1 {
                    lemma_ring_index(from as int, i);
                }
            } else {
                assert((ring + rest)[i] == rest[i - ring.len()]);
            }
        }
    }
}

impl GridShape for GridDiamond {
    open spec fn shape_points(&self) -> Seq<GridPoint> {
        self.spec_points()
    }

    open spec fn shape_pos(&self) -> GridPoint {
        self.pos
    }

    open spec fn shape_bounds(&self) -> GridRect {
        self.spec_bounds()
    }

    open spec fn shape_in_range(&self) -> bool {
        self.in_range()
    }

    open spec fn shape_moved(&self, pos: GridPoint) -> GridDiamond {
        GridDiamond { pos, radius: self.radius }
    }

    open spec fn shape_movable(&self, pos: GridPoint) -> bool {
        true
    }

    fn iter(&self) -> (it: GridShapeIterator) {
        GridShapeIterator::Diamond(GridDiamondIter::new(self.pos, self.radius))
    }

    fn pos(&self) -> (p: GridPoint) {
        self.pos
    }

    fn set_pos(&mut self, pos: GridPoint) {
        self.pos = pos;
    }

    fn bounds(&self) -> (b: GridRect) {
        proof {
            lemma_rings_enclosed(self.pos, 0, self.radius as nat);
            let k = self.radius as int;
            let left = GridPoint { x: (self.pos.x - k) as i32, y: self.pos.y };
            let right = GridPoint { x: (self.pos.x + k) as i32, y: self.pos.y };
            let bottom = GridPoint { x: self.pos.x, y: (self.pos.y - k) as i32 };
            let top = GridPoint { x: self.pos.x, y: (self.pos.y + k) as i32 };
            lemma_diamond_is_filled(*self, left);
            lemma_diamond_is_filled(*self, right);
            lemma_diamond_is_filled(*self, bottom);
            lemma_diamond_is_filled(*self, top);
            lemma_touches(self.spec_bounds(), self.spec_points(), left, right, bottom, top);
        }
        let r: i64 = self.radius as i64;
        let side: u32 = (2 * r + 1) as u32;
        GridRect {
            pos: GridPoint { x: (self.pos.x as i64 - r) as i32, y: (self.pos.y as i64 - r) as i32 },
            size: GridSize { width: side, height: side },
        }
    }
}

/// Where the `j`-th cell of ring `k` lies, by its side.
proof fn lemma_ring_point_at(center: GridPoint, k: int, side: int, t: int)
    requires
        k >= 1,
        0 <= side < 4,
        0 <= t < k,
        spec_circle_in_range(center, k),
    ensures
        0 <= side * k + t < 4 * k,
        ({
            let p = spec_ring_point(center, k, side * k + t);
            let dx = p.x - center.x;
            let dy = p.y - center.y;
            if side == 0 {
                dx == t && dy == k - t
            } else if side == 1 {
                dx == k - t && dy == -t
            } else if side == 2 {
                dx == -t && dy == t - k
            } else {
                dx == t - k && dy == t
            }
        }),
{
    assert(0 <= side * k + t < 4 * k) by (nonlinear_arith)
        requires
            0 <= side < 4,
            0 <= t < k,
    ;
    vstd::arithmetic::div_mod::lemma_fundamental_div_mod_converse(side * k + t, k, side, t);
}

/// No cell occurs twice in a ring.
pub proof fn lemma_ring_distinct(center: GridPoint, k: nat, i: int, j: int)
    requires
        spec_circle_in_range(center, k as int),
        0 <= i < spec_ring_len(k),
        0 <= j < spec_ring_len(k),
        spec_ring(center, k)[i] == spec_ring(center, k)[j],
    ensures
        i == j,
{
    if k >= 1 {
        lemma_ring_index(k as int, i);
        lemma_ring_index(k as int, j);
        lemma_ring_point_at(center, k as int, i / (k as int), i % (k as int));
        lemma_ring_point_at(center, k as int, j / (k as int), j % (k as int));
    }
}

/// Every cell at taxicab distance `k` from the center occurs in ring `k`.
pub proof fn lemma_ring_complete(center: GridPoint, k: nat, p: GridPoint)
    requires
        spec_circle_in_range(center, k as int),
        p.spec_taxi_dist(center) == k,
    ensures
        spec_ring(center, k).contains(p),
{
    let dx = p.x - center.x;
    let dy = p.y - center.y;
    if k == 0 {
        assert(spec_ring(center, k)[0] == p);
    } else {
        let side: int = if dx >= 0 && dy > 0 {
            0
        } else if dx > 0 && dy <= 0 {
            1
        } else if dx <= 0 && dy < 0 {
            2
        } else {
            3
        };
        let t: int = if side == 0 {
            dx
        } else if side == 1 {
            -dy
        } else if side == 2 {
            -dx
        } else {
            dy
        };
        lemma_ring_point_at(center, k as int, side, t);
        assert(spec_ring(center, k)[side * k + t] == p);
    }
}

/// A cell of the rings `from ..= to` is a cell of one of those rings.
pub proof fn lemma_rings_member(center: GridPoint, from: nat, to: nat, i: int)
    requires
        0 <= i < spec_rings(center, from, to).len(),
    ensures
        exists|k: nat, j: int|
            from <= k <= to && 0 <= j < spec_ring_len(k) && spec_rings(center, from, to)[i]
                == #[trigger] spec_ring(center, k)[j],
    decreases to + 1 - from,
{
    let ring = spec_ring(center, from);
    if i < ring.len() {
        assert(spec_rings(center, from, to)[i] == spec_ring(center, from)[i]);
    } else {
        lemma_rings_member(center, from + 1, to, i - ring.len());
        let (k, j) = choose|k: nat, j: int|
            from + 1 <= k <= to && 0 <= j < spec_ring_len(k) && spec_rings(center, from + 1, to)[i
                - ring.len()] == #[trigger] spec_ring(center, k)[j];
        assert(spec_rings(center, from, to)[i] == spec_ring(center, k)[j]);
    }
}

/// Every cell of a ring in `from ..= to` occurs among the rings
/// `from ..= to`.
pub proof fn lemma_rings_hold_ring(center: GridPoint, from: nat, to: nat, k: nat, j: int)
    requires
        from <= k <= to,
        0 <= j < spec_ring_len(k),
    ensures
        spec_rings(center, from, to).contains(spec_ring(center, k)[j]),
    decreases to + 1 - from,
{
    let ring = spec_ring(center, from);
    let rest = spec_rings(center, from + 1, to);
    if k == from {
        assert((ring + rest)[j] == ring[j]);
    } else {
        lemma_rings_hold_ring(center, from + 1, to, k, j);
        let i = choose|i: int| 0 <= i < rest.len() && rest[i] == spec_ring(center, k)[j];
        assert((ring + rest)[ring.len() + i] == rest[i]);
    }
}

/// A diamond is filled: its cells are exactly the cells within taxicab
/// distance `radius` of its center.
pub proof fn lemma_diamond_is_filled(d: GridDiamond, p: GridPoint)
    requires
        d.in_range(),
    ensures
        d.spec_points().contains(p) <==> p.spec_taxi_dist(d.pos) <= d.radius,
{
    let points = d.spec_points();
    if points.contains(p) {
        let i = choose|i: int| 0 <= i < points.len() && points[i] == p;
        lemma_rings_member(d.pos, 0, d.radius as nat, i);
        let (k, j) = choose|k: nat, j: int|
            0 <= k <= d.radius && 0 <= j < spec_ring_len(k) && points[i] == #[trigger] spec_ring(
                d.pos,
                k,
            )[j];
        lemma_ring_distance(d.pos, k, j);
    }
    if p.spec_taxi_dist(d.pos) <= d.radius {
        let k = p.spec_taxi_dist(d.pos);
        lemma_ring_complete(d.pos, k, p);
        let j = choose|j: int| 0 <= j < spec_ring(d.pos, k).len() && spec_ring(d.pos, k)[j] == p;
        lemma_rings_hold_ring(d.pos, 0, d.radius as nat, k, j);
    }
}

} // verus!
