//! A rectangular grid of bits, for simple state across a large grid.
//!
//! The bits are held in a `bit_vec::BitVec`. What that vector holds is named
//! by [`spec_bits`]; the contracts of the private functions that call into
//! the vector are taken on trust from its source.
use vstd::prelude::*;
use bit_vec::BitVec;
use crate::geometry::grid_rect::{GridRect, GridRectIter, lemma_rect_encloses_itself};
use crate::geometry::grid_shape::{PointIter, spec_encloses};
use crate::geometry::sized_grid::{
    SizedGrid, lemma_cell_index_injective, lemma_plain_point, spec_bounds_at_origin,
    spec_cell_index, spec_holds,
};
use crate::pivot::{Pivot, PivotedPoint};
use crate::point::{GridPoint, GridSize};

verus! {

/// `bit_vec::BitVec`, which the verifier carries as an opaque value.
#[verifier::external_type_specification]
#[verifier::external_body]
#[verifier::reject_recursive_types(B)]
pub struct ExBitVec<B>(BitVec<B>);

/// The bits that a bit vector holds, in order.
pub uninterp spec fn spec_bits(v: BitVec<u32>) -> Seq<bool>;

/// `BitVec::new`: the vector that holds no bits.
#[verifier::external_body]
fn bits_new() -> (v: BitVec<u32>)
    ensures
        spec_bits(v) == Seq::<bool>::empty(),
{
    BitVec::new()
}

/// `BitVec::from_elem`: a vector of `len` bits that all equal `bit`.
#[verifier::external_body]
fn bits_from_elem(len: usize, bit: bool) -> (v: BitVec<u32>)
    ensures
        spec_bits(v) == Seq::new(len as nat, |i: int| bit),
{
    BitVec::from_elem(len, bit)
}

/// `BitVec::get`: the bit at index `i`, or `None` where the vector has no
/// such index.
#[verifier::external_body]
fn bits_get(v: &BitVec<u32>, i: usize) -> (r: Option<bool>)
    ensures
        i < spec_bits(*v).len() ==> r == Some(spec_bits(*v)[i as int]),
        i >= spec_bits(*v).len() ==> r.is_none(),
{
    v.get(i)
}

/// `BitVec::set`: sets the bit at index `i` and leaves the others as they
/// are. It panics on an index that the vector does not have.
#[verifier::external_body]
fn bits_set(v: &mut BitVec<u32>, i: usize, x: bool)
    requires
        i < spec_bits(*old(v)).len(),
    ensures
        spec_bits(*final(v)) == spec_bits(*old(v)).update(i as int, x),
{
    v.set(i, x)
}

/// `BitVec::fill`: sets every bit to `bit` and keeps the length.
#[verifier::external_body]
fn bits_fill(v: &mut BitVec<u32>, bit: bool)
    ensures
        spec_bits(*final(v)) == Seq::new(spec_bits(*old(v)).len(), |i: int| bit),
{
    v.fill(bit)
}

/// `BitVec::negate`: flips every bit and keeps the length.
#[verifier::external_body]
fn bits_negate(v: &mut BitVec<u32>)
    ensures
        spec_bits(*final(v)) == Seq::new(
            spec_bits(*old(v)).len(),
            |i: int| !spec_bits(*old(v))[i],
        ),
{
    v.negate()
}

/// Whether some bit of the sequence is set.
pub open spec fn spec_any_set(bits: Seq<bool>) -> bool {
    exists|i: int| 0 <= i < bits.len() && bits[i]
}

/// `BitVec::none`: whether no bit is set.
#[verifier::external_body]
fn bits_none(v: &BitVec<u32>) -> (r: bool)
    ensures
        r == !spec_any_set(spec_bits(*v)),
{
    v.none()
}

/// `BitVec::any`: whether some bit is set.
#[verifier::external_body]
fn bits_any(v: &BitVec<u32>) -> (r: bool)
    ensures
        r == spec_any_set(spec_bits(*v)),
{
    v.any()
}

/// `BitVec::clone`: a vector that holds the same bits.
#[verifier::external_body]
fn bits_clone(v: &BitVec<u32>) -> (r: BitVec<u32>)
    ensures
        spec_bits(r) == spec_bits(*v),
{
    v.clone()
}

/// `BitVec::iter`: the bits in order, collected into a vector.
#[verifier::external_body]
fn bits_to_vec(v: &BitVec<u32>) -> (r: Vec<bool>)
    ensures
        r@ == spec_bits(*v),
{
    v.iter().collect()
}

/// A rectangular grid of bits, stored row by row from the bottom.
pub struct BitGrid {
    bits: BitVec<u32>,
    size: GridSize,
}

impl View for BitGrid {
    type V = Seq<bool>;

    /// The bits of the grid, row by row from the bottom.
    closed spec fn view(&self) -> Seq<bool> {
        spec_bits(self.bits)
    }
}

impl SizedGrid for BitGrid {
    closed spec fn spec_size(&self) -> GridSize {
        self.size
    }

    fn size(&self) -> (s: GridSize) {
        self.size
    }
}

impl Clone for BitGrid {
    fn clone(&self) -> (g: BitGrid)
        ensures
            g@ == self@,
            g.spec_size() == self.spec_size(),
    {
        BitGrid { bits: bits_clone(&self.bits), size: self.size }
    }
}

impl Default for BitGrid {
    fn default() -> (g: BitGrid)
        ensures
            g.wf(),
            g@ == Seq::<bool>::empty(),
            g.spec_size() == (GridSize { width: 0, height: 0 }),
    {
        BitGrid { bits: bits_new(), size: GridSize { width: 0, height: 0 } }
    }
}

impl BitGrid {
    /// Whether the grid holds one bit for each of its cells, and their
    /// number fits the platform's indexing integer.
    pub open spec fn wf(&self) -> bool {
        self@.len() == self.spec_size().spec_tile_count() && self.spec_size().indexable()
    }

    /// The bit of the cell `xy`.
    pub open spec fn spec_get(&self, xy: GridPoint) -> bool {
        self@[spec_cell_index(self.spec_size(), xy)]
    }

    /// A grid of the given size with no bit set.
    pub fn new(size: GridSize) -> (g: BitGrid)
        requires
            size.indexable(),
        ensures
            g.wf(),
            g.spec_size() == size,
            g@ == Seq::new(size.spec_tile_count(), |i: int| false),
    {
        BitGrid { bits: bits_from_elem(size.tile_count(), false), size }
    }

    /// The grid with every bit set to `value`.
    pub fn with_value(self, value: bool) -> (g: BitGrid)
        requires
            self.wf(),
        ensures
            g.wf(),
            g.spec_size() == self.spec_size(),
            g@ == Seq::new(self@.len(), |i: int| value),
    {
        let mut g = self;
        g.set_all(value);
        g
    }

    /// The array index of a cell of the grid.
    fn index_of(&self, xy: GridPoint) -> (i: usize)
        requires
            self.wf(),
            spec_holds(self.spec_size(), xy),
        ensures
            i == spec_cell_index(self.spec_size(), xy),
            i < self@.len(),
    {
        proof {
            lemma_plain_point(self.size, xy);
        }
        self.transform_lti(PivotedPoint::new(xy, Pivot::BottomLeft))
    }

    /// The bit of the cell `xy`.
    pub fn get(&self, xy: GridPoint) -> (b: bool)
        requires
            self.wf(),
            spec_holds(self.spec_size(), xy),
        ensures
            b == self.spec_get(xy),
    {
        let i = self.index_of(xy);
        self.get_index(i)
    }

    /// The bit at array index `i`.
    pub fn get_index(&self, i: usize) -> (b: bool)
        requires
            i < self@.len(),
        ensures
            b == self@[i as int],
    {
        match bits_get(&self.bits, i) {
            Some(b) => b,
            None => false,
        }
    }

    /// Sets the bit of the cell `xy`.
    pub fn set_true(&mut self, xy: GridPoint)
        requires
            old(self).wf(),
            spec_holds(old(self).spec_size(), xy),
        ensures
            final(self).wf(),
            final(self).spec_size() == old(self).spec_size(),
            final(self)@ == old(self)@.update(spec_cell_index(old(self).spec_size(), xy), true),
    {
        self.set(xy, true);
    }

    /// Unsets the bit of the cell `xy`.
    pub fn set_false(&mut self, xy: GridPoint)
        requires
            old(self).wf(),
            spec_holds(old(self).spec_size(), xy),
        ensures
            final(self).wf(),
            final(self).spec_size() == old(self).spec_size(),
            final(self)@ == old(self)@.update(spec_cell_index(old(self).spec_size(), xy), false),
    {
        self.set(xy, false);
    }

    /// Gives the bit of the cell `xy` the given value and leaves every other
    /// bit as it is.
    pub fn set(&mut self, xy: GridPoint, value: bool)
        requires
            old(self).wf(),
            spec_holds(old(self).spec_size(), xy),
        ensures
            final(self).wf(),
            final(self).spec_size() == old(self).spec_size(),
            final(self)@ == old(self)@.update(spec_cell_index(old(self).spec_size(), xy), value),
    {
        let i = self.index_of(xy);
        bits_set(&mut self.bits, i, value);
    }

    /// Gives the bit at array index `i` the given value and leaves every
    /// other bit as it is.
    pub fn set_index(&mut self, i: usize, value: bool)
        requires
            i < old(self)@.len(),
        ensures
            final(self).spec_size() == old(self).spec_size(),
            final(self)@ == old(self)@.update(i as int, value),
    {
        bits_set(&mut self.bits, i, value);
    }

    /// Sets the bit at array index `i`.
    pub fn set_index_true(&mut self, i: usize)
        requires
            i < old(self)@.len(),
        ensures
            final(self).spec_size() == old(self).spec_size(),
            final(self)@ == old(self)@.update(i as int, true),
    {
        self.set_index(i, true);
    }

    /// Unsets the bit at array index `i`.
    pub fn set_index_false(&mut self, i: usize)
        requires
            i < old(self)@.len(),
        ensures
            final(self).spec_size() == old(self).spec_size(),
            final(self)@ == old(self)@.update(i as int, false),
    {
        self.set_index(i, false);
    }

    /// Flips the bit of the cell `xy`.
    pub fn toggle(&mut self, xy: GridPoint)
        requires
            old(self).wf(),
            spec_holds(old(self).spec_size(), xy),
        ensures
            final(self).wf(),
            final(self).spec_size() == old(self).spec_size(),
            final(self)@ == old(self)@.update(
                spec_cell_index(old(self).spec_size(), xy),
                !old(self).spec_get(xy),
            ),
    {
        let i = self.index_of(xy);
        self.toggle_index(i)
    }

    /// Flips the bit at array index `i`.
    pub fn toggle_index(&mut self, i: usize)
        requires
            i < old(self)@.len(),
        ensures
            final(self).spec_size() == old(self).spec_size(),
            final(self)@ == old(self)@.update(i as int, !old(self)@[i as int]),
    {
        let v = self.get_index(i);
        bits_set(&mut self.bits, i, !v);
    }

    /// Gives every bit the given value.
    pub fn set_all(&mut self, value: bool)
        ensures
            final(self).spec_size() == old(self).spec_size(),
            final(self)@ == Seq::new(old(self)@.len(), |i: int| value),
    {
        bits_fill(&mut self.bits, value);
    }

    /// The bit vector that holds the grid's bits.
    pub fn bits(&self) -> (b: &BitVec<u32>)
        ensures
            spec_bits(*b) == self@,
    {
        &self.bits
    }

    /// The bit vector that holds the grid's bits, to be changed in place.
    /// The grid holds whatever the caller leaves in the vector.
    pub fn bits_mut(&mut self) -> (b: &mut BitVec<u32>)
        ensures
            spec_bits(*b) == old(self)@,
            final(self)@ == spec_bits(*final(b)),
            final(self).spec_size() == old(self).spec_size(),
    {
        &mut self.bits
    }

    /// Whether some bit of the grid is set.
    pub fn any(&self) -> (b: bool)
        ensures
            b == spec_any_set(self@),
    {
        bits_any(&self.bits)
    }

    /// Whether no bit of the grid is set.
    pub fn none(&self) -> (b: bool)
        ensures
            b == !spec_any_set(self@),
    {
        bits_none(&self.bits)
    }

    /// Flips every bit of the grid.
    pub fn all_negate(&mut self)
        ensures
            final(self).spec_size() == old(self).spec_size(),
            final(self)@ == Seq::new(old(self)@.len(), |i: int| !old(self)@[i]),
    {
        bits_negate(&mut self.bits);
    }

    /// Unsets every bit of the grid.
    pub fn clear(&mut self)
        ensures
            final(self).spec_size() == old(self).spec_size(),
            final(self)@ == Seq::new(old(self)@.len(), |i: int| false),
    {
        bits_fill(&mut self.bits, false);
    }

    /// The bits of the grid, row by row from the bottom.
    pub fn iter(&self) -> (v: Vec<bool>)
        ensures
            v@ == self@,
    {
        bits_to_vec(&self.bits)
    }

    /// Every cell of the grid with its bit, row by row from the bottom.
    pub fn iter_xy(&self) -> (v: Vec<(GridPoint, bool)>)
        requires
            self.wf(),
            spec_bounds_at_origin(self.spec_size()).in_range(),
        ensures
            v@.len() == self@.len(),
            forall|i: int|
                0 <= i < v@.len() ==> (#[trigger] v@[i]).0 == spec_bounds_at_origin(
                    self.spec_size(),
                ).spec_points()[i] && v@[i].1 == self@[i],
    {
        let ghost points = spec_bounds_at_origin(self.spec_size()).spec_points();
        let mut it = self.iter_grid_points();
        let mut v: Vec<(GridPoint, bool)> = Vec::new();
        loop
            invariant
                self.wf(),
                points == spec_bounds_at_origin(self.spec_size()).spec_points(),
                points.len() == self@.len(),
                v@.len() + it.remaining().len() == points.len(),
                it.remaining() == points.skip(v@.len() as int),
                forall|i: int|
                    0 <= i < v@.len() ==> (#[trigger] v@[i]).0 == points[i] && v@[i].1 == self@[i],
            ensures
                v@.len() == points.len(),
            decreases it.remaining().len(),
        {
            match it.next() {
                Some(p) => {
                    let b = self.get_index(v.len());
                    v.push((p, b));
                },
                None => {
                    break ;
                },
            }
        }
        v
    }

    /// A grid of the size of `area` that holds, for every cell of `area`,
    /// the bit that this grid has for that cell. The cells are not moved:
    /// the bottom-left cell of `area` has to be the origin.
    pub fn clone_rect(&self, area: GridRect) -> (g: BitGrid)
        requires
            self.wf(),
            area.size.indexable(),
            area.in_range(),
            area.pos == (GridPoint { x: 0, y: 0 }),
            area.size.width <= self.spec_size().width,
            area.size.height <= self.spec_size().height,
        ensures
            g.wf(),
            g.spec_size() == area.size,
            forall|p: GridPoint|
                area.spec_contains_point(p) ==> g.spec_get(p) == self.spec_get(p),
    {
        let mut grid = BitGrid::new(area.size);
        let ghost points = area.spec_points();
        let mut it = area.iter_points();
        let ghost mut done: int = 0;
        proof {
            lemma_rect_encloses_itself(area);
        }
        loop
            invariant
                self.wf(),
                grid.wf(),
                grid.spec_size() == area.size,
                area.in_range(),
                area.pos == (GridPoint { x: 0, y: 0 }),
                area.size.width <= self.spec_size().width,
                area.size.height <= self.spec_size().height,
                points == area.spec_points(),
                spec_encloses(area, points),
                0 <= done <= points.len(),
                it.remaining() == points.skip(done),
                forall|i: int|
                    0 <= i < done ==> grid.spec_get(#[trigger] points[i]) == self.spec_get(
                        points[i],
                    ),
            ensures
                done == points.len(),
            decreases it.remaining().len(),
        {
            match it.next() {
                Some(p) => {
                    assert(p == points[done]);
                    assert(area.spec_contains_point(p));
                    let ghost before = grid;
                    let b = self.get(p);
                    grid.set(p, b);
                    proof {
                        assert forall|i: int| 0 <= i < done + 1 implies grid.spec_get(
                            #[trigger] points[i],
                        ) == self.spec_get(points[i]) by {
                            assert(area.spec_contains_point(points[i]));
                            lemma_plain_point(area.size, points[i]);
                            lemma_plain_point(area.size, p);
                            if i < done {
                                assert(before.spec_get(points[i]) == self.spec_get(points[i]));
                                if spec_cell_index(area.size, points[i]) == spec_cell_index(
                                    area.size,
                                    p,
                                ) {
                                    lemma_cell_index_injective(area.size, points[i], p);
                                }
                            }
                        }
                        done = done + 1;
                    }
                },
                None => {
                    break ;
                },
            }
        }
        proof {
            assert forall|p: GridPoint| area.spec_contains_point(p) implies grid.spec_get(p)
                == self.spec_get(p) by {
                crate::geometry::grid_rect::lemma_rect_points_complete(area, p);
            }
        }
        grid
    }
}

} // verus!
