//! A sparse grid: values for the cells that have one, and nothing for the
//! others.
use vstd::prelude::*;
use std::collections::BTreeMap;
use vstd::std_specs::iter::IteratorSpec;
use crate::geometry::sized_grid::SizedGrid;
use crate::point::{GridPoint, GridSize};

verus! {

/// The key under which the value of a cell is stored. Keys are ordered as
/// their cells are: by row, and within a row by column.
pub open spec fn spec_cell_key(p: GridPoint) -> u64 {
    ((p.y - i32::MIN) * 0x1_0000_0000 + (p.x - i32::MIN)) as u64
}

/// The cell whose value is stored under `key`.
pub open spec fn spec_key_cell(key: u64) -> GridPoint {
    GridPoint {
        x: ((key as int) % 0x1_0000_0000 + i32::MIN) as i32,
        y: ((key as int) / 0x1_0000_0000 + i32::MIN) as i32,
    }
}

/// Keys compare as their cells do, first by row and then by column; so two
/// cells with the same key are the same cell, and each key leads back to its
/// cell.
pub proof fn lemma_cell_key_order(a: GridPoint, b: GridPoint)
    ensures
        spec_cell_key(a) < spec_cell_key(b) <==> a.y < b.y || (a.y == b.y && a.x < b.x),
        spec_cell_key(a) == spec_cell_key(b) <==> a == b,
        spec_key_cell(spec_cell_key(a)) == a,
{
}

/// The key under which the value of a cell is stored.
fn cell_key(p: GridPoint) -> (key: u64)
    ensures
        key == spec_cell_key(p),
{
    let row: u64 = (p.y as i64 - i32::MIN as i64) as u64;
    let col: u64 = (p.x as i64 - i32::MIN as i64) as u64;
    row * 0x1_0000_0000 + col
}

/// A sparse grid of values.
pub struct SparseGrid<T> {
    data: BTreeMap<u64, T>,
    size: GridSize,
}

impl<T> View for SparseGrid<T> {
    type V = Map<GridPoint, T>;

    /// The cells that have a value, each with its value.
    closed spec fn view(&self) -> Map<GridPoint, T> {
        Map::new(
            |p: GridPoint| self.data@.contains_key(spec_cell_key(p)),
            |p: GridPoint| self.data@[spec_cell_key(p)],
        )
    }
}

impl<T> SizedGrid for SparseGrid<T> {
    closed spec fn spec_size(&self) -> GridSize {
        self.size
    }

    fn size(&self) -> (s: GridSize) {
        self.size
    }
}

impl<T> SparseGrid<T> {
    /// A grid of the given size in which no cell has a value.
    pub fn new(size: GridSize) -> (g: SparseGrid<T>)
        ensures
            g.spec_size() == size,
            g@ == Map::<GridPoint, T>::empty(),
    {
        let g = SparseGrid { data: BTreeMap::new(), size };
        assert(g@ =~= Map::<GridPoint, T>::empty());
        g
    }

    /// Gives the cell `pos` the given value, in place of the value it may
    /// have had.
    pub fn insert(&mut self, pos: GridPoint, value: T)
        ensures
            final(self).spec_size() == old(self).spec_size(),
            final(self)@ == old(self)@.insert(pos, value),
    {
        broadcast use vstd::std_specs::btree::group_btree_axioms;

        let key = cell_key(pos);
        self.data.insert(key, value);
        proof {
            assert forall|p: GridPoint| spec_cell_key(p) == key <==> p == pos by {
                lemma_cell_key_order(p, pos);
            }
            assert(self@ =~= old(self)@.insert(pos, value));
        }
    }

    /// The value of the cell `pos`, or `None` if it has none.
    pub fn get(&self, pos: GridPoint) -> (r: Option<&T>)
        ensures
            self@.contains_key(pos) ==> r == Some(&self@[pos]),
            !self@.contains_key(pos) ==> r.is_none(),
    {
        broadcast use vstd::std_specs::btree::group_btree_axioms;

        let key = cell_key(pos);
        self.data.get(&key)
    }

    /// Takes the value of the cell `pos` out of the grid and hands it back,
    /// or `None` if the cell has none.
    pub fn remove(&mut self, pos: GridPoint) -> (r: Option<T>)
        ensures
            final(self).spec_size() == old(self).spec_size(),
            final(self)@ == old(self)@.remove(pos),
            old(self)@.contains_key(pos) ==> r == Some(old(self)@[pos]),
            !old(self)@.contains_key(pos) ==> r.is_none(),
    {
        broadcast use vstd::std_specs::btree::group_btree_axioms;

        let key = cell_key(pos);
        let r = self.data.remove(&key);
        proof {
            assert forall|p: GridPoint| spec_cell_key(p) == key <==> p == pos by {
                lemma_cell_key_order(p, pos);
            }
            assert(self@ =~= old(self)@.remove(pos));
        }
        r
    }

    /// Every cell that has a value, with its value: row by row from the
    /// bottom, and each row from the left.
    pub fn iter(&self) -> (v: Vec<(GridPoint, &T)>)
        ensures
            forall|i: int|
                0 <= i < v@.len() ==> self@.contains_key((#[trigger] v@[i]).0) && *v@[i].1
                    == self@[v@[i].0],
            forall|p: GridPoint|
                self@.contains_key(p) ==> exists|i: int|
                    0 <= i < v@.len() && (#[trigger] v@[i]).0 == p,
            forall|i: int, j: int|
                0 <= i < j < v@.len() ==> spec_cell_key((#[trigger] v@[i]).0) < spec_cell_key(
                    (#[trigger] v@[j]).0,
                ),
    {
        broadcast use vstd::std_specs::btree::group_btree_axioms;

        let mut v: Vec<(GridPoint, &T)> = Vec::new();
        let ghost all = self.data.iter().remaining();
        for kv in it: self.data.iter()
            invariant
                it.seq() == all,
                v@.len() == it.index(),
                forall|i: int|
                    0 <= i < v@.len() ==> (#[trigger] v@[i]).0 == spec_key_cell(*all[i].0)
                        && v@[i].1 == all[i].1,
        {
            v.push((key_cell(*kv.0), kv.1));
        }
        proof {
            let keys = all.map_values(|kv: (&u64, &T)| *kv.0);
            assert forall|i: int| 0 <= i < v@.len() implies self@.contains_key(
                (#[trigger] v@[i]).0,
            ) && *v@[i].1 == self@[v@[i].0] by {
                lemma_key_cell_round_trip(*all[i].0);
                assert(self.data@.contains_key(*all[i].0));
            }
            assert forall|p: GridPoint| self@.contains_key(p) implies exists|i: int|
                0 <= i < v@.len() && (#[trigger] v@[i]).0 == p by {
                let k = spec_cell_key(p);
                assert(all.contains((&k, &self.data@[k])));
                let i = choose|i: int| 0 <= i < all.len() && all[i] == (&k, &self.data@[k]);
                lemma_cell_key_order(p, p);
                assert(v@[i].0 == p);
            }
            assert forall|i: int, j: int| 0 <= i < j < v@.len() implies spec_cell_key(
                (#[trigger] v@[i]).0,
            ) < spec_cell_key((#[trigger] v@[j]).0) by {
                lemma_key_cell_round_trip(*all[i].0);
                lemma_key_cell_round_trip(*all[j].0);
                lemma_increasing_keys(keys);
                assert(keys[i] == *all[i].0 && keys[j] == *all[j].0);
            }
        }
        v
    }
}

/// In a sequence of keys that the map hands out in increasing order, an
/// earlier key is less than a later one.
proof fn lemma_increasing_keys(keys: Seq<u64>)
    requires
        vstd::std_specs::btree::increasing_seq(keys),
    ensures
        forall|i: int, j: int| 0 <= i < j < keys.len() ==> keys[i] < keys[j],
{
    broadcast use vstd::laws_cmp::group_laws_cmp;
    broadcast use vstd::std_specs::btree::group_btree_axioms;

    assert forall|i: int, j: int| 0 <= i < j < keys.len() implies keys[i] < keys[j] by {
        assert(vstd::std_specs::cmp::OrdSpec::cmp_spec(&keys[i], &keys[j]) is Less);
    }
}

/// The cell whose value is stored under `key`.
fn key_cell(key: u64) -> (p: GridPoint)
    ensures
        p == spec_key_cell(key),
{
    let row: i64 = (key / 0x1_0000_0000) as i64 + i32::MIN as i64;
    let col: i64 = (key % 0x1_0000_0000) as i64 + i32::MIN as i64;
    GridPoint { x: col as i32, y: row as i32 }
}

/// Each key is the key of the cell it leads to.
pub proof fn lemma_key_cell_round_trip(key: u64)
    ensures
        spec_cell_key(spec_key_cell(key)) == key,
{
}

} // verus!
