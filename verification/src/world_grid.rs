//! A grid of tiles centered on the world origin.
use vstd::prelude::*;
use crate::point::{GridPoint, GridSize};

verus! {

/// How world space is measured.
#[derive(Clone, Copy, Debug, PartialEq, Eq, Structural, Hash)]
pub enum WorldSpace {
    /// Every tile is exactly one world unit tall.
    Units,
    /// Every tile measures as many world units as it has pixels.
    Pixels,
}

impl WorldSpace {
    /// The other way of measuring.
    pub open spec fn spec_other(&self) -> WorldSpace {
        match self {
            WorldSpace::Units => WorldSpace::Pixels,
            WorldSpace::Pixels => WorldSpace::Units,
        }
    }

    /// The opposite of this [`WorldSpace`].
    #[verifier::when_used_as_spec(spec_other)]
    pub fn other(&self) -> (w: WorldSpace)
        ensures
            w == self.spec_other(),
            w != *self,
            w.spec_other() == *self,
    {
        match self {
            WorldSpace::Units => WorldSpace::Pixels,
            WorldSpace::Pixels => WorldSpace::Units,
        }
    }
}

/// A grid of tiles whose center sits on the world origin.
#[derive(Clone, Copy, Debug, PartialEq, Eq, Structural, Hash)]
pub struct WorldGrid {
    /// How world space is measured for this grid.
    pub world_space: WorldSpace,
    /// How many pixels make up a tile.
    pub pixels_per_tile: GridSize,
    /// How many tiles the grid has.
    pub tile_count: GridSize,
}

impl WorldGrid {
    /// Whether the tile index lies within the grid. Indices count from the
    /// center tile, so that a grid `w` tiles wide has the columns
    /// `-(w / 2) .. w - w / 2`.
    pub open spec fn spec_index_in_bounds(&self, index: GridPoint) -> bool {
        &&& 0 <= index.x + self.tile_count.width / 2 < self.tile_count.width
        &&& 0 <= index.y + self.tile_count.height / 2 < self.tile_count.height
    }

    /// A grid measured in world units.
    pub fn unit_grid(tile_count: GridSize, pixels_per_tile: GridSize) -> (g: WorldGrid)
        ensures
            g.world_space == WorldSpace::Units,
            g.pixels_per_tile == pixels_per_tile,
            g.tile_count == tile_count,
    {
        WorldGrid { world_space: WorldSpace::Units, pixels_per_tile, tile_count }
    }

    /// A grid measured in pixels.
    pub fn pixel_grid(tile_count: GridSize, pixels_per_tile: GridSize) -> (g: WorldGrid)
        ensures
            g.world_space == WorldSpace::Pixels,
            g.pixels_per_tile == pixels_per_tile,
            g.tile_count == tile_count,
    {
        WorldGrid { world_space: WorldSpace::Pixels, pixels_per_tile, tile_count }
    }

    /// Whether the tile index lies within the grid.
    #[verifier::when_used_as_spec(spec_index_in_bounds)]
    pub fn index_in_bounds(&self, index: GridPoint) -> (b: bool)
        ensures
            b == self.spec_index_in_bounds(index),
    {
        let x: i64 = index.x as i64 + (self.tile_count.width / 2) as i64;
        let y: i64 = index.y as i64 + (self.tile_count.height / 2) as i64;
        0 <= x && x < self.tile_count.width as i64 && 0 <= y && y < self.tile_count.height as i64
    }
}

} // verus!
