//! Points, rectangles and shapes on a two-dimensional integer grid.
//!
//! Every executable function carries a contract stated over plain
//! mathematical values, and Verus proves that the function keeps it.
pub mod bit_grid;
pub mod geometry;
pub mod grid;
pub mod math;
pub mod pivot;
pub mod point;
pub mod sparse_grid;
pub mod util;
pub mod world_grid;

pub use bit_grid::BitGrid;
pub use geometry::{
    GridRect, GridRectIter, GridShape, GridShapeIterator, PointIter, PositionedGrid, SizedGrid,
};
pub use grid::Grid;
pub use pivot::{Pivot, PivotedPoint};
pub use point::{AdjIterator, GridPoint, GridSize};
pub use sparse_grid::SparseGrid;
pub use world_grid::{WorldGrid, WorldSpace};
