//! Shapes on the grid and the cursors that enumerate their cells.
pub mod grid_circle;
pub mod grid_cone;
pub mod grid_diamond;
pub mod grid_line;
pub mod grid_rect;
pub mod grid_shape;
pub mod sized_grid;

pub use grid_circle::{GridCircle, GridCircleIter, GridCircleOutline, GridCircleOutlineIter};
pub use grid_cone::{GridCone, GridConeIter};
pub use grid_diamond::{GridDiamond, GridDiamondIter};
pub use grid_line::{GridLine, GridLineIter, GridLineOrtho, GridLineOrthoIter};
pub use grid_rect::{GridRect, GridRectIter};
pub use grid_shape::{GridShape, GridShapeIterator, PointIter};
pub use sized_grid::{PositionedGrid, SizedGrid};
