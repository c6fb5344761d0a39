//! Helpers for looking at shapes.
pub mod canvas;

pub use canvas::Canvas;
