//! Axis-aligned bounds of a set of vertices.

pub mod update_bounds;

pub use update_bounds::update_coordinate_bounds;
