//! Post-processing primitives for surface-mesh simulation output: vertex
//! extraction from triangulated-solid files, polygon meshes with per-polygon
//! scalar fields, area-weighted percentile thresholds and droplet-size
//! distribution calibration.
//!
//! Every number that the file formats store as an IEEE-754 value is held here
//! as its bit pattern (`u32` for single precision, `u64` for double
//! precision). The library decides, orders, frames and indexes; it performs no
//! rounding arithmetic.

pub mod ieee;
pub mod stl;
pub mod coordinates;
pub mod polygon_areas;
pub mod histogram;
pub mod interpolation;
pub mod gamma_function;
pub mod rosin_rammler;
pub mod vtk;
