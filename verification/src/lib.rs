//! The discrete core of a small sphere ray tracer.
//!
//! A ray tracer computes its colors in floating point; what it decides and
//! lays out in whole numbers is here, with proofs:
//!
//! * [`grid`]: the extents of the picture and the row-major slot of each
//!   pixel;
//! * [`nearest`]: which of the objects that a ray meets is the nearest one;
//! * [`raster`]: the 8-bit image that a render ends in;
//! * [`ppm`]: the bytes of that image as a binary PPM file.

pub mod grid;
pub mod nearest;
pub mod ppm;
pub mod raster;
