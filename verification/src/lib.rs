//! Verified core of an interactive Mandelbrot viewer.
//!
//! The numeric work on complex samples is done in double precision by the
//! program around this library. What lives here is everything that is decided
//! on whole numbers: the order of the termination rules of the iteration and
//! its budget, the packing of shades into an RGBA raster, and the bookkeeping
//! of the view's pixel dimensions and render requests.

pub mod image;
pub mod interaction;
pub mod kernel;
