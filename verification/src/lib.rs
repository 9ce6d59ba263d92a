//! Verified core of an escape-time Mandelbrot renderer.
//!
//! The library owns the image geometry, the render configuration, and the
//! rasterization of escape classifications into a flat grayscale pixel
//! buffer: row-major indexing, per-band shading, disjoint band writes, and
//! the guarantee that a render fills every byte of the buffer with the
//! shade of its pixel's classification.
//!
//! The floating-point work itself — mapping a pixel to a point of the
//! complex plane and iterating `z = z*z + c` — cannot be verified and is
//! left to the caller, which hands the resulting [`render::EscapeResult`]
//! classifications to this crate.

pub mod geometry;
pub mod render;
