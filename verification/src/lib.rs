//! A verified Mandelbrot renderer.
//!
//! The library rasterizes the Mandelbrot set into a grayscale, row-major
//! byte buffer.  Complex numbers are carried as the IEEE 754 bit patterns
//! of their double-precision components; every primitive floating-point
//! operation is delegated to a small trusted wrapper whose result is a
//! named, uninterpreted function of the operand bits.  Everything around
//! those operations — the escape-time iteration, the pixel-to-plane
//! mapping, the row-band partition and the assembly of the final image —
//! is verified.

pub mod numeric;
pub mod mapping;
pub mod escape;
pub mod render;
pub mod bands;
pub mod png;
pub mod engine;
