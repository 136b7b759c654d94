//! Integer substrate of a trio of per-pixel rendering kernels: a Mandelbrot
//! colorizer, a single-sphere ray tracer and a height-field wave solver.
//!
//! The kernels' floating-point arithmetic lives with the host; this crate
//! proves the parts that decide *where* every value goes: the mapping between
//! linear pixel indices and 2D coordinates, the RGBA layout of the shared
//! framebuffer with its disjoint per-pixel write slots, and the stencil
//! geometry of the wave solver's interior-cell update pass.

pub mod color;
pub mod coords;
pub mod escape;
pub mod frame;
pub mod grid;

pub use color::Color;
