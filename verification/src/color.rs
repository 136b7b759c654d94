//! The color value every kernel produces, one per pixel.

use vstd::prelude::*;

verus! {

/// An RGB triplet of 8-bit channels: a plain value, created fresh per pixel
/// and immediately serialized into the framebuffer (alpha is added there).
#[derive(Clone, Copy, Debug, PartialEq, Eq, Structural)]
pub struct Color {
    pub r: u8,
    pub g: u8,
    pub b: u8,
}

impl Color {
    pub fn new(r: u8, g: u8, b: u8) -> (c: Color)
        ensures
            c == (Color { r, g, b }),
    {
        Color { r, g, b }
    }

    /// The color every in-set Mandelbrot point renders as.
    pub fn black() -> (c: Color)
        ensures
            c == (Color { r: 0, g: 0, b: 0 }),
    {
        Color { r: 0, g: 0, b: 0 }
    }
}

} // verus!
