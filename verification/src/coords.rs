//! The coordinate mapper: linear pixel indices against 2D coordinates of a
//! row-major frame, with the round-trip and disjointness laws that make a
//! per-pixel fan-out safe.

use vstd::prelude::*;
use vstd::arithmetic::div_mod::{
    lemma_fundamental_div_mod, lemma_fundamental_div_mod_converse, lemma_mod_bound,
};
use vstd::arithmetic::mul::{lemma_mul_inequality, lemma_mul_is_commutative};

verus! {

/// Converts a linear pixel index into 2D integer coordinates over a
/// row-major frame of the given width: `x = i % width`, `y = i / width`.
pub fn pixel_coords(i: usize, width: usize) -> (p: (usize, usize))
    requires
        width > 0,
    ensures
        p.0 == i as int % width as int,
        p.1 == i as int / width as int,
        p.0 < width,
{
    (i % width, i / width)
}

/// Converts 2D integer coordinates back into a linear index over a
/// row-major frame of the given width.
pub fn pixel_index(x: usize, y: usize, width: usize) -> (i: usize)
    requires
        x < width,
        y * width + x <= usize::MAX,
    ensures
        i == y * width + x,
{
    y * width + x
}

/// Law: decoding a linear index into coordinates and re-encoding them is the
/// identity, so every index names exactly one pixel.
pub proof fn lemma_coords_roundtrip(i: int, width: int)
    requires
        width > 0,
        0 <= i,
    ensures
        (i / width) * width + (i % width) == i,
{
    lemma_fundamental_div_mod(i, width);
    lemma_mul_is_commutative(i / width, width);
}

/// Law: the coordinates of the linear index `y * width + x` are exactly
/// `(x, y)`, so encoding coordinates and decoding them is the identity.
pub proof fn lemma_index_roundtrip(x: int, y: int, width: int)
    requires
        0 <= x < width,
        0 <= y,
    ensures
        (y * width + x) % width == x,
        (y * width + x) / width == y,
{
    lemma_fundamental_div_mod_converse(y * width + x, width, y, x);
}

/// Law: distinct pixel coordinates give distinct linear indices, so the
/// per-pixel output slots of a frame are pairwise disjoint.
pub proof fn lemma_index_injective(x1: int, y1: int, x2: int, y2: int, width: int)
    requires
        0 <= x1 < width,
        0 <= x2 < width,
        0 <= y1,
        0 <= y2,
        y1 * width + x1 == y2 * width + x2,
    ensures
        x1 == x2,
        y1 == y2,
{
    lemma_index_roundtrip(x1, y1, width);
    lemma_index_roundtrip(x2, y2, width);
}

/// Law: an index inside the frame decodes to coordinates inside the frame.
pub proof fn lemma_coords_in_frame(i: int, width: int, height: int)
    requires
        width > 0,
        0 <= i < width * height,
    ensures
        0 <= i % width < width,
        0 <= i / width < height,
{
    lemma_mod_bound(i, width);
    lemma_fundamental_div_mod(i, width);
    if i / width >= height {
        lemma_mul_inequality(height, i / width, width);
        lemma_mul_is_commutative(height, width);
        lemma_mul_is_commutative(i / width, width);
    }
}

} // verus!
