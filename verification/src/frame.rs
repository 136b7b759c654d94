//! The RGBA framebuffer layout: four bytes per pixel, row-major, alpha
//! fixed opaque, each pixel written only within its own slot.

use vstd::prelude::*;
use crate::color::Color;

verus! {

/// The four bytes of pixel `i` in a row-major RGBA frame hold `c`'s
/// channels in order, with a fully opaque alpha.
pub open spec fn pixel_slot_holds(frame: Seq<u8>, i: int, c: Color) -> bool {
    &&& frame[4 * i] == c.r
    &&& frame[4 * i + 1] == c.g
    &&& frame[4 * i + 2] == c.b
    &&& frame[4 * i + 3] == 255u8
}

/// The number of bytes a `width x height` RGBA frame occupies, or `None`
/// where that extent does not fit in `usize`: the test a host makes before
/// handing a buffer to a per-pixel kernel.
pub fn checked_frame_len(width: usize, height: usize) -> (r: Option<usize>)
    ensures
        width * height * 4 <= usize::MAX ==> r == Some((width * height * 4) as usize),
        width * height * 4 > usize::MAX ==> r is None,
{
    match width.checked_mul(height) {
        Some(n) => n.checked_mul(4),
        None => None,
    }
}

/// The frame after one color is serialized into pixel `i`'s four-byte slot:
/// the functional model of `write_pixel`.
pub open spec fn spec_write_pixel(frame: Seq<u8>, i: int, c: Color) -> Seq<u8> {
    frame.update(4 * i, c.r).update(4 * i + 1, c.g).update(4 * i + 2, c.b).update(
        4 * i + 3,
        255u8,
    )
}

/// Serializes one color into its own four-byte RGBA slot, fixing alpha at
/// 255; every byte outside that slot is left exactly as it was, which is
/// what lets disjoint pixels be written in any order.
pub fn write_pixel(frame: &mut Vec<u8>, i: usize, c: Color)
    requires
        4 * i + 4 <= old(frame).len(),
    ensures
        final(frame)@ == spec_write_pixel(old(frame)@, i as int, c),
        final(frame).len() == old(frame).len(),
        pixel_slot_holds(final(frame)@, i as int, c),
        forall|j: int|
            0 <= j < old(frame).len() && !(4 * i <= j < 4 * i + 4) ==> final(frame)@[j]
                == old(frame)@[j],
{
    let base: usize = 4 * i;
    frame.set(base, c.r);
    frame.set(base + 1, c.g);
    frame.set(base + 2, c.b);
    frame.set(base + 3, 255);
    proof {
        assert(frame@ =~= spec_write_pixel(old(frame)@, i as int, c));
    }
}

/// Law: writes to two distinct pixels commute: either order of the two
/// writes produces the same frame, which is why a per-pixel fan-out may
/// fill its disjoint slots in any order and still be deterministic.
pub proof fn lemma_disjoint_writes_commute(frame: Seq<u8>, i: int, j: int, c1: Color, c2: Color)
    requires
        i != j,
        0 <= i,
        0 <= j,
        4 * i + 4 <= frame.len(),
        4 * j + 4 <= frame.len(),
    ensures
        spec_write_pixel(spec_write_pixel(frame, i, c1), j, c2) == spec_write_pixel(
            spec_write_pixel(frame, j, c2),
            i,
            c1,
        ),
{
    assert(spec_write_pixel(spec_write_pixel(frame, i, c1), j, c2) =~= spec_write_pixel(
        spec_write_pixel(frame, j, c2),
        i,
        c1,
    ));
}

/// Fills the frame with the given per-pixel colors: pixel `i` of the frame
/// receives `colors[i]` in its own disjoint four-byte slot, and any bytes
/// past the written extent are untouched.
pub fn fill_frame(frame: &mut Vec<u8>, colors: &Vec<Color>)
    requires
        4 * colors.len() <= old(frame).len(),
    ensures
        final(frame).len() == old(frame).len(),
        forall|i: int|
            0 <= i < colors.len() ==> pixel_slot_holds(final(frame)@, i, colors[i]),
        forall|j: int|
            4 * colors.len() <= j < old(frame).len() ==> final(frame)@[j] == old(frame)@[j],
{
    let n: usize = colors.len();
    let mut i: usize = 0;
    while i < n
        invariant
            i <= n,
            n == colors.len(),
            4 * n <= frame.len(),
            frame.len() == old(frame).len(),
            forall|k: int| 0 <= k < i ==> pixel_slot_holds(frame@, k, colors[k]),
            forall|j: int| 4 * i <= j < frame.len() ==> frame@[j] == old(frame)@[j],
        decreases n - i,
    {
        write_pixel(frame, i, colors[i]);
        i = i + 1;
    }
}

} // verus!
