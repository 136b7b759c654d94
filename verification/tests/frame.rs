use render_kernels::color::Color;
use render_kernels::frame::{checked_frame_len, fill_frame, write_pixel};

#[test]
fn fill_writes_rgba_with_opaque_alpha() {
    let mut frame: Vec<u8> = vec![0; 8];
    let colors = vec![Color::new(1, 2, 3), Color::new(4, 5, 6)];
    fill_frame(&mut frame, &colors);
    assert_eq!(frame, vec![1, 2, 3, 255, 4, 5, 6, 255]);
}

#[test]
fn write_pixel_touches_only_its_own_slot() {
    let mut frame: Vec<u8> = vec![9; 12];
    write_pixel(&mut frame, 1, Color::new(10, 20, 30));
    assert_eq!(frame, vec![9, 9, 9, 9, 10, 20, 30, 255, 9, 9, 9, 9]);
}

#[test]
fn fill_leaves_bytes_past_the_written_extent() {
    let mut frame: Vec<u8> = vec![7; 10];
    let colors = vec![Color::new(0, 0, 0), Color::new(255, 255, 255)];
    fill_frame(&mut frame, &colors);
    assert_eq!(frame, vec![0, 0, 0, 255, 255, 255, 255, 255, 7, 7]);
}

#[test]
fn black_pixels_render_as_zero_channels() {
    // in-set Mandelbrot points must land in the buffer as (0, 0, 0, 255)
    let mut frame: Vec<u8> = vec![1; 4];
    fill_frame(&mut frame, &vec![Color::black()]);
    assert_eq!(frame, vec![0, 0, 0, 255]);
}

#[test]
fn disjoint_pixel_writes_commute() {
    // either order of two disjoint writes yields the same frame
    let mut one: Vec<u8> = vec![0; 12];
    write_pixel(&mut one, 0, Color::new(1, 2, 3));
    write_pixel(&mut one, 2, Color::new(4, 5, 6));
    let mut other: Vec<u8> = vec![0; 12];
    write_pixel(&mut other, 2, Color::new(4, 5, 6));
    write_pixel(&mut other, 0, Color::new(1, 2, 3));
    assert_eq!(one, other);
}

#[test]
fn frame_len_matches_four_bytes_per_pixel() {
    assert_eq!(checked_frame_len(640, 480), Some(640 * 480 * 4));
    assert_eq!(checked_frame_len(0, 480), Some(0));
    assert_eq!(checked_frame_len(usize::MAX, 2), None);
    assert_eq!(checked_frame_len(usize::MAX / 2, 1), None);
}
