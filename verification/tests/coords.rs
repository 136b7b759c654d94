use render_kernels::coords::{pixel_coords, pixel_index};

#[test]
fn first_pixel_is_origin() {
    assert_eq!(pixel_coords(0, 7), (0, 0));
}

#[test]
fn index_walks_rows_before_columns() {
    // a 3-wide frame: index 7 sits in column 1 of row 2
    assert_eq!(pixel_coords(7, 3), (1, 2));
    assert_eq!(pixel_coords(2, 3), (2, 0));
    assert_eq!(pixel_coords(3, 3), (0, 1));
}

#[test]
fn coordinates_encode_back_to_the_index() {
    assert_eq!(pixel_index(1, 2, 3), 7);
    assert_eq!(pixel_index(0, 0, 640), 0);
    assert_eq!(pixel_index(639, 479, 640), 640 * 480 - 1);
}

#[test]
fn roundtrip_over_a_whole_frame() {
    let width = 5;
    let height = 4;
    for i in 0..width * height {
        let (x, y) = pixel_coords(i, width);
        assert!(x < width);
        assert!(y < height);
        assert_eq!(pixel_index(x, y, width), i);
    }
}
