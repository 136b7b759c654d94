use render_kernels::Color;

#[test]
fn new_keeps_the_channels() {
    let c = Color::new(12, 34, 56);
    assert_eq!(c.r, 12);
    assert_eq!(c.g, 34);
    assert_eq!(c.b, 56);
}

#[test]
fn black_is_all_zero_channels() {
    assert_eq!(Color::black(), Color::new(0, 0, 0));
}
