use render_kernels::escape::escape_count;

#[test]
fn stops_at_the_first_firing_test() {
    let flags = vec![false, false, true, false, true];
    assert_eq!(escape_count(&flags, 10), 2);
    assert_eq!(escape_count(&vec![true], 10), 0);
}

#[test]
fn budget_caps_the_count() {
    let flags = vec![false, false, true];
    assert_eq!(escape_count(&flags, 2), 2);
    assert_eq!(escape_count(&flags, 1), 1);
    assert_eq!(escape_count(&flags, 0), 0);
}

#[test]
fn larger_budget_keeps_the_count_of_an_escaped_point() {
    // a point that escapes within the small budget stops at the same index
    // under every larger budget
    let flags = vec![false, false, false, true];
    let small = escape_count(&flags, 4);
    assert_eq!(small, 3);
    for budget in 4..50 {
        assert_eq!(escape_count(&flags, budget), small);
    }
}

#[test]
fn a_point_that_never_escapes_runs_every_budget_in_full() {
    // the counting half of "in-set points render black": the loop always
    // exhausts its budget, which is the in-set classification
    let flags = vec![false; 64];
    for budget in 0..=64 {
        assert_eq!(escape_count(&flags, budget), budget);
    }
    assert_eq!(escape_count(&vec![], 7), 7);
}
