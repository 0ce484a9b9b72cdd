use ray_tracing::radiometry::find_interval;

#[test]
fn find_interval_in_a_sorted_table() {
    let table = [1.0f32, 2.0, 4.0, 8.0, 16.0];
    let at = |x: f32| find_interval(table.len(), |i| table[i] <= x);
    assert_eq!(at(0.5), 0);
    assert_eq!(at(1.0), 0);
    assert_eq!(at(3.0), 1);
    assert_eq!(at(4.0), 2);
    assert_eq!(at(9.0), 3);
    assert_eq!(at(16.0), 3);
    assert_eq!(at(100.0), 3);
}

#[test]
fn find_interval_of_two_entries_never_asks() {
    assert_eq!(find_interval(2, |_| panic!("no interior entry")), 0);
}

#[test]
fn find_interval_of_a_table_too_short_wraps() {
    assert_eq!(find_interval(0, |_| true), usize::MAX - 1);
    assert_eq!(find_interval(1, |_| true), usize::MAX);
}
