use upstream_pool::rotation::{choose_position, count_healthy, nth_healthy};

#[test]
fn count_healthy_counts_the_set_flags() {
    assert_eq!(count_healthy(&[]), 0);
    assert_eq!(count_healthy(&[false, false]), 0);
    assert_eq!(count_healthy(&[true, false, true, true]), 3);
}

#[test]
fn nth_healthy_skips_the_unset_flags() {
    let flags = [false, true, false, true, true];
    assert_eq!(nth_healthy(&flags, 0), Some(1));
    assert_eq!(nth_healthy(&flags, 1), Some(3));
    assert_eq!(nth_healthy(&flags, 2), Some(4));
    assert_eq!(nth_healthy(&flags, 3), None);
    assert_eq!(nth_healthy(&flags, usize::MAX), None);
    assert_eq!(nth_healthy(&[], 0), None);
}

#[test]
fn choose_position_takes_the_cursor_modulo_the_healthy_count() {
    let flags = [true, false, true, true];
    assert_eq!(choose_position(&flags, 0), Some(0));
    assert_eq!(choose_position(&flags, 1), Some(2));
    assert_eq!(choose_position(&flags, 2), Some(3));
    assert_eq!(choose_position(&flags, 3), Some(0));
    assert_eq!(choose_position(&flags, 7), Some(2));
    assert_eq!(choose_position(&flags, usize::MAX), nth_healthy(&flags, usize::MAX % 3));
}

#[test]
fn choose_position_finds_nothing_where_no_flag_is_set() {
    assert_eq!(choose_position(&[], 5), None);
    assert_eq!(choose_position(&[false, false, false], 0), None);
    assert_eq!(choose_position(&[false, false, false], 4), None);
}

#[test]
fn no_cursor_leaves_the_range_or_picks_an_unset_flag() {
    let flags = [false, true, true, false, true, false, false];
    for cursor in (0..1000).chain(usize::MAX - 1000..=usize::MAX) {
        let position = choose_position(&flags, cursor).unwrap();
        assert!(position < flags.len());
        assert!(flags[position]);
    }
}
