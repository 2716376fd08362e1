use mikaana::pagination::{clamp_page, page_bounds, PER_PAGE};

#[test]
fn page_size_is_twenty() {
    assert_eq!(PER_PAGE, 20);
}

#[test]
fn pages_below_one_are_the_first() {
    assert_eq!(clamp_page(None), 1);
    assert_eq!(clamp_page(Some(0)), 1);
    assert_eq!(clamp_page(Some(-7)), 1);
    assert_eq!(clamp_page(Some(i64::MIN)), 1);
    assert_eq!(clamp_page(Some(1)), 1);
    assert_eq!(clamp_page(Some(3)), 3);
    assert_eq!(clamp_page(Some(i64::MAX)), i64::MAX);
}

#[test]
fn offset_is_page_minus_one_times_twenty() {
    assert_eq!(page_bounds(45, 1), (0, 20));
    assert_eq!(page_bounds(45, 2), (20, 40));
    assert_eq!(page_bounds(45, 3), (40, 45));
    assert_eq!(page_bounds(1000, 7), (120, 140));
}

#[test]
fn page_zero_covers_what_page_one_covers() {
    assert_eq!(page_bounds(45, 0), page_bounds(45, 1));
    assert_eq!(page_bounds(45, -3), page_bounds(45, 1));
    assert_eq!(page_bounds(5, 0), (0, 5));
}

#[test]
fn pages_past_the_end_cover_nothing() {
    assert_eq!(page_bounds(45, 4), (45, 45));
    assert_eq!(page_bounds(40, 3), (40, 40));
    assert_eq!(page_bounds(0, 1), (0, 0));
    assert_eq!(page_bounds(45, i64::MAX), (45, 45));
    assert_eq!(page_bounds(usize::MAX, i64::MAX).0 <= usize::MAX, true);
}

#[test]
fn a_full_last_page_ends_the_listing() {
    assert_eq!(page_bounds(40, 2), (20, 40));
    assert_eq!(page_bounds(20, 1), (0, 20));
    assert_eq!(page_bounds(21, 2), (20, 21));
}
