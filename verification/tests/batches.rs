use mobility_map::batches::batches;
use mobility_map::batches::Batch;
use mobility_map::batches::scan_fits;

fn bounds_of(mut scan: Batch) -> Vec<(i32, i32)> {
    let mut out = Vec::new();
    while let Some(b) = scan.next() {
        out.push((b.start, b.end));
    }
    out
}

#[test]
fn scan_yields_consecutive_batches_from_zero() {
    assert_eq!(bounds_of(batches(5, 10, 4)), vec![(0, 4), (4, 8), (8, 12)]);
}

#[test]
fn scan_ignores_the_start_argument() {
    assert_eq!(bounds_of(batches(1000, 3, 2)), vec![(0, 2), (2, 4)]);
}

#[test]
fn scan_count_is_end_over_size_plus_one() {
    assert_eq!(bounds_of(batches(0, 0, 50_000)).len(), 1);
    assert_eq!(bounds_of(batches(0, 99, 100)).len(), 1);
    assert_eq!(bounds_of(batches(0, 100, 100)).len(), 2);
    assert_eq!(bounds_of(batches(0, 250_000, 80_000)).len(), 4);
}

#[test]
fn scan_with_negative_end_is_empty() {
    assert_eq!(bounds_of(batches(0, -5, 4)), vec![]);
    assert_eq!(bounds_of(batches(0, -4, 4)), vec![]);
}

#[test]
fn scan_with_negative_size_and_end() {
    assert_eq!(bounds_of(batches(0, 10, -3)), vec![]);
    assert_eq!(
        bounds_of(batches(0, -10, -3)),
        vec![(0, -3), (-3, -6), (-6, -9), (-9, -12)]
    );
}

#[test]
fn exhausted_scan_stays_exhausted() {
    let mut scan = batches(0, 1, 1);
    assert!(scan.next().is_some());
    assert!(scan.next().is_some());
    assert!(scan.next().is_none());
    assert!(scan.next().is_none());
    assert!(scan.next().is_none());
}

#[test]
fn yielded_batch_is_a_copy_with_new_bounds() {
    let mut scan = batches(7, 20, 10);
    let first = scan.next().unwrap();
    assert_eq!((first.start, first.end), (0, 10));
    assert_eq!((scan.start, scan.end), (7, 20));
    let second = scan.next().unwrap();
    assert_eq!((second.start, second.end), (10, 20));
}

#[test]
fn consecutive_batches_touch() {
    let b = bounds_of(batches(0, 1234, 17));
    for w in b.windows(2) {
        assert_eq!(w[0].1, w[1].0);
    }
}

#[test]
fn scan_covers_every_id() {
    let end = 345;
    let b = bounds_of(batches(12, end, 40));
    for id in 0..=end {
        assert!(b.iter().any(|&(s, e)| s <= id && id <= e), "id {} not covered", id);
    }
}

#[test]
fn scan_up_to_large_ends_fits() {
    let b = bounds_of(batches(0, 1_999_999_999, 1_000_000_000));
    assert_eq!(b, vec![(0, 1_000_000_000), (1_000_000_000, 2_000_000_000)]);
}

#[test]
fn scans_that_would_overflow_do_not_fit() {
    assert!(scan_fits(10, 4));
    assert!(scan_fits(-5, 4));
    assert!(!scan_fits(10, 0));
    assert!(!scan_fits(i32::MIN, -1));
    assert!(!scan_fits(i32::MAX, 1));
    assert!(!scan_fits(i32::MAX - 1, 1));
    assert!(scan_fits(i32::MAX - 2, 1));
    assert!(!scan_fits(2_000_000_000, 1_000_000_000));
    assert!(scan_fits(1_999_999_999, 1_000_000_000));
    assert!(scan_fits(250_000, 80_000));
}

#[test]
fn getters_read_the_bounds() {
    let mut scan = batches(3, 10, 5);
    assert_eq!((scan.start(), scan.end()), (3, 10));
    let first = scan.next().unwrap();
    assert_eq!((first.start(), first.end()), (0, 5));
}

#[test]
fn each_step_is_checked_on_its_own() {
    let mut scan = batches(0, i32::MAX - 1, 1);
    assert!(!scan_fits(i32::MAX - 1, 1));
    assert!(scan.can_step());
    assert_eq!(scan.next().map(|b| (b.start, b.end)), Some((0, 1)));
    assert!(!batches(0, i32::MAX, 1).can_step());
    assert!(!batches(0, 10, 0).can_step());
    assert!(batches(0, -10, 3).can_step());
    let mut short = batches(0, 0, 4);
    assert!(short.next().is_some());
    assert!(short.can_step());
    assert!(short.next().is_none());
}

#[test]
fn first_batch_is_zero_to_size() {
    for (end, size) in [(0, 1), (-3, 4), (7, 100), (1_000_000, 80_000)] {
        let first = batches(99, end, size).next().unwrap();
        assert_eq!((first.start, first.end), (0, size));
    }
}
