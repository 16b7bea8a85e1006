use athar::storage::quota::{Fits, Quota};

#[test]
fn record_that_fits_returns_yes() {
    let q = Quota::new(1_000);
    assert_eq!(q.check(400, 500), Fits::Yes);
}

#[test]
fn record_at_exact_limit_fits() {
    let q = Quota::new(1_000);
    assert_eq!(q.check(500, 500), Fits::Yes);
}

#[test]
fn record_over_limit_reports_delta() {
    let q = Quota::new(1_000);
    assert_eq!(q.check(600, 500), Fits::No { over_by: 100 });
}

#[test]
fn overflow_is_reported_as_over() {
    let q = Quota::new(1_000);
    assert!(matches!(q.check(u64::MAX, 1), Fits::No { .. }));
}

#[test]
fn headroom_saturates_at_zero() {
    let q = Quota::new(1_000);
    assert_eq!(q.headroom(1_500), 0);
}

#[test]
fn overflow_reports_max_excess() {
    let q = Quota::new(1_000);
    assert_eq!(q.check(u64::MAX, 1), Fits::No { over_by: u64::MAX });
}

#[test]
fn headroom_is_remaining_bytes() {
    let q = Quota::new(1_000);
    assert_eq!(q.headroom(400), 600);
    // Excess plus headroom is the record size when refused without overflow.
    match q.check(400, 700) {
        Fits::No { over_by } => assert_eq!(over_by + q.headroom(400), 700),
        Fits::Yes => panic!("should not fit"),
    }
}
