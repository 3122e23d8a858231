use pqrs::limiter::{limit_batches, RowLimiter};

#[test]
fn head_120_over_batches_of_64() {
    let out = limit_batches(Some(120), &vec![64, 64, 64, 64]);
    assert_eq!(out, vec![64, 56]);
    assert_eq!(out.iter().sum::<usize>(), 120);
}

#[test]
fn no_limit_passes_everything() {
    let out = limit_batches(None, &vec![3, 0, 7]);
    assert_eq!(out, vec![3, 0, 7]);
}

#[test]
fn limit_larger_than_source() {
    let out = limit_batches(Some(1000), &vec![10, 20, 30]);
    assert_eq!(out, vec![10, 20, 30]);
}

#[test]
fn zero_limit_pulls_nothing() {
    assert_eq!(limit_batches(Some(0), &vec![5, 5]), Vec::<usize>::new());
}

#[test]
fn limit_on_batch_boundary_stops_pulling() {
    assert_eq!(limit_batches(Some(10), &vec![5, 5, 5]), vec![5, 5]);
}

#[test]
fn empty_source() {
    assert_eq!(limit_batches(Some(4), &vec![]), Vec::<usize>::new());
}

#[test]
fn limiter_counts_down() {
    let mut l = RowLimiter::new(Some(7));
    assert!(!l.is_spent());
    assert_eq!(l.take_from(4), 4);
    assert_eq!(l.left, Some(3));
    assert_eq!(l.take_from(4), 3);
    assert!(l.is_spent());
    assert_eq!(l.take_from(4), 0);
}

#[test]
fn row_at_a_time_limit() {
    let mut l = RowLimiter::new(Some(2));
    let mut emitted = 0;
    for _ in 0..5 {
        if l.is_spent() {
            break;
        }
        emitted += l.take_from(1);
    }
    assert_eq!(emitted, 2);
    let mut unbounded = RowLimiter::new(None);
    assert_eq!(unbounded.take_from(usize::MAX), usize::MAX);
    assert!(!unbounded.is_spent());
}
