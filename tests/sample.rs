use pqrs::sample::{marked_positions, sample_mask, sample_positions};

#[test]
fn sample_larger_than_file_takes_all_rows() {
    let mask = sample_positions(5, 10);
    assert_eq!(mask, vec![true; 5]);
    assert_eq!(marked_positions(&mask), vec![0, 1, 2, 3, 4]);
}

#[test]
fn sample_takes_exactly_k_distinct_rows_in_order() {
    for _ in 0..20 {
        let mask = sample_positions(100, 7);
        assert_eq!(mask.len(), 100);
        let rows = marked_positions(&mask);
        assert_eq!(rows.len(), 7);
        assert!(rows.windows(2).all(|w| w[0] < w[1]));
        assert!(rows.iter().all(|&r| r < 100));
    }
}

#[test]
fn repeated_samples_differ() {
    let first = marked_positions(&sample_positions(1000, 10));
    let mut differs = false;
    for _ in 0..10 {
        if marked_positions(&sample_positions(1000, 10)) != first {
            differs = true;
        }
    }
    assert!(differs);
}

#[test]
fn empty_file_sample() {
    assert!(sample_positions(0, 3).is_empty());
    assert!(sample_positions(4, 0).iter().all(|m| !m));
}

#[test]
fn mask_marks_leading_positions_of_order() {
    let mask = sample_mask(5, &vec![3, 0, 4, 1, 2], 2);
    assert_eq!(mask, vec![true, false, false, true, false]);
}
