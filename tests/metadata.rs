use pqrs::metadata::{get_row_count, get_size, RowGroupInfo};

fn group(rows: i64, unc: i64, comp: i64) -> RowGroupInfo {
    RowGroupInfo { num_rows: rows, total_byte_size: unc, compressed_size: comp }
}

#[test]
fn row_count_of_three_groups() {
    let groups = vec![group(100, 1, 1), group(50, 1, 1), group(75, 1, 1)];
    assert_eq!(get_row_count(&groups), Some(225));
}

#[test]
fn row_count_of_no_groups() {
    assert_eq!(get_row_count(&vec![]), Some(0));
}

#[test]
fn sizes_are_summed() {
    let groups = vec![group(1, 1000, 400), group(2, 24, 10)];
    assert_eq!(get_size(&groups), Some((1024, 410)));
}

#[test]
fn row_count_overflow_is_reported() {
    let groups = vec![group(i64::MAX, 0, 0), group(1, 0, 0)];
    assert_eq!(get_row_count(&groups), None);
    assert_eq!(get_size(&vec![group(0, i64::MAX, 0), group(0, 1, 0)]), None);
}

#[test]
fn row_count_returns_within_range_after_excursion() {
    let groups = vec![group(i64::MAX, 0, 0), group(1, 0, 0), group(-10, 0, 0)];
    assert_eq!(get_row_count(&groups), Some(i64::MAX - 9));
}
