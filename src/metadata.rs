//! The metadata aggregator: row counts and byte sizes summed over the
//! row groups of a file, read from structural metadata alone.

use crate::limiter::flatten;
use vstd::prelude::*;

verus! {

/// Structural metadata of one row group.
#[derive(Clone, Copy, Debug, PartialEq, Eq)]
pub struct RowGroupInfo {
    pub num_rows: i64,
    /// Total uncompressed byte size of the row group's column chunks.
    pub total_byte_size: i64,
    /// Total compressed byte size of the row group's column chunks.
    pub compressed_size: i64,
}

/// A quantity recorded for each row group.
#[derive(Clone, Copy, Debug, PartialEq, Eq)]
pub enum Measure {
    Rows,
    UncompressedBytes,
    CompressedBytes,
}

pub open spec fn measure(g: RowGroupInfo, m: Measure) -> i64 {
    match m {
        Measure::Rows => g.num_rows,
        Measure::UncompressedBytes => g.total_byte_size,
        Measure::CompressedBytes => g.compressed_size,
    }
}

/// Sum of a measure over row groups.
pub open spec fn sum_of(groups: Seq<RowGroupInfo>, m: Measure) -> int
    decreases groups.len(),
{
    if groups.len() == 0 {
        0
    } else {
        sum_of(groups.drop_last(), m) + measure(groups.last(), m)
    }
}

pub open spec fn fits_i64(n: int) -> bool {
    i64::MIN <= n <= i64::MAX
}

/// The sum of a measure, when it is representable as an `i64`.
pub open spec fn checked_sum(groups: Seq<RowGroupInfo>, m: Measure) -> Option<i64> {
    if fits_i64(sum_of(groups, m)) {
        Some(sum_of(groups, m) as i64)
    } else {
        None
    }
}

/// Sums a measure over all row groups; `None` when the sum does not fit in an `i64`.
pub fn sum_measure(groups: &Vec<RowGroupInfo>, m: Measure) -> (r: Option<i64>)
    ensures
        r == checked_sum(groups@, m),
{
    let mut acc: i128 = 0;
    let mut i: usize = 0;
    while i < groups.len()
        invariant
            i <= groups.len(),
            acc == sum_of(groups@.take(i as int), m),
            -(i * 0x8000_0000_0000_0000) <= acc <= i * 0x7fff_ffff_ffff_ffff,
        decreases groups.len() - i,
    {
        assert(groups@.take(i + 1).drop_last() =~= groups@.take(i as int));
        let g = groups[i];
        let v: i64 = match m {
            Measure::Rows => g.num_rows,
            Measure::UncompressedBytes => g.total_byte_size,
            Measure::CompressedBytes => g.compressed_size,
        };
        acc = acc + v as i128;
        i = i + 1;
    }
    assert(groups@.take(i as int) =~= groups@);
    if acc < i64::MIN as i128 || acc > i64::MAX as i128 {
        None
    } else {
        Some(acc as i64)
    }
}

/// Number of rows of a file: the sum of its row groups' row counts;
/// `None` when that sum does not fit in an `i64`.
pub fn get_row_count(groups: &Vec<RowGroupInfo>) -> (r: Option<i64>)
    ensures
        r == checked_sum(groups@, Measure::Rows),
{
    sum_measure(groups, Measure::Rows)
}

/// Uncompressed and compressed size of a file's row groups, summed; footer
/// and metadata are not counted. `None` when either sum does not fit in an `i64`.
pub fn get_size(groups: &Vec<RowGroupInfo>) -> (r: Option<(i64, i64)>)
    ensures
        r is Some <==> checked_sum(groups@, Measure::UncompressedBytes) is Some && checked_sum(
            groups@,
            Measure::CompressedBytes,
        ) is Some,
        r is Some ==> r->Some_0 == (
            checked_sum(groups@, Measure::UncompressedBytes)->Some_0,
            checked_sum(groups@, Measure::CompressedBytes)->Some_0,
        ),
{
    let uncompressed = sum_measure(groups, Measure::UncompressedBytes);
    let compressed = sum_measure(groups, Measure::CompressedBytes);
    match (uncompressed, compressed) {
        (Some(u), Some(c)) => Some((u, c)),
        _ => None,
    }
}

/// Appending a batch appends its rows.
pub proof fn lemma_flatten_push<T>(batches: Seq<Seq<T>>, b: Seq<T>)
    ensures
        flatten(batches.push(b)) == flatten(batches) + b,
    decreases batches.len(),
{
    if batches.len() == 0 {
        assert(batches.push(b).drop_first() =~= seq![]);
        assert(flatten(batches.push(b).drop_first()) =~= seq![]);
        assert(batches.push(b)[0] == b);
        assert(flatten(batches.push(b)) =~= b + seq![]);
        assert(flatten(batches) + b =~= b);
    } else {
        assert(batches.push(b).drop_first() =~= batches.drop_first().push(b));
        lemma_flatten_push(batches.drop_first(), b);
        assert(flatten(batches.push(b)) =~= flatten(batches) + b);
    }
}

/// Law of the aggregator: when the decoder yields, for each row group, as
/// many rows as its metadata records, the row count read from metadata
/// equals the number of rows that iterating the whole file yields, and
/// `get_row_count` returns it whenever it fits in an `i64`.
pub proof fn lemma_row_count_matches_rows<T>(groups: Seq<RowGroupInfo>, rows: Seq<Seq<T>>)
    requires
        rows.len() == groups.len(),
        forall|i: int| 0 <= i < groups.len() ==> (#[trigger] rows[i]).len() == groups[i].num_rows,
    ensures
        sum_of(groups, Measure::Rows) == flatten(rows).len(),
        flatten(rows).len() <= i64::MAX ==> checked_sum(groups, Measure::Rows) == Some(
            flatten(rows).len() as i64,
        ),
    decreases groups.len(),
{
    if groups.len() > 0 {
        let init = rows.drop_last();
        assert forall|i: int| 0 <= i < groups.drop_last().len() implies (#[trigger] init[i]).len()
            == groups.drop_last()[i].num_rows by {
            assert(init[i] == rows[i]);
        }
        lemma_row_count_matches_rows(groups.drop_last(), init);
        assert(rows =~= init.push(rows.last()));
        lemma_flatten_push(init, rows.last());
    }
}

} // verus!
