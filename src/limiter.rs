//! The batch row limiter: truncates a lazily pulled sequence of row batches
//! to an exact row budget.

use vstd::prelude::*;

verus! {

/// Total number of rows in a sequence of batch sizes.
pub open spec fn total(rows: Seq<usize>) -> int
    decreases rows.len(),
{
    if rows.len() == 0 {
        0
    } else {
        rows[0] + total(rows.drop_first())
    }
}

/// Rows of a batch of `rows` rows that are emitted when `left` rows of
/// budget remain (`None`: no budget).
pub open spec fn admitted(left: Option<usize>, rows: usize) -> usize {
    match left {
        None => rows,
        Some(l) => if rows <= l {
            rows
        } else {
            l
        },
    }
}

/// The budget left after a batch of `rows` rows.
pub open spec fn remaining(left: Option<usize>, rows: usize) -> Option<usize> {
    match left {
        None => None,
        Some(l) => Some((l - admitted(left, rows)) as usize),
    }
}

/// Whether a budget is spent, so that no further batch may be pulled.
pub open spec fn spent(left: Option<usize>) -> bool {
    left == Some(0usize)
}

/// The number of rows emitted of each batch that is pulled from a source
/// yielding batches of the given sizes, under the budget `left`.
/// A batch is pulled only while the budget is not spent.
pub open spec fn limited(left: Option<usize>, rows: Seq<usize>) -> Seq<usize>
    decreases rows.len(),
{
    if rows.len() == 0 || spent(left) {
        seq![]
    } else {
        seq![admitted(left, rows[0])] + limited(remaining(left, rows[0]), rows.drop_first())
    }
}

/// The smaller of a budget and a row count (the row count if there is no budget).
pub open spec fn capped(left: Option<usize>, n: int) -> int {
    match left {
        None => n,
        Some(l) => if n <= l {
            n
        } else {
            l as int
        },
    }
}

/// Remaining-row budget of one streaming operation.
pub struct RowLimiter {
    /// Rows that may still be emitted; `None` when the stream is unbounded.
    pub left: Option<usize>,
}

impl RowLimiter {
    /// A limiter allowing `limit` rows in all, or any number when `limit` is `None`.
    pub fn new(limit: Option<usize>) -> (r: RowLimiter)
        ensures
            r.left == limit,
    {
        RowLimiter { left: limit }
    }

    /// True once the budget is spent: the source must not be asked for
    /// another batch.
    pub fn is_spent(&self) -> (r: bool)
        ensures
            r == spent(self.left),
    {
        match self.left {
            Some(l) => l == 0,
            None => false,
        }
    }

    /// Accounts for a batch of `rows` rows and returns how many of its
    /// leading rows are to be emitted.
    pub fn take_from(&mut self, rows: usize) -> (n: usize)
        ensures
            n == admitted(old(self).left, rows),
            final(self).left == remaining(old(self).left, rows),
    {
        match self.left {
            None => rows,
            Some(l) => {
                if rows <= l {
                    self.left = Some(l - rows);
                    rows
                } else {
                    self.left = Some(0);
                    l
                }
            },
        }
    }
}

/// Runs the limiter over a source yielding batches of the given sizes and
/// returns the number of rows emitted of each batch pulled (a batch with
/// none emitted is pulled but not forwarded).
pub fn limit_batches(limit: Option<usize>, batch_rows: &Vec<usize>) -> (r: Vec<usize>)
    ensures
        r@ == limited(limit, batch_rows@),
{
    let mut limiter = RowLimiter::new(limit);
    let mut out: Vec<usize> = Vec::new();
    let mut i: usize = 0;
    assert(batch_rows@.skip(0) =~= batch_rows@);
    assert(out@ + limited(limit, batch_rows@) =~= limited(limit, batch_rows@));
    while i < batch_rows.len() && !limiter.is_spent()
        invariant
            i <= batch_rows.len(),
            limited(limit, batch_rows@) == out@ + limited(limiter.left, batch_rows@.skip(i as int)),
        decreases batch_rows.len() - i,
    {
        let ghost before = limiter.left;
        let n = limiter.take_from(batch_rows[i]);
        assert(batch_rows@.skip(i as int).drop_first() =~= batch_rows@.skip(i + 1));
        assert(limited(before, batch_rows@.skip(i as int)) == seq![n] + limited(
            limiter.left,
            batch_rows@.skip(i + 1),
        ));
        out.push(n);
        i = i + 1;
        assert(out@ + limited(limiter.left, batch_rows@.skip(i as int)) =~= (out@.drop_last()
            + seq![n]) + limited(limiter.left, batch_rows@.skip(i as int)));
    }
    assert(limited(limiter.left, batch_rows@.skip(i as int)) =~= seq![]);
    assert(out@ + seq![] =~= out@);
    out
}

/// A row total is never negative.
pub proof fn lemma_total_nonneg(rows: Seq<usize>)
    ensures
        total(rows) >= 0,
    decreases rows.len(),
{
    if rows.len() > 0 {
        lemma_total_nonneg(rows.drop_first());
    }
}

/// Splits the total of a non-empty prefix into its first batch and the rest.
pub proof fn lemma_total_take(rows: Seq<usize>, k: int)
    requires
        0 <= k < rows.len(),
    ensures
        total(rows.take(k + 1)) == rows[0] + total(rows.drop_first().take(k)),
{
    assert(rows.take(k + 1).drop_first() =~= rows.drop_first().take(k));
}

/// Law of the limiter: over the whole stream the rows emitted number exactly
/// the smaller of the budget and the rows that the source holds.
pub proof fn lemma_limited_total(left: Option<usize>, rows: Seq<usize>)
    ensures
        total(limited(left, rows)) == capped(left, total(rows)),
    decreases rows.len(),
{
    lemma_total_nonneg(rows);
    if rows.len() == 0 || spent(left) {
        assert(limited(left, rows) =~= seq![]);
    } else {
        let rem = remaining(left, rows[0]);
        let rest = limited(rem, rows.drop_first());
        lemma_limited_total(rem, rows.drop_first());
        lemma_total_nonneg(rows.drop_first());
        let out = limited(left, rows);
        assert(out.drop_first() =~= rest);
    }
}

/// Law of the limiter: every batch pulled but the last is emitted whole and
/// the last one as a prefix, in source order; without a budget every batch
/// passes unchanged. A batch is pulled only while some budget remains after
/// the batches before it, and the source is left only once the budget is spent.
pub proof fn lemma_limited_pulls(left: Option<usize>, rows: Seq<usize>)
    ensures
        limited(left, rows).len() <= rows.len(),
        forall|i: int| 0 <= i < limited(left, rows).len() ==> #[trigger] limited(left, rows)[i] <= rows[i],
        forall|i: int|
            0 <= i < limited(left, rows).len() - 1 ==> #[trigger] limited(left, rows)[i] == rows[i],
        left.is_none() ==> limited(left, rows) == rows,
        left.is_some() && limited(left, rows).len() > 0 ==> total(
            rows.take(limited(left, rows).len() - 1),
        ) < left.unwrap(),
        left.is_some() && limited(left, rows).len() < rows.len() ==> total(
            rows.take(limited(left, rows).len() as int),
        ) >= left.unwrap(),
    decreases rows.len(),
{
    let out = limited(left, rows);
    if rows.len() == 0 || spent(left) {
        assert(out =~= seq![]);
        assert(rows.take(0) =~= seq![]);
        if left.is_none() {
            assert(rows =~= seq![]);
        }
    } else {
        let rem = remaining(left, rows[0]);
        let tail = rows.drop_first();
        let rest = limited(rem, tail);
        lemma_limited_pulls(rem, tail);
        assert(out.drop_first() =~= rest);
        assert(out =~= seq![out[0]] + rest);
        assert forall|i: int| 0 <= i < out.len() implies #[trigger] out[i] <= rows[i] by {
            if i > 0 {
                assert(out[i] == rest[i - 1]);
            }
        }
        assert forall|i: int| 0 <= i < out.len() - 1 implies #[trigger] out[i] == rows[i] by {
            if i > 0 {
                assert(out[i] == rest[i - 1]);
            } else {
                assert(rest.len() > 0);
            }
        }
        if left.is_none() {
            assert(out =~= rows);
        } else {
            let k = rest.len() as int;
            assert(rows.take(0) =~= seq![]);
            if k > 0 {
                lemma_total_take(rows, k - 1);
            }
            if k < tail.len() {
                lemma_total_take(rows, k);
            }
            lemma_total_nonneg(tail.take(k));
        }
    }
}

/// The rows of a sequence of batches, batch after batch.
pub open spec fn flatten<T>(batches: Seq<Seq<T>>) -> Seq<T>
    decreases batches.len(),
{
    if batches.len() == 0 {
        seq![]
    } else {
        batches[0] + flatten(batches.drop_first())
    }
}

/// The sizes of a sequence of batches.
pub open spec fn batch_sizes<T>(batches: Seq<Seq<T>>) -> Seq<usize> {
    batches.map_values(|b: Seq<T>| b.len() as usize)
}

/// The batches that the limiter emits: of each batch pulled, as many
/// leading rows as it admits.
pub open spec fn emitted<T>(left: Option<usize>, batches: Seq<Seq<T>>) -> Seq<Seq<T>> {
    let counts = limited(left, batch_sizes(batches));
    Seq::new(counts.len(), |i: int| batches[i].take(counts[i] as int))
}

/// Law of the limiter: the rows emitted are exactly the leading rows of the
/// source, in source order, as many as the budget allows.
pub proof fn lemma_limited_rows<T>(left: Option<usize>, batches: Seq<Seq<T>>)
    requires
        forall|i: int| 0 <= i < batches.len() ==> (#[trigger] batches[i]).len() <= usize::MAX,
    ensures
        flatten(emitted(left, batches)) == flatten(batches).take(
            capped(left, flatten(batches).len() as int),
        ),
    decreases batches.len(),
{
    let sizes = batch_sizes(batches);
    let out = emitted(left, batches);
    if batches.len() == 0 || spent(left) {
        assert(out =~= seq![]);
        assert(flatten(batches).take(0) =~= seq![]);
    } else {
        let b = batches[0];
        let tail = batches.drop_first();
        let rem = remaining(left, sizes[0]);
        assert(sizes.drop_first() =~= batch_sizes(tail));
        let rest = emitted(rem, tail);
        lemma_limited_rows(rem, tail);
        let a = admitted(left, sizes[0]);
        let counts = limited(left, sizes);
        let tail_counts = limited(rem, batch_sizes(tail));
        lemma_limited_pulls(rem, batch_sizes(tail));
        assert(counts == seq![a] + tail_counts);
        assert(out.len() == rest.len() + 1);
        assert forall|i: int| 0 <= i < rest.len() implies #[trigger] out.drop_first()[i] == rest[i] by {
            assert(batches[i + 1] == tail[i]);
            assert(counts[i + 1] == tail_counts[i]);
        }
        assert(out.drop_first() =~= rest);
        assert(out[0] == b.take(a as int));
        assert(flatten(out) == b.take(a as int) + flatten(rest));
        assert(flatten(batches) == b + flatten(tail));
        if a == b.len() {
            assert(b.take(a as int) =~= b);
            assert(flatten(out) =~= flatten(batches).take(
                capped(left, flatten(batches).len() as int),
            ));
        } else {
            assert(spent(rem));
            assert(rest =~= seq![]);
            assert(flatten(rest) =~= seq![]);
            assert(flatten(out) =~= flatten(batches).take(
                capped(left, flatten(batches).len() as int),
            ));
        }
    }
}

} // verus!
