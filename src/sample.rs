//! The random row sampler: a uniformly random set of row positions,
//! drawn without replacement, marked in file order.

use rand::seq::SliceRandom;
use vstd::prelude::*;

verus! {

/// Number of marked positions.
pub open spec fn count_marked(mask: Seq<bool>) -> nat
    decreases mask.len(),
{
    if mask.len() == 0 {
        0
    } else {
        count_marked(mask.drop_last()) + if mask.last() {
            1nat
        } else {
            0nat
        }
    }
}

pub open spec fn min_nat(a: nat, b: nat) -> nat {
    if a <= b {
        a
    } else {
        b
    }
}

/// `order` lists every position below `total` once.
pub open spec fn is_position_order(order: Seq<usize>, total: nat) -> bool {
    &&& order.len() == total
    &&& order.no_duplicates()
    &&& forall|i: int| 0 <= i < order.len() ==> (#[trigger] order[i]) < total
}

proof fn lemma_mark_one(mask: Seq<bool>, p: int)
    requires
        0 <= p < mask.len(),
        !mask[p],
    ensures
        count_marked(mask.update(p, true)) == count_marked(mask) + 1,
    decreases mask.len(),
{
    let up = mask.update(p, true);
    if p == mask.len() - 1 {
        assert(up.drop_last() =~= mask.drop_last());
    } else {
        assert(up.drop_last() =~= mask.drop_last().update(p, true));
        lemma_mark_one(mask.drop_last(), p);
    }
}

/// Marks the first `sample_size` positions of `order` (all of them when
/// there are fewer): position `p` is marked iff it is among them.
pub fn sample_mask(total: usize, order: &Vec<usize>, sample_size: usize) -> (mask: Vec<bool>)
    requires
        is_position_order(order@, total as nat),
    ensures
        mask@.len() == total,
        forall|p: int|
            0 <= p < total ==> (#[trigger] mask@[p] <==> order@.take(
                min_nat(sample_size as nat, total as nat) as int,
            ).contains(p as usize)),
        count_marked(mask@) == min_nat(sample_size as nat, total as nat),
{
    let mut mask: Vec<bool> = Vec::new();
    let mut i: usize = 0;
    while i < total
        invariant
            i <= total,
            mask@.len() == i,
            forall|p: int| 0 <= p < i ==> !(#[trigger] mask@[p]),
            count_marked(mask@) == 0,
        decreases total - i,
    {
        let ghost prev = mask@;
        mask.push(false);
        assert(mask@.drop_last() =~= prev);
        i = i + 1;
    }
    let m: usize = if sample_size <= total {
        sample_size
    } else {
        total
    };
    let mut j: usize = 0;
    while j < m
        invariant
            m <= total,
            j <= m,
            is_position_order(order@, total as nat),
            mask@.len() == total,
            forall|p: int|
                0 <= p < total ==> (#[trigger] mask@[p] <==> order@.take(j as int).contains(
                    p as usize,
                )),
            count_marked(mask@) == j,
        decreases m - j,
    {
        let x = order[j];
        assert(!order@.take(j as int).contains(x)) by {
            if order@.take(j as int).contains(x) {
                let k = choose|k: int| 0 <= k < j && #[trigger] order@.take(j as int)[k] == x;
                assert(order@[k] == order@[j as int]);
            }
        }
        assert(!mask@[x as int]);
        proof {
            lemma_mark_one(mask@, x as int);
        }
        mask.set(x, true);
        assert forall|p: int| 0 <= p < total implies (#[trigger] mask@[p] <==> order@.take(
            j + 1,
        ).contains(p as usize)) by {
            assert(order@.take(j + 1) =~= order@.take(j as int).push(x));
            if p == x as int {
                assert(order@.take(j + 1)[j as int] == x);
            } else {
                if order@.take(j + 1).contains(p as usize) {
                    let k = choose|k: int| 0 <= k < j + 1 && #[trigger] order@.take(j + 1)[k] == p as usize;
                    assert(order@.take(j as int)[k] == p as usize);
                }
            }
        }
        j = j + 1;
    }
    mask
}

/// The marked positions in ascending order: the rows a sample emits, each
/// once, in file order.
pub fn marked_positions(mask: &Vec<bool>) -> (r: Vec<usize>)
    ensures
        r@.len() == count_marked(mask@),
        forall|a: int, b: int| 0 <= a < b < r@.len() ==> r@[a] < r@[b],
        forall|k: int| 0 <= k < r@.len() ==> (#[trigger] r@[k]) < mask@.len() && mask@[r@[k] as int],
        forall|p: int| 0 <= p < mask@.len() && #[trigger] mask@[p] ==> r@.contains(p as usize),
{
    let mut r: Vec<usize> = Vec::new();
    let mut i: usize = 0;
    while i < mask.len()
        invariant
            i <= mask.len(),
            r@.len() == count_marked(mask@.take(i as int)),
            forall|a: int, b: int| 0 <= a < b < r@.len() ==> r@[a] < r@[b],
            forall|k: int| 0 <= k < r@.len() ==> (#[trigger] r@[k]) < i && mask@[r@[k] as int],
            forall|p: int| 0 <= p < i && #[trigger] mask@[p] ==> r@.contains(p as usize),
        decreases mask.len() - i,
    {
        assert(mask@.take(i + 1).drop_last() =~= mask@.take(i as int));
        if mask[i] {
            let ghost prev = r@;
            r.push(i);
            assert(r@[r@.len() - 1] == i);
            assert forall|p: int| 0 <= p < i + 1 && #[trigger] mask@[p] implies r@.contains(
                p as usize,
            ) by {
                if p < i {
                    let k = choose|k: int| 0 <= k < prev.len() && #[trigger] prev[k] == p as usize;
                    assert(r@[k] == p as usize);
                }
            }
        }
        i = i + 1;
    }
    assert(mask@.take(i as int) =~= mask@);
    r
}

/// Relies on rand's `SliceRandom::shuffle` with `thread_rng`: it only swaps
/// elements, so the result is a permutation of the input.
#[verifier::external_body]
fn shuffle_positions(v: &mut Vec<usize>)
    ensures
        final(v)@.to_multiset() == old(v)@.to_multiset(),
{
    v.shuffle(&mut rand::thread_rng());
}

/// Draws `min(sample_size, total_rows)` distinct positions below
/// `total_rows`, uniformly at random, and marks them: row `p` of the file
/// is emitted iff `mask[p]`, so rows come out in file order.
pub fn sample_positions(total_rows: usize, sample_size: usize) -> (mask: Vec<bool>)
    ensures
        mask@.len() == total_rows,
        count_marked(mask@) == min_nat(sample_size as nat, total_rows as nat),
        exists|order: Seq<usize>|
            #![trigger is_position_order(order, total_rows as nat)]
            is_position_order(order, total_rows as nat) && forall|p: int|
                0 <= p < total_rows ==> (#[trigger] mask@[p] <==> order.take(
                    min_nat(sample_size as nat, total_rows as nat) as int,
                ).contains(p as usize)),
{
    let mut order: Vec<usize> = Vec::new();
    let mut i: usize = 0;
    while i < total_rows
        invariant
            i <= total_rows,
            order@ == Seq::new(i as nat, |k: int| k as usize),
        decreases total_rows - i,
    {
        order.push(i);
        assert(order@ =~= Seq::new((i + 1) as nat, |k: int| k as usize));
        i = i + 1;
    }
    let ghost before = order@;
    proof {
        assert(before.no_duplicates());
        before.lemma_multiset_has_no_duplicates();
    }
    shuffle_positions(&mut order);
    proof {
        broadcast use vstd::seq_lib::group_to_multiset_ensures;

        assert(order@.to_multiset().len() == before.to_multiset().len());
        assert(order@.len() == before.len());
        order@.lemma_multiset_has_no_duplicates_conv();
        assert forall|k: int| 0 <= k < order@.len() implies (#[trigger] order@[k]) < total_rows by {
            assert(order@.contains(order@[k]));
            assert(before.to_multiset().count(order@[k]) > 0);
            assert(before.contains(order@[k]));
        }
    }
    let mask = sample_mask(total_rows, &order, sample_size);
    assert(is_position_order(order@, total_rows as nat));
    mask
}

} // verus!
