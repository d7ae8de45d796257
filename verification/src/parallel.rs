//! Work on every item of a list, on all processors.

use rayon::prelude::{IntoParallelRefIterator, ParallelIterator, ParallelSliceMut};
use vstd::prelude::*;

verus! {

/// Calls `f` on every item with rayon's parallel `map`, and collects the
/// results in the order of the items: result `i` is one that `f` may return
/// for item `i`.
#[verifier::external_body]
pub(crate) fn map_all<T: Sync, U: Send, F: Fn(&T) -> U + Sync + Send>(items: &[T], f: F) -> (r: Vec<
    U,
>)
    requires
        forall|i: int| 0 <= i < items@.len() ==> f.requires((&#[trigger] items@[i],)),
    ensures
        r@.len() == items@.len(),
        forall|i: int| 0 <= i < r@.len() ==> f.ensures((&items@[i],), #[trigger] r@[i]),
{
    items.par_iter().map(f).collect()
}

/// Sorts rows of numbers with rayon's `par_sort_unstable`: the same rows,
/// in the lexicographic order of tuples.
#[verifier::external_body]
pub(crate) fn sort_all(rows: &mut Vec<(u64, u64, u64)>)
    ensures
        final(rows)@.to_multiset() == old(rows)@.to_multiset(),
        crate::order::rows_sorted(final(rows)@),
{
    rows.par_sort_unstable();
}

/// Rows in order.
pub fn sorted(list: Vec<(u64, u64, u64)>) -> (r: Vec<(u64, u64, u64)>)
    ensures
        r@ == crate::order::sorted_rows(list@),
{
    let mut rows: Vec<(u64, u64, u64)> = list;
    sort_all(&mut rows);
    proof {
        crate::order::sorting_is_unique(list@, rows@);
    }
    rows
}

/// The numbers below `n`, in order.
pub fn numbers(n: usize) -> (r: Vec<usize>)
    ensures
        r@.len() == n,
        forall|i: int| 0 <= i < n ==> #[trigger] r@[i] == i,
{
    let mut out: Vec<usize> = Vec::new();
    let mut i: usize = 0;
    while i < n
        invariant
            i <= n,
            out@.len() == i,
            forall|k: int| 0 <= k < i ==> #[trigger] out@[k] == k,
        decreases n - i,
    {
        out.push(i);
        i += 1;
    }
    out
}

/// Lists one after the other.
pub open spec fn flattened<T>(lists: Seq<Seq<T>>) -> Seq<T>
    decreases lists.len(),
{
    if lists.len() == 0 {
        Seq::empty()
    } else {
        flattened(lists.drop_last()) + lists.last()
    }
}

/// What lists hold.
pub open spec fn lists_view<T>(lists: Seq<Vec<T>>) -> Seq<Seq<T>> {
    Seq::new(lists.len(), |i: int| lists[i]@)
}

/// Lists one after the other.
pub fn concatenated<T: Copy>(lists: &Vec<Vec<T>>) -> (r: Vec<T>)
    ensures
        r@ == flattened(lists_view(lists@)),
{
    let ghost views = lists_view(lists@);
    let mut out: Vec<T> = Vec::new();
    let mut i: usize = 0;
    assert(views.take(0) =~= Seq::empty());
    while i < lists.len()
        invariant
            i <= lists@.len(),
            views == lists_view(lists@),
            out@ == flattened(views.take(i as int)),
        decreases lists@.len() - i,
    {
        let one: &Vec<T> = &lists[i];
        let ghost before = out@;
        let mut k: usize = 0;
        while k < one.len()
            invariant
                k <= one@.len(),
                out@ == before + one@.take(k as int),
            decreases one@.len() - k,
        {
            out.push(one[k]);
            k += 1;
            assert(out@ =~= before + one@.take(k as int));
        }
        i += 1;
        proof {
            assert(one@.take(k as int) =~= one@);
            assert(views.take(i as int).drop_last() =~= views.take(i - 1));
            assert(views.take(i as int).last() == one@);
        }
    }
    assert(views.take(i as int) =~= views);
    out
}

} // verus!
