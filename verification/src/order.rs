//! Sorting by keys.

use vstd::prelude::*;

verus! {

/// Whether row `a` comes before row `b`.
pub open spec fn row_less(a: (u64, u64, u64), b: (u64, u64, u64)) -> bool {
    a.0 < b.0 || (a.0 == b.0 && (a.1 < b.1 || (a.1 == b.1 && a.2 < b.2)))
}

/// Whether no row comes before an earlier one.
pub open spec fn rows_sorted(rows: Seq<(u64, u64, u64)>) -> bool {
    forall|i: int, j: int| 0 <= i < j < rows.len() ==> !row_less(#[trigger] rows[j], #[trigger] rows[i])
}

/// The lexicographic order of rows.
pub open spec fn row_order() -> spec_fn((u64, u64, u64), (u64, u64, u64)) -> bool {
    |a: (u64, u64, u64), b: (u64, u64, u64)| !row_less(b, a)
}

/// Rows in order.
pub open spec fn sorted_rows(rows: Seq<(u64, u64, u64)>) -> Seq<(u64, u64, u64)> {
    rows.sort_by(row_order())
}

/// Sorting leaves the same rows, in order, and there is one way to.
pub proof fn sorting_is_unique(list: Seq<(u64, u64, u64)>, rows: Seq<(u64, u64, u64)>)
    ensures
        is_sorted_of(rows, list) <==> rows == sorted_rows(list),
{
    let order = row_order();
    assert(vstd::relations::total_ordering(order));
    list.lemma_sort_by_ensures(order);
    let sorted = sorted_rows(list);
    assert forall|i: int, j: int| 0 <= i < j < sorted.len() implies !row_less(
        #[trigger] sorted[j],
        #[trigger] sorted[i],
    ) by {
        assert(order(sorted[i], sorted[j]));
    }
    if is_sorted_of(rows, list) {
        assert(vstd::relations::sorted_by(rows, order));
        vstd::seq_lib::lemma_sorted_unique(rows, sorted, order);
    }
}

/// Sorts rows of numbers with [`slice::sort_unstable`]: the same rows, in
/// the lexicographic order of tuples.
#[verifier::external_body]
pub(crate) fn sort_rows(rows: &mut Vec<(u64, u64, u64)>)
    ensures
        final(rows)@.to_multiset() == old(rows)@.to_multiset(),
        rows_sorted(final(rows)@),
{
    rows.sort_unstable();
}

/// Whether the key at `a` comes before the key at `b`, equal keys being
/// ordered by position.
pub open spec fn key_before(keys: Seq<(u64, u64)>, a: int, b: int) -> bool {
    row_less((keys[a].0, keys[a].1, a as u64), (keys[b].0, keys[b].1, b as u64))
}

/// Whether `order` lists every position of `keys` once, smallest key first
/// and equal keys in their own order.
pub open spec fn is_stable_order(keys: Seq<(u64, u64)>, order: Seq<usize>) -> bool {
    &&& order.len() == keys.len()
    &&& forall|i: int| 0 <= i < order.len() ==> (#[trigger] order[i]) < keys.len()
    &&& forall|i: int, j: int|
        0 <= i < j < order.len() ==> key_before(
            keys,
            #[trigger] order[i] as int,
            #[trigger] order[j] as int,
        )
}

/// A stable order names no position twice.
pub proof fn stable_orders_repeat_nothing(keys: Seq<(u64, u64)>, order: Seq<usize>)
    requires
        is_stable_order(keys, order),
    ensures
        order.no_duplicates(),
{
}

/// The positions of `keys`, smallest key first; equal keys keep their order.
pub fn stable_order(keys: &[(u64, u64)]) -> (order: Vec<usize>)
    ensures
        is_stable_order(keys@, order@),
{
    let mut rows: Vec<(u64, u64, u64)> = Vec::new();
    let len: usize = keys.len();
    let mut i: usize = 0;
    while i < len
        invariant
            i <= len,
            len == keys@.len(),
            rows@.len() == i,
            forall|j: int|
                0 <= j < i ==> #[trigger] rows@[j] == (keys@[j].0, keys@[j].1, j as u64),
        decreases len - i,
    {
        let key: (u64, u64) = keys[i];
        rows.push((key.0, key.1, i as u64));
        i += 1;
    }
    let ghost listed = rows@;
    sort_rows(&mut rows);
    proof {
        assert(listed.no_duplicates()) by {
            assert forall|a: int, b: int|
                0 <= a < listed.len() && 0 <= b < listed.len() && a != b implies listed[a]
                != listed[b] by {
                assert(listed[a].2 == a as u64);
                assert(listed[b].2 == b as u64);
            }
        }
        listed.lemma_multiset_has_no_duplicates();
        rows@.lemma_multiset_has_no_duplicates_conv();
        rows@.to_multiset_ensures();
        listed.to_multiset_ensures();
        assert forall|k: int| 0 <= k < rows@.len() implies {
            let at = (#[trigger] rows@[k]).2 as int;
            0 <= at < len && rows@[k] == (keys@[at].0, keys@[at].1, at as u64)
        } by {
            assert(rows@.contains(rows@[k]));
            assert(rows@.to_multiset().count(rows@[k]) > 0);
            assert(listed.contains(rows@[k]));
            let j = choose|j: int| 0 <= j < listed.len() && listed[j] == rows@[k];
            assert(rows@[k].2 == j as u64);
        }
    }
    let mut order: Vec<usize> = Vec::new();
    let mut k: usize = 0;
    while k < rows.len()
        invariant
            k <= rows@.len(),
            rows@.len() == len,
            len == keys@.len(),
            order@.len() == k,
            rows@.no_duplicates(),
            rows_sorted(rows@),
            forall|m: int|
                0 <= m < rows@.len() ==> {
                    let at = (#[trigger] rows@[m]).2 as int;
                    0 <= at < len && rows@[m] == (keys@[at].0, keys@[at].1, at as u64)
                },
            forall|m: int| 0 <= m < k ==> #[trigger] order@[m] == rows@[m].2 as usize,
            forall|m: int| 0 <= m < k ==> (#[trigger] order@[m]) == rows@[m].2,
        decreases rows@.len() - k,
    {
        order.push(rows[k].2 as usize);
        k += 1;
    }
    proof {
        assert forall|a: int, b: int| 0 <= a < b < order@.len() implies key_before(
            keys@,
            #[trigger] order@[a] as int,
            #[trigger] order@[b] as int,
        ) by {
            assert(rows@[a] != rows@[b]);
            assert(!row_less(rows@[b], rows@[a]));
        }
    }
    order
}

/// The first position from `i` on whose row starts with `key` or more.
pub open spec fn first_at_least(rows: Seq<(u64, u64, u64)>, key: u64, i: int) -> int
    decreases rows.len() - i,
{
    if 0 <= i < rows.len() && rows[i].0 < key {
        first_at_least(rows, key, i + 1)
    } else {
        i
    }
}

/// A position that divides rows by `key` is the first that starts with it
/// or more.
proof fn division_is_first(rows: Seq<(u64, u64, u64)>, key: u64, i: int, at: int)
    requires
        0 <= i <= at <= rows.len(),
        forall|k: int| i <= k < at ==> (#[trigger] rows[k]).0 < key,
        at < rows.len() ==> rows[at].0 >= key,
    ensures
        first_at_least(rows, key, i) == at,
    decreases at - i,
{
    if i < at {
        assert(rows[i].0 < key);
        division_is_first(rows, key, i + 1, at);
    }
}

/// The first position whose row starts with `key` or more, in sorted rows.
pub fn lower_bound(rows: &Vec<(u64, u64, u64)>, key: u64) -> (r: usize)
    requires
        rows_sorted(rows@),
    ensures
        r == first_at_least(rows@, key, 0),
        r <= rows@.len(),
        forall|k: int| 0 <= k < r ==> (#[trigger] rows@[k]).0 < key,
        forall|k: int| r <= k < rows@.len() ==> (#[trigger] rows@[k]).0 >= key,
{
    let mut low: usize = 0;
    let mut high: usize = rows.len();
    while low < high
        invariant
            low <= high <= rows@.len(),
            rows_sorted(rows@),
            forall|k: int| 0 <= k < low ==> (#[trigger] rows@[k]).0 < key,
            forall|k: int| high <= k < rows@.len() ==> (#[trigger] rows@[k]).0 >= key,
        decreases high - low,
    {
        let middle: usize = low + (high - low) / 2;
        if rows[middle].0 < key {
            proof {
                assert forall|k: int| 0 <= k <= middle implies (#[trigger] rows@[k]).0 < key by {
                    if k < middle {
                        assert(!row_less(rows@[middle as int], rows@[k]));
                    }
                }
            }
            low = middle + 1;
        } else {
            proof {
                assert forall|k: int| middle <= k < rows@.len() implies (#[trigger] rows@[k]).0
                    >= key by {
                    if k > middle {
                        assert(!row_less(rows@[k], rows@[middle as int]));
                    }
                }
            }
            high = middle;
        }
    }
    proof {
        division_is_first(rows@, key, 0, low as int);
    }
    low
}

/// Whether `rows` are the rows of `list`, sorted.
pub open spec fn is_sorted_of(rows: Seq<(u64, u64, u64)>, list: Seq<(u64, u64, u64)>) -> bool {
    rows_sorted(rows) && rows.to_multiset() == list.to_multiset()
}

/// Whether `r` holds the rows of `list`, each once, in order.
pub open spec fn is_row_set(list: Seq<(u64, u64, u64)>, r: Seq<(u64, u64, u64)>) -> bool {
    &&& forall|i: int, j: int| 0 <= i < j < r.len() ==> row_less(#[trigger] r[i], #[trigger] r[j])
    &&& forall|row: (u64, u64, u64)| #[trigger] r.contains(row) <==> list.contains(row)
}

/// Sorts rows and drops repeated ones.
pub fn row_set(list: Vec<(u64, u64, u64)>) -> (r: Vec<(u64, u64, u64)>)
    ensures
        is_row_set(list@, r@),
{
    let mut rows: Vec<(u64, u64, u64)> = list;
    sort_rows(&mut rows);
    proof {
        rows@.to_multiset_ensures();
        list@.to_multiset_ensures();
        assert forall|row: (u64, u64, u64)| #[trigger] rows@.contains(row) <==> list@.contains(
            row,
        ) by {
            assert(rows@.to_multiset().count(row) == list@.to_multiset().count(row));
        }
    }
    let mut out: Vec<(u64, u64, u64)> = Vec::new();
    let mut k: usize = 0;
    while k < rows.len()
        invariant
            k <= rows@.len(),
            rows_sorted(rows@),
            forall|i: int, j: int|
                0 <= i < j < out@.len() ==> row_less(#[trigger] out@[i], #[trigger] out@[j]),
            forall|j: int| 0 <= j < out@.len() ==> rows@.contains(#[trigger] out@[j]),
            forall|j: int| 0 <= j < k ==> out@.contains(#[trigger] rows@[j]),
            k == 0 ==> out@.len() == 0,
            k > 0 ==> out@.len() > 0 && out@.last() == rows@[k - 1],
        decreases rows@.len() - k,
    {
        let row: (u64, u64, u64) = rows[k];
        let ghost before = out@;
        let repeated: bool = k > 0 && rows[k - 1].0 == row.0 && rows[k - 1].1 == row.1 && rows[k
            - 1].2 == row.2;
        if !repeated {
            proof {
                assert forall|a: int| 0 <= a < before.len() implies row_less(
                    #[trigger] before[a],
                    row,
                ) by {
                    assert(!row_less(rows@[k as int], rows@[k - 1]));
                    if a < before.len() - 1 {
                        assert(row_less(before[a], before.last()));
                    }
                }
                assert(rows@.contains(rows@[k as int]));
            }
            out.push(row);
            assert(out@.last() == row);
            assert forall|j: int| 0 <= j < k + 1 implies out@.contains(#[trigger] rows@[j]) by {
                if j < k {
                    assert(before.contains(rows@[j]));
                    let n = choose|n: int| 0 <= n < before.len() && before[n] == rows@[j];
                    assert(out@[n] == rows@[j]);
                } else {
                    assert(out@[before.len() as int] == rows@[j]);
                }
            }
        } else {
            assert(out@[out@.len() - 1] == rows@[k as int]);
        }
        k += 1;
    }
    proof {
        assert forall|row: (u64, u64, u64)| #[trigger] out@.contains(row) <==> list@.contains(
            row,
        ) by {
            if rows@.contains(row) {
                let j = choose|j: int| 0 <= j < rows@.len() && rows@[j] == row;
                assert(out@.contains(rows@[j]));
            }
            if out@.contains(row) {
                let j = choose|j: int| 0 <= j < out@.len() && out@[j] == row;
                assert(rows@.contains(out@[j]));
            }
        }
    }
    out
}

/// Whether `r` holds, for each first number of `list`, the first of its
/// rows, in order.
pub open spec fn is_first_of_each(list: Seq<(u64, u64, u64)>, r: Seq<(u64, u64, u64)>) -> bool {
    &&& forall|i: int, j: int| 0 <= i < j < r.len() ==> (#[trigger] r[i]).0 < (#[trigger] r[j]).0
    &&& forall|i: int| 0 <= i < r.len() ==> list.contains(#[trigger] r[i])
    &&& forall|row: (u64, u64, u64)| #[trigger] list.contains(row) ==> has_earlier(r, row)
}

/// Whether rows hold one that starts as `row` does and does not come after
/// it.
pub open spec fn has_earlier(rows: Seq<(u64, u64, u64)>, row: (u64, u64, u64)) -> bool {
    exists|i: int| 0 <= i < rows.len() && (#[trigger] rows[i]).0 == row.0 && !row_less(row, rows[i])
}

/// Sorts rows and keeps the first of those that start alike.
pub fn first_of_each(list: Vec<(u64, u64, u64)>) -> (r: Vec<(u64, u64, u64)>)
    ensures
        is_first_of_each(list@, r@),
{
    let ghost listed = list@;
    let sorted: Vec<(u64, u64, u64)> = row_set(list);
    let mut out: Vec<(u64, u64, u64)> = Vec::new();
    let mut k: usize = 0;
    while k < sorted.len()
        invariant
            k <= sorted@.len(),
            is_row_set(listed, sorted@),
            forall|a: int, b: int|
                0 <= a < b < out@.len() ==> (#[trigger] out@[a]).0 < (#[trigger] out@[b]).0,
            forall|a: int| 0 <= a < out@.len() ==> listed.contains(#[trigger] out@[a]),
            forall|m: int| 0 <= m < k ==> has_earlier(out@, #[trigger] sorted@[m]),
            k == 0 ==> out@.len() == 0,
            k > 0 ==> out@.len() > 0 && out@.last().0 == sorted@[k - 1].0,
        decreases sorted@.len() - k,
    {
        let row: (u64, u64, u64) = sorted[k];
        let ghost before = out@;
        assert(sorted@.contains(sorted@[k as int]));
        let again: bool = k > 0 && sorted[k - 1].0 == row.0;
        if !again {
            proof {
                assert forall|a: int| 0 <= a < before.len() implies (#[trigger] before[a]).0
                    < row.0 by {
                    assert(row_less(sorted@[k - 1], sorted@[k as int]));
                    if a < before.len() - 1 {
                        assert(before[a].0 < before.last().0);
                    }
                }
            }
            out.push(row);
        }
        proof {
            assert forall|m: int| 0 <= m < k + 1 implies has_earlier(
                out@,
                #[trigger] sorted@[m],
            ) by {
                if m < k {
                    assert(has_earlier(before, sorted@[m]));
                    let a = choose|a: int|
                        0 <= a < before.len() && (#[trigger] before[a]).0 == sorted@[m].0
                            && !row_less(sorted@[m], before[a]);
                    assert(out@[a] == before[a]);
                } else if again {
                    assert(has_earlier(before, sorted@[k - 1]));
                    let a = choose|a: int|
                        0 <= a < before.len() && (#[trigger] before[a]).0 == sorted@[k - 1].0
                            && !row_less(sorted@[k - 1], before[a]);
                    assert(row_less(sorted@[k - 1], sorted@[k as int]));
                    assert(out@[a] == before[a]);
                } else {
                    assert(out@[before.len() as int] == sorted@[m]);
                }
            }
        }
        k += 1;
    }
    proof {
        assert forall|row: (u64, u64, u64)| #[trigger] listed.contains(row) implies has_earlier(
            out@,
            row,
        ) by {
            assert(sorted@.contains(row));
            let m = choose|m: int| 0 <= m < sorted@.len() && sorted@[m] == row;
            assert(has_earlier(out@, sorted@[m]));
        }
    }
    out
}

} // verus!
