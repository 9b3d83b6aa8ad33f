//! Stable orderings: the positions of a list arranged by a strict order
//! among positions, which every sort of this library refines.
use vstd::prelude::*;
use vstd::set_lib::{lemma_int_range, lemma_subset_equality, set_int_range};

verus! {

/// `order` lists each position below `n` once, and position `order[a]`
/// comes before `order[b]` by `before` whenever `a < b`.
pub open spec fn is_order(n: int, before: spec_fn(int, int) -> bool, order: Seq<int>) -> bool {
    &&& order.len() == n
    &&& forall|a: int| 0 <= a < order.len() ==> 0 <= #[trigger] order[a] < n
    &&& forall|a: int, b: int|
        0 <= a < order.len() && 0 <= b < order.len() && a != b ==> #[trigger] order[a]
            != #[trigger] order[b]
    &&& forall|a: int, b: int| 0 <= a < b < order.len() ==> before(#[trigger] order[a], #[trigger] order[b])
}

/// A list of `n` distinct positions below `n` holds every position below `n`.
pub(crate) proof fn lemma_positions_cover(n: int, order: Seq<int>, v: int)
    requires
        order.len() == n,
        forall|a: int| 0 <= a < order.len() ==> 0 <= #[trigger] order[a] < n,
        forall|a: int, b: int|
            0 <= a < order.len() && 0 <= b < order.len() && a != b ==> #[trigger] order[a]
                != #[trigger] order[b],
        0 <= v < n,
    ensures
        order.contains(v),
{
    assert(order.no_duplicates()) by {
        assert forall|a: int, b: int| 0 <= a < order.len() && 0 <= b < order.len() && a != b implies order[a]
            != order[b] by {
            assert(order[a] != order[b]);
        }
    }
    order.unique_seq_to_set();
    lemma_int_range(0, n);
    let range = set_int_range(0, n);
    assert(order.to_set().subset_of(range)) by {
        assert forall|x: int| order.to_set().contains(x) implies range.contains(x) by {
            let a = choose|a: int| 0 <= a < order.len() && order[a] == x;
            assert(0 <= order[a] < n);
        }
    }
    lemma_subset_equality(order.to_set(), range);
    assert(range.contains(v));
    assert(order.to_set().contains(v));
}

proof fn lemma_order_covers(n: int, before: spec_fn(int, int) -> bool, order: Seq<int>, v: int)
    requires
        is_order(n, before, order),
        0 <= v < n,
    ensures
        order.contains(v),
{
    lemma_positions_cover(n, order, v);
}

proof fn lemma_order_prefix(n: int, before: spec_fn(int, int) -> bool, o1: Seq<int>, o2: Seq<int>, k: int)
    requires
        is_order(n, before, o1),
        is_order(n, before, o2),
        forall|i: int, j: int| #[trigger] before(i, j) ==> !before(j, i),
        0 <= k <= n,
    ensures
        forall|a: int| 0 <= a < k ==> o1[a] == o2[a],
    decreases k,
{
    if k > 0 {
        lemma_order_prefix(n, before, o1, o2, k - 1);
        let a = k - 1;
        if o1[a] != o2[a] {
            let x = o1[a];
            let y = o2[a];
            lemma_order_covers(n, before, o2, x);
            lemma_order_covers(n, before, o1, y);
            let b = choose|b: int| 0 <= b < o2.len() && o2[b] == x;
            let c = choose|c: int| 0 <= c < o1.len() && o1[c] == y;
            if b < a {
                assert(o1[b] == o2[b]);
                assert(o1[b] != o1[a]);
            }
            if c < a {
                assert(o1[c] == o2[c]);
                assert(o2[c] != o2[a]);
            }
            assert(before(o2[a], o2[b]));
            assert(before(o1[a], o1[c]));
        }
    }
}

/// Under an asymmetric `before`, the ordering of `n` positions is unique.
pub proof fn law_order_unique(n: int, before: spec_fn(int, int) -> bool, o1: Seq<int>, o2: Seq<int>)
    requires
        is_order(n, before, o1),
        is_order(n, before, o2),
        forall|i: int, j: int| #[trigger] before(i, j) ==> !before(j, i),
    ensures
        o1 == o2,
{
    lemma_order_prefix(n, before, o1, o2, n);
    assert(o1 =~= o2);
}

} // verus!
