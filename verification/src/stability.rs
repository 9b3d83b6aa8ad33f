//! Restart detection from the boot times a host reported: boot times that
//! drift by a few seconds a day stay one boot, a jump beyond the tolerance is
//! a restart.
use vstd::prelude::*;
use crate::ordering::{is_order, lemma_positions_cover};
use vstd::relations::{sorted_by, total_ordering};
use vstd::seq_lib::lemma_sorted_unique;

verus! {

/// The drift, in seconds, that neighbouring boot times may show without
/// counting as a restart.
pub const DRIFT_TOLERANCE_SECS: i64 = 300;

/// Position `i` of `vals` comes before `j` in ascending order (ties by position).
pub open spec fn value_before(vals: Seq<i64>) -> spec_fn(int, int) -> bool {
    |i: int, j: int| vals[i] < vals[j] || (vals[i] == vals[j] && i < j)
}

/// How many neighbours of `s` lie more than `tol` apart.
pub open spec fn gaps_over(s: Seq<i64>, tol: int) -> nat
    decreases s.len(),
{
    if s.len() < 2 {
        0
    } else {
        gaps_over(s.drop_last(), tol) + if s.last() - s[s.len() - 2] > tol {
            1nat
        } else {
            0nat
        }
    }
}

/// The values of `vals` taken in `order`.
pub open spec fn in_order(vals: Seq<i64>, order: Seq<int>) -> Seq<i64> {
    order.map_values(|i: int| vals[i])
}

/// Ascending order of boot times.
pub open spec fn boot_leq() -> spec_fn(i64, i64) -> bool {
    |x: i64, y: i64| x <= y
}

/// The boot times of `vals` in ascending order.
pub open spec fn ascending_boots(vals: Seq<i64>) -> Seq<i64> {
    vals.sort_by(boot_leq())
}

/// Each boot time of the ascending sequence `asc` lies at most `i64::MAX`
/// above the one before it, so that the gaps can be computed.
pub open spec fn neighbours_fit(asc: Seq<i64>) -> bool {
    forall|i: int| 0 <= i < asc.len() - 1 ==> #[trigger] asc[i + 1] - asc[i] <= i64::MAX
}

/// The restarts that boot times `vals` show: the neighbours of the ascending
/// boot times more than the tolerance apart.
pub open spec fn restarts_of(vals: Seq<i64>) -> nat {
    gaps_over(ascending_boots(vals), DRIFT_TOLERANCE_SECS as int)
}

/// Taking the values of `vals` in the order of a permutation of its
/// positions keeps each value as often as it occurs.
proof fn lemma_in_order_multiset(vals: Seq<i64>, order: Seq<int>)
    requires
        order.len() == vals.len(),
        forall|a: int| 0 <= a < order.len() ==> 0 <= #[trigger] order[a] < vals.len(),
        forall|a: int, b: int|
            0 <= a < order.len() && 0 <= b < order.len() && a != b ==> #[trigger] order[a]
                != #[trigger] order[b],
    ensures
        in_order(vals, order).to_multiset() == vals.to_multiset(),
    decreases vals.len(),
{
    broadcast use vstd::seq_lib::group_to_multiset_ensures;
    broadcast use vstd::multiset::group_multiset_axioms;

    let w = in_order(vals, order);
    if vals.len() == 0 {
        assert(w =~= vals);
    } else {
        let n = vals.len() - 1;
        lemma_positions_cover(vals.len() as int, order, n);
        let a = choose|a: int| 0 <= a < order.len() && order[a] == n;
        let o2 = order.remove(a);
        let v2 = vals.drop_last();
        assert forall|b: int| 0 <= b < o2.len() implies 0 <= #[trigger] o2[b] < v2.len() by {
            let ob = if b < a { b } else { b + 1 };
            assert(o2[b] == order[ob]);
            assert(order[ob] != order[a]);
        }
        assert forall|b: int, c: int| 0 <= b < o2.len() && 0 <= c < o2.len() && b != c implies #[trigger] o2[b]
            != #[trigger] o2[c] by {
            let ob = if b < a { b } else { b + 1 };
            let oc = if c < a { c } else { c + 1 };
            assert(o2[b] == order[ob] && o2[c] == order[oc]);
        }
        lemma_in_order_multiset(v2, o2);
        assert forall|b: int| 0 <= b < o2.len() implies #[trigger] in_order(v2, o2)[b] == w.remove(a)[b] by {
            let ob = if b < a { b } else { b + 1 };
            assert(o2[b] == order[ob]);
        }
        assert(w.remove(a) =~= in_order(v2, o2));
        let x = vals.last();
        assert(w[a] == x);
        assert(vals =~= v2.push(x));
        assert(w.remove(a).to_multiset() == w.to_multiset().remove(x));
        assert(w.to_multiset().count(x) > 0) by {
            assert(w.contains(x));
        }
        assert(w.to_multiset() =~= w.to_multiset().remove(x).insert(x));
    }
}

/// The values of `vals` in an ascending order of its positions are its boot
/// times in ascending order.
proof fn lemma_in_order_ascending(vals: Seq<i64>, order: Seq<int>)
    requires
        is_order(vals.len() as int, value_before(vals), order),
    ensures
        in_order(vals, order) == ascending_boots(vals),
{
    let w = in_order(vals, order);
    let leq = boot_leq();
    assert(total_ordering(leq));
    lemma_in_order_multiset(vals, order);
    vals.lemma_sort_by_ensures(leq);
    assert(sorted_by(w, leq)) by {
        assert forall|i: int, j: int| 0 <= i < j < w.len() implies #[trigger] leq(w[i], w[j]) by {
            assert(value_before(vals)(order[i], order[j]));
        }
    }
    lemma_sorted_unique(w, vals.sort_by(leq), leq);
}

/// Restart counting depends only on which boot times were reported, each
/// as often as it was, never on the order of the report: two reports with
/// the same boot times show the same restarts.
pub proof fn law_restarts_ignore_order(v1: Seq<i64>, v2: Seq<i64>)
    requires
        v1.to_multiset() == v2.to_multiset(),
    ensures
        ascending_boots(v1) == ascending_boots(v2),
        restarts_of(v1) == restarts_of(v2),
        neighbours_fit(ascending_boots(v1)) == neighbours_fit(ascending_boots(v2)),
        v1.len() > 0 ==> restarts_of(v1) < v1.len(),
{
    let leq = boot_leq();
    assert(total_ordering(leq));
    v1.lemma_sort_by_ensures(leq);
    v2.lemma_sort_by_ensures(leq);
    lemma_sorted_unique(v1.sort_by(leq), v2.sort_by(leq), leq);
    broadcast use vstd::seq_lib::group_to_multiset_ensures;
    assert(v1.sort_by(leq).len() == v1.len()) by {
        assert(v1.sort_by(leq).to_multiset().len() == v1.to_multiset().len());
    }
    lemma_gaps_below_len(ascending_boots(v1), DRIFT_TOLERANCE_SECS as int);
}

/// A non-empty sequence has fewer gaps than elements.
proof fn lemma_gaps_below_len(s: Seq<i64>, tol: int)
    ensures
        s.len() > 0 ==> gaps_over(s, tol) < s.len(),
    decreases s.len(),
{
    if s.len() >= 2 {
        lemma_gaps_below_len(s.drop_last(), tol);
    }
}

/// The positions of `vals` in ascending order of value.
fn ascending(vals: &Vec<i64>) -> (order: Vec<usize>)
    ensures
        is_order(vals.len() as int, value_before(vals@), order@.map_values(|x: usize| x as int)),
{
    let ghost before = value_before(vals@);
    let mut order: Vec<usize> = Vec::new();
    let mut k: usize = 0;
    while k < vals.len()
        invariant
            0 <= k <= vals.len(),
            before == value_before(vals@),
            order.len() == k,
            forall|a: int| 0 <= a < order.len() ==> #[trigger] order@[a] < k,
            forall|a: int, b: int|
                0 <= a < order.len() && 0 <= b < order.len() && a != b ==> #[trigger] order@[a]
                    != #[trigger] order@[b],
            forall|a: int, b: int|
                0 <= a < b < order.len() ==> before(#[trigger] order@[a] as int, #[trigger] order@[b] as int),
        decreases vals.len() - k,
    {
        let v = vals[k];
        let mut p: usize = 0;
        while p < order.len() && vals[order[p]] <= v
            invariant
                0 <= p <= order.len(),
                order.len() == k,
                k < vals.len(),
                v == vals@[k as int],
                forall|a: int| 0 <= a < order.len() ==> #[trigger] order@[a] < k,
                forall|a: int| 0 <= a < p ==> vals@[#[trigger] order@[a] as int] <= v,
            decreases order.len() - p,
        {
            p += 1;
        }
        let ghost old_order = order@;
        order.insert(p, k);
        proof {
            assert forall|a: int, b: int| 0 <= a < b < order.len() implies before(
                #[trigger] order@[a] as int,
                #[trigger] order@[b] as int,
            ) by {
                if b < p {
                    assert(order@[a] == old_order[a] && order@[b] == old_order[b]);
                } else if b == p {
                    assert(order@[a] == old_order[a]);
                } else if a == p {
                    assert(order@[b] == old_order[b - 1]);
                    assert(p < old_order.len());
                    if b - 1 > p {
                        assert(before(old_order[p as int] as int, old_order[b - 1] as int));
                    }
                } else if a < p {
                    assert(order@[a] == old_order[a] && order@[b] == old_order[b - 1]);
                    assert(before(old_order[a] as int, old_order[b - 1] as int));
                } else {
                    assert(order@[a] == old_order[a - 1] && order@[b] == old_order[b - 1]);
                    assert(before(old_order[a - 1] as int, old_order[b - 1] as int));
                }
            }
            assert forall|a: int, b: int|
                0 <= a < order.len() && 0 <= b < order.len() && a != b implies #[trigger] order@[a]
                    != #[trigger] order@[b] by {
                if a != p && b != p {
                    let oa = if a < p { a } else { a - 1 };
                    let ob = if b < p { b } else { b - 1 };
                    assert(order@[a] == old_order[oa] && order@[b] == old_order[ob]);
                } else if a == p {
                    let ob = if b < p { b } else { b - 1 };
                    assert(order@[b] == old_order[ob]);
                } else {
                    let oa = if a < p { a } else { a - 1 };
                    assert(order@[a] == old_order[oa]);
                }
            }
            assert forall|a: int| 0 <= a < order.len() implies #[trigger] order@[a] < k + 1 by {
                if a < p {
                    assert(order@[a] == old_order[a]);
                } else if a > p {
                    assert(order@[a] == old_order[a - 1]);
                }
            }
        }
        k += 1;
    }
    proof {
        let m = order@.map_values(|x: usize| x as int);
        assert forall|a: int, b: int| 0 <= a < b < m.len() implies before(#[trigger] m[a], #[trigger] m[b]) by {
            assert(m[a] == order@[a] as int && m[b] == order@[b] as int);
        }
        assert forall|a: int, b: int|
            0 <= a < m.len() && 0 <= b < m.len() && a != b implies #[trigger] m[a] != #[trigger] m[b] by {
            assert(m[a] == order@[a] as int && m[b] == order@[b] as int);
        }
        assert forall|a: int| 0 <= a < m.len() implies 0 <= #[trigger] m[a] < vals@.len() by {
            assert(m[a] == order@[a] as int);
        }
    }
    order
}

/// The number of restarts that boot times `vals` show: the boot times in
/// ascending order, counting each neighbour more than the tolerance above
/// the previous one; none without boot times.
pub fn reboots_from_boot_values(vals: &Vec<i64>) -> (r: Option<i64>)
    requires
        vals.len() <= i64::MAX,
        neighbours_fit(ascending_boots(vals@)),
    ensures
        vals.len() == 0 ==> r is None,
        vals.len() > 0 ==> r == Some(restarts_of(vals@) as i64),
        r matches Some(k) ==> 0 <= k < vals.len(),
{
    if vals.len() == 0 {
        return None;
    }
    let order = ascending(vals);
    let ghost m = order@.map_values(|x: usize| x as int);
    let ghost s = in_order(vals@, m);
    proof {
        lemma_in_order_ascending(vals@, m);
    }
    let mut restarts: i64 = 0;
    let mut k: usize = 1;
    while k < order.len()
        invariant
            1 <= k <= order.len(),
            order.len() == vals.len(),
            vals.len() <= i64::MAX,
            m == order@.map_values(|x: usize| x as int),
            s == in_order(vals@, m),
            is_order(vals.len() as int, value_before(vals@), m),
            s == ascending_boots(vals@),
            neighbours_fit(s),
            restarts == gaps_over(s.subrange(0, k as int), DRIFT_TOLERANCE_SECS as int),
            restarts < k,
        decreases order.len() - k,
    {
        assert(m[k as int] == order@[k as int] as int);
        assert(m[k - 1] == order@[k - 1] as int);
        let hi = vals[order[k]];
        let lo = vals[order[k - 1]];
        assert(s[k as int] == hi && s[k - 1] == lo);
        assert(value_before(vals@)(m[k - 1], m[k as int]));
        assert(s[(k - 1) + 1] - s[k - 1] <= i64::MAX);
        assert(s.subrange(0, k + 1).drop_last() =~= s.subrange(0, k as int));
        if hi - lo > DRIFT_TOLERANCE_SECS {
            restarts += 1;
        }
        k += 1;
    }
    assert(s.subrange(0, order.len() as int) =~= s);
    Some(restarts)
}

} // verus!
