//! Item listings: the items of a scope grouped by key, and the items of one
//! host, each narrowed by a case-insensitive search text.
use vstd::prelude::*;
use crate::types::{ItemRec, is_numeric};
use crate::text::{chars_of, contains, contains_seq, owned, str_eq, to_lowercase, unicode_lowercase};

verus! {

/// One key of the items of a scope.
#[derive(Debug, Clone)]
pub struct ItemAggRow {
    pub key: String,
    pub name: String,
    pub unit: String,
    /// float, uint or text.
    pub vt_label: String,
    /// How many items (one per host) carry the key.
    pub hosts: usize,
}

/// One item of a host, with its latest value.
#[derive(Debug, Clone)]
pub struct ItemDetailRow {
    pub key: String,
    pub name: String,
    pub lastvalue: String,
    pub units: String,
}

/// An aggregated row as plain values: (key, name, unit, value-type label, hosts).
pub type AggView = (Seq<char>, Seq<char>, Seq<char>, Seq<char>, nat);

/// The plain values of a row.
pub open spec fn agg_view(r: ItemAggRow) -> AggView {
    (r.key@, r.name@, r.unit@, r.vt_label@, r.hosts as nat)
}

/// The label of a value type: float (0), uint (3), text otherwise.
pub open spec fn vt_label_of(vt: u8) -> Seq<char> {
    if vt == 0 {
        "float"@
    } else if vt == 3 {
        "uint"@
    } else {
        "text"@
    }
}

/// How many items of `s` carry the key `k`.
pub open spec fn count_key(s: Seq<ItemRec>, k: Seq<char>) -> nat
    decreases s.len(),
{
    if s.len() == 0 {
        0
    } else {
        count_key(s.drop_last(), k) + if s.last().key@ == k {
            1nat
        } else {
            0nat
        }
    }
}

/// Item `i` is the first of `s` with its key.
pub open spec fn first_of_key(s: Seq<ItemRec>, i: int) -> bool {
    0 <= i < s.len() && forall|j: int| 0 <= j < i ==> (#[trigger] s[j]).key@ != s[i].key@
}

/// The row for the key of item `i`: name, unit and value type of that item,
/// and the number of items with the key.
pub open spec fn row_for(s: Seq<ItemRec>, i: int) -> AggView {
    (s[i].key@, s[i].name@, s[i].units@, vt_label_of(s[i].value_type), count_key(s, s[i].key@))
}

/// The search text `lower_filter` (already lower-cased) finds a key or a
/// name; an empty search finds everything.
pub open spec fn found(lower_filter: Seq<char>, key: Seq<char>, name: Seq<char>) -> bool {
    lower_filter.len() == 0 || contains_seq(unicode_lowercase(key), lower_filter) || contains_seq(
        unicode_lowercase(name),
        lower_filter,
    )
}

/// Character sequence `a` sorts before `b` (lexicographic by code point, the
/// order of `String`).
pub open spec fn seq_lt(a: Seq<char>, b: Seq<char>) -> bool
    decreases a.len(),
{
    if a.len() == 0 {
        b.len() > 0
    } else if b.len() == 0 {
        false
    } else if a[0] < b[0] {
        true
    } else if a[0] > b[0] {
        false
    } else {
        seq_lt(a.drop_first(), b.drop_first())
    }
}

/// Row `a` is listed before row `b`: more hosts first, then by key.
pub open spec fn row_before(a: AggView, b: AggView) -> bool {
    a.4 > b.4 || (a.4 == b.4 && seq_lt(a.0, b.0))
}

/// The label of a value type.
fn vt_label(vt: u8) -> (r: String)
    ensures
        r@ == vt_label_of(vt),
{
    if vt == 0 {
        owned("float")
    } else if vt == 3 {
        owned("uint")
    } else {
        owned("text")
    }
}

proof fn lemma_count_key_step(s: Seq<ItemRec>, i: int, k: Seq<char>)
    requires
        0 <= i < s.len(),
    ensures
        count_key(s.subrange(0, i + 1), k) == count_key(s.subrange(0, i), k) + if s[i].key@ == k {
            1nat
        } else {
            0nat
        },
{
    assert(s.subrange(0, i + 1).drop_last() =~= s.subrange(0, i));
}

/// The position of the row with key `key`, if any.
fn find_key(rows: &Vec<ItemAggRow>, key: &str) -> (r: Option<usize>)
    ensures
        match r {
            Some(a) => a < rows.len() && rows@[a as int].key@ == key@,
            None => forall|c: int| 0 <= c < rows.len() ==> (#[trigger] rows@[c]).key@ != key@,
        },
{
    let mut a: usize = 0;
    while a < rows.len()
        invariant
            0 <= a <= rows.len(),
            forall|c: int| 0 <= c < a ==> (#[trigger] rows@[c]).key@ != key@,
        decreases rows.len() - a,
    {
        if str_eq(rows[a].key.as_str(), key) {
            return Some(a);
        }
        a += 1;
    }
    None
}

/// The rows of the distinct keys of `items`, in order of first appearance,
/// with the first index of each key beside it.
fn group_by_key(items: &Vec<ItemRec>) -> (r: (Vec<ItemAggRow>, Vec<usize>))
    ensures
        r.0.len() == r.1.len(),
        forall|a: int|
            0 <= a < r.0.len() ==> first_of_key(items@, #[trigger] r.1@[a] as int) && agg_view(
                r.0@[a],
            ) == row_for(items@, r.1@[a] as int),
        forall|a: int, b: int|
            0 <= a < r.0.len() && 0 <= b < r.0.len() && a != b ==> (#[trigger] r.0@[a]).key@
                != (#[trigger] r.0@[b]).key@,
        forall|i: int|
            first_of_key(items@, i) ==> exists|a: int| 0 <= a < r.1.len() && #[trigger] r.1@[a] == i,
{
    let mut rows: Vec<ItemAggRow> = Vec::new();
    let mut firsts: Vec<usize> = Vec::new();
    let mut i: usize = 0;
    while i < items.len()
        invariant
            0 <= i <= items.len(),
            rows.len() == firsts.len(),
            forall|a: int|
                #![trigger rows@[a]]
                #![trigger firsts@[a]]
                0 <= a < rows.len() ==> {
                    &&& firsts@[a] < i
                    &&& first_of_key(items@, firsts@[a] as int)
                    &&& rows@[a].key@ == items@[firsts@[a] as int].key@
                    &&& rows@[a].name@ == items@[firsts@[a] as int].name@
                    &&& rows@[a].unit@ == items@[firsts@[a] as int].units@
                    &&& rows@[a].vt_label@ == vt_label_of(items@[firsts@[a] as int].value_type)
                    &&& rows@[a].hosts as nat == count_key(items@.subrange(0, i as int), rows@[a].key@)
                },
            forall|a: int, b: int|
                0 <= a < rows.len() && 0 <= b < rows.len() && a != b ==> (#[trigger] rows@[a]).key@
                    != (#[trigger] rows@[b]).key@,
            forall|j: int|
                0 <= j < i ==> exists|a: int|
                    0 <= a < rows.len() && (#[trigger] rows@[a]).key@ == (#[trigger] items@[j]).key@,
            forall|j: int|
                0 <= j < i && first_of_key(items@, j) ==> exists|a: int|
                    0 <= a < firsts.len() && #[trigger] firsts@[a] == j,
            i <= usize::MAX,
        decreases items.len() - i,
    {
        let it = &items[i];
        let found_at = find_key(&rows, it.key.as_str());
        proof {
            assert forall|kk: Seq<char>| true implies count_key(items@.subrange(0, i + 1), kk) == count_key(
                items@.subrange(0, i as int),
                kk,
            ) + if items@[i as int].key@ == kk {
                1nat
            } else {
                0nat
            } by {
                lemma_count_key_step(items@, i as int, kk);
            }
        }
        match found_at {
            Some(at) => {
                let ghost old_rows = rows@;
                assert(rows@[at as int].hosts as nat == count_key(items@.subrange(0, i as int), it.key@));
                assert(count_key(items@.subrange(0, i as int), it.key@) <= i) by {
                    lemma_count_key_bound(items@.subrange(0, i as int), it.key@);
                }
                let row = ItemAggRow {
                    key: rows[at].key.clone(),
                    name: rows[at].name.clone(),
                    unit: rows[at].unit.clone(),
                    vt_label: rows[at].vt_label.clone(),
                    hosts: rows[at].hosts + 1,
                };
                rows.set(at, row);
                proof {
                    assert forall|j: int| 0 <= j < i + 1 implies exists|a: int|
                        0 <= a < rows.len() && (#[trigger] rows@[a]).key@ == (
                        #[trigger] items@[j]).key@ by {
                        if j == i {
                            assert(rows@[at as int].key@ == items@[j].key@);
                        } else {
                            let c = choose|c: int|
                                0 <= c < old_rows.len() && (#[trigger] old_rows[c]).key@ == items@[j].key@;
                            assert(rows@[c].key@ == old_rows[c].key@);
                        }
                    }
                }
                assert(!first_of_key(items@, i as int)) by {
                    let f = firsts@[at as int] as int;
                    assert(items@[f].key@ == items@[i as int].key@);
                }
            },
            None => {
                let ghost old_rows = rows@;
                let ghost old_firsts = firsts@;
                assert(first_of_key(items@, i as int)) by {
                    assert forall|j: int| 0 <= j < i implies (#[trigger] items@[j]).key@
                        != items@[i as int].key@ by {
                        if items@[j].key@ == items@[i as int].key@ {
                            let c = choose|c: int|
                                0 <= c < rows.len() && (#[trigger] rows@[c]).key@ == items@[j].key@;
                            assert(rows@[c].key@ != it.key@);
                        }
                    }
                }
                assert(count_key(items@.subrange(0, i as int), it.key@) == 0) by {
                    lemma_count_key_absent(items@.subrange(0, i as int), it.key@);
                }
                rows.push(
                    ItemAggRow {
                        key: it.key.clone(),
                        name: it.name.clone(),
                        unit: it.units.clone(),
                        vt_label: vt_label(it.value_type),
                        hosts: 1,
                    },
                );
                firsts.push(i);
                proof {
                    assert forall|j: int| 0 <= j < i + 1 implies exists|a: int|
                        0 <= a < rows.len() && (#[trigger] rows@[a]).key@ == (
                        #[trigger] items@[j]).key@ by {
                        if j == i {
                            assert(rows@[rows.len() - 1].key@ == items@[j].key@);
                        } else {
                            let c = choose|c: int|
                                0 <= c < old_rows.len() && (#[trigger] old_rows[c]).key@ == items@[j].key@;
                            assert(rows@[c] == old_rows[c]);
                        }
                    }
                    assert forall|j: int| 0 <= j < i + 1 && first_of_key(items@, j) implies exists|a: int|
                        0 <= a < firsts.len() && #[trigger] firsts@[a] == j by {
                        if j == i {
                            assert(firsts@[firsts.len() - 1] == j);
                        } else {
                            let c = choose|c: int| 0 <= c < old_firsts.len() && #[trigger] old_firsts[c] == j;
                            assert(firsts@[c] == old_firsts[c]);
                        }
                    }
                }
            },
        }
        i += 1;
    }
    assert(items@.subrange(0, items.len() as int) =~= items@);
    (rows, firsts)
}

proof fn lemma_count_key_bound(s: Seq<ItemRec>, k: Seq<char>)
    ensures
        count_key(s, k) <= s.len(),
    decreases s.len(),
{
    if s.len() > 0 {
        lemma_count_key_bound(s.drop_last(), k);
    }
}

proof fn lemma_count_key_absent(s: Seq<ItemRec>, k: Seq<char>)
    requires
        forall|j: int| 0 <= j < s.len() ==> (#[trigger] s[j]).key@ != k,
    ensures
        count_key(s, k) == 0,
    decreases s.len(),
{
    if s.len() > 0 {
        assert(s.last().key@ != k) by {
            assert(s[s.len() - 1].key@ != k);
        }
        lemma_count_key_absent(s.drop_last(), k);
    }
}

proof fn lemma_seq_lt_irrefl(a: Seq<char>)
    ensures
        !seq_lt(a, a),
    decreases a.len(),
{
    if a.len() > 0 {
        lemma_seq_lt_irrefl(a.drop_first());
    }
}

proof fn lemma_seq_lt_trans(a: Seq<char>, b: Seq<char>, c: Seq<char>)
    requires
        seq_lt(a, b),
        seq_lt(b, c),
    ensures
        seq_lt(a, c),
    decreases a.len(),
{
    if a.len() > 0 && b.len() > 0 && c.len() > 0 {
        if a[0] == b[0] && b[0] == c[0] {
            lemma_seq_lt_trans(a.drop_first(), b.drop_first(), c.drop_first());
        }
    }
}

proof fn lemma_seq_lt_total(a: Seq<char>, b: Seq<char>)
    requires
        a != b,
    ensures
        seq_lt(a, b) || seq_lt(b, a),
    decreases a.len(),
{
    if a.len() == 0 {
        assert(b.len() > 0) by {
            if b.len() == 0 {
                assert(a =~= b);
            }
        }
    } else if b.len() > 0 && a[0] == b[0] {
        if a.drop_first() == b.drop_first() {
            assert(a.drop_first().len() == b.drop_first().len());
            assert(a.len() == b.len());
            assert(a =~= b) by {
                assert forall|i: int| 0 <= i < a.len() implies a[i] == b[i] by {
                    if i > 0 {
                        assert(a[i] == a.drop_first()[i - 1]);
                        assert(b[i] == b.drop_first()[i - 1]);
                    }
                }
            }
        }
        lemma_seq_lt_total(a.drop_first(), b.drop_first());
    }
}

/// The order of rows is strict and total over rows with different keys.
pub proof fn law_row_order(a: AggView, b: AggView, c: AggView)
    ensures
        !row_before(a, a),
        row_before(a, b) ==> !row_before(b, a),
        row_before(a, b) && row_before(b, c) ==> row_before(a, c),
        a.0 != b.0 ==> row_before(a, b) || row_before(b, a),
{
    lemma_seq_lt_irrefl(a.0);
    if seq_lt(a.0, b.0) && seq_lt(b.0, a.0) {
        lemma_seq_lt_trans(a.0, b.0, a.0);
    }
    if seq_lt(a.0, b.0) && seq_lt(b.0, c.0) {
        lemma_seq_lt_trans(a.0, b.0, c.0);
    }
    if a.0 != b.0 {
        lemma_seq_lt_total(a.0, b.0);
    }
}

/// Whether `a` sorts before `b` (`String`'s order).
fn key_lt(a: &str, b: &str) -> (r: bool)
    ensures
        r == seq_lt(a@, b@),
{
    let va = chars_of(a);
    let vb = chars_of(b);
    let mut i: usize = 0;
    assert(a@.skip(0) =~= a@ && b@.skip(0) =~= b@);
    while i < va.len() && i < vb.len() && va[i] == vb[i]
        invariant
            va@ == a@,
            vb@ == b@,
            0 <= i <= va.len(),
            i <= vb.len(),
            seq_lt(a@, b@) == seq_lt(a@.skip(i as int), b@.skip(i as int)),
        decreases va.len() - i,
    {
        assert(a@.skip(i as int).drop_first() =~= a@.skip(i + 1));
        assert(b@.skip(i as int).drop_first() =~= b@.skip(i + 1));
        assert(a@.skip(i as int)[0] == b@.skip(i as int)[0]);
        i += 1;
    }
    if i == va.len() {
        i < vb.len()
    } else if i == vb.len() {
        false
    } else {
        assert(a@.skip(i as int)[0] == va@[i as int]);
        assert(b@.skip(i as int)[0] == vb@[i as int]);
        va[i] < vb[i]
    }
}

/// Whether row `x` is listed before row `y`.
fn listed_before(x: &ItemAggRow, y: &ItemAggRow) -> (r: bool)
    ensures
        r == row_before(agg_view(*x), agg_view(*y)),
{
    x.hosts > y.hosts || (x.hosts == y.hosts && key_lt(x.key.as_str(), y.key.as_str()))
}

/// A copy of a row.
fn copy_row(r: &ItemAggRow) -> (c: ItemAggRow)
    ensures
        agg_view(c) == agg_view(*r),
{
    ItemAggRow {
        key: r.key.clone(),
        name: r.name.clone(),
        unit: r.unit.clone(),
        vt_label: r.vt_label.clone(),
        hosts: r.hosts,
    }
}

/// The plain values of a list of rows.
pub open spec fn agg_views(rows: Seq<ItemAggRow>) -> Seq<AggView> {
    rows.map_values(|r: ItemAggRow| agg_view(r))
}

/// `v` is in listing order.
pub open spec fn listed_in_order(v: Seq<AggView>) -> bool {
    forall|a: int, b: int| 0 <= a < b < v.len() ==> row_before(#[trigger] v[a], #[trigger] v[b])
}

/// `u` and `v` hold the same rows (each of one is somewhere in the other).
pub open spec fn same_rows(u: Seq<AggView>, v: Seq<AggView>) -> bool {
    &&& forall|a: int| 0 <= a < u.len() ==> v.contains(#[trigger] u[a])
    &&& forall|m: int| 0 <= m < v.len() ==> u.contains(#[trigger] v[m])
}

proof fn lemma_insert_in_order(old: Seq<AggView>, p: int, x: AggView)
    requires
        0 <= p <= old.len(),
        listed_in_order(old),
        forall|a: int| 0 <= a < p ==> !row_before(x, #[trigger] old[a]),
        p < old.len() ==> row_before(x, old[p]),
        forall|a: int| 0 <= a < old.len() ==> (#[trigger] old[a]).0 != x.0,
    ensures
        listed_in_order(old.insert(p, x)),
{
    let new = old.insert(p, x);
    assert forall|a: int, b: int| 0 <= a < b < new.len() implies row_before(
        #[trigger] new[a],
        #[trigger] new[b],
    ) by {
        if b < p {
            assert(new[a] == old[a] && new[b] == old[b]);
        } else if b == p {
            assert(new[a] == old[a]);
            law_row_order(old[a], x, x);
        } else if a == p {
            assert(new[b] == old[b - 1]);
            if b - 1 > p {
                assert(row_before(old[p], old[b - 1]));
                law_row_order(x, old[p], old[b - 1]);
            }
        } else if a < p {
            assert(new[a] == old[a] && new[b] == old[b - 1]);
            assert(row_before(old[a], old[b - 1]));
        } else {
            assert(new[a] == old[a - 1] && new[b] == old[b - 1]);
            assert(row_before(old[a - 1], old[b - 1]));
        }
    }
}

proof fn lemma_insert_same_rows(old: Seq<AggView>, p: int, x: AggView, src: Seq<AggView>, k: int)
    requires
        0 <= p <= old.len(),
        0 <= k < src.len(),
        src[k] == x,
        same_rows(old, src.subrange(0, k)),
    ensures
        same_rows(old.insert(p, x), src.subrange(0, k + 1)),
{
    let new = old.insert(p, x);
    let s0 = src.subrange(0, k);
    let s1 = src.subrange(0, k + 1);
    assert forall|a: int| 0 <= a < new.len() implies s1.contains(#[trigger] new[a]) by {
        if a == p {
            assert(s1[k] == x);
        } else {
            let oa = if a < p { a } else { a - 1 };
            assert(new[a] == old[oa]);
            assert(s0.contains(old[oa]));
            let m = choose|m: int| 0 <= m < s0.len() && s0[m] == old[oa];
            assert(s1[m] == s0[m]);
        }
    }
    assert forall|m: int| 0 <= m < s1.len() implies new.contains(#[trigger] s1[m]) by {
        if m == k {
            assert(new[p] == x);
        } else {
            assert(s1[m] == s0[m]);
            assert(old.contains(s0[m]));
            let a0 = choose|a: int| 0 <= a < old.len() && old[a] == s0[m];
            let a1 = if a0 < p { a0 } else { a0 + 1 };
            assert(new[a1] == old[a0]);
        }
    }
}

/// The rows of `rows` in listing order.
fn sort_rows(rows: &Vec<ItemAggRow>) -> (out: Vec<ItemAggRow>)
    requires
        forall|a: int, b: int|
            0 <= a < rows.len() && 0 <= b < rows.len() && a != b ==> (#[trigger] rows@[a]).key@
                != (#[trigger] rows@[b]).key@,
    ensures
        out.len() == rows.len(),
        same_rows(agg_views(out@), agg_views(rows@)),
        listed_in_order(agg_views(out@)),
{
    let ghost src = agg_views(rows@);
    let mut out: Vec<ItemAggRow> = Vec::new();
    let mut k: usize = 0;
    assert(same_rows(agg_views(out@), src.subrange(0, 0)));
    while k < rows.len()
        invariant
            0 <= k <= rows.len(),
            out.len() == k,
            src == agg_views(rows@),
            forall|a: int, b: int|
                0 <= a < rows.len() && 0 <= b < rows.len() && a != b ==> (#[trigger] rows@[a]).key@
                    != (#[trigger] rows@[b]).key@,
            same_rows(agg_views(out@), src.subrange(0, k as int)),
            listed_in_order(agg_views(out@)),
        decreases rows.len() - k,
    {
        let x = &rows[k];
        let mut p: usize = 0;
        while p < out.len() && !listed_before(x, &out[p])
            invariant
                0 <= p <= out.len(),
                forall|a: int| 0 <= a < p ==> !row_before(agg_view(*x), agg_view(#[trigger] out@[a])),
            decreases out.len() - p,
        {
            p += 1;
        }
        let ghost old_v = agg_views(out@);
        proof {
            assert forall|a: int| 0 <= a < p implies !row_before(agg_view(*x), #[trigger] old_v[a]) by {
                assert(old_v[a] == agg_view(out@[a]));
            }
            if p < out.len() {
                assert(old_v[p as int] == agg_view(out@[p as int]));
            }
            assert forall|a: int| 0 <= a < old_v.len() implies (#[trigger] old_v[a]).0 != agg_view(*x).0 by {
                assert(src.subrange(0, k as int).contains(old_v[a]));
                let m = choose|m: int| 0 <= m < k && src.subrange(0, k as int)[m] == old_v[a];
                assert(src[m] == agg_view(rows@[m]));
                assert(rows@[m].key@ != rows@[k as int].key@);
            }
            lemma_insert_in_order(old_v, p as int, agg_view(*x));
            assert(src[k as int] == agg_view(*x));
            lemma_insert_same_rows(old_v, p as int, agg_view(*x), src, k as int);
        }
        let xv = copy_row(x);
        out.insert(p, xv);
        assert(agg_views(out@) =~= old_v.insert(p as int, agg_view(*x)));
        k += 1;
    }
    assert(src.subrange(0, rows.len() as int) =~= src);
    out
}

/// `v` is the row of a key of `items` that the lower-cased search text `lf`
/// finds.
pub open spec fn is_listed_row(items: Seq<ItemRec>, lf: Seq<char>, v: AggView) -> bool {
    exists|i: int| first_of_key(items, i) && v == row_for(items, i) && found(lf, items[i].key@, items[i].name@)
}

/// Whether the row passes the lower-cased search text `fl`.
fn row_found(fl: &str, row: &ItemAggRow) -> (r: bool)
    ensures
        r == found(fl@, row.key@, row.name@),
{
    if fl.is_empty() {
        return true;
    }
    let k = to_lowercase(row.key.as_str());
    if contains(k.as_str(), fl) {
        return true;
    }
    let n = to_lowercase(row.name.as_str());
    contains(n.as_str(), fl)
}

/// The items of a scope grouped by key: one row per key that the search text
/// `filter` finds (in the key or the name, ignoring case), with the name,
/// unit and value type of the key's first item and the number of items that
/// carry the key; more hosts first, then by key.
pub fn aggregate_items(items: &Vec<ItemRec>, filter: &str) -> (r: Vec<ItemAggRow>)
    ensures
        forall|a: int|
            0 <= a < r.len() ==> is_listed_row(items@, unicode_lowercase(filter@), agg_view(
                #[trigger] r@[a],
            )),
        forall|i: int|
            first_of_key(items@, i) && found(unicode_lowercase(filter@), items@[i].key@, items@[i].name@)
                ==> agg_views(r@).contains(#[trigger] row_for(items@, i)),
        listed_in_order(agg_views(r@)),
{
    let (groups, firsts) = group_by_key(items);
    let fl = to_lowercase(filter);
    let mut kept: Vec<ItemAggRow> = Vec::new();
    let ghost mut picked: Seq<int> = Seq::empty();
    let mut a: usize = 0;
    while a < groups.len()
        invariant
            0 <= a <= groups.len(),
            groups.len() == firsts.len(),
            fl@ == unicode_lowercase(filter@),
            kept.len() == picked.len(),
            forall|x: int| 0 <= x < picked.len() ==> 0 <= #[trigger] picked[x] < a,
            forall|x: int, y: int| 0 <= x < y < picked.len() ==> #[trigger] picked[x] < #[trigger] picked[y],
            forall|x: int|
                0 <= x < kept.len() ==> agg_view(#[trigger] kept@[x]) == agg_view(groups@[picked[x]])
                    && found(fl@, groups@[picked[x]].key@, groups@[picked[x]].name@),
            forall|b: int|
                0 <= b < a && found(fl@, (#[trigger] groups@[b]).key@, groups@[b].name@) ==> exists|x: int|
                    0 <= x < picked.len() && picked[x] == b,
        decreases groups.len() - a,
    {
        if row_found(fl.as_str(), &groups[a]) {
            let c = copy_row(&groups[a]);
            kept.push(c);
            proof {
                let old_picked = picked;
                picked = picked.push(a as int);
                assert forall|b: int|
                    0 <= b < a + 1 && found(fl@, (#[trigger] groups@[b]).key@, groups@[b].name@) implies exists|x: int|
                        0 <= x < picked.len() && picked[x] == b by {
                    if b == a {
                        assert(picked[picked.len() - 1] == b);
                    } else {
                        let x = choose|x: int| 0 <= x < old_picked.len() && old_picked[x] == b;
                        assert(picked[x] == b);
                    }
                }
            }
        }
        a += 1;
    }
    proof {
        assert forall|x: int, y: int|
            0 <= x < kept.len() && 0 <= y < kept.len() && x != y implies (#[trigger] kept@[x]).key@
                != (#[trigger] kept@[y]).key@ by {
            assert(picked[x] != picked[y]) by {
                if x < y {
                    assert(picked[x] < picked[y]);
                } else {
                    assert(picked[y] < picked[x]);
                }
            }
            assert(agg_view(kept@[x]).0 == groups@[picked[x]].key@);
            assert(agg_view(kept@[y]).0 == groups@[picked[y]].key@);
        }
    }
    let out = sort_rows(&kept);
    proof {
        let ov = agg_views(out@);
        let kv = agg_views(kept@);
        assert forall|b: int| 0 <= b < out.len() implies is_listed_row(
            items@,
            unicode_lowercase(filter@),
            agg_view(#[trigger] out@[b]),
        ) by {
            assert(ov[b] == agg_view(out@[b]));
            assert(kv.contains(ov[b]));
            let x = choose|x: int| 0 <= x < kv.len() && kv[x] == ov[b];
            assert(kv[x] == agg_view(kept@[x]));
            let g = picked[x];
            let i = firsts@[g] as int;
            assert(first_of_key(items@, i) && agg_view(groups@[g]) == row_for(items@, i));
            assert(found(fl@, groups@[g].key@, groups@[g].name@));
            assert(agg_view(out@[b]) == agg_view(groups@[g]));
            assert(found(unicode_lowercase(filter@), items@[i].key@, items@[i].name@));
        }
        assert forall|i: int|
            first_of_key(items@, i) && found(unicode_lowercase(filter@), items@[i].key@, items@[i].name@)
                implies ov.contains(#[trigger] row_for(items@, i)) by {
            let g = choose|g: int| 0 <= g < firsts.len() && #[trigger] firsts@[g] == i;
            assert(agg_view(groups@[g]) == row_for(items@, i));
            assert(found(fl@, groups@[g].key@, groups@[g].name@));
            let x = choose|x: int| 0 <= x < picked.len() && picked[x] == g;
            assert(kv[x] == agg_view(kept@[x]));
            assert(ov.contains(kv[x]));
            let b = choose|b: int| 0 <= b < ov.len() && ov[b] == kv[x];
            assert(ov[b] == agg_view(out@[b]));
        }
    }
    out
}

/// The detail row of an item as plain values: (key, name, latest value or
/// empty, units).
pub open spec fn detail_view(r: ItemDetailRow) -> (Seq<char>, Seq<char>, Seq<char>, Seq<char>) {
    (r.key@, r.name@, r.lastvalue@, r.units@)
}

/// The detail row that an item gives.
pub open spec fn detail_of(it: ItemRec) -> (Seq<char>, Seq<char>, Seq<char>, Seq<char>) {
    (
        it.key@,
        it.name@,
        match it.lastvalue {
            Some(v) => v@,
            None => Seq::empty(),
        },
        it.units@,
    )
}

/// An item is listed: numeric when `numeric_only`, and found by the search.
pub open spec fn detail_listed(it: ItemRec, lower_filter: Seq<char>, numeric_only: bool) -> bool {
    (!numeric_only || is_numeric(it.value_type)) && found(lower_filter, it.key@, it.name@)
}

/// The items listed, in order.
pub open spec fn detail_rows_of(items: Seq<ItemRec>, lower_filter: Seq<char>, numeric_only: bool) -> Seq<
    (Seq<char>, Seq<char>, Seq<char>, Seq<char>),
>
    decreases items.len(),
{
    if items.len() == 0 {
        Seq::empty()
    } else {
        let rest = detail_rows_of(items.drop_last(), lower_filter, numeric_only);
        if detail_listed(items.last(), lower_filter, numeric_only) {
            rest.push(detail_of(items.last()))
        } else {
            rest
        }
    }
}

/// The items of one host, in order, that the search text `filter` finds in
/// the key or name (ignoring case); only numeric ones when `numeric_only`.
pub fn detail_rows(items: &Vec<ItemRec>, filter: &str, numeric_only: bool) -> (r: Vec<ItemDetailRow>)
    ensures
        r@.map_values(|d: ItemDetailRow| detail_view(d)) == detail_rows_of(
            items@,
            unicode_lowercase(filter@),
            numeric_only,
        ),
{
    let fl = to_lowercase(filter);
    let mut out: Vec<ItemDetailRow> = Vec::new();
    let mut i: usize = 0;
    while i < items.len()
        invariant
            0 <= i <= items.len(),
            fl@ == unicode_lowercase(filter@),
            out@.map_values(|d: ItemDetailRow| detail_view(d)) == detail_rows_of(
                items@.subrange(0, i as int),
                fl@,
                numeric_only,
            ),
        decreases items.len() - i,
    {
        let it = &items[i];
        assert(items@.subrange(0, i + 1).drop_last() =~= items@.subrange(0, i as int));
        let keep_type = !numeric_only || it.numeric();
        let mut keep = false;
        if keep_type {
            let probe = ItemAggRow {
                key: it.key.clone(),
                name: it.name.clone(),
                unit: String::new(),
                vt_label: String::new(),
                hosts: 0,
            };
            keep = row_found(fl.as_str(), &probe);
        }
        if keep {
            let last = match &it.lastvalue {
                Some(v) => v.clone(),
                None => String::new(),
            };
            let ghost before = out@;
            out.push(
                ItemDetailRow {
                    key: it.key.clone(),
                    name: it.name.clone(),
                    lastvalue: last,
                    units: it.units.clone(),
                },
            );
            assert(out@.map_values(|d: ItemDetailRow| detail_view(d)) =~= before.map_values(
                |d: ItemDetailRow| detail_view(d),
            ).push(detail_of(*it)));
        }
        i += 1;
    }
    assert(items@.subrange(0, items.len() as int) =~= items@);
    out
}

impl ItemAggRow {
    /// The unit, or — when the key has none.
    pub fn unit_label(&self) -> (r: String)
        ensures
            r@ == (if self.unit@.len() == 0 {
                "—"@
            } else {
                self.unit@
            }),
    {
        if self.unit.as_str().is_empty() {
            owned("—")
        } else {
            self.unit.clone()
        }
    }
}

/// One key of the items of a scope, with the value type as a number.
#[derive(Debug, Clone)]
pub struct KeyRow {
    pub key: String,
    pub name: String,
    pub unit: String,
    pub value_type: u8,
    pub hosts: usize,
}

/// A key row as plain values: (key, name, unit, value type, hosts).
pub type KeyView = (Seq<char>, Seq<char>, Seq<char>, u8, nat);

/// The plain values of a key row.
pub open spec fn key_view(r: KeyRow) -> KeyView {
    (r.key@, r.name@, r.unit@, r.value_type, r.hosts as nat)
}

/// The key row for the key of item `i`.
pub open spec fn key_row_for(s: Seq<ItemRec>, i: int) -> KeyView {
    (s[i].key@, s[i].name@, s[i].units@, s[i].value_type, count_key(s, s[i].key@))
}

/// `v` is the key row of a key of `items` that the lower-cased search `lf` finds.
pub open spec fn is_key_row(items: Seq<ItemRec>, lf: Seq<char>, v: KeyView) -> bool {
    exists|i: int| first_of_key(items, i) && v == key_row_for(items, i) && found(lf, items[i].key@, items[i].name@)
}

/// The plain values of a list of key rows.
pub open spec fn key_views(rows: Seq<KeyRow>) -> Seq<KeyView> {
    rows.map_values(|r: KeyRow| key_view(r))
}

/// `v` is in ascending key order, each key once.
pub open spec fn keys_ascending(v: Seq<KeyView>) -> bool {
    forall|a: int, b: int| 0 <= a < b < v.len() ==> seq_lt((#[trigger] v[a]).0, (#[trigger] v[b]).0)
}

proof fn lemma_insert_by_key(old: Seq<KeyView>, p: int, x: KeyView)
    requires
        0 <= p <= old.len(),
        keys_ascending(old),
        forall|a: int| 0 <= a < p ==> !seq_lt(x.0, (#[trigger] old[a]).0),
        p < old.len() ==> seq_lt(x.0, old[p].0),
        forall|a: int| 0 <= a < old.len() ==> (#[trigger] old[a]).0 != x.0,
    ensures
        keys_ascending(old.insert(p, x)),
{
    let new = old.insert(p, x);
    assert forall|a: int, b: int| 0 <= a < b < new.len() implies seq_lt(
        (#[trigger] new[a]).0,
        (#[trigger] new[b]).0,
    ) by {
        if b < p {
            assert(new[a] == old[a] && new[b] == old[b]);
        } else if b == p {
            assert(new[a] == old[a]);
            lemma_seq_lt_total(old[a].0, x.0);
        } else if a == p {
            assert(new[b] == old[b - 1]);
            if b - 1 > p {
                assert(seq_lt(old[p].0, old[b - 1].0));
                lemma_seq_lt_trans(x.0, old[p].0, old[b - 1].0);
            }
        } else if a < p {
            assert(new[a] == old[a] && new[b] == old[b - 1]);
            assert(seq_lt(old[a].0, old[b - 1].0));
        } else {
            assert(new[a] == old[a - 1] && new[b] == old[b - 1]);
            assert(seq_lt(old[a - 1].0, old[b - 1].0));
        }
    }
}

/// The items of a scope grouped by key in ascending key order: one row per
/// key that the search text finds (all keys without a search), with the
/// name, unit and value type of the key's first item and the number of items
/// that carry the key.
pub fn aggregate_by_key(items: &Vec<ItemRec>, search: Option<&str>) -> (r: Vec<KeyRow>)
    ensures
        forall|a: int|
            0 <= a < r.len() ==> is_key_row(
                items@,
                match search {
                    Some(t) => unicode_lowercase(t@),
                    None => Seq::<char>::empty(),
                },
                key_view(#[trigger] r@[a]),
            ),
        forall|i: int|
            first_of_key(items@, i) && found(
                match search {
                    Some(t) => unicode_lowercase(t@),
                    None => Seq::<char>::empty(),
                },
                items@[i].key@,
                items@[i].name@,
            ) ==> key_views(r@).contains(#[trigger] key_row_for(items@, i)),
        keys_ascending(key_views(r@)),
{
    let ghost lf: Seq<char> = match search {
        Some(t) => unicode_lowercase(t@),
        None => Seq::<char>::empty(),
    };
    let fl: String = match search {
        Some(t) => to_lowercase(t),
        None => String::new(),
    };
    assert(fl@ == lf);
    let (groups, firsts) = group_by_key(items);
    let mut out: Vec<KeyRow> = Vec::new();
    let mut a: usize = 0;
    while a < groups.len()
        invariant
            0 <= a <= groups.len(),
            groups.len() == firsts.len(),
            fl@ == lf,
            forall|g: int|
                0 <= g < groups.len() ==> first_of_key(items@, #[trigger] firsts@[g] as int) && agg_view(
                    groups@[g],
                ) == row_for(items@, firsts@[g] as int),
            forall|g: int, h: int|
                0 <= g < groups.len() && 0 <= h < groups.len() && g != h ==> (#[trigger] groups@[g]).key@
                    != (#[trigger] groups@[h]).key@,
            forall|i: int|
                first_of_key(items@, i) ==> exists|g: int| 0 <= g < firsts.len() && #[trigger] firsts@[g] == i,
            forall|x: int| 0 <= x < out.len() ==> is_key_row(items@, lf, key_view(#[trigger] out@[x])),
            forall|x: int|
                0 <= x < out.len() ==> exists|g: int| 0 <= g < a && (#[trigger] out@[x]).key@ == groups@[g].key@,
            forall|g: int|
                0 <= g < a && found(lf, (#[trigger] groups@[g]).key@, groups@[g].name@) ==> key_views(
                    out@,
                ).contains(key_row_for(items@, firsts@[g] as int)),
            keys_ascending(key_views(out@)),
        decreases groups.len() - a,
    {
        let gr = &groups[a];
        if row_found(fl.as_str(), gr) {
            let i0 = firsts[a];
            let it = &items[i0];
            let row = KeyRow {
                key: gr.key.clone(),
                name: gr.name.clone(),
                unit: gr.unit.clone(),
                value_type: it.value_type,
                hosts: gr.hosts,
            };
            assert(key_view(row) == key_row_for(items@, i0 as int));
            let mut p: usize = 0;
            while p < out.len() && !key_lt(row.key.as_str(), out[p].key.as_str())
                invariant
                    0 <= p <= out.len(),
                    forall|c: int| 0 <= c < p ==> !seq_lt(row.key@, (#[trigger] out@[c]).key@),
                decreases out.len() - p,
            {
                p += 1;
            }
            let ghost old_v = key_views(out@);
            let ghost old_out = out@;
            proof {
                assert forall|c: int| 0 <= c < p implies !seq_lt(key_view(row).0, (#[trigger] old_v[c]).0) by {
                    assert(old_v[c] == key_view(out@[c]));
                }
                if p < out.len() {
                    assert(old_v[p as int] == key_view(out@[p as int]));
                }
                assert forall|c: int| 0 <= c < old_v.len() implies (#[trigger] old_v[c]).0 != key_view(row).0 by {
                    assert(old_v[c] == key_view(out@[c]));
                    let g = choose|g: int| 0 <= g < a && (#[trigger] out@[c]).key@ == groups@[g].key@;
                    assert(groups@[g].key@ != groups@[a as int].key@);
                }
                lemma_insert_by_key(old_v, p as int, key_view(row));
            }
            out.insert(p, row);
            proof {
                assert(key_views(out@) =~= old_v.insert(p as int, key_view(out@[p as int])));
                assert forall|x: int| 0 <= x < out.len() implies is_key_row(items@, lf, key_view(#[trigger] out@[x])) by {
                    if x == p {
                        assert(found(lf, items@[i0 as int].key@, items@[i0 as int].name@));
                    } else {
                        let ox = if x < p { x } else { x - 1 };
                        assert(out@[x] == old_out[ox]);
                    }
                }
                assert forall|x: int| 0 <= x < out.len() implies exists|g: int|
                    0 <= g < a + 1 && (#[trigger] out@[x]).key@ == groups@[g].key@ by {
                    if x == p {
                        assert(out@[x].key@ == groups@[a as int].key@);
                    } else {
                        let ox = if x < p { x } else { x - 1 };
                        assert(out@[x] == old_out[ox]);
                        let g = choose|g: int| 0 <= g < a && (#[trigger] old_out[ox]).key@ == groups@[g].key@;
                        assert(out@[x].key@ == groups@[g].key@);
                    }
                }
                assert forall|g: int|
                    0 <= g < a + 1 && found(lf, (#[trigger] groups@[g]).key@, groups@[g].name@) implies key_views(
                        out@,
                    ).contains(key_row_for(items@, firsts@[g] as int)) by {
                    if g == a {
                        assert(key_views(out@)[p as int] == key_view(out@[p as int]));
                    } else {
                        assert(old_v.contains(key_row_for(items@, firsts@[g] as int)));
                        let c = choose|c: int| 0 <= c < old_v.len() && old_v[c] == key_row_for(items@, firsts@[g] as int);
                        let c1 = if c < p { c } else { c + 1 };
                        assert(key_views(out@)[c1] == old_v[c]);
                    }
                }
            }
        }
        a += 1;
    }
    proof {
        assert forall|i: int|
            first_of_key(items@, i) && found(lf, items@[i].key@, items@[i].name@) implies key_views(out@).contains(
                #[trigger] key_row_for(items@, i),
            ) by {
            let g = choose|g: int| 0 <= g < firsts.len() && #[trigger] firsts@[g] == i;
            assert(agg_view(groups@[g]) == row_for(items@, i));
            assert(found(lf, groups@[g].key@, groups@[g].name@));
        }
    }
    out
}

} // verus!
