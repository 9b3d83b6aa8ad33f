//! The summary of a report: totals over the inspected hosts and their
//! problems, and the hosts of highest risk.
use vstd::prelude::*;
use crate::types::{ProblemRec, RiskDist, Summary, TopRisk};
use crate::text::str_eq;
use vstd::set_lib::{lemma_int_range, lemma_subset_equality, set_int_range};

verus! {

/// What the summary needs of one inspected host.
#[derive(Debug, Clone)]
pub struct HostBrief {
    pub host: String,
    pub available: bool,
    pub missing_data: bool,
    pub score: i64,
    /// The risk level name, or 停用 for a disabled host.
    pub level: String,
}

/// The bucket that a level name falls in.
#[derive(Debug, Clone, Copy, PartialEq, Eq, Structural)]
pub enum LevelClass {
    Disabled,
    Healthy,
    Low,
    Medium,
    High,
    Critical,
}

/// The bucket of a level name: 停用, 健康, 低危, 中危, 高危, and anything
/// else counted as critical.
pub open spec fn level_class(level: Seq<char>) -> LevelClass {
    if level == "停用"@ {
        LevelClass::Disabled
    } else if level == "健康"@ {
        LevelClass::Healthy
    } else if level == "低危"@ {
        LevelClass::Low
    } else if level == "中危"@ {
        LevelClass::Medium
    } else if level == "高危"@ {
        LevelClass::High
    } else {
        LevelClass::Critical
    }
}

/// The host properties that the summary counts.
#[derive(Debug, Clone, Copy, PartialEq, Eq, Structural)]
pub enum HostCount {
    Available,
    Unavailable,
    MissingData,
    Level(LevelClass),
}

/// Whether host `h` is counted under `what`.
pub open spec fn host_counted(h: HostBrief, what: HostCount) -> bool {
    match what {
        HostCount::Available => h.available,
        HostCount::Unavailable => !h.available,
        HostCount::MissingData => h.missing_data,
        HostCount::Level(c) => level_class(h.level@) == c,
    }
}

/// How many hosts of `s` are counted under `what`.
pub open spec fn count_hosts(s: Seq<HostBrief>, what: HostCount) -> nat
    decreases s.len(),
{
    if s.len() == 0 {
        0
    } else {
        count_hosts(s.drop_last(), what) + if host_counted(s.last(), what) {
            1nat
        } else {
            0nat
        }
    }
}

/// A problem that is still open and not disabled.
pub open spec fn problem_open(p: ProblemRec) -> bool {
    !p.recovered && !p.disabled
}

/// An open problem that began at or after `from`.
pub open spec fn problem_new(p: ProblemRec, from: i64) -> bool {
    problem_open(p) && p.clock >= from
}

/// How many problems of `s` are open (`new_only` false), or open and begun
/// at or after `from` (`new_only` true).
pub open spec fn count_problems(s: Seq<ProblemRec>, new_only: bool, from: i64) -> nat
    decreases s.len(),
{
    if s.len() == 0 {
        0
    } else {
        count_problems(s.drop_last(), new_only, from) + if (if new_only {
            problem_new(s.last(), from)
        } else {
            problem_open(s.last())
        }) {
            1nat
        } else {
            0nat
        }
    }
}

/// Host `i` of `s` comes before host `j` in the risk ranking: a higher score
/// first, and among equal scores the earlier host first.
pub open spec fn ranks_before(s: Seq<HostBrief>, i: int, j: int) -> bool {
    s[i].score > s[j].score || (s[i].score == s[j].score && i < j)
}

/// `order` lists every host index of `s` once, in ranking order.
pub open spec fn is_ranking(s: Seq<HostBrief>, order: Seq<int>) -> bool {
    &&& order.len() == s.len()
    &&& forall|a: int| 0 <= a < order.len() ==> 0 <= #[trigger] order[a] < s.len()
    &&& forall|a: int, b: int|
        0 <= a < order.len() && 0 <= b < order.len() && a != b ==> #[trigger] order[a]
            != #[trigger] order[b]
    &&& forall|a: int, b: int|
        0 <= a < b < order.len() ==> ranks_before(s, #[trigger] order[a], #[trigger] order[b])
}

/// The top-risk entry made of a host, as plain values.
pub open spec fn brief_top(h: HostBrief) -> (Seq<char>, i64, Seq<char>) {
    (h.host@, h.score, h.level@)
}

/// A top-risk entry as plain values.
pub open spec fn top_view(t: TopRisk) -> (Seq<char>, i64, Seq<char>) {
    (t.host@, t.score, t.level@)
}

/// The length of the top-risk list: ten hosts, or all of them when fewer.
pub open spec fn top_len(n: nat) -> nat {
    if n < 10 {
        n
    } else {
        10
    }
}

/// `top` holds the first entries of the ranking `order` of `s`.
pub open spec fn top_follows(s: Seq<HostBrief>, order: Seq<int>, top: Seq<TopRisk>) -> bool {
    &&& top.len() == top_len(s.len())
    &&& forall|k: int| 0 <= k < top.len() ==> top_view(#[trigger] top[k]) == brief_top(s[order[k]])
}

proof fn lemma_count_hosts_step(s: Seq<HostBrief>, i: int, what: HostCount)
    requires
        0 <= i < s.len(),
    ensures
        count_hosts(s.subrange(0, i + 1), what) == count_hosts(s.subrange(0, i), what) + if host_counted(
            s[i],
            what,
        ) {
            1nat
        } else {
            0nat
        },
{
    assert(s.subrange(0, i + 1).drop_last() =~= s.subrange(0, i));
}

proof fn lemma_count_problems_step(s: Seq<ProblemRec>, i: int, new_only: bool, from: i64)
    requires
        0 <= i < s.len(),
    ensures
        count_problems(s.subrange(0, i + 1), new_only, from) == count_problems(
            s.subrange(0, i),
            new_only,
            from,
        ) + if (if new_only {
            problem_new(s[i], from)
        } else {
            problem_open(s[i])
        }) {
            1nat
        } else {
            0nat
        },
{
    assert(s.subrange(0, i + 1).drop_last() =~= s.subrange(0, i));
}

/// Every host is either available or not, and falls in exactly one level
/// bucket; new open problems are among the open ones.
pub proof fn law_summary_partitions(hosts: Seq<HostBrief>, problems: Seq<ProblemRec>, from: i64)
    ensures
        count_hosts(hosts, HostCount::Available) + count_hosts(hosts, HostCount::Unavailable)
            == hosts.len(),
        count_hosts(hosts, HostCount::Level(LevelClass::Disabled)) + count_hosts(
            hosts,
            HostCount::Level(LevelClass::Healthy),
        ) + count_hosts(hosts, HostCount::Level(LevelClass::Low)) + count_hosts(
            hosts,
            HostCount::Level(LevelClass::Medium),
        ) + count_hosts(hosts, HostCount::Level(LevelClass::High)) + count_hosts(
            hosts,
            HostCount::Level(LevelClass::Critical),
        ) == hosts.len(),
        count_problems(problems, true, from) <= count_problems(problems, false, from),
    decreases hosts.len() + problems.len(),
{
    if hosts.len() > 0 {
        law_summary_partitions(hosts.drop_last(), problems, from);
    } else if problems.len() > 0 {
        law_summary_partitions(hosts, problems.drop_last(), from);
    }
}

proof fn lemma_ranking_covers(s: Seq<HostBrief>, order: Seq<int>, v: int)
    requires
        is_ranking(s, order),
        0 <= v < s.len(),
    ensures
        order.contains(v),
{
    assert(order.no_duplicates()) by {
        assert forall|a: int, b: int| 0 <= a < order.len() && 0 <= b < order.len() && a != b implies order[a]
            != order[b] by {
            assert(order[a] != order[b]);
        }
    }
    order.unique_seq_to_set();
    lemma_int_range(0, s.len() as int);
    let range = set_int_range(0, s.len() as int);
    assert(order.to_set().subset_of(range)) by {
        assert forall|x: int| order.to_set().contains(x) implies range.contains(x) by {
            let a = choose|a: int| 0 <= a < order.len() && order[a] == x;
            assert(0 <= order[a] < s.len());
        }
    }
    lemma_subset_equality(order.to_set(), range);
    assert(range.contains(v));
    assert(order.to_set().contains(v));
}

proof fn lemma_ranking_prefix(s: Seq<HostBrief>, o1: Seq<int>, o2: Seq<int>, k: int)
    requires
        is_ranking(s, o1),
        is_ranking(s, o2),
        0 <= k <= s.len(),
    ensures
        forall|a: int| 0 <= a < k ==> o1[a] == o2[a],
    decreases k,
{
    if k > 0 {
        lemma_ranking_prefix(s, o1, o2, k - 1);
        let a = k - 1;
        if o1[a] != o2[a] {
            let x = o1[a];
            let y = o2[a];
            lemma_ranking_covers(s, o2, x);
            lemma_ranking_covers(s, o1, y);
            let b = choose|b: int| 0 <= b < o2.len() && o2[b] == x;
            let c = choose|c: int| 0 <= c < o1.len() && o1[c] == y;
            if b < a {
                assert(o1[b] == o2[b]);
                assert(o1[b] != o1[a]);
            }
            if c < a {
                assert(o1[c] == o2[c]);
                assert(o2[c] != o2[a]);
            }
            assert(ranks_before(s, o2[a], o2[b]));
            assert(ranks_before(s, o1[a], o1[c]));
        }
    }
}

/// The risk ranking is unique: two rankings of the same hosts are equal.
pub proof fn law_ranking_unique(s: Seq<HostBrief>, o1: Seq<int>, o2: Seq<int>)
    requires
        is_ranking(s, o1),
        is_ranking(s, o2),
    ensures
        o1 == o2,
{
    lemma_ranking_prefix(s, o1, o2, s.len() as int);
    assert(o1 =~= o2);
}

/// The indices of `hosts` in ranking order.
fn rank_hosts(hosts: &Vec<HostBrief>) -> (order: Vec<usize>)
    ensures
        is_ranking(hosts@, order@.map_values(|x: usize| x as int)),
{
    let mut order: Vec<usize> = Vec::new();
    let mut k: usize = 0;
    while k < hosts.len()
        invariant
            0 <= k <= hosts.len(),
            order.len() == k,
            forall|a: int| 0 <= a < order.len() ==> #[trigger] order@[a] < k,
            forall|a: int, b: int|
                0 <= a < order.len() && 0 <= b < order.len() && a != b ==> #[trigger] order@[a]
                    != #[trigger] order@[b],
            forall|a: int, b: int|
                0 <= a < b < order.len() ==> ranks_before(
                    hosts@,
                    #[trigger] order@[a] as int,
                    #[trigger] order@[b] as int,
                ),
        decreases hosts.len() - k,
    {
        let score = hosts[k].score;
        let mut p: usize = 0;
        while p < order.len() && hosts[order[p]].score >= score
            invariant
                0 <= p <= order.len(),
                order.len() == k,
                k < hosts.len(),
                score == hosts@[k as int].score,
                forall|a: int| 0 <= a < order.len() ==> #[trigger] order@[a] < k,
                forall|a: int| 0 <= a < p ==> hosts@[#[trigger] order@[a] as int].score >= score,
            decreases order.len() - p,
        {
            p += 1;
        }
        let ghost old_order = order@;
        order.insert(p, k);
        proof {
            assert forall|a: int, b: int| 0 <= a < b < order.len() implies ranks_before(
                hosts@,
                #[trigger] order@[a] as int,
                #[trigger] order@[b] as int,
            ) by {
                if b < p {
                    assert(order@[a] == old_order[a] && order@[b] == old_order[b]);
                } else if b == p {
                    assert(order@[a] == old_order[a]);
                    assert(hosts@[old_order[a] as int].score >= score);
                } else if a == p {
                    assert(order@[b] == old_order[b - 1]);
                    assert(p < old_order.len());
                    assert(hosts@[old_order[p as int] as int].score < score);
                    if b - 1 > p {
                        assert(ranks_before(hosts@, old_order[p as int] as int, old_order[b - 1] as int));
                    }
                } else if a < p {
                    assert(order@[a] == old_order[a] && order@[b] == old_order[b - 1]);
                    assert(ranks_before(hosts@, old_order[a] as int, old_order[b - 1] as int));
                } else {
                    assert(order@[a] == old_order[a - 1] && order@[b] == old_order[b - 1]);
                    assert(ranks_before(hosts@, old_order[a - 1] as int, old_order[b - 1] as int));
                }
            }
            assert forall|a: int, b: int|
                0 <= a < order.len() && 0 <= b < order.len() && a != b implies #[trigger] order@[a]
                    != #[trigger] order@[b] by {
                if a != p && b != p {
                    let oa = if a < p { a } else { a - 1 };
                    let ob = if b < p { b } else { b - 1 };
                    assert(order@[a] == old_order[oa] && order@[b] == old_order[ob]);
                } else if a == p {
                    let ob = if b < p { b } else { b - 1 };
                    assert(order@[b] == old_order[ob]);
                } else {
                    let oa = if a < p { a } else { a - 1 };
                    assert(order@[a] == old_order[oa]);
                }
            }
            assert forall|a: int| 0 <= a < order.len() implies #[trigger] order@[a] < k + 1 by {
                if a < p {
                    assert(order@[a] == old_order[a]);
                } else if a > p {
                    assert(order@[a] == old_order[a - 1]);
                }
            }
        }
        k += 1;
    }
    proof {
        let m = order@.map_values(|x: usize| x as int);
        assert forall|a: int, b: int| 0 <= a < b < m.len() implies ranks_before(
            hosts@,
            #[trigger] m[a],
            #[trigger] m[b],
        ) by {
            assert(m[a] == order@[a] as int && m[b] == order@[b] as int);
        }
        assert forall|a: int, b: int|
            0 <= a < m.len() && 0 <= b < m.len() && a != b implies #[trigger] m[a] != #[trigger] m[b] by {
            assert(m[a] == order@[a] as int && m[b] == order@[b] as int);
        }
        assert forall|a: int| 0 <= a < m.len() implies 0 <= #[trigger] m[a] < hosts@.len() by {
            assert(m[a] == order@[a] as int);
        }
    }
    order
}

/// The summary of a report over `hosts` and `problems`, for a range that
/// begins at `range_from`: availability and level counts, open problems and
/// how many of them began within the range, and the ten hosts of highest
/// score (earlier hosts first among equal scores).
pub fn build_summary(hosts: &Vec<HostBrief>, problems: &Vec<ProblemRec>, range_from: i64) -> (s:
    Summary)
    requires
        hosts.len() < i64::MAX,
        problems.len() < i64::MAX,
    ensures
        s.host_total == hosts.len(),
        s.available == count_hosts(hosts@, HostCount::Available),
        s.unavailable == count_hosts(hosts@, HostCount::Unavailable),
        s.missing_data == count_hosts(hosts@, HostCount::MissingData),
        s.host_disabled == count_hosts(hosts@, HostCount::Level(LevelClass::Disabled)),
        s.risk_dist.healthy == count_hosts(hosts@, HostCount::Level(LevelClass::Healthy)),
        s.risk_dist.low == count_hosts(hosts@, HostCount::Level(LevelClass::Low)),
        s.risk_dist.medium == count_hosts(hosts@, HostCount::Level(LevelClass::Medium)),
        s.risk_dist.high == count_hosts(hosts@, HostCount::Level(LevelClass::High)),
        s.risk_dist.critical == count_hosts(hosts@, HostCount::Level(LevelClass::Critical)),
        s.problem_open == count_problems(problems@, false, range_from),
        s.problem_new_in_range == count_problems(problems@, true, range_from),
        s.problem_carried_over == s.problem_open - s.problem_new_in_range,
        exists|order: Seq<int>| is_ranking(hosts@, order) && top_follows(hosts@, order, s.top_risk@),
{
    let mut available: i64 = 0;
    let mut unavailable: i64 = 0;
    let mut missing: i64 = 0;
    let mut disabled: i64 = 0;
    let mut healthy: i64 = 0;
    let mut low: i64 = 0;
    let mut medium: i64 = 0;
    let mut high: i64 = 0;
    let mut critical: i64 = 0;
    let mut i: usize = 0;
    while i < hosts.len()
        invariant
            0 <= i <= hosts.len(),
            hosts.len() < i64::MAX,
            available == count_hosts(hosts@.subrange(0, i as int), HostCount::Available),
            unavailable == count_hosts(hosts@.subrange(0, i as int), HostCount::Unavailable),
            missing == count_hosts(hosts@.subrange(0, i as int), HostCount::MissingData),
            disabled == count_hosts(hosts@.subrange(0, i as int), HostCount::Level(LevelClass::Disabled)),
            healthy == count_hosts(hosts@.subrange(0, i as int), HostCount::Level(LevelClass::Healthy)),
            low == count_hosts(hosts@.subrange(0, i as int), HostCount::Level(LevelClass::Low)),
            medium == count_hosts(hosts@.subrange(0, i as int), HostCount::Level(LevelClass::Medium)),
            high == count_hosts(hosts@.subrange(0, i as int), HostCount::Level(LevelClass::High)),
            critical == count_hosts(hosts@.subrange(0, i as int), HostCount::Level(LevelClass::Critical)),
            available <= i && unavailable <= i && missing <= i && disabled <= i && healthy <= i
                && low <= i && medium <= i && high <= i && critical <= i,
        decreases hosts.len() - i,
    {
        let h = &hosts[i];
        proof {
            lemma_count_hosts_step(hosts@, i as int, HostCount::Available);
            lemma_count_hosts_step(hosts@, i as int, HostCount::Unavailable);
            lemma_count_hosts_step(hosts@, i as int, HostCount::MissingData);
            lemma_count_hosts_step(hosts@, i as int, HostCount::Level(LevelClass::Disabled));
            lemma_count_hosts_step(hosts@, i as int, HostCount::Level(LevelClass::Healthy));
            lemma_count_hosts_step(hosts@, i as int, HostCount::Level(LevelClass::Low));
            lemma_count_hosts_step(hosts@, i as int, HostCount::Level(LevelClass::Medium));
            lemma_count_hosts_step(hosts@, i as int, HostCount::Level(LevelClass::High));
            lemma_count_hosts_step(hosts@, i as int, HostCount::Level(LevelClass::Critical));
        }
        if h.available {
            available += 1;
        } else {
            unavailable += 1;
        }
        if h.missing_data {
            missing += 1;
        }
        let l = h.level.as_str();
        if str_eq(l, "停用") {
            disabled += 1;
        } else if str_eq(l, "健康") {
            healthy += 1;
        } else if str_eq(l, "低危") {
            low += 1;
        } else if str_eq(l, "中危") {
            medium += 1;
        } else if str_eq(l, "高危") {
            high += 1;
        } else {
            critical += 1;
        }
        i += 1;
    }
    let mut open: i64 = 0;
    let mut fresh: i64 = 0;
    let mut j: usize = 0;
    while j < problems.len()
        invariant
            0 <= j <= problems.len(),
            problems.len() < i64::MAX,
            open == count_problems(problems@.subrange(0, j as int), false, range_from),
            fresh == count_problems(problems@.subrange(0, j as int), true, range_from),
            0 <= fresh <= open <= j,
        decreases problems.len() - j,
    {
        let p = &problems[j];
        proof {
            lemma_count_problems_step(problems@, j as int, false, range_from);
            lemma_count_problems_step(problems@, j as int, true, range_from);
        }
        if !p.recovered && !p.disabled {
            open += 1;
            if p.clock >= range_from {
                fresh += 1;
            }
        }
        j += 1;
    }
    let order = rank_hosts(hosts);
    let ghost m = order@.map_values(|x: usize| x as int);
    let limit: usize = if hosts.len() < 10 {
        hosts.len()
    } else {
        10
    };
    let mut top: Vec<TopRisk> = Vec::new();
    let mut k: usize = 0;
    while k < limit
        invariant
            0 <= k <= limit,
            limit == top_len(hosts@.len()),
            order.len() == hosts.len(),
            m == order@.map_values(|x: usize| x as int),
            is_ranking(hosts@, m),
            top.len() == k,
            forall|a: int| 0 <= a < k ==> top_view(#[trigger] top@[a]) == brief_top(hosts@[m[a]]),
        decreases limit - k,
    {
        assert(m[k as int] == order@[k as int] as int);
        let h = &hosts[order[k]];
        top.push(TopRisk { host: h.host.clone(), score: h.score, level: h.level.clone() });
        k += 1;
    }
    proof {
        assert(hosts@.subrange(0, hosts.len() as int) =~= hosts@);
        assert(problems@.subrange(0, problems.len() as int) =~= problems@);
        assert(top_follows(hosts@, m, top@));
    }
    Summary {
        host_total: hosts.len() as i64,
        available,
        unavailable,
        missing_data: missing,
        host_disabled: disabled,
        risk_dist: RiskDist { healthy, low, medium, high, critical },
        top_risk: top,
        problem_open: open,
        problem_new_in_range: fresh,
        problem_carried_over: open - fresh,
    }
}

} // verus!
