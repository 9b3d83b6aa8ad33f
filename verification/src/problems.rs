//! Problem severities, the count of open severe problems, and the hosts of
//! each problem.
use vstd::prelude::*;
use crate::types::ProblemRec;
use crate::text::{str_eq, views};
use crate::ordering::{is_order, law_order_unique};
use crate::discovery::occurrences;

verus! {

/// The name of a severity: 0 未分类, 1 信息, 2 警告, 3 一般, 4 高危, 5 灾难,
/// anything else 未知.
pub open spec fn severity_name(sev: u8) -> Seq<char> {
    if sev == 0 {
        "未分类"@
    } else if sev == 1 {
        "信息"@
    } else if sev == 2 {
        "警告"@
    } else if sev == 3 {
        "一般"@
    } else if sev == 4 {
        "高危"@
    } else if sev == 5 {
        "灾难"@
    } else {
        "未知"@
    }
}

/// The name of a severity.
pub fn severity_label(sev: u8) -> (r: &'static str)
    ensures
        r@ == severity_name(sev),
{
    match sev {
        0 => "未分类",
        1 => "信息",
        2 => "警告",
        3 => "一般",
        4 => "高危",
        5 => "灾难",
        _ => "未知",
    }
}

/// A problem that is still open and at least high severity.
pub open spec fn is_open_high(p: ProblemRec) -> bool {
    !p.recovered && p.severity >= 4
}

/// The number of open high-or-disaster problems among `ps`.
pub open spec fn count_open_high(ps: Seq<ProblemRec>) -> nat
    decreases ps.len(),
{
    if ps.len() == 0 {
        0
    } else {
        count_open_high(ps.drop_last()) + if is_open_high(ps.last()) {
            1nat
        } else {
            0nat
        }
    }
}

/// The count never exceeds the number of problems.
pub proof fn lemma_count_open_high_bound(ps: Seq<ProblemRec>)
    ensures
        count_open_high(ps) <= ps.len(),
    decreases ps.len(),
{
    if ps.len() > 0 {
        lemma_count_open_high_bound(ps.drop_last());
    }
}

/// Only unrecovered problems of severity high (4) or disaster (5) count: no
/// problems count nothing, a recovered problem or one below severity 4 adds
/// nothing to the count, and an unrecovered one of severity 4 or more adds
/// one.
pub proof fn law_open_high_counts(ps: Seq<ProblemRec>, p: ProblemRec)
    ensures
        count_open_high(Seq::<ProblemRec>::empty()) == 0,
        p.recovered || p.severity < 4 ==> count_open_high(ps.push(p)) == count_open_high(ps),
        !p.recovered && p.severity >= 4 ==> count_open_high(ps.push(p)) == count_open_high(ps)
            + 1,
{
    assert(ps.push(p).drop_last() =~= ps);
}

/// The number of unrecovered problems of severity high (4) or disaster (5).
pub fn open_high_severity(problems: &Vec<ProblemRec>) -> (n: usize)
    ensures
        n == count_open_high(problems@),
{
    let mut n: usize = 0;
    let mut i: usize = 0;
    while i < problems.len()
        invariant
            0 <= i <= problems.len(),
            n == count_open_high(problems@.subrange(0, i as int)),
            n <= i,
        decreases problems.len() - i,
    {
        assert(problems@.subrange(0, i + 1).drop_last() =~= problems@.subrange(0, i as int));
        if !problems[i].recovered && problems[i].severity >= 4 {
            n += 1;
        }
        i += 1;
    }
    assert(problems@.subrange(0, problems.len() as int) =~= problems@);
    n
}

/// A trigger with the technical names of its hosts (`trigger.get` with
/// `selectHosts`).
#[derive(Debug, Clone)]
pub struct TriggerHosts {
    pub triggerid: String,
    pub hosts: Vec<String>,
}

/// The hosts of trigger `tid`: those of its last entry in `ts`, if any.
pub open spec fn trigger_hosts(ts: Seq<TriggerHosts>, tid: Seq<char>) -> Option<Seq<Seq<char>>>
    decreases ts.len(),
{
    if ts.len() == 0 {
        None
    } else if ts.last().triggerid@ == tid {
        Some(views(ts.last().hosts@))
    } else {
        trigger_hosts(ts.drop_last(), tid)
    }
}

/// The hosts given to the event `ev` by the first `upto` problems: those of
/// the trigger of the last of them that carries `ev` and whose trigger is
/// known.
pub open spec fn hosts_for_event(
    ps: Seq<ProblemRec>,
    tids: Seq<String>,
    ts: Seq<TriggerHosts>,
    ev: Seq<char>,
    upto: int,
) -> Option<Seq<Seq<char>>>
    decreases upto,
{
    if upto <= 0 {
        None
    } else if ps[upto - 1].eventid@ == ev && trigger_hosts(ts, tids[upto - 1]@) is Some {
        trigger_hosts(ts, tids[upto - 1]@)
    } else {
        hosts_for_event(ps, tids, ts, ev, upto - 1)
    }
}

/// Problem `i` is the first of `ps` with its event id.
pub open spec fn first_of_event(ps: Seq<ProblemRec>, i: int) -> bool {
    forall|j: int| 0 <= j < i ==> (#[trigger] ps[j]).eventid@ != ps[i].eventid@
}

/// The hosts of problem `i` once trigger hosts are attached.
pub open spec fn attached_hosts(ps: Seq<ProblemRec>, tids: Seq<String>, ts: Seq<TriggerHosts>, i: int) -> Seq<
    Seq<char>,
> {
    if first_of_event(ps, i) {
        match hosts_for_event(ps, tids, ts, ps[i].eventid@, ps.len() as int) {
            Some(h) => h,
            None => views(ps[i].hosts@),
        }
    } else {
        views(ps[i].hosts@)
    }
}

/// The hosts of trigger `tid` in `ts`.
fn lookup_trigger(ts: &Vec<TriggerHosts>, tid: &str) -> (r: Option<Vec<String>>)
    ensures
        match trigger_hosts(ts@, tid@) {
            Some(h) => r matches Some(v) && views(v@) == h,
            None => r is None,
        },
{
    let mut k: usize = ts.len();
    assert(ts@.subrange(0, k as int) =~= ts@);
    while k > 0
        invariant
            0 <= k <= ts.len(),
            trigger_hosts(ts@, tid@) == trigger_hosts(ts@.subrange(0, k as int), tid@),
        decreases k,
    {
        let ghost t = ts@.subrange(0, k as int);
        assert(t.drop_last() =~= ts@.subrange(0, k - 1));
        if str_eq(ts[k - 1].triggerid.as_str(), tid) {
            return Some(ts[k - 1].hosts.clone());
        }
        k -= 1;
    }
    None
}

/// The position of the first problem with event id `ev`.
fn first_with_event(ps: &Vec<ProblemRec>, ev: &str) -> (r: Option<usize>)
    ensures
        match r {
            Some(t) => t < ps.len() && ps@[t as int].eventid@ == ev@ && first_of_event(ps@, t as int),
            None => forall|j: int| 0 <= j < ps.len() ==> (#[trigger] ps@[j]).eventid@ != ev@,
        },
{
    let mut t: usize = 0;
    while t < ps.len()
        invariant
            0 <= t <= ps.len(),
            forall|j: int| 0 <= j < t ==> (#[trigger] ps@[j]).eventid@ != ev@,
        decreases ps.len() - t,
    {
        if str_eq(ps[t].eventid.as_str(), ev) {
            return Some(t);
        }
        t += 1;
    }
    None
}

/// Attaches to the problems the hosts of their triggers: `tids[j]` is the
/// trigger of problem `j`; each problem entry, in order, gives the hosts of
/// its trigger (when known) to the first problem with its event id.
pub fn attach_problem_hosts(problems: &mut Vec<ProblemRec>, tids: &Vec<String>, ts: &Vec<TriggerHosts>)
    requires
        tids.len() == old(problems).len(),
    ensures
        final(problems).len() == old(problems).len(),
        forall|i: int|
            0 <= i < old(problems).len() ==> {
                let o = #[trigger] old(problems)@[i];
                let n = final(problems)@[i];
                &&& n.eventid == o.eventid
                &&& n.name == o.name
                &&& n.severity == o.severity
                &&& n.severity_label == o.severity_label
                &&& n.clock == o.clock
                &&& n.recovered == o.recovered
                &&& n.acknowledged == o.acknowledged
                &&& n.disabled == o.disabled
                &&& views(n.hosts@) == attached_hosts(old(problems)@, tids@, ts@, i)
            },
{
    let ghost start = problems@;
    let mut j: usize = 0;
    while j < tids.len()
        invariant
            0 <= j <= tids.len(),
            tids.len() == start.len(),
            problems.len() == start.len(),
            forall|i: int|
                0 <= i < start.len() ==> {
                    let o = #[trigger] start[i];
                    let n = problems@[i];
                    &&& n.eventid == o.eventid
                    &&& n.name == o.name
                    &&& n.severity == o.severity
                    &&& n.severity_label == o.severity_label
                    &&& n.clock == o.clock
                    &&& n.recovered == o.recovered
                    &&& n.acknowledged == o.acknowledged
                    &&& n.disabled == o.disabled
                    &&& views(n.hosts@) == if first_of_event(start, i) {
                        match hosts_for_event(start, tids@, ts@, start[i].eventid@, j as int) {
                            Some(h) => h,
                            None => views(o.hosts@),
                        }
                    } else {
                        views(o.hosts@)
                    }
                },
        decreases tids.len() - j,
    {
        assert(problems@[j as int].eventid == start[j as int].eventid);
        match lookup_trigger(ts, tids[j].as_str()) {
            Some(hs) => {
                match first_with_event(problems, problems[j].eventid.as_str()) {
                    Some(t) => {
                        let ghost before = problems@;
                        let p = &problems[t];
                        let np = ProblemRec {
                            eventid: p.eventid.clone(),
                            name: p.name.clone(),
                            severity: p.severity,
                            severity_label: p.severity_label.clone(),
                            clock: p.clock,
                            recovered: p.recovered,
                            acknowledged: p.acknowledged,
                            hosts: hs,
                            disabled: p.disabled,
                        };
                        problems.set(t, np);
                        proof {
                            assert forall|i: int| 0 <= i < start.len() implies {
                                let o = #[trigger] start[i];
                                let n = problems@[i];
                                views(n.hosts@) == if first_of_event(start, i) {
                                    match hosts_for_event(start, tids@, ts@, start[i].eventid@, j + 1) {
                                        Some(h) => h,
                                        None => views(o.hosts@),
                                    }
                                } else {
                                    views(o.hosts@)
                                }
                            } by {
                                assert(before[i].eventid == start[i].eventid);
                                assert(first_of_event(start, t as int)) by {
                                    assert forall|q: int| 0 <= q < t implies (#[trigger] start[q]).eventid@
                                        != start[t as int].eventid@ by {
                                        assert(before[q].eventid == start[q].eventid);
                                    }
                                }
                                if i == t {
                                } else if start[i].eventid@ == start[j as int].eventid@ {
                                    assert(!first_of_event(start, i)) by {
                                        assert(start[t as int].eventid@ == start[i].eventid@);
                                        if t < i {
                                        } else {
                                            assert(before[i].eventid@ == start[j as int].eventid@);
                                        }
                                    }
                                }
                            }
                        }
                    },
                    None => {
                        assert(false) by {
                            assert(problems@[j as int].eventid@ == problems@[j as int].eventid@);
                        }
                    },
                }
            },
            None => {},
        }
        j += 1;
    }
}

/// Some problem of `ps` carries the event id `ev`.
pub open spec fn has_event(ps: Seq<ProblemRec>, ev: Seq<char>) -> bool {
    exists|i: int| 0 <= i < ps.len() && (#[trigger] ps[i]).eventid@ == ev
}

/// The open problems followed by those of `more`, in order, whose event id
/// is not already listed.
pub open spec fn merged_problems(open: Seq<ProblemRec>, more: Seq<ProblemRec>) -> Seq<ProblemRec>
    decreases more.len(),
{
    if more.len() == 0 {
        open
    } else {
        let m = merged_problems(open, more.drop_last());
        if has_event(m, more.last().eventid@) {
            m
        } else {
            m.push(more.last())
        }
    }
}

/// Problem `i` of `ps` is listed before problem `j`: higher severity first,
/// then the more recent, then the earlier in `ps`.
pub open spec fn problem_before(ps: Seq<ProblemRec>) -> spec_fn(int, int) -> bool {
    |i: int, j: int|
        ps[i].severity > ps[j].severity || (ps[i].severity == ps[j].severity && (ps[i].clock
            > ps[j].clock || (ps[i].clock == ps[j].clock && i < j)))
}

/// `a` and `b` hold the same values (their host lists element by element).
pub open spec fn same_problem(a: ProblemRec, b: ProblemRec) -> bool {
    &&& a.eventid == b.eventid
    &&& a.name == b.name
    &&& a.severity == b.severity
    &&& a.severity_label == b.severity_label
    &&& a.clock == b.clock
    &&& a.recovered == b.recovered
    &&& a.acknowledged == b.acknowledged
    &&& a.hosts@ == b.hosts@
    &&& a.disabled == b.disabled
}

/// `u` and `v` hold the same problems, position by position.
pub open spec fn same_problems(u: Seq<ProblemRec>, v: Seq<ProblemRec>) -> bool {
    u.len() == v.len() && forall|k: int| 0 <= k < u.len() ==> same_problem(#[trigger] u[k], v[k])
}

/// A copy of a problem.
pub fn clone_problem(p: &ProblemRec) -> (r: ProblemRec)
    ensures
        same_problem(r, *p),
{
    let mut hosts: Vec<String> = Vec::new();
    let mut i: usize = 0;
    while i < p.hosts.len()
        invariant
            0 <= i <= p.hosts.len(),
            hosts@ == p.hosts@.subrange(0, i as int),
        decreases p.hosts.len() - i,
    {
        hosts.push(p.hosts[i].clone());
        i += 1;
        assert(hosts@ =~= p.hosts@.subrange(0, i as int));
    }
    assert(p.hosts@.subrange(0, p.hosts.len() as int) =~= p.hosts@);
    ProblemRec {
        eventid: p.eventid.clone(),
        name: p.name.clone(),
        severity: p.severity,
        severity_label: p.severity_label.clone(),
        clock: p.clock,
        recovered: p.recovered,
        acknowledged: p.acknowledged,
        hosts,
        disabled: p.disabled,
    }
}

fn contains_event(ps: &Vec<ProblemRec>, ev: &str) -> (r: bool)
    ensures
        r == has_event(ps@, ev@),
{
    let mut i: usize = 0;
    while i < ps.len()
        invariant
            0 <= i <= ps.len(),
            forall|j: int| 0 <= j < i ==> (#[trigger] ps@[j]).eventid@ != ev@,
        decreases ps.len() - i,
    {
        if str_eq(ps[i].eventid.as_str(), ev) {
            return true;
        }
        i += 1;
    }
    false
}

/// The current open problems followed by the problems of the range, each
/// event listed once (its first entry kept).
pub fn merge_problems(open: Vec<ProblemRec>, more: &Vec<ProblemRec>) -> (r: Vec<ProblemRec>)
    ensures
        same_problems(r@, merged_problems(open@, more@)),
{
    let mut out = open;
    let ghost start = out@;
    let mut i: usize = 0;
    while i < more.len()
        invariant
            0 <= i <= more.len(),
            same_problems(out@, merged_problems(start, more@.subrange(0, i as int))),
        decreases more.len() - i,
    {
        let ghost m = merged_problems(start, more@.subrange(0, i as int));
        assert(more@.subrange(0, i + 1).drop_last() =~= more@.subrange(0, i as int));
        let ev = more[i].eventid.as_str();
        let found = contains_event(&out, ev);
        assert(found == has_event(m, ev@)) by {
            if has_event(out@, ev@) {
                let j = choose|j: int| 0 <= j < out@.len() && (#[trigger] out@[j]).eventid@ == ev@;
                assert(same_problem(out@[j], m[j]));
            }
            if has_event(m, ev@) {
                let j = choose|j: int| 0 <= j < m.len() && (#[trigger] m[j]).eventid@ == ev@;
                assert(same_problem(out@[j], m[j]));
            }
        }
        if !found {
            let c = clone_problem(&more[i]);
            out.push(c);
            assert forall|k: int| 0 <= k < out@.len() implies same_problem(
                #[trigger] out@[k],
                m.push(more@[i as int])[k],
            ) by {
                if k < m.len() {
                    assert(same_problem(out@[k], m[k]));
                }
            }
        }
        i += 1;
    }
    assert(more@.subrange(0, more.len() as int) =~= more@);
    out
}

/// The positions of `ps` in listing order.
fn problem_order(ps: &Vec<ProblemRec>) -> (order: Vec<usize>)
    ensures
        is_order(ps.len() as int, problem_before(ps@), order@.map_values(|x: usize| x as int)),
{
    let ghost before = problem_before(ps@);
    let mut order: Vec<usize> = Vec::new();
    let mut k: usize = 0;
    while k < ps.len()
        invariant
            0 <= k <= ps.len(),
            before == problem_before(ps@),
            order.len() == k,
            forall|a: int| 0 <= a < order.len() ==> #[trigger] order@[a] < k,
            forall|a: int, b: int|
                0 <= a < order.len() && 0 <= b < order.len() && a != b ==> #[trigger] order@[a]
                    != #[trigger] order@[b],
            forall|a: int, b: int|
                0 <= a < b < order.len() ==> before(#[trigger] order@[a] as int, #[trigger] order@[b] as int),
        decreases ps.len() - k,
    {
        let sev = ps[k].severity;
        let clock = ps[k].clock;
        let mut p: usize = 0;
        while p < order.len() && (ps[order[p]].severity > sev || (ps[order[p]].severity == sev
            && ps[order[p]].clock >= clock))
            invariant
                0 <= p <= order.len(),
                order.len() == k,
                k < ps.len(),
                sev == ps@[k as int].severity,
                clock == ps@[k as int].clock,
                forall|a: int| 0 <= a < order.len() ==> #[trigger] order@[a] < k,
                forall|a: int|
                    0 <= a < p ==> (ps@[#[trigger] order@[a] as int].severity > sev || (ps@[order@[a] as int].severity
                        == sev && ps@[order@[a] as int].clock >= clock)),
            decreases order.len() - p,
        {
            p += 1;
        }
        let ghost old_order = order@;
        order.insert(p, k);
        proof {
            assert forall|a: int, b: int| 0 <= a < b < order.len() implies before(
                #[trigger] order@[a] as int,
                #[trigger] order@[b] as int,
            ) by {
                if b < p {
                    assert(order@[a] == old_order[a] && order@[b] == old_order[b]);
                } else if b == p {
                    assert(order@[a] == old_order[a]);
                } else if a == p {
                    assert(order@[b] == old_order[b - 1]);
                    assert(p < old_order.len());
                    if b - 1 > p {
                        assert(before(old_order[p as int] as int, old_order[b - 1] as int));
                    }
                } else if a < p {
                    assert(order@[a] == old_order[a] && order@[b] == old_order[b - 1]);
                    assert(before(old_order[a] as int, old_order[b - 1] as int));
                } else {
                    assert(order@[a] == old_order[a - 1] && order@[b] == old_order[b - 1]);
                    assert(before(old_order[a - 1] as int, old_order[b - 1] as int));
                }
            }
            assert forall|a: int, b: int|
                0 <= a < order.len() && 0 <= b < order.len() && a != b implies #[trigger] order@[a]
                    != #[trigger] order@[b] by {
                if a != p && b != p {
                    let oa = if a < p { a } else { a - 1 };
                    let ob = if b < p { b } else { b - 1 };
                    assert(order@[a] == old_order[oa] && order@[b] == old_order[ob]);
                } else if a == p {
                    let ob = if b < p { b } else { b - 1 };
                    assert(order@[b] == old_order[ob]);
                } else {
                    let oa = if a < p { a } else { a - 1 };
                    assert(order@[a] == old_order[oa]);
                }
            }
            assert forall|a: int| 0 <= a < order.len() implies #[trigger] order@[a] < k + 1 by {
                if a < p {
                    assert(order@[a] == old_order[a]);
                } else if a > p {
                    assert(order@[a] == old_order[a - 1]);
                }
            }
        }
        k += 1;
    }
    proof {
        let m = order@.map_values(|x: usize| x as int);
        assert forall|a: int, b: int| 0 <= a < b < m.len() implies before(#[trigger] m[a], #[trigger] m[b]) by {
            assert(m[a] == order@[a] as int && m[b] == order@[b] as int);
        }
        assert forall|a: int, b: int|
            0 <= a < m.len() && 0 <= b < m.len() && a != b implies #[trigger] m[a] != #[trigger] m[b] by {
            assert(m[a] == order@[a] as int && m[b] == order@[b] as int);
        }
        assert forall|a: int| 0 <= a < m.len() implies 0 <= #[trigger] m[a] < ps@.len() by {
            assert(m[a] == order@[a] as int);
        }
    }
    order
}

/// The problems in listing order: higher severity first, then the more
/// recent, equal ones in their given order.
pub fn sort_problems(ps: &Vec<ProblemRec>) -> (r: Vec<ProblemRec>)
    ensures
        r.len() == ps.len(),
        exists|order: Seq<int>|
            is_order(ps.len() as int, problem_before(ps@), order) && forall|k: int|
                0 <= k < r.len() ==> same_problem(#[trigger] r@[k], ps@[order[k]]),
{
    let order = problem_order(ps);
    let ghost m = order@.map_values(|x: usize| x as int);
    let mut out: Vec<ProblemRec> = Vec::new();
    let mut k: usize = 0;
    while k < order.len()
        invariant
            0 <= k <= order.len(),
            order.len() == ps.len(),
            m == order@.map_values(|x: usize| x as int),
            is_order(ps.len() as int, problem_before(ps@), m),
            out.len() == k,
            forall|a: int| 0 <= a < k ==> same_problem(#[trigger] out@[a], ps@[m[a]]),
        decreases order.len() - k,
    {
        assert(m[k as int] == order@[k as int] as int);
        out.push(clone_problem(&ps[order[k]]));
        k += 1;
    }
    out
}

/// The listing order of problems is unique.
pub proof fn law_problem_order_unique(ps: Seq<ProblemRec>, o1: Seq<int>, o2: Seq<int>)
    requires
        is_order(ps.len() as int, problem_before(ps), o1),
        is_order(ps.len() as int, problem_before(ps), o2),
    ensures
        o1 == o2,
{
    let before = problem_before(ps);
    assert forall|i: int, j: int| #[trigger] before(i, j) implies !before(j, i) by {}
    law_order_unique(ps.len() as int, before, o1, o2);
}

/// The problems shown for host `host`: each problem that lists the host and
/// is not disabled, once per listing, in order.
pub open spec fn problems_of(ps: Seq<ProblemRec>, host: Seq<char>) -> Seq<ProblemRec>
    decreases ps.len(),
{
    if ps.len() == 0 {
        Seq::empty()
    } else {
        let p = ps.last();
        let n = if p.disabled {
            0
        } else {
            occurrences(p.hosts@, host)
        };
        problems_of(ps.drop_last(), host) + Seq::new(n, |k: int| p)
    }
}

/// The problems to show for host `host`.
pub fn problems_for_host(ps: &Vec<ProblemRec>, host: &str) -> (r: Vec<ProblemRec>)
    ensures
        same_problems(r@, problems_of(ps@, host@)),
{
    let mut out: Vec<ProblemRec> = Vec::new();
    let mut i: usize = 0;
    while i < ps.len()
        invariant
            0 <= i <= ps.len(),
            same_problems(out@, problems_of(ps@.subrange(0, i as int), host@)),
        decreases ps.len() - i,
    {
        let p = &ps[i];
        assert(ps@.subrange(0, i + 1).drop_last() =~= ps@.subrange(0, i as int));
        let ghost base = problems_of(ps@.subrange(0, i as int), host@);
        if !p.disabled {
            let mut j: usize = 0;
            while j < p.hosts.len()
                invariant
                    0 <= j <= p.hosts.len(),
                    !p.disabled,
                    same_problems(out@, base + Seq::new(occurrences(p.hosts@.subrange(0, j as int), host@), |k: int| *p)),
                decreases p.hosts.len() - j,
            {
                let ghost before = out@;
                assert(p.hosts@.subrange(0, j + 1).drop_last() =~= p.hosts@.subrange(0, j as int));
                if str_eq(p.hosts[j].as_str(), host) {
                    let c = clone_problem(p);
                    out.push(c);
                    let ghost target = base + Seq::new(occurrences(p.hosts@.subrange(0, j + 1), host@), |k: int| *p);
                    assert forall|k: int| 0 <= k < out@.len() implies same_problem(#[trigger] out@[k], target[k]) by {
                        if k < before.len() {
                            assert(same_problem(before[k], (base + Seq::new(occurrences(p.hosts@.subrange(0, j as int), host@), |k: int| *p))[k]));
                        }
                    }
                } else {
                    assert(base + Seq::new(occurrences(p.hosts@.subrange(0, j + 1), host@), |k: int| *p)
                        =~= base + Seq::new(occurrences(p.hosts@.subrange(0, j as int), host@), |k: int| *p));
                }
                j += 1;
            }
            assert(p.hosts@.subrange(0, p.hosts.len() as int) =~= p.hosts@);
        } else {
            assert(base + Seq::new(0, |k: int| *p) =~= base);
        }
        i += 1;
    }
    assert(ps@.subrange(0, ps.len() as int) =~= ps@);
    out
}

} // verus!
