//! Risk scoring: the three strictness tiers with their thresholds, and the
//! accumulator that turns matched rules into a capped, floored score.
//!
//! Strictness is centred on a base (= the high-risk line): loose 90, standard
//! 80, strict 70. Every percentage threshold moves with the base; event rules
//! (reboots, OOM, alerts, ...) do not.
use vstd::prelude::*;
use crate::problems::{count_open_high, open_high_severity};
use crate::text::{
    ascii_lower, ascii_lower_char, ascii_or_ideographs, concat, is_cjk_ideograph, is_ws,
    lemma_ascii_lower_char, lemma_trimmed_ends, lemma_trimmed_fixed, trim_left, trim_right, dec, dec_int, fmt_i64, fmt_u64, fmt_usize, owned, str_eq, to_lowercase, trim,
    trimmed, unicode_lowercase,
};
use crate::types::{risk_level, risk_level_name, ProblemRec, RiskResult, ServiceCheck};

verus! {

/// The three scoring strictness tiers.
#[derive(Debug, Clone, Copy, PartialEq, Eq, Structural)]
pub enum Strictness {
    /// Base 90%.
    Loose,
    /// Base 80% (the default).
    Standard,
    /// Base 70%.
    Strict,
}

impl Default for Strictness {
    fn default() -> (s: Self)
        ensures
            s == Strictness::Standard,
    {
        Strictness::Standard
    }
}

/// The tier that a lower-cased, trimmed name stands for.
pub open spec fn strictness_named(name: Seq<char>) -> Option<Strictness> {
    if name == "loose"@ || name == "宽松"@ {
        Some(Strictness::Loose)
    } else if name == "standard"@ || name == "std"@ || name == "标准"@ {
        Some(Strictness::Standard)
    } else if name == "strict"@ || name == "严格"@ {
        Some(Strictness::Strict)
    } else {
        None
    }
}

/// The Chinese name of a tier.
pub open spec fn label_of(s: Strictness) -> Seq<char> {
    match s {
        Strictness::Loose => "宽松"@,
        Strictness::Standard => "标准"@,
        Strictness::Strict => "严格"@,
    }
}

/// A label is trimmed text of CJK ideographs that names its own tier once
/// its ASCII letters are lowered.
proof fn lemma_label_reads_back(m: Strictness)
    ensures
        trimmed(label_of(m)) == label_of(m),
        ascii_or_ideographs(label_of(m)),
        strictness_named(ascii_lower(label_of(m))) == Some(m),
{
    reveal_strlit("宽松");
    reveal_strlit("标准");
    reveal_strlit("严格");
    reveal_strlit("loose");
    reveal_strlit("standard");
    reveal_strlit("std");
    reveal_strlit("strict");
    let l = label_of(m);
    assert(l.len() == 2);
    assert(!is_ws(l[0]) && !is_ws(l.last()));
    assert(trim_left(l) == l);
    assert(trim_right(l) == l);
    assert(ascii_lower(l) =~= l);
}

/// Reading a tier name does not change when the name is trimmed and
/// lower-cased first. For text `s` whose trimmed form is made of ASCII
/// characters and CJK ideographs, its trimmed lower-cased form `t` (what
/// `s.trim().to_lowercase()` returns) is such text too, is already trimmed and
/// lower-cased, and names the same tier, if any, that `s` names.
pub proof fn law_parse_normalised(s: Seq<char>)
    requires
        ascii_or_ideographs(trimmed(s)),
    ensures
        ascii_or_ideographs(trimmed(ascii_lower(trimmed(s)))),
        trimmed(ascii_lower(trimmed(s))) == ascii_lower(trimmed(s)),
        ascii_lower(ascii_lower(trimmed(s))) == ascii_lower(trimmed(s)),
        strictness_named(ascii_lower(trimmed(ascii_lower(trimmed(s))))) == strictness_named(
            ascii_lower(trimmed(s)),
        ),
{
    let x = trimmed(s);
    let t = ascii_lower(x);
    lemma_trimmed_ends(s);
    if x.len() > 0 {
        lemma_ascii_lower_char(x[0]);
        lemma_ascii_lower_char(x.last());
        assert(t[0] == ascii_lower_char(x[0]));
        assert(t.last() == ascii_lower_char(x.last()));
    }
    lemma_trimmed_fixed(t);
    assert forall|i: int| 0 <= i < t.len() implies (#[trigger] t[i] as u32) < 128 || is_cjk_ideograph(
        t[i],
    ) by {
        lemma_ascii_lower_char(x[i]);
    }
    assert forall|i: int| 0 <= i < t.len() implies #[trigger] ascii_lower(t)[i] == t[i] by {
        lemma_ascii_lower_char(x[i]);
    }
    assert(ascii_lower(t) =~= t);
}

/// The base of a tier, in percent.
pub open spec fn base_of(s: Strictness) -> i64 {
    match s {
        Strictness::Loose => 90,
        Strictness::Standard => 80,
        Strictness::Strict => 70,
    }
}

/// The smaller of two integers.
pub open spec fn min_i(a: int, b: int) -> int {
    if a <= b {
        a
    } else {
        b
    }
}

/// CPU levels (critical / high / medium / low): high = base - 5, critical
/// capped at 98 so that it stays reachable.
pub open spec fn util_levels_of(s: Strictness) -> Seq<i64> {
    let b = base_of(s) as int;
    seq![min_i(b + 5, 98) as i64, (b - 5) as i64, (b - 15) as i64, (b - 30) as i64]
}

/// Memory levels, one step above CPU; critical capped at 98.
pub open spec fn mem_levels_of(s: Strictness) -> Seq<i64> {
    let b = base_of(s) as int;
    seq![min_i(b + 10, 98) as i64, b as i64, (b - 10) as i64, (b - 20) as i64]
}

/// Disk and inode levels, one more step above; critical capped at 98.
pub open spec fn disk_levels_of(s: Strictness) -> Seq<i64> {
    let b = base_of(s) as int;
    seq![min_i(b + 10, 98) as i64, (b + 5) as i64, b as i64, (b - 5) as i64]
}

impl Strictness {
    /// Reads a tier name (English or Chinese, surrounding space and case
    /// ignored). Every tier's own label reads back as that tier.
    pub fn parse(s: &str) -> (r: Option<Strictness>)
        ensures
            r == strictness_named(unicode_lowercase(trimmed(s@))),
            ascii_or_ideographs(trimmed(s@)) ==> r == strictness_named(ascii_lower(trimmed(s@))),
            forall|m: Strictness| s@ == #[trigger] label_of(m) ==> r == Some(m),
    {
        let t = trim(s);
        let lower = to_lowercase(t.as_str());
        proof {
            assert forall|m: Strictness| s@ == #[trigger] label_of(m) implies strictness_named(
                unicode_lowercase(trimmed(s@)),
            ) == Some(m) by {
                lemma_label_reads_back(m);
            }
        }
        Self::from_name(lower.as_str())
    }

    /// The tier named by an already trimmed, lower-cased name.
    pub fn from_name(name: &str) -> (r: Option<Strictness>)
        ensures
            r == strictness_named(name@),
    {
        if str_eq(name, "loose") || str_eq(name, "宽松") {
            Some(Strictness::Loose)
        } else if str_eq(name, "standard") || str_eq(name, "std") || str_eq(name, "标准") {
            Some(Strictness::Standard)
        } else if str_eq(name, "strict") || str_eq(name, "严格") {
            Some(Strictness::Strict)
        } else {
            None
        }
    }

    /// The base (= high-risk line), in percent.
    pub fn base(self) -> (b: i64)
        ensures
            b == base_of(self),
    {
        match self {
            Strictness::Loose => 90,
            Strictness::Standard => 80,
            Strictness::Strict => 70,
        }
    }

    /// The Chinese name of the tier.
    pub fn label(self) -> (r: &'static str)
        ensures
            r@ == label_of(self),
    {
        match self {
            Strictness::Loose => "宽松",
            Strictness::Standard => "标准",
            Strictness::Strict => "严格",
        }
    }

    /// CPU levels: critical / high / medium / low, in percent.
    pub fn util_levels(self) -> (l: [i64; 4])
        ensures
            l@ == util_levels_of(self),
    {
        let b = self.base();
        let top = if b + 5 < 98 {
            b + 5
        } else {
            98
        };
        let l = [top, b - 5, b - 15, b - 30];
        assert(l@ =~= util_levels_of(self));
        l
    }

    /// Memory levels, in percent.
    pub fn mem_levels(self) -> (l: [i64; 4])
        ensures
            l@ == mem_levels_of(self),
    {
        let b = self.base();
        let top = if b + 10 < 98 {
            b + 10
        } else {
            98
        };
        let l = [top, b, b - 10, b - 20];
        assert(l@ =~= mem_levels_of(self));
        l
    }

    /// Disk and inode levels, in percent.
    pub fn disk_levels(self) -> (l: [i64; 4])
        ensures
            l@ == disk_levels_of(self),
    {
        let b = self.base();
        let top = if b + 10 < 98 {
            b + 10
        } else {
            98
        };
        let l = [top, b + 5, b, b - 5];
        assert(l@ =~= disk_levels_of(self));
        l
    }

    /// CPU peak threshold: base + 15, capped at 99.
    pub fn cpu_peak(self) -> (t: i64)
        ensures
            t == min_i(base_of(self) + 15, 99),
    {
        let b = self.base();
        if b + 15 < 99 {
            b + 15
        } else {
            99
        }
    }

    /// Swap threshold: base - 30.
    pub fn swap_thr(self) -> (t: i64)
        ensures
            t == base_of(self) - 30,
    {
        self.base() - 30
    }

    /// Bandwidth and file-descriptor threshold: the base itself.
    pub fn pct_thr(self) -> (t: i64)
        ensures
            t == base_of(self),
    {
        self.base()
    }
}

/// The level tables of every tier are strictly descending.
pub proof fn law_levels_descend(s: Strictness)
    ensures
        forall|i: int, j: int| 0 <= i < j < 4 ==> util_levels_of(s)[i] > util_levels_of(s)[j],
        forall|i: int, j: int| 0 <= i < j < 4 ==> mem_levels_of(s)[i] > mem_levels_of(s)[j],
        forall|i: int, j: int| 0 <= i < j < 4 ==> disk_levels_of(s)[i] > disk_levels_of(s)[j],
{
}

/// A looser tier never has a lower threshold than a stricter one: every
/// threshold of loose is at least that of standard, which is at least that of
/// strict.
pub proof fn law_tiers_ordered()
    ensures
        forall|i: int|
            0 <= i < 4 ==> util_levels_of(Strictness::Loose)[i] >= #[trigger] util_levels_of(Strictness::Standard)[i]
                >= util_levels_of(Strictness::Strict)[i],
        forall|i: int|
            0 <= i < 4 ==> mem_levels_of(Strictness::Loose)[i] >= #[trigger] mem_levels_of(Strictness::Standard)[i]
                >= mem_levels_of(Strictness::Strict)[i],
        forall|i: int|
            0 <= i < 4 ==> disk_levels_of(Strictness::Loose)[i] >= #[trigger] disk_levels_of(Strictness::Standard)[i]
                >= disk_levels_of(Strictness::Strict)[i],
        base_of(Strictness::Loose) == base_of(Strictness::Standard) + 10,
        base_of(Strictness::Strict) == base_of(Strictness::Standard) - 10,
{
}

/// Below the caps, every threshold moves one for one with the base: the
/// uncapped levels of two tiers differ exactly by the difference of their
/// bases.
pub proof fn law_thresholds_shift_with_base(a: Strictness, b: Strictness)
    ensures
        forall|i: int|
            1 <= i < 4 ==> util_levels_of(a)[i] - util_levels_of(b)[i] == base_of(a) - base_of(b),
        forall|i: int|
            1 <= i < 4 ==> mem_levels_of(a)[i] - mem_levels_of(b)[i] == base_of(a) - base_of(b),
        forall|i: int|
            1 <= i < 4 ==> disk_levels_of(a)[i] - disk_levels_of(b)[i] == base_of(a) - base_of(b),
{
}

// ---------------------------------------------------------------------------
// Score accumulator
// ---------------------------------------------------------------------------

/// Points and reasons gathered while scoring one host.
pub struct Acc {
    pub points: i64,
    pub msgs: Vec<String>,
    /// A rule that forces the score to at least 95 has matched.
    pub floored: bool,
}

/// The final score: points capped at 100, raised to 95 when floored.
pub open spec fn final_score(points: i64, floored: bool) -> i64 {
    let capped = if points <= 100 {
        points
    } else {
        100
    };
    if floored && capped < 95 {
        95
    } else {
        capped
    }
}

/// The reason line recorded for `pts` points.
pub open spec fn points_line(pts: i64, msg: Seq<char>) -> Seq<char> {
    "[+"@ + dec_int(pts as int) + "] "@ + msg
}

/// The reason line recorded for a floor.
pub open spec fn floor_line(msg: Seq<char>) -> Seq<char> {
    "[严重] "@ + msg
}

impl Acc {
    /// An empty accumulator.
    pub fn new() -> (a: Acc)
        ensures
            a.points == 0,
            a.msgs@.len() == 0,
            !a.floored,
    {
        Acc { points: 0, msgs: Vec::new(), floored: false }
    }

    /// Adds `pts` points with their reason.
    pub fn add(&mut self, pts: i64, msg: String)
        requires
            i64::MIN <= old(self).points + pts <= i64::MAX,
        ensures
            final(self).points == old(self).points + pts,
            final(self).floored == old(self).floored,
            final(self).msgs@.len() == old(self).msgs@.len() + 1,
            forall|i: int| 0 <= i < old(self).msgs@.len() ==> final(self).msgs@[i] == old(self).msgs@[i],
            final(self).msgs@.last()@ == points_line(pts, msg@),
    {
        self.points = self.points + pts;
        let p = fmt_i64(pts);
        let a = concat("[+", p.as_str());
        let b = concat(a.as_str(), "] ");
        let line = concat(b.as_str(), msg.as_str());
        self.msgs.push(line);
    }

    /// Forces the score to at least 95, with its reason.
    pub fn floor(&mut self, msg: String)
        ensures
            final(self).points == old(self).points,
            final(self).floored,
            final(self).msgs@.len() == old(self).msgs@.len() + 1,
            forall|i: int| 0 <= i < old(self).msgs@.len() ==> final(self).msgs@[i] == old(self).msgs@[i],
            final(self).msgs@.last()@ == floor_line(msg@),
    {
        self.floored = true;
        let line = concat("[严重] ", msg.as_str());
        self.msgs.push(line);
    }

    /// The score (points capped at 100, at least 95 when floored), its level
    /// and the reasons in the order they were recorded.
    pub fn result(self) -> (r: RiskResult)
        ensures
            r.score == final_score(self.points, self.floored),
            r.level@ == risk_level_name(r.score),
            r.points@ == self.msgs@,
    {
        let mut score = if self.points <= 100 {
            self.points
        } else {
            100
        };
        if self.floored && score < 95 {
            score = 95;
        }
        let level = owned(risk_level(score));
        RiskResult { score, level, points: self.msgs }
    }
}

/// Scores never exceed 100; a floored score is at least 95 and always
/// critical; without a floor, points up to 100 are the score itself.
pub proof fn law_score_bounds(points: i64, floored: bool)
    ensures
        final_score(points, floored) <= 100,
        floored ==> final_score(points, floored) >= 95,
        floored ==> risk_level_name(final_score(points, floored)) == "严重"@,
        !floored && points <= 100 ==> final_score(points, floored) == points,
        0 <= points ==> 0 <= final_score(points, floored),
{
}

/// The level of a score never goes down as the score grows within 0..=100:
/// each level covers one interval, and the intervals follow each other.
pub proof fn law_levels_partition(score: i64)
    ensures
        0 <= score <= 39 <==> risk_level_name(score) == "健康"@,
        40 <= score <= 59 <==> risk_level_name(score) == "低危"@,
        60 <= score <= 74 <==> risk_level_name(score) == "中危"@,
        75 <= score <= 89 <==> risk_level_name(score) == "高危"@,
        (score < 0 || score >= 90) <==> risk_level_name(score) == "严重"@,
{
    reveal_strlit("健康");
    reveal_strlit("低危");
    reveal_strlit("中危");
    reveal_strlit("高危");
    reveal_strlit("严重");
    assert("健康"@[0] != "低危"@[0] && "健康"@[0] != "中危"@[0] && "健康"@[0] != "高危"@[0]
        && "健康"@[0] != "严重"@[0]);
    assert("低危"@[0] != "中危"@[0] && "低危"@[0] != "高危"@[0] && "低危"@[0] != "严重"@[0]);
    assert("中危"@[0] != "高危"@[0] && "中危"@[0] != "严重"@[0]);
    assert("高危"@[0] != "严重"@[0]);
}

// ---------------------------------------------------------------------------
// Integer parts of the built-in rules
// ---------------------------------------------------------------------------

/// The reason recorded for an unreachable host.
pub open spec fn unreachable_msg() -> Seq<char> {
    "主机不可达（Agent 无响应）"@
}

/// The reason recorded for a failed service probe.
pub open spec fn service_failed_msg(s: ServiceCheck) -> Seq<char> {
    "服务探测失败："@ + s.name@ + "（"@ + s.key@ + "）"@
}

/// The first failed probe at or after position `i`.
pub open spec fn first_failed_from(services: Seq<ServiceCheck>, i: int) -> Option<int>
    decreases services.len() - i,
{
    if i < 0 || i >= services.len() {
        None
    } else if !services[i].ok {
        Some(i)
    } else {
        first_failed_from(services, i + 1)
    }
}

/// Availability rules: an unreachable host and the first failed service probe
/// each force a critical score.
pub fn score_availability(acc: &mut Acc, available: bool, services: &Vec<ServiceCheck>)
    ensures
        final(acc).points == old(acc).points,
        final(acc).floored == (old(acc).floored || !available || first_failed_from(services@, 0) is Some),
        final(acc).msgs@ == old(acc).msgs@ + (if available {
            Seq::<String>::empty()
        } else {
            seq![final(acc).msgs@[old(acc).msgs@.len() as int]]
        }) + (match first_failed_from(services@, 0) {
            Some(k) => seq![final(acc).msgs@.last()],
            None => Seq::<String>::empty(),
        }),
        !available ==> final(acc).msgs@[old(acc).msgs@.len() as int]@ == floor_line(unreachable_msg()),
        first_failed_from(services@, 0) matches Some(k) ==> final(acc).msgs@.last()@ == floor_line(
            service_failed_msg(services@[k]),
        ),
{
    if !available {
        acc.floor(owned("主机不可达（Agent 无响应）"));
    }
    let ghost mid = acc.msgs@;
    assert(mid =~= old(acc).msgs@ + (if available {
        Seq::<String>::empty()
    } else {
        seq![mid[old(acc).msgs@.len() as int]]
    }));
    let mut i: usize = 0;
    while i < services.len()
        invariant
            0 <= i <= services.len(),
            mid == old(acc).msgs@ + (if available {
                Seq::<String>::empty()
            } else {
                seq![mid[old(acc).msgs@.len() as int]]
            }),
            !available ==> mid[old(acc).msgs@.len() as int]@ == floor_line(unreachable_msg()),
            first_failed_from(services@, 0) == first_failed_from(services@, i as int),
            acc.msgs@ == mid,
            acc.points == old(acc).points,
            acc.floored == (old(acc).floored || !available),
        decreases services.len() - i,
    {
        if !services[i].ok {
            let s = &services[i];
            let a = concat("服务探测失败：", s.name.as_str());
            let b = concat(a.as_str(), "（");
            let c = concat(b.as_str(), s.key.as_str());
            let d = concat(c.as_str(), "）");
            acc.floor(d);
            assert(acc.msgs@ =~= mid + seq![acc.msgs@.last()]);
            assert(!available ==> acc.msgs@[old(acc).msgs@.len() as int] == mid[old(acc).msgs@.len() as int]);
            return;
        }
        i += 1;
    }
    assert(acc.msgs@ =~= mid + Seq::<String>::empty());
}

/// The new-error total over the interfaces: per interface its outbound error
/// count, or the inbound one when the outbound is unknown.
pub open spec fn net_error_total(errs: Seq<(Option<u64>, Option<u64>)>) -> nat
    decreases errs.len(),
{
    if errs.len() == 0 {
        0
    } else {
        net_error_total(errs.drop_last()) + match errs.last() {
            (_, Some(o)) => o as nat,
            (Some(i), None) => i as nat,
            (None, None) => 0nat,
        }
    }
}

/// The network-error rule: 5 points when any interface saw new error packets.
/// Each entry is the (inbound, outbound) error count of one interface.
pub fn score_net_errors(acc: &mut Acc, errs: &Vec<(Option<u64>, Option<u64>)>)
    requires
        net_error_total(errs@) <= u64::MAX,
        old(acc).points + 5 <= i64::MAX,
    ensures
        final(acc).floored == old(acc).floored,
        net_error_total(errs@) > 0 ==> final(acc).points == old(acc).points + 5
            && final(acc).msgs@ == old(acc).msgs@.push(final(acc).msgs@.last())
            && final(acc).msgs@.last()@ == points_line(
            5,
            "区间内网卡错包新增 "@ + dec(net_error_total(errs@)) + " 个"@,
        ),
        net_error_total(errs@) == 0 ==> *final(acc) == *old(acc),
{
    let mut total: u64 = 0;
    let mut i: usize = 0;
    while i < errs.len()
        invariant
            0 <= i <= errs.len(),
            total == net_error_total(errs@.subrange(0, i as int)),
            net_error_total(errs@) <= u64::MAX,
        decreases errs.len() - i,
    {
        proof {
            assert(errs@.subrange(0, i + 1).drop_last() =~= errs@.subrange(0, i as int));
            lemma_net_error_total_prefix(errs@, i + 1);
        }
        let e = match errs[i] {
            (_, Some(o)) => o,
            (Some(x), None) => x,
            (None, None) => 0,
        };
        total = total + e;
        i += 1;
    }
    assert(errs@.subrange(0, errs.len() as int) =~= errs@);
    if total > 0 {
        let n = fmt_u64(total);
        let a = concat("区间内网卡错包新增 ", n.as_str());
        let m = concat(a.as_str(), " 个");
        acc.add(5, m);
        assert(acc.msgs@ =~= old(acc).msgs@.push(acc.msgs@.last()));
    }
}

proof fn lemma_net_error_total_prefix(errs: Seq<(Option<u64>, Option<u64>)>, k: int)
    requires
        0 <= k <= errs.len(),
    ensures
        net_error_total(errs.subrange(0, k)) <= net_error_total(errs),
    decreases errs.len() - k,
{
    if k < errs.len() {
        lemma_net_error_total_prefix(errs.drop_last(), k);
        assert(errs.drop_last().subrange(0, k) =~= errs.subrange(0, k));
    } else {
        assert(errs.subrange(0, k) =~= errs);
    }
}

/// The restart rules: 15 points per reboot in the range, 10 points when OOM
/// events occurred.
pub fn score_restarts(acc: &mut Acc, reboots: Option<i64>, oom_events: Option<i64>)
    requires
        ({
            let n = match reboots {
                Some(n) => n as int,
                None => 0,
            };
            let extra = if n > 0 {
                n * 15
            } else {
                0
            };
            &&& extra <= i64::MAX
            &&& old(acc).points + extra + 10 <= i64::MAX
        }),
    ensures
        final(acc).floored == old(acc).floored,
        final(acc).points == old(acc).points + (match reboots {
            Some(n) => if n > 0 {
                n * 15
            } else {
                0
            },
            None => 0,
        }) + (match oom_events {
            Some(k) => if k > 0 {
                10int
            } else {
                0
            },
            None => 0,
        }),
        final(acc).msgs@.subrange(0, old(acc).msgs@.len() as int) == old(acc).msgs@,
        final(acc).msgs@.len() == old(acc).msgs@.len() + (match reboots {
            Some(n) => if n > 0 {
                1int
            } else {
                0
            },
            None => 0,
        }) + (match oom_events {
            Some(k) => if k > 0 {
                1int
            } else {
                0
            },
            None => 0,
        }),
        match reboots {
            Some(n) => n > 0 ==> final(acc).msgs@[old(acc).msgs@.len() as int]@ == points_line(
                (n * 15) as i64,
                "区间内发生 "@ + dec_int(n as int) + " 次重启"@,
            ),
            None => true,
        },
        match oom_events {
            Some(k) => k > 0 ==> final(acc).msgs@.last()@ == points_line(
                10,
                "区间内发生 "@ + dec_int(k as int) + " 次 OOM 事件"@,
            ),
            None => true,
        },
{
    let n = match reboots {
        Some(n) => n,
        None => 0,
    };
    if n > 0 {
        let s = fmt_i64(n);
        let a = concat("区间内发生 ", s.as_str());
        let m = concat(a.as_str(), " 次重启");
        acc.add(n * 15, m);
    }
    let ghost mid = acc.msgs@;
    let k = match oom_events {
        Some(k) => k,
        None => 0,
    };
    if k > 0 {
        let s = fmt_i64(k);
        let a = concat("区间内发生 ", s.as_str());
        let m = concat(a.as_str(), " 次 OOM 事件");
        acc.add(10, m);
    }
    assert(acc.msgs@.subrange(0, old(acc).msgs@.len() as int) =~= old(acc).msgs@);
}

/// The points for `n` open severe alerts: 5 each, at most 20.
pub open spec fn alert_points(n: nat) -> int {
    min_i((n * 5) as int, 20)
}

/// The alert rule: open high/disaster problems add 5 points each, at most 20.
pub fn score_alerts(acc: &mut Acc, problems: &Vec<ProblemRec>)
    requires
        old(acc).points + 20 <= i64::MAX,
    ensures
        final(acc).floored == old(acc).floored,
        final(acc).points == old(acc).points + alert_points(count_open_high(problems@)),
        count_open_high(problems@) > 0 ==> final(acc).msgs@ == old(acc).msgs@.push(
            final(acc).msgs@.last(),
        ) && final(acc).msgs@.last()@ == points_line(
            alert_points(count_open_high(problems@)) as i64,
            dec(count_open_high(problems@)) + " 个未恢复的高危/灾难告警"@,
        ),
        count_open_high(problems@) == 0 ==> final(acc).msgs@ == old(acc).msgs@,
{
    let open_high = open_high_severity(problems);
    if open_high > 0 {
        let pts: i64 = if open_high >= 4 {
            20
        } else {
            (open_high as i64) * 5
        };
        let s = fmt_usize(open_high);
        let m = concat(s.as_str(), " 个未恢复的高危/灾难告警");
        acc.add(pts, m);
        assert(acc.msgs@ =~= old(acc).msgs@.push(acc.msgs@.last()));
    }
}

} // verus!
