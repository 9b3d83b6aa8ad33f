//! The records an inspection reads and produces.
use vstd::prelude::*;
use crate::text::{concat, owned, dec, fmt_usize, join, joined, views};

verus! {

/// A host group.
#[derive(Debug, Clone)]
pub struct GroupRec {
    pub groupid: String,
    pub name: String,
}

/// A monitored host.
#[derive(Debug, Clone)]
pub struct HostInfo {
    pub hostid: String,
    /// Technical host name.
    pub host: String,
    /// Visible name.
    pub name: String,
    pub ip: String,
    pub groups: Vec<String>,
    /// Linux / Windows / FreeBSD / macOS / AIX / 其他 / 未知.
    pub os_family: String,
    /// "0" monitored, "1" disabled.
    pub status: String,
}

/// A monitoring item of a host.
#[derive(Debug, Clone)]
pub struct ItemRec {
    pub itemid: String,
    pub hostid: String,
    pub key: String,
    pub name: String,
    /// 0 float / 1 char / 2 log / 3 unsigned / 4 text
    pub value_type: u8,
    pub units: String,
    pub lastvalue: Option<String>,
    pub lastclock: Option<i64>,
    /// "0" enabled, "1" disabled.
    pub status: String,
}

/// An item holds numbers: floats (0) or unsigned integers (3).
pub open spec fn is_numeric(value_type: u8) -> bool {
    value_type == 0 || value_type == 3
}

impl ItemRec {
    /// Whether the item holds numbers (value type 0 or 3).
    pub fn numeric(&self) -> (b: bool)
        ensures
            b == is_numeric(self.value_type),
    {
        self.value_type == 0 || self.value_type == 3
    }
}

/// Which hosts an inspection covers.
#[derive(Debug, Clone)]
pub enum Scope {
    All,
    Groups(Vec<String>),
    Hosts(Vec<String>),
}

/// The label of a scope: 全部主机, the group names joined by `+`, the single
/// host name, or the number of hosts followed by 台主机.
pub open spec fn scope_label(s: Scope) -> Seq<char> {
    match s {
        Scope::All => "全部主机"@,
        Scope::Groups(g) => joined(views(g@), "+"@),
        Scope::Hosts(h) => if h.len() == 1 {
            h@[0]@
        } else {
            dec(h.len() as nat) + "台主机"@
        },
    }
}

impl Scope {
    /// A human-readable label of the scope.
    pub fn label(&self) -> (r: String)
        ensures
            r@ == scope_label(*self),
    {
        match self {
            Scope::All => owned("全部主机"),
            Scope::Groups(g) => join(g, "+"),
            Scope::Hosts(h) => {
                if h.len() == 1 {
                    h[0].clone()
                } else {
                    let n = fmt_usize(h.len());
                    concat(n.as_str(), "台主机")
                }
            },
        }
    }
}

/// A service probe (net.tcp.service / net.tcp.port) and whether it answered.
#[derive(Debug, Clone)]
pub struct ServiceCheck {
    pub key: String,
    pub name: String,
    pub ok: bool,
}

/// A problem (alert) raised by a trigger.
#[derive(Debug, Clone)]
pub struct ProblemRec {
    pub eventid: String,
    pub name: String,
    /// 0 未分类 1 信息 2 警告 3 一般 4 高危 5 灾难
    pub severity: u8,
    pub severity_label: String,
    pub clock: i64,
    pub recovered: bool,
    pub acknowledged: bool,
    pub hosts: Vec<String>,
    /// The trigger or its host is disabled: shown, never scored.
    pub disabled: bool,
}

/// The risk score of a host, its level and the reasons behind it.
#[derive(Debug, Clone)]
pub struct RiskResult {
    pub score: i64,
    pub level: String,
    pub points: Vec<String>,
}

/// The level name of a risk score: 0–39 健康, 40–59 低危, 60–74 中危,
/// 75–89 高危, anything else 严重.
pub open spec fn risk_level_name(score: i64) -> Seq<char> {
    if 0 <= score && score <= 39 {
        "健康"@
    } else if 40 <= score && score <= 59 {
        "低危"@
    } else if 60 <= score && score <= 74 {
        "中危"@
    } else if 75 <= score && score <= 89 {
        "高危"@
    } else {
        "严重"@
    }
}

/// The level name of a risk score.
pub fn risk_level(score: i64) -> (r: &'static str)
    ensures
        r@ == risk_level_name(score),
{
    if 0 <= score && score <= 39 {
        "健康"
    } else if 40 <= score && score <= 59 {
        "低危"
    } else if 60 <= score && score <= 74 {
        "中危"
    } else if 75 <= score && score <= 89 {
        "高危"
    } else {
        "严重"
    }
}

/// How many hosts fall in each risk level.
#[derive(Debug, Clone)]
pub struct RiskDist {
    pub healthy: i64,
    pub low: i64,
    pub medium: i64,
    pub high: i64,
    pub critical: i64,
}

/// One entry of the top-risk list.
#[derive(Debug, Clone)]
pub struct TopRisk {
    pub host: String,
    pub score: i64,
    pub level: String,
}

/// Totals over the hosts and problems of a report.
#[derive(Debug, Clone)]
pub struct Summary {
    pub host_total: i64,
    pub available: i64,
    pub unavailable: i64,
    pub missing_data: i64,
    /// Disabled hosts, which are not scored.
    pub host_disabled: i64,
    pub risk_dist: RiskDist,
    pub top_risk: Vec<TopRisk>,
    /// Open problems, including those that began before the range.
    pub problem_open: i64,
    /// Open problems that began within the range.
    pub problem_new_in_range: i64,
    /// Open problems that began before the range.
    pub problem_carried_over: i64,
}

/// The time range of a report.
#[derive(Debug, Clone)]
pub struct RangeInfo {
    pub from: i64,
    pub till: i64,
    pub tz: String,
    /// Human-readable range.
    pub human: String,
}

} // verus!
