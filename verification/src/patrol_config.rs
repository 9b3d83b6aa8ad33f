//! The `[metrics]` section of the optional `patrol.toml`: custom recognition
//! rules, which the file's reader hands over as plain values.
use vstd::prelude::*;
use crate::rules::{AggKind, MetricRule, RuleView, rule_view, rule_views};
use crate::text::{owned, str_eq};

verus! {

/// The `[metrics]` table.
#[derive(Debug, Clone)]
pub struct MetricsSection {
    /// The `[[metrics.rules]]` entries.
    pub rules: Option<Vec<RuleDef>>,
}

/// One `[[metrics.rules]]` entry; `unit` defaults to empty, `kind` to `raw`.
#[derive(Debug, Clone)]
pub struct RuleDef {
    pub id: String,
    pub pattern: String,
    pub label: String,
    pub unit: String,
    pub kind: String,
}

/// The aggregation that a `kind` text names: `util`, `event`, anything else raw.
pub open spec fn kind_named(k: Seq<char>) -> AggKind {
    if k == "util"@ {
        AggKind::Util
    } else if k == "event"@ {
        AggKind::Event
    } else {
        AggKind::Raw
    }
}

/// The rule that an entry defines, as plain values.
pub open spec fn def_view(d: RuleDef) -> RuleView {
    (d.id@, d.pattern@, d.label@, d.unit@, kind_named(d.kind@))
}

/// The rules that the `[metrics]` table defines, in file order; none without
/// the table or its `rules` list.
pub open spec fn section_rules(m: Option<MetricsSection>) -> Seq<RuleView> {
    match m {
        Some(sec) => match sec.rules {
            Some(rs) => rs@.map_values(|d: RuleDef| def_view(d)),
            None => Seq::empty(),
        },
        None => Seq::empty(),
    }
}

/// The `kind` of an entry that names none.
pub fn default_kind() -> (r: String)
    ensures
        r@ == "raw"@,
{
    owned("raw")
}

/// The aggregation that `k` names.
pub fn kind_of(k: &str) -> (r: AggKind)
    ensures
        r == kind_named(k@),
{
    if str_eq(k, "util") {
        AggKind::Util
    } else if str_eq(k, "event") {
        AggKind::Event
    } else {
        AggKind::Raw
    }
}

/// The recognition rules defined in the `[metrics]` table.
pub fn metric_rules(metrics: &Option<MetricsSection>) -> (r: Vec<MetricRule>)
    ensures
        rule_views(r@) == section_rules(*metrics),
{
    let mut out: Vec<MetricRule> = Vec::new();
    match metrics {
        Some(sec) => match &sec.rules {
            Some(rs) => {
                let mut i: usize = 0;
                while i < rs.len()
                    invariant
                        0 <= i <= rs.len(),
                        rule_views(out@) == rs@.subrange(0, i as int).map_values(
                            |d: RuleDef| def_view(d),
                        ),
                    decreases rs.len() - i,
                {
                    let d = &rs[i];
                    let rule = MetricRule {
                        id: d.id.clone(),
                        pattern: d.pattern.clone(),
                        label: d.label.clone(),
                        unit: d.unit.clone(),
                        kind: kind_of(d.kind.as_str()),
                    };
                    assert(rule_view(rule) == def_view(rs@[i as int]));
                    let ghost before = out@;
                    out.push(rule);
                    assert(rule_views(out@) =~= rule_views(before).push(rule_view(rule)));
                    assert(rs@.subrange(0, i + 1) =~= rs@.subrange(0, i as int).push(rs@[i as int]));
                    i += 1;
                    assert(rule_views(out@) =~= rs@.subrange(0, i as int).map_values(
                        |d: RuleDef| def_view(d),
                    ));
                }
                assert(rs@.subrange(0, rs.len() as int) =~= rs@);
            },
            None => {
                assert(rule_views(out@) =~= Seq::<RuleView>::empty());
            },
        },
        None => {
            assert(rule_views(out@) =~= Seq::<RuleView>::empty());
        },
    }
    out
}

} // verus!
