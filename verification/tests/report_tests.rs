use zbxpatrol::bilingual::{availability, availability_str, risk_level, risk_point, severity, strictness};
use zbxpatrol::errors::{is_auth_error, PatrolError};
use zbxpatrol::items::{aggregate_by_key, aggregate_items, detail_rows};
use zbxpatrol::problems::problems_for_host;
use zbxpatrol::lang::{is_zh, parse, t, toggle, Lang};
use zbxpatrol::render::{csv_escape, host_label, scope_text};
use zbxpatrol::report::{build_summary, HostBrief};
use zbxpatrol::types::{ItemRec, ProblemRec};

fn brief(host: &str, available: bool, missing: bool, score: i64, level: &str) -> HostBrief {
    HostBrief {
        host: host.into(),
        available,
        missing_data: missing,
        score,
        level: level.into(),
    }
}

fn problem(id: &str, sev: u8, clock: i64, recovered: bool, disabled: bool) -> ProblemRec {
    ProblemRec {
        eventid: id.into(),
        name: format!("p{id}"),
        severity: sev,
        severity_label: String::new(),
        clock,
        recovered,
        acknowledged: false,
        hosts: Vec::new(),
        disabled,
    }
}

#[test]
fn summary_counts_levels_and_problems() {
    let hosts = vec![
        brief("a", true, false, 10, "健康"),
        brief("b", false, true, 95, "严重"),
        brief("c", true, false, 45, "低危"),
        brief("d", true, true, 0, "停用"),
        brief("e", true, false, 65, "中危"),
        brief("f", false, false, 80, "高危"),
    ];
    let problems = vec![
        problem("1", 4, 100, false, false),
        problem("2", 4, 50, false, false),
        problem("3", 5, 200, true, false),
        problem("4", 5, 300, false, true),
    ];
    let s = build_summary(&hosts, &problems, 100);
    assert_eq!(s.host_total, 6);
    assert_eq!(s.available, 4);
    assert_eq!(s.unavailable, 2);
    assert_eq!(s.missing_data, 2);
    assert_eq!(s.host_disabled, 1);
    assert_eq!(s.risk_dist.healthy, 1);
    assert_eq!(s.risk_dist.low, 1);
    assert_eq!(s.risk_dist.medium, 1);
    assert_eq!(s.risk_dist.high, 1);
    assert_eq!(s.risk_dist.critical, 1);
    assert_eq!(s.problem_open, 2);
    assert_eq!(s.problem_new_in_range, 1);
    assert_eq!(s.problem_carried_over, 1);
    let order: Vec<(&str, i64)> = s.top_risk.iter().map(|t| (t.host.as_str(), t.score)).collect();
    assert_eq!(order, vec![("b", 95), ("f", 80), ("e", 65), ("c", 45), ("a", 10), ("d", 0)]);
    assert_eq!(s.top_risk[0].level, "严重");
}

#[test]
fn summary_top_ten_keeps_order_of_ties() {
    let hosts: Vec<HostBrief> =
        (0..12).map(|i| brief(&format!("h{i}"), true, false, if i % 2 == 0 { 50 } else { 70 }, "x")).collect();
    let s = build_summary(&hosts, &Vec::new(), 0);
    assert_eq!(s.top_risk.len(), 10);
    let names: Vec<&str> = s.top_risk.iter().map(|t| t.host.as_str()).collect();
    assert_eq!(names, vec!["h1", "h3", "h5", "h7", "h9", "h11", "h0", "h2", "h4", "h6"]);
    assert_eq!(s.risk_dist.critical, 12);
}

#[test]
fn summary_of_nothing() {
    let s = build_summary(&Vec::new(), &Vec::new(), 0);
    assert_eq!(s.host_total, 0);
    assert!(s.top_risk.is_empty());
    assert_eq!(s.problem_open, 0);
}

fn item(key: &str, name: &str, vt: u8, units: &str, last: Option<&str>) -> ItemRec {
    ItemRec {
        itemid: key.into(),
        hostid: "1".into(),
        key: key.into(),
        name: name.into(),
        value_type: vt,
        units: units.into(),
        lastvalue: last.map(|s| s.to_string()),
        lastclock: None,
        status: "0".into(),
    }
}

#[test]
fn aggregate_groups_filters_and_sorts() {
    let items = vec![
        item("system.cpu.util", "CPU utilization", 0, "%", None),
        item("vm.memory.size[total]", "Total memory", 3, "B", None),
        item("system.cpu.util", "CPU 利用率", 0, "%", None),
        item("agent.version", "Agent version", 1, "", None),
        item("vm.memory.size[total]", "Total memory", 3, "B", None),
        item("system.cpu.util", "CPU utilization", 0, "%", None),
        item("a.first", "Zeta", 4, "", None),
    ];
    let rows = aggregate_items(&items, "");
    let view: Vec<(&str, &str, &str, &str, usize)> = rows
        .iter()
        .map(|r| (r.key.as_str(), r.name.as_str(), r.unit.as_str(), r.vt_label.as_str(), r.hosts))
        .collect();
    assert_eq!(
        view,
        vec![
            ("system.cpu.util", "CPU utilization", "%", "float", 3),
            ("vm.memory.size[total]", "Total memory", "B", "uint", 2),
            ("a.first", "Zeta", "", "text", 1),
            ("agent.version", "Agent version", "", "text", 1),
        ]
    );
    let found = aggregate_items(&items, "MEMORY");
    assert_eq!(found.len(), 1);
    assert_eq!(found[0].key, "vm.memory.size[total]");
    let by_name = aggregate_items(&items, "zeta");
    assert_eq!(by_name.len(), 1);
    assert_eq!(by_name[0].key, "a.first");
    assert!(aggregate_items(&items, "nothing").is_empty());
    assert_eq!(rows[2].unit_label(), "—");
    assert_eq!(rows[0].unit_label(), "%");
}

#[test]
fn detail_rows_filter_and_numeric_only() {
    let items = vec![
        item("system.cpu.util", "CPU", 0, "%", Some("12.5")),
        item("system.uname", "Uname", 1, "", Some("Linux")),
        item("proc.num", "Processes", 3, "", None),
    ];
    let all = detail_rows(&items, "", false);
    assert_eq!(all.len(), 3);
    assert_eq!(all[0].lastvalue, "12.5");
    assert_eq!(all[2].lastvalue, "");
    let numeric = detail_rows(&items, "", true);
    let keys: Vec<&str> = numeric.iter().map(|r| r.key.as_str()).collect();
    assert_eq!(keys, vec!["system.cpu.util", "proc.num"]);
    let searched = detail_rows(&items, "UNAME", false);
    assert_eq!(searched.len(), 1);
    assert_eq!(searched[0].key, "system.uname");
}

#[test]
fn lang_choices() {
    assert_eq!(parse("ZH"), Some(Lang::Zh));
    assert_eq!(parse("中文"), Some(Lang::Zh));
    assert_eq!(parse("Chinese"), Some(Lang::Zh));
    assert_eq!(parse("klingon"), Some(Lang::En));
    assert_eq!(toggle(Lang::En), Lang::Zh);
    assert_eq!(toggle(toggle(Lang::Zh)), Lang::Zh);
    assert_eq!(t(Lang::Zh, "Hosts", "主机"), "主机");
    assert_eq!(t(Lang::En, "Hosts", "主机"), "Hosts");
    assert!(is_zh(Lang::Zh));
    assert!(!is_zh(Lang::En));
    assert_eq!(Lang::En.label(), "English");
    assert_eq!(Lang::Zh.label(), "中文");
}

#[test]
fn bilingual_tables() {
    assert_eq!(risk_level("高危"), "High");
    assert_eq!(risk_level("健康"), "Healthy");
    assert_eq!(risk_level("other"), "other");
    assert_eq!(severity("灾难"), "Disaster");
    assert_eq!(severity("未分类"), "Not Classified");
    assert_eq!(severity("x"), "x");
    assert_eq!(strictness("标准（基准 80%）"), "Standard (80% baseline)");
    assert_eq!(strictness("宽松"), "Loose (90% baseline)");
    assert_eq!(strictness("严格（基准 70%）"), "Strict (70% baseline)");
    assert_eq!(strictness("?"), "?");
    assert_eq!(availability(true), "OK");
    assert_eq!(availability(false), "Unreachable");
    assert_eq!(availability_str("不可达"), "Unreachable");
    assert_eq!(availability_str("正常"), "OK");
    assert_eq!(availability_str("n/a"), "n/a");
}

#[test]
fn risk_point_translation() {
    let p = "[+20] 内存平均使用率 92.0% 达到高危阈值";
    assert_eq!(risk_point(p, Lang::Zh), p);
    assert_eq!(risk_point(p, Lang::En), "[+20] Memory平均 usage  92.0% reached HIGH threshold");
    assert_eq!(risk_point("区间内发生 2 次重启", Lang::En), "occurred in range:  2  reboots");
}

#[test]
fn csv_fields() {
    assert_eq!(csv_escape("plain"), "plain");
    assert_eq!(csv_escape("a,b"), "\"a,b\"");
    assert_eq!(csv_escape("say \"hi\""), "\"say \"\"hi\"\"\"");
}

#[test]
fn auth_errors_and_exit_codes() {
    assert!(is_auth_error("Session terminated, re-login, please."));
    assert!(is_auth_error("NOT AUTHORIZED"));
    assert!(is_auth_error("Incorrect user name or password or account is temporarily blocked. Login name or password is incorrect."));
    assert!(!is_auth_error("Connection refused"));
    assert_eq!(PatrolError::Config("x".into()).exit_code(), 2);
    assert_eq!(PatrolError::MissingEnv("x".into()).exit_code(), 2);
    assert_eq!(PatrolError::Auth("x".into()).exit_code(), 2);
    assert_eq!(PatrolError::Network("x".into()).exit_code(), 3);
    assert_eq!(PatrolError::Api("x".into()).exit_code(), 3);
    assert!(matches!(
        PatrolError::from_login_failure("Login name or password is incorrect.".into()),
        PatrolError::Auth(_)
    ));
    assert!(matches!(PatrolError::from_login_failure("timeout".into()), PatrolError::Network(_)));
    assert_eq!(PatrolError::Config("bad".into()).message(), "配置错误：bad");
}

#[test]
fn labels_for_menus_and_reports() {
    assert_eq!(host_label("web-1", "10.0.0.5", "Linux"), "web-1 (10.0.0.5) [Linux]");
    assert_eq!(host_label("db", "", ""), "db () [?]");
    let names = vec!["Linux servers".to_string(), "DB".to_string()];
    assert_eq!(scope_text(Lang::Zh, "all", &names), "全部主机");
    assert_eq!(scope_text(Lang::En, "all", &names), "All hosts");
    assert_eq!(scope_text(Lang::En, "group", &names), "Group Linux servers、DB");
    assert_eq!(scope_text(Lang::Zh, "group", &names), "群组 Linux servers、DB");
    assert_eq!(scope_text(Lang::Zh, "hosts", &names), "Linux servers、DB");
}

#[test]
fn keys_in_ascending_order() {
    let items = vec![
        item("vm.memory.size[total]", "Total memory", 3, "B", None),
        item("system.cpu.util", "CPU", 0, "%", None),
        item("vm.memory.size[total]", "Total memory", 3, "B", None),
        item("agent.version", "Agent version", 1, "", None),
    ];
    let rows = aggregate_by_key(&items, None);
    let view: Vec<(&str, u8, usize)> = rows.iter().map(|r| (r.key.as_str(), r.value_type, r.hosts)).collect();
    assert_eq!(view, vec![("agent.version", 1, 1), ("system.cpu.util", 0, 1), ("vm.memory.size[total]", 3, 2)]);
    let found = aggregate_by_key(&items, Some("MEM"));
    assert_eq!(found.len(), 1);
    assert_eq!(found[0].unit, "B");
    assert_eq!(aggregate_by_key(&items, Some("")).len(), 3);
}

#[test]
fn problems_shown_per_host() {
    let mut a = problem("1", 4, 10, false, false);
    a.hosts = vec!["web".into(), "db".into()];
    let mut b = problem("2", 5, 20, false, true);
    b.hosts = vec!["web".into()];
    let mut c = problem("3", 2, 30, true, false);
    c.hosts = vec!["web".into(), "web".into()];
    let ps = vec![a, b, c];
    let web: Vec<String> = problems_for_host(&ps, "web").into_iter().map(|p| p.eventid).collect();
    assert_eq!(web, vec!["1", "3", "3"]);
    let db: Vec<String> = problems_for_host(&ps, "db").into_iter().map(|p| p.eventid).collect();
    assert_eq!(db, vec!["1"]);
    assert!(problems_for_host(&ps, "none").is_empty());
}
