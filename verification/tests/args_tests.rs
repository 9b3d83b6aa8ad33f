use zbxpatrol::args::{api_scope, api_time_fields, api_time_spec, authorized, TimeFields, cli_scope, cli_time_spec, filter_page, parse_pick};
use zbxpatrol::discovery::{fill_missing_groups, GroupMembers};
use zbxpatrol::menu::{command_of, page_answer, pick_many, MenuCommand, PageAnswer};
use zbxpatrol::errors::PatrolError;
use zbxpatrol::problems::{attach_problem_hosts, merge_problems, sort_problems, TriggerHosts};
use zbxpatrol::timerange::{last_duration_readable, Period, TimeRange, TimeSpec};
use zbxpatrol::types::{HostInfo, ProblemRec, Scope};

fn s(v: &str) -> Option<String> {
    Some(v.to_string())
}

#[test]
fn time_spec_precedence() {
    match cli_time_spec(s("week"), s("2h"), s("2026-01-01"), None).unwrap() {
        TimeSpec::FromTo { from, to } => {
            assert_eq!(from, "2026-01-01");
            assert!(to.is_none());
        }
        other => panic!("unexpected {other:?}"),
    }
    assert!(matches!(cli_time_spec(s("week"), s("2h"), None, None).unwrap(), TimeSpec::Last(l) if l == "2h"));
    assert!(matches!(cli_time_spec(s("week"), None, None, None).unwrap(), TimeSpec::Period(Period::Week)));
    assert!(matches!(cli_time_spec(s("year"), None, None, None).unwrap(), TimeSpec::Period(Period::Year)));
    assert!(matches!(cli_time_spec(None, None, None, None).unwrap(), TimeSpec::Period(Period::Day)));
}

#[test]
fn time_spec_unknown_period() {
    match cli_time_spec(s("fortnight"), None, None, None) {
        Err(PatrolError::Config(m)) => {
            assert_eq!(m, "unknown period \"fortnight\" (expected day|week|month|year)")
        }
        other => panic!("unexpected {other:?}"),
    }
    match api_time_spec(None, s("Day"), None, None, None) {
        Err(PatrolError::Config(m)) => assert_eq!(m, "未知 period \"Day\""),
        other => panic!("unexpected {other:?}"),
    }
    assert!(matches!(api_time_spec(None, s("month"), None, None, None).unwrap(), TimeSpec::Period(Period::Month)));
}

#[test]
fn scopes() {
    assert!(matches!(cli_scope(vec!["g".into()], s("h"), vec![]), Scope::Hosts(h) if h == vec!["h".to_string()]));
    assert!(matches!(cli_scope(vec!["g".into()], None, vec!["x".into()]), Scope::Hosts(h) if h == vec!["x".to_string()]));
    assert!(matches!(cli_scope(vec!["g".into()], None, vec![]), Scope::Groups(g) if g == vec!["g".to_string()]));
    assert!(matches!(cli_scope(vec![], s("h"), vec!["x".into()]), Scope::Hosts(h) if h == vec!["h".to_string()]));
    assert!(matches!(cli_scope(vec![], None, vec!["x".into(), "y".into()]), Scope::Hosts(h) if h.len() == 2));
    assert!(matches!(cli_scope(vec![], None, vec![]), Scope::All));
    assert!(matches!(api_scope(s("G"), Some(vec!["h1".into()])), Scope::Hosts(h) if h == vec!["h1".to_string()]));
    assert!(matches!(api_scope(s("g"), None), Scope::Groups(g) if g == vec!["g".to_string()]));
    assert!(matches!(api_scope(None, Some(vec!["h".into()])), Scope::Hosts(h) if h == vec!["h".to_string()]));
    assert!(matches!(api_scope(None, None), Scope::All));
}

#[test]
fn filtered_pages() {
    let labels: Vec<String> = ["web-1", "db-1", "web-2", "WEB-3", "cache"].iter().map(|s| s.to_string()).collect();
    assert_eq!(filter_page(&labels, None, None, None), (vec![0, 1, 2, 3, 4], false));
    assert_eq!(filter_page(&labels, Some("web"), None, None), (vec![0, 2, 3], false));
    assert_eq!(filter_page(&labels, Some(""), None, Some(2)), (vec![0, 1], true));
    assert_eq!(filter_page(&labels, Some("web"), Some(2), Some(2)), (vec![3], true));
    assert_eq!(filter_page(&labels, None, Some(9), Some(2)), (vec![], true));
    assert_eq!(filter_page(&labels, None, Some(0), Some(2)), (vec![0, 1], true));
    assert_eq!(filter_page(&labels, None, Some(3), Some(0)), (vec![0, 1, 2, 3, 4], false));
}

#[test]
fn menu_picks() {
    assert_eq!(parse_pick("1", 3), Some(0));
    assert_eq!(parse_pick("3", 3), Some(2));
    assert_eq!(parse_pick("4", 3), None);
    assert_eq!(parse_pick("0", 3), None);
    assert_eq!(parse_pick("b", 3), Some(1));
    assert_eq!(parse_pick("C", 3), Some(2));
    assert_eq!(parse_pick("d", 3), None);
    assert_eq!(parse_pick("ab", 30), None);
    assert_eq!(parse_pick("?", 3), None);
}

fn host(id: &str, groups: &[&str]) -> HostInfo {
    HostInfo {
        hostid: id.into(),
        host: format!("h{id}"),
        name: format!("Host {id}"),
        ip: "10.0.0.1".into(),
        groups: groups.iter().map(|g| g.to_string()).collect(),
        os_family: String::new(),
        status: "0".into(),
    }
}

#[test]
fn missing_groups_are_filled() {
    let mut hosts = vec![host("1", &[]), host("2", &["Own"]), host("3", &[])];
    let gs = vec![
        GroupMembers { name: "Linux".into(), hostids: vec!["1".into(), "2".into()] },
        GroupMembers { name: "DB".into(), hostids: vec!["1".into()] },
    ];
    fill_missing_groups(&mut hosts, &gs);
    assert_eq!(hosts[0].groups, vec!["Linux".to_string(), "DB".to_string()]);
    assert_eq!(hosts[1].groups, vec!["Own".to_string()]);
    assert!(hosts[2].groups.is_empty());
    assert_eq!(hosts[0].host, "h1");
}

fn problem(id: &str) -> ProblemRec {
    ProblemRec {
        eventid: id.into(),
        name: format!("p{id}"),
        severity: 4,
        severity_label: "高危".into(),
        clock: 1,
        recovered: false,
        acknowledged: false,
        hosts: Vec::new(),
        disabled: false,
    }
}

#[test]
fn problem_hosts_are_attached() {
    let mut ps = vec![problem("10"), problem("11"), problem("12")];
    let tids = vec!["t1".to_string(), "t2".to_string(), "t9".to_string()];
    let ts = vec![
        TriggerHosts { triggerid: "t1".into(), hosts: vec!["web".into()] },
        TriggerHosts { triggerid: "t2".into(), hosts: vec!["db".into(), "db2".into()] },
        TriggerHosts { triggerid: "t1".into(), hosts: vec!["web-new".into()] },
    ];
    attach_problem_hosts(&mut ps, &tids, &ts);
    assert_eq!(ps[0].hosts, vec!["web-new".to_string()]);
    assert_eq!(ps[1].hosts, vec!["db".to_string(), "db2".to_string()]);
    assert!(ps[2].hosts.is_empty());
    assert_eq!(ps[1].name, "p11");
}

fn timed(id: &str, sev: u8, clock: i64) -> ProblemRec {
    let mut p = problem(id);
    p.severity = sev;
    p.clock = clock;
    p
}

#[test]
fn problems_merge_and_sort() {
    let open = vec![timed("1", 3, 100), timed("2", 5, 50)];
    let more = vec![timed("2", 5, 50), timed("3", 5, 80), timed("3", 1, 1), timed("4", 3, 100)];
    let merged = merge_problems(open, &more);
    let ids: Vec<&str> = merged.iter().map(|p| p.eventid.as_str()).collect();
    assert_eq!(ids, vec!["1", "2", "3", "4"]);
    let sorted = sort_problems(&merged);
    let ids: Vec<&str> = sorted.iter().map(|p| p.eventid.as_str()).collect();
    assert_eq!(ids, vec!["3", "2", "1", "4"]);
}

#[test]
fn duration_readability() {
    assert!(last_duration_readable("48h"));
    assert!(last_duration_readable("xx"));
    assert!(!last_duration_readable("3天"));
    assert!(!last_duration_readable("9999999999999999h"));
    assert!(last_duration_readable("2562047788015215h"));
    assert!(!TimeRange::can_resolve(&TimeSpec::Last("5日".into())));
    assert!(TimeRange::can_resolve(&TimeSpec::Period(Period::Day)));
}

#[test]
fn many_picks_sorted_without_repeats() {
    assert_eq!(pick_many("3,1 1，2", 5), Some(vec![0, 1, 2]));
    assert_eq!(pick_many("b, a", 5), Some(vec![0, 1]));
    assert_eq!(pick_many("1,9", 5), None);
    assert_eq!(pick_many(" , ", 5), None);
    assert_eq!(pick_many("web", 5), None);
}

#[test]
fn paged_answers() {
    let items: Vec<String> = ["web-1", "web-2", "db-1", "Cache", "webmail"].iter().map(|s| s.to_string()).collect();
    let shown: Vec<usize> = vec![0, 1, 2, 3, 4];
    assert_eq!(page_answer(&items, &shown, "2"), PageAnswer::Select(1));
    assert_eq!(page_answer(&items, &shown, "cache"), PageAnswer::Select(3));
    assert_eq!(page_answer(&items, &shown, "db"), PageAnswer::Select(2));
    assert_eq!(page_answer(&items, &shown, "mail"), PageAnswer::Select(4));
    assert_eq!(page_answer(&items, &shown, "web"), PageAnswer::Filter(vec![0, 1, 4]));
    assert_eq!(page_answer(&items, &shown, "zzz"), PageAnswer::NoMatch);
    let narrowed: Vec<usize> = vec![2, 3];
    assert_eq!(page_answer(&items, &narrowed, "1"), PageAnswer::Select(2));
    assert_eq!(page_answer(&items, &narrowed, "9"), PageAnswer::NoMatch);
    assert_eq!(page_answer(&items, &narrowed, "-1"), PageAnswer::Select(2));
    assert_eq!(page_answer(&items, &narrowed, "web"), PageAnswer::Filter(vec![0, 1, 4]));
}

#[test]
fn menu_commands() {
    assert_eq!(command_of("HELP", false), MenuCommand::Help);
    assert_eq!(command_of("？", false), MenuCommand::Help);
    assert_eq!(command_of("Q", false), MenuCommand::Back);
    assert_eq!(command_of("Quit", false), MenuCommand::Exit);
    assert_eq!(command_of("m", true), MenuCommand::Main);
    assert_eq!(command_of("g", true), MenuCommand::Groups);
    assert_eq!(command_of("g", false), MenuCommand::Other);
    assert_eq!(command_of("H", true), MenuCommand::Hosts);
    assert_eq!(command_of("语言", false), MenuCommand::ToggleLang);
    assert_eq!(command_of("L", false), MenuCommand::ToggleLang);
    assert_eq!(command_of("", false), MenuCommand::Other);
    assert_eq!(command_of("web-1", true), MenuCommand::Other);
}

#[test]
fn api_authorization() {
    assert!(authorized("/health", Some("s3"), None));
    assert!(authorized("/report", None, None));
    assert!(authorized("/report", Some("s3"), Some("Bearer s3")));
    assert!(!authorized("/report", Some("s3"), Some("Bearer s4")));
    assert!(!authorized("/report", Some("s3"), Some("s3")));
    assert!(!authorized("/report", Some("s3"), None));
}

fn fields(period: Option<String>, last: Option<String>) -> TimeFields {
    TimeFields { period, last, from: None, to: None }
}

#[test]
fn nested_time_object() {
    match api_time_spec(Some(fields(None, s("48h"))), None, None, None, None) {
        Ok(TimeSpec::Last(l)) => assert_eq!(l, "48h"),
        other => panic!("unexpected {other:?}"),
    }
    assert!(matches!(
        api_time_spec(Some(fields(s("week"), None)), None, None, None, None).unwrap(),
        TimeSpec::Period(Period::Week)
    ));
    assert!(matches!(api_time_spec(Some(fields(None, None)), None, None, None, None).unwrap(), TimeSpec::Period(Period::Day)));
    match api_time_spec(Some(fields(None, s("48h"))), s("day"), None, None, None) {
        Err(PatrolError::Config(m)) => assert_eq!(m, "time 对象不能与顶层 period/last/from/to 同时使用"),
        other => panic!("unexpected {other:?}"),
    }
    match api_time_fields(Some(fields(None, None)), None, None, None, s("2026-09-15")) {
        Err(PatrolError::Config(m)) => assert_eq!(m, "time 对象不能与顶层 period/last/from/to 同时使用"),
        other => panic!("unexpected {other:?}"),
    }
    let f = api_time_fields(None, s("month"), None, s("2026-09-01"), None).unwrap();
    assert_eq!(f.period.as_deref(), Some("month"));
    assert_eq!(f.from.as_deref(), Some("2026-09-01"));
    match api_time_spec(Some(fields(s("fortnight"), None)), None, None, None, None) {
        Err(PatrolError::Config(m)) => assert_eq!(m, "未知 period \"fortnight\""),
        other => panic!("unexpected {other:?}"),
    }
}
