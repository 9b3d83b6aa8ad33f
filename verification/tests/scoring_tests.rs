use zbxpatrol::rules::{builtin_rules, AggKind, CompiledRules, MetricRule};
use zbxpatrol::scoring::{score_alerts, score_availability, score_net_errors, score_restarts, Acc, Strictness};
use zbxpatrol::types::{ProblemRec, ServiceCheck};

fn problem(sev: u8, recovered: bool) -> ProblemRec {
    ProblemRec {
        eventid: "1".into(),
        name: "p".into(),
        severity: sev,
        severity_label: String::new(),
        clock: 0,
        recovered,
        acknowledged: false,
        hosts: Vec::new(),
        disabled: false,
    }
}

#[test]
fn accumulator_caps_and_floors() {
    let mut a = Acc::new();
    a.add(60, "CPU".into());
    a.add(70, "内存".into());
    let r = a.result();
    assert_eq!(r.score, 100);
    assert_eq!(r.level, "严重");
    assert_eq!(r.points, vec!["[+60] CPU".to_string(), "[+70] 内存".to_string()]);
    let mut b = Acc::new();
    b.add(10, "x".into());
    b.floor("主机不可达".into());
    let r = b.result();
    assert_eq!(r.score, 95);
    assert_eq!(r.points[1], "[严重] 主机不可达");
    assert_eq!(Acc::new().result().score, 0);
    assert_eq!(Acc::new().result().level, "健康");
}

#[test]
fn availability_and_services() {
    let mut a = Acc::new();
    let services = vec![
        ServiceCheck { key: "net.tcp.port[,22]".into(), name: "ssh".into(), ok: true },
        ServiceCheck { key: "net.tcp.port[,80]".into(), name: "http".into(), ok: false },
    ];
    score_availability(&mut a, false, &services);
    assert!(a.floored);
    assert_eq!(a.msgs.len(), 2);
    assert_eq!(a.msgs[0], "[严重] 主机不可达（Agent 无响应）");
    assert_eq!(a.msgs[1], "[严重] 服务探测失败：http（net.tcp.port[,80]）");
    let mut ok = Acc::new();
    score_availability(&mut ok, true, &vec![]);
    assert!(!ok.floored && ok.msgs.is_empty());
}

#[test]
fn restarts_alerts_and_errors() {
    let mut a = Acc::new();
    score_restarts(&mut a, Some(2), Some(1));
    assert_eq!(a.points, 40);
    assert_eq!(a.msgs[0], "[+30] 区间内发生 2 次重启");
    assert_eq!(a.msgs[1], "[+10] 区间内发生 1 次 OOM 事件");
    let mut b = Acc::new();
    let ps: Vec<ProblemRec> = (0..6).map(|_| problem(4, false)).chain([problem(5, true), problem(2, false)].into_iter()).collect();
    score_alerts(&mut b, &ps);
    assert_eq!(b.points, 20);
    assert_eq!(b.msgs[0], "[+20] 6 个未恢复的高危/灾难告警");
    let mut c = Acc::new();
    score_alerts(&mut c, &vec![problem(4, false)]);
    assert_eq!(c.points, 5);
    let mut d = Acc::new();
    score_net_errors(&mut d, &vec![(Some(0), None), (Some(3), Some(1))]);
    assert_eq!(d.points, 5);
    let mut e = Acc::new();
    score_net_errors(&mut e, &vec![(Some(0), Some(0))]);
    assert_eq!(e.points, 0);
    assert!(e.msgs.is_empty());
}

#[test]
fn strictness_labels_and_default() {
    assert_eq!(Strictness::default(), Strictness::Standard);
    assert_eq!(Strictness::parse("  STRICT "), Some(Strictness::Strict));
    assert_eq!(Strictness::Standard.label(), "标准");
    assert_eq!(Strictness::Loose.label(), "宽松");
    assert_eq!(Strictness::Strict.base(), 70);
}

#[test]
fn custom_rule_replaces_builtin_with_same_id() {
    let custom = vec![
        MetricRule {
            id: "cpu_util".into(),
            pattern: r"^my\.cpu$".into(),
            label: "My CPU".into(),
            unit: "%".into(),
            kind: AggKind::Util,
        },
        MetricRule {
            id: "broken".into(),
            pattern: "(".into(),
            label: "bad".into(),
            unit: String::new(),
            kind: AggKind::Raw,
        },
        MetricRule {
            id: "jvm_heap".into(),
            pattern: r"^jvm\.heap$".into(),
            label: "JVM".into(),
            unit: "%".into(),
            kind: AggKind::Util,
        },
    ];
    let r = CompiledRules::load(&custom);
    assert_eq!(r.len(), builtin_rules().len() + 1);
    assert_eq!(r.match_key("my.cpu").map(|m| m.id.as_str()), Some("cpu_util"));
    assert!(r.match_key("system.cpu.util").is_none());
    assert_eq!(r.get(0).id, "cpu_util");
    assert_eq!(r.match_key("jvm.heap").map(|m| m.label.as_str()), Some("JVM"));
    assert!(r.by_id("broken").is_none());
    assert_eq!(r.by_id("cpu_util").map(|m| m.label.as_str()), Some("My CPU"));
}
