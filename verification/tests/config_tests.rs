use zbxpatrol::env::AppConfig;
use zbxpatrol::errors::PatrolError;
use zbxpatrol::patrol_config::{default_kind, kind_of, metric_rules, MetricsSection, RuleDef};
use zbxpatrol::rules::AggKind;

fn s(v: &str) -> Option<String> {
    Some(v.to_string())
}

fn section_from_toml(text: &str) -> Option<MetricsSection> {
    let table: toml::Table = toml::from_str(text).unwrap();
    let metrics = table.get("metrics")?.as_table()?;
    let rules = metrics.get("rules").and_then(|r| r.as_array()).map(|arr| {
        arr.iter()
            .map(|r| {
                let t = r.as_table().unwrap();
                let get = |k: &str| t.get(k).and_then(|v| v.as_str()).map(|v| v.to_string());
                RuleDef {
                    id: get("id").unwrap(),
                    pattern: get("pattern").unwrap(),
                    label: get("label").unwrap(),
                    unit: get("unit").unwrap_or_default(),
                    kind: get("kind").unwrap_or_else(default_kind),
                }
            })
            .collect::<Vec<_>>()
    });
    Some(MetricsSection { rules })
}

#[test]
fn parse_example() {
    let toml_str = r#"
[metrics]
[[metrics.rules]]
id = "jvm_heap"
pattern = '^jvm\.memory\.heap\.pct$'
label = "JVM 堆使用率"
unit = "%"
kind = "util"

[[scoring]]
metric = "cpu.avg"
op = "gte"
value = 85.0
points = 60
message = "CPU 平均 {value}%"
"#;
    let section = section_from_toml(toml_str);
    let rules = metric_rules(&section);
    assert_eq!(rules.len(), 1);
    assert_eq!(rules[0].id, "jvm_heap");
    assert_eq!(rules[0].kind, AggKind::Util);
    let table: toml::Table = toml::from_str(toml_str).unwrap();
    let scoring = table.get("scoring").and_then(|v| v.as_array()).unwrap();
    assert!(!scoring.is_empty());
    assert_eq!(scoring[0].get("value").and_then(|v| v.as_float()), Some(85.0));
}

#[test]
fn metric_rules_defaults_and_kinds() {
    assert_eq!(default_kind(), "raw");
    assert_eq!(kind_of("util"), AggKind::Util);
    assert_eq!(kind_of("event"), AggKind::Event);
    assert_eq!(kind_of("UTIL"), AggKind::Raw);
    assert!(metric_rules(&None).is_empty());
    assert!(metric_rules(&Some(MetricsSection { rules: None })).is_empty());
}

fn config(
    url: Option<String>,
    user: Option<String>,
    password: Option<String>,
) -> Result<AppConfig, PatrolError> {
    AppConfig::from_values(url, user, password, None, None, None, None, None)
}

#[test]
fn config_reports_first_missing_variable() {
    match config(None, None, None) {
        Err(PatrolError::MissingEnv(k)) => assert_eq!(k, "ZBX_URL"),
        other => panic!("unexpected {other:?}"),
    }
    match config(s("https://z"), None, None) {
        Err(PatrolError::MissingEnv(k)) => assert_eq!(k, "ZBX_USER"),
        other => panic!("unexpected {other:?}"),
    }
    match config(s("https://z"), s("u"), None) {
        Err(PatrolError::MissingEnv(k)) => assert_eq!(k, "ZBX_PASSWORD"),
        other => panic!("unexpected {other:?}"),
    }
}

#[test]
fn config_refuses_non_http_url() {
    match config(s("zabbix.example.com/"), s("u"), s("p")) {
        Err(PatrolError::Config(m)) => assert_eq!(m, "ZBX_URL 必须以 http(s):// 开头：zabbix.example.com"),
        other => panic!("unexpected {other:?}"),
    }
}

#[test]
fn config_defaults() {
    let c = config(s("https://zabbix.example.com//"), s("admin"), s("secret")).unwrap();
    assert_eq!(c.url, "https://zabbix.example.com");
    assert_eq!(c.endpoint, "https://zabbix.example.com/api_jsonrpc.php");
    assert_eq!(c.user, "admin");
    assert_eq!(c.password, "secret");
    assert_eq!(c.timeout, 30);
    assert!(!c.insecure);
    assert_eq!(c.tz_name, "Asia/Shanghai");
    assert_eq!(c.concurrency, 8);
    assert_eq!(c.rate_limit_per_sec, 10);
    assert_eq!(c.tz(), "Asia/Shanghai");
}

#[test]
fn config_reads_optional_values() {
    let c = AppConfig::from_values(
        s("http://z"),
        s("u"),
        s("p"),
        s("45"),
        s("TrUe"),
        s("Europe/Berlin"),
        s("16"),
        s("3"),
    )
    .unwrap();
    assert_eq!(c.timeout, 45);
    assert!(c.insecure);
    assert_eq!(c.tz(), "Europe/Berlin");
    assert_eq!(c.concurrency, 16);
    assert_eq!(c.rate_limit_per_sec, 3);
    let d = AppConfig::from_values(
        s("http://z"),
        s("u"),
        s("p"),
        s("-1"),
        s("yes"),
        s("Mars/Base"),
        s("65"),
        s("0"),
    )
    .unwrap();
    assert_eq!(d.timeout, 30);
    assert!(!d.insecure);
    assert_eq!(d.tz_name, "Mars/Base");
    assert_eq!(d.tz(), "Asia/Shanghai");
    assert_eq!(d.concurrency, 8);
    assert_eq!(d.rate_limit_per_sec, 10);
    let e = AppConfig::from_values(s("http://z"), s("u"), s("p"), None, s("1"), None, s("0"), None).unwrap();
    assert!(e.insecure);
    assert_eq!(e.concurrency, 8);
}
