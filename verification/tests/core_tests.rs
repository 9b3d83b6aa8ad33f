use zbxpatrol::discovery::classify_host;
use zbxpatrol::problems::severity_label;
use zbxpatrol::rules::{ifname_of, mount_of, wildcard_match, CompiledRules};
use zbxpatrol::scoring::Strictness;
use zbxpatrol::stability::reboots_from_boot_values;
use zbxpatrol::timerange::{parse_datetime, parse_last_duration, Period, TimeRange, TimeSpec};
use zbxpatrol::types::ItemRec;

fn item(key: &str, vt: u8) -> ItemRec {
    ItemRec {
        itemid: key.to_string(),
        hostid: "1".into(),
        key: key.to_string(),
        name: key.to_string(),
        value_type: vt,
        units: String::new(),
        lastvalue: None,
        lastclock: None,
        status: "0".into(),
    }
}

#[test]
fn labels() {
    assert_eq!(severity_label(4), "高危");
    assert_eq!(severity_label(5), "灾难");
}

#[test]
fn extract_instances() {
    assert_eq!(mount_of("vfs.fs.dependent.size[/data,pused]").as_deref(), Some("/data"));
    assert_eq!(ifname_of("net.if.in[\"ens3\",errors]").as_deref(), Some("ens3"));
    assert_eq!(mount_of("vfs.fs.pused[/boot]").as_deref(), Some("/boot"));
    assert_eq!(ifname_of("net.if.in[\"ens3\"]").as_deref(), Some("ens3"));
}

#[test]
fn strictness_parse_cn_en() {
    assert_eq!(Strictness::parse("宽松"), Some(Strictness::Loose));
    assert_eq!(Strictness::parse("loose"), Some(Strictness::Loose));
    assert_eq!(Strictness::parse("标准"), Some(Strictness::Standard));
    assert_eq!(Strictness::parse("std"), Some(Strictness::Standard));
    assert_eq!(Strictness::parse("严格"), Some(Strictness::Strict));
    assert_eq!(Strictness::parse("unknown"), None);
}

#[test]
fn last_duration() {
    assert_eq!(parse_last_duration("48h").unwrap(), 48 * 3600);
    assert_eq!(parse_last_duration("15d").unwrap(), 15 * 86400);
    assert_eq!(parse_last_duration("12M").unwrap(), 12 * 30 * 86400);
    assert_eq!(parse_last_duration("30m").unwrap(), 1800);
    assert!(parse_last_duration("xx").is_err());
}

#[test]
fn builtin_match_real_keys() {
    let r = CompiledRules::default();
    for (key, expect) in [
        ("system.cpu.util", "cpu_util"),
        ("vm.memory.utilization", "mem_util"),
        ("vm.memory.size[pavailable]", "mem_pavail"),
        ("system.swap.size[,pfree]", "swap_pfree"),
        ("vfs.fs.dependent.size[/data,pused]", "disk_pused"),
        ("vfs.fs.dependent.size[/boot,total]", "disk_total"),
        ("vfs.fs.dependent.inode[/,pfree]", "inode_pfree"),
        ("vfs.fs.pused[/]", "disk_pused_old"),
        ("net.if.in[\"ens3\"]", "if_in"),
        ("net.if.in[\"ens3\",errors]", "if_in_err"),
        ("net.if.in[\"ens3\",dropped]", "if_in_drop"),
        ("net.if.out[\"ens3\"]", "if_out"),
        ("net.if.speed[\"ens3\"]", "if_speed"),
        ("system.boottime", "boottime"),
        ("system.cpu.load[all,avg1]", "load1"),
        ("zabbix[host,active_agent,available]", "agent_avail"),
        ("net.tcp.port[<10.0.0.1>,9092]", "tcp_service"),
        ("proc.num", "proc_num"),
        ("kernel.maxfiles", "maxfiles"),
        ("vfs.dev.read.await[sda]", "io_await"),
    ] {
        let got = r.match_key(key).map(|m| m.id.as_str()).unwrap_or("<none>");
        assert_eq!(got, expect, "key={key}");
    }
    assert!(r.match_key("bigdata.flink.job.state").is_none());
    assert!(r.match_key("system.cpu.util[,idle]").is_none());
    assert!(r.match_key("agent.hostname").is_none());
}

#[test]
fn classify_real_env_items() {
    let items = vec![
        item("system.cpu.util", 0),
        item("vm.memory.utilization", 0),
        item("vm.memory.size[pavailable]", 0),
        item("system.swap.size[,pfree]", 0),
        item("system.boottime", 3),
        item("vfs.fs.dependent.size[/,pused]", 0),
        item("vfs.fs.dependent.size[/,total]", 3),
        item("vfs.fs.dependent.inode[/,pfree]", 0),
        item("net.if.in[\"ens3\"]", 3),
        item("net.if.out[\"ens3\"]", 3),
        item("net.if.in[\"ens3\",errors]", 3),
        item("net.tcp.port[<1.2.3.4>,9092]", 3),
        item("system.uname", 1),
        item("bigdata.flink.state", 3),
        item("agent.version", 1),
    ];
    let c = classify_host(&items, &CompiledRules::default());
    assert!(c.cpu_util.is_some());
    assert!(c.mem_util.is_some());
    assert!(c.swap_pfree.is_some());
    assert_eq!(c.disks.len(), 1);
    assert_eq!(c.disks[0].mount, "/");
    assert!(c.disks[0].inode_pfree.is_some());
    assert_eq!(c.nets.len(), 1);
    assert_eq!(c.nets[0].ifname, "ens3");
    assert_eq!(c.services.len(), 1);
    assert!(c.os_uname.is_some());
    assert_eq!(c.others_numeric.len(), 1);
    assert_eq!(c.others_numeric[0].key, "bigdata.flink.state");
}

#[test]
fn wildcard() {
    assert!(wildcard_match("net.if*", "net.if.in[\"eth0\"]"));
    assert!(wildcard_match("system.cpu.util", "system.cpu.util"));
    assert!(!wildcard_match("system.cpu.util", "system.cpu.util[,idle]"));
    assert!(wildcard_match("vfs.fs*inode*", "vfs.fs.dependent.inode[/,pfree]"));
}

fn as_f64(a: [i64; 4]) -> [f64; 4] {
    [a[0] as f64, a[1] as f64, a[2] as f64, a[3] as f64]
}

#[test]
fn strictness_thresholds_match_spec() {
    let s = Strictness::Standard;
    assert_eq!(s.base() as f64, 80.0);
    assert_eq!(as_f64(s.util_levels()), [85.0, 75.0, 65.0, 50.0]);
    assert_eq!(as_f64(s.mem_levels()), [90.0, 80.0, 70.0, 60.0]);
    assert_eq!(as_f64(s.disk_levels()), [90.0, 85.0, 80.0, 75.0]);
    assert_eq!(s.cpu_peak() as f64, 95.0);
    assert_eq!(s.swap_thr() as f64, 50.0);
    assert_eq!(s.pct_thr() as f64, 80.0);
    let l = Strictness::Loose;
    assert_eq!(l.base() as f64, 90.0);
    assert_eq!(as_f64(l.util_levels()), [95.0, 85.0, 75.0, 60.0]);
    assert_eq!(as_f64(l.mem_levels()), [98.0, 90.0, 80.0, 70.0]);
    assert_eq!(as_f64(l.disk_levels()), [98.0, 95.0, 90.0, 85.0]);
    assert_eq!(l.cpu_peak() as f64, 99.0);
    assert_eq!(l.swap_thr() as f64, 60.0);
    assert_eq!(l.pct_thr() as f64, 90.0);
    let t = Strictness::Strict;
    assert_eq!(t.base() as f64, 70.0);
    assert_eq!(as_f64(t.util_levels()), [75.0, 65.0, 55.0, 40.0]);
    assert_eq!(as_f64(t.mem_levels()), [80.0, 70.0, 60.0, 50.0]);
    assert_eq!(as_f64(t.disk_levels()), [80.0, 75.0, 70.0, 65.0]);
    assert_eq!(t.cpu_peak() as f64, 85.0);
    assert_eq!(t.swap_thr() as f64, 40.0);
    assert_eq!(t.pct_thr() as f64, 70.0);
}

#[test]
fn datetime_parsing() {
    let ts = parse_datetime("2026-09-01", "Asia/Shanghai").unwrap();
    let dt = chrono::DateTime::from_timestamp(ts, 0).unwrap();
    assert_eq!(dt.format("%Y-%m-%d %H:%M").to_string(), "2026-08-31 16:00");
    let ts2 = parse_datetime("2026-09-01 08:30:00", "Asia/Shanghai").unwrap();
    assert_eq!(ts2 - ts, 8 * 3600 + 1800);
    assert!(parse_datetime("2026/09/01", "Asia/Shanghai").is_err());
}

#[test]
fn range_resolve_order() {
    let r = TimeRange::resolve(&TimeSpec::Last("1h".into()), "Asia/Shanghai").unwrap();
    assert!((r.till - r.from - 3600).abs() < 5);
    let r2 = TimeRange::resolve(
        &TimeSpec::FromTo { from: "2026-09-01".into(), to: Some("2026-09-02".into()) },
        "Asia/Shanghai",
    )
    .unwrap();
    assert_eq!(r2.till - r2.from, 86400);
    let err = TimeRange::resolve(
        &TimeSpec::FromTo { from: "2026-09-02".into(), to: Some("2026-09-01".into()) },
        "Asia/Shanghai",
    );
    assert!(err.is_err());
}

#[test]
fn wildcard_keeps_other_characters_literal() {
    assert!(!wildcard_match("a.c*", "abcd"));
    assert!(wildcard_match("a.c*", "a.cd"));
    assert!(wildcard_match("net.if.in[?ens3?]", "net.if.in[\"ens3\"]"));
    assert!(!wildcard_match("vfs.fs(*", "vfs.fs.size"));
}

#[test]
fn range_texts_in_zone() {
    let r = TimeRange::resolve(
        &TimeSpec::FromTo { from: "2026-09-01 08:00".into(), to: Some("2026-09-15 17:59".into()) },
        "Asia/Shanghai",
    )
    .unwrap();
    assert_eq!(r.fmt_human(), "2026-09-01 08:00 ~ 2026-09-15 17:59");
    assert_eq!(r.fmt_compact(), "202609010800-202609151759");
    assert_eq!(r.fmt_from(), "2026-09-01 08:00");
    assert_eq!(r.fmt_till(), "2026-09-15 17:59");
    assert_eq!(r.seconds(), 14 * 86400 + 9 * 3600 + 59 * 60);
    let bad_zone = TimeRange { from: 0, till: 60, tz: "Nowhere/City".into() };
    assert_eq!(bad_zone.fmt_human(), " ~ ");
}

#[test]
fn period_lengths_and_labels() {
    assert_eq!(Period::Day.seconds(), 86400);
    assert_eq!(Period::Week.seconds(), 7 * 86400);
    assert_eq!(Period::Month.seconds(), 30 * 86400);
    assert_eq!(Period::Year.seconds(), 365 * 86400);
    assert_eq!(Period::Day.label(), "日");
    assert_eq!(Period::Year.label(), "年");
}

fn boot_values(samples: &[(i64, f64)]) -> Vec<i64> {
    samples.iter().map(|(_, v)| *v as i64).collect()
}

#[test]
fn reboots_boottime_drift_is_not_reboot() {
    let drift: Vec<(i64, f64)> = (0..24).map(|i| (i * 3600, 1721454933.0 + i as f64)).collect();
    assert_eq!(reboots_from_boot_values(&boot_values(&drift)), Some(0));
}

#[test]
fn reboots_boottime_real_reboot() {
    let v = vec![(1, 1_700_000_000.0), (2, 1_700_000_001.0), (3, 1_730_000_000.0)];
    assert_eq!(reboots_from_boot_values(&boot_values(&v)), Some(1));
    let creeping: Vec<(i64, f64)> = (0..300).map(|i| (i * 3600, 1721454933.0 + i as f64)).collect();
    assert_eq!(reboots_from_boot_values(&boot_values(&creeping)), Some(0));
    assert_eq!(reboots_from_boot_values(&boot_values(&[])), None);
}

#[test]
fn reboots_count_unordered_jumps() {
    assert_eq!(reboots_from_boot_values(&vec![5000, 100, 100_000, 400, 5200]), Some(2));
    assert_eq!(reboots_from_boot_values(&vec![7]), Some(0));
}

#[test]
fn classification_shape() {
    let items = vec![
        item("vfs.fs.dependent.size[/data,pused]", 0),
        item("vfs.fs.dependent.size[/data,total]", 3),
        item("vfs.fs.dependent.inode[/tmp,pfree]", 0),
        item("net.if.in[\"eth0\",errors]", 3),
        item("custom.text.item", 4),
        item("custom.number", 3),
        item("net.tcp.service[ssh]", 3),
    ];
    let c = classify_host(&items, &CompiledRules::default());
    assert_eq!(c.disks.len(), 1);
    assert_eq!(c.disks[0].mount, "/data");
    assert!(c.disks[0].pused.is_some() && c.disks[0].total.is_some());
    assert!(c.nets.is_empty());
    assert_eq!(c.others_numeric.len(), 1);
    assert_eq!(c.others_numeric[0].key, "custom.number");
    assert_eq!(c.services.len(), 1);
}

#[test]
fn strictness_labels_read_back() {
    for m in [Strictness::Loose, Strictness::Standard, Strictness::Strict] {
        assert_eq!(Strictness::parse(m.label()), Some(m));
        assert_eq!(Strictness::parse(&format!("  {} ", m.label())), Some(m));
    }
    assert_eq!(Strictness::parse(" STRICT "), Some(Strictness::Strict));
}

#[test]
fn restarts_ignore_report_order() {
    let a = vec![1_000, 5_000, 1_100, 9_000, 5_050];
    let b = vec![9_000, 5_050, 1_000, 1_100, 5_000];
    assert_eq!(reboots_from_boot_values(&a), Some(2));
    assert_eq!(reboots_from_boot_values(&a), reboots_from_boot_values(&b));
    assert_eq!(reboots_from_boot_values(&vec![]), None);
    assert_eq!(reboots_from_boot_values(&vec![42]), Some(0));
}

#[test]
fn wildcard_escapes_regex_meta() {
    assert!(wildcard_match("vfs.fs.size[*,pused]", "vfs.fs.size[/data,pused]"));
    assert!(!wildcard_match("vfs.fs.size[*,pused]", "vfsXfs.size[/data,pused]"));
    assert!(wildcard_match("a+b?", "a+bc"));
    assert!(!wildcard_match("a+b?", "aab"));
    assert!(wildcard_match("net.if.in[eth0]", "net.if.in[eth0]"));
    assert!(!wildcard_match("net.if.in[eth0]", "net.if.in[eth1]"));
}

#[test]
fn periods_always_resolve() {
    for p in [Period::Day, Period::Week, Period::Month, Period::Year] {
        let r = TimeRange::resolve(&TimeSpec::Period(p), "Asia/Shanghai").unwrap();
        assert_eq!(r.till - r.from, p.seconds());
    }
    let r = TimeRange::resolve(&TimeSpec::Last("48h".into()), "Asia/Shanghai").unwrap();
    assert_eq!(r.till - r.from, 48 * 3600);
}

#[test]
fn restarts_far_apart_boot_times() {
    let a = vec![-(1i64 << 62), 0, 1i64 << 62];
    let b = vec![1i64 << 62, -(1i64 << 62), 0];
    assert_eq!(reboots_from_boot_values(&a), Some(2));
    assert_eq!(reboots_from_boot_values(&b), Some(2));
}
