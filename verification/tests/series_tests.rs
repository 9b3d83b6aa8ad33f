use zbxpatrol::discovery::classify_host;
use zbxpatrol::errors::PatrolError;
use zbxpatrol::rules::CompiledRules;
use zbxpatrol::render::{report_file_scope, safe_file_part};
use zbxpatrol::series::{is_raw_series_key, key_series_item, mem_series_item, series_metric, SeriesMetric};
use zbxpatrol::types::ItemRec;

fn item(key: &str, vt: u8) -> ItemRec {
    ItemRec {
        itemid: format!("id-{key}"),
        hostid: "1".into(),
        key: key.to_string(),
        name: key.to_string(),
        value_type: vt,
        units: String::new(),
        lastvalue: None,
        lastclock: None,
        status: "0".into(),
    }
}

#[test]
fn key_picks_the_single_numeric_match() {
    let items = vec![
        item("system.cpu.util", 0),
        item("system.uname", 1),
        item("vfs.fs.size[/,pused]", 0),
        item("vfs.fs.size[/data,pused]", 0),
    ];
    assert_eq!(key_series_item("web-1", "system.cpu.util", &items).unwrap(), 0);
    assert_eq!(key_series_item("web-1", "vfs.fs.size[/data,*]", &items).unwrap(), 3);
    match key_series_item("web-1", "system.un*", &items) {
        Err(PatrolError::Config(m)) => assert_eq!(m, "web-1 没有匹配 \"system.un*\" 的数值监控项"),
        other => panic!("unexpected {other:?}"),
    }
    match key_series_item("web-1", "vfs.fs.size[*,pused]", &items) {
        Err(PatrolError::Config(m)) => assert_eq!(
            m,
            "\"vfs.fs.size[*,pused]\" 匹配到 2 个监控项（如 \"vfs.fs.size[/,pused]\"…），请写完整 key 或更精确的通配"
        ),
        other => panic!("unexpected {other:?}"),
    }
}

#[test]
fn metric_names() {
    assert_eq!(series_metric("CPU").unwrap(), SeriesMetric::Cpu);
    assert_eq!(series_metric("memory").unwrap(), SeriesMetric::Mem);
    assert_eq!(series_metric("mem").unwrap(), SeriesMetric::Mem);
    assert_eq!(series_metric("Disk").unwrap(), SeriesMetric::Disk);
    match series_metric("Load") {
        Err(PatrolError::Config(m)) => {
            assert_eq!(m, "未知指标 \"load\"（支持 cpu | mem | disk，或用 --key 指定任意监控项）")
        }
        other => panic!("unexpected {other:?}"),
    }
}

#[test]
fn memory_falls_back_to_available_inverted() {
    let rules = CompiledRules::default();
    let c = classify_host(&vec![item("vm.memory.size[pavailable]", 0)], &rules);
    let (it, invert) = mem_series_item(&c);
    assert_eq!(it.map(|i| i.key), Some("vm.memory.size[pavailable]".to_string()));
    assert!(invert);
    let c = classify_host(&vec![item("vm.memory.size[pavailable]", 0), item("vm.memory.utilization", 0)], &rules);
    let (it, invert) = mem_series_item(&c);
    assert_eq!(it.map(|i| i.key), Some("vm.memory.utilization".to_string()));
    assert!(!invert);
    let c = classify_host(&vec![], &rules);
    let (it, invert) = mem_series_item(&c);
    assert!(it.is_none() && !invert);
}

#[test]
fn raw_series_keys() {
    assert!(is_raw_series_key("system.cpu.util"));
    assert!(!is_raw_series_key("system.cpu.util[,idle]"));
    assert!(is_raw_series_key("vm.memory.utilization"));
    assert!(is_raw_series_key("vm.memory.size[pavailable]"));
    assert!(is_raw_series_key("vfs.fs.pused[/]"));
    assert!(is_raw_series_key("vfs.fs.size[/data,pused]"));
    assert!(!is_raw_series_key("vfs.fs.size[/data,total]"));
    assert!(is_raw_series_key("vfs.fs.dependent.size[/,pused]"));
    assert!(!is_raw_series_key("net.if.in[eth0]"));
}

#[test]
fn report_file_names() {
    assert_eq!(safe_file_part("生产/Web 组#1"), "生产_Web_组_1");
    assert_eq!(safe_file_part("web-1.prod_a"), "web-1.prod_a");
    assert_eq!(report_file_scope(&vec!["a b".to_string(), "c".to_string()], "groups"), "a_b");
    assert_eq!(report_file_scope(&vec![], "all"), "全部主机");
    assert_eq!(report_file_scope(&vec![], "hosts"), "自定义范围");
}

#[test]
fn inspection_item_choice() {
    let mut off = item("system.cpu.util", 0);
    off.status = "1".into();
    let items = vec![
        off,
        item("vm.memory.utilization", 0),
        item("system.cpu.load[all,avg1]", 0),
        item("vfs.fs.size[/,pused]", 0),
        item("vfs.fs.inode[/,pfree]", 0),
        item("net.if.in[eth0]", 3),
        item("net.if.out[eth0]", 3),
        item("agent.hostname", 1),
    ];
    let enabled = zbxpatrol::series::enabled_items(&items);
    assert_eq!(enabled.len(), 7);
    assert!(enabled.iter().all(|i| i.key != "system.cpu.util"));
    let c = classify_host(&enabled, &CompiledRules::default());
    let keys: Vec<String> = zbxpatrol::series::aggregated_items(&c).into_iter().map(|i| i.key).collect();
    assert_eq!(
        keys,
        vec![
            "vm.memory.utilization",
            "system.cpu.load[all,avg1]",
            "vfs.fs.size[/,pused]",
            "vfs.fs.inode[/,pfree]",
            "net.if.in[eth0]",
            "net.if.out[eth0]",
        ]
    );
    let pats = vec!["net.if.*".to_string(), "agent.*".to_string()];
    let extra: Vec<String> = zbxpatrol::series::extra_items(&pats, &items).into_iter().map(|i| i.key).collect();
    assert_eq!(extra, vec!["net.if.in[eth0]", "net.if.out[eth0]"]);
}
