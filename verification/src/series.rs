//! Which items an inspection aggregates, and which item a metric chart plots:
//! a named metric of the classified host (cpu, mem, disk), or the single
//! numeric item that a wildcard key matches.
use vstd::prelude::*;
use crate::discovery::{clone_item, DiskItems, HostClassified, NetItems};
use crate::errors::PatrolError;
use crate::rules::{wildcard_match, wildcard_matches};
use crate::text::{
    concat, dec, ends_with, fmt_usize, has_prefix, has_suffix, starts_with, str_eq, to_lowercase,
    unicode_lowercase,
};
use crate::timerange::{debug_quoted, debug_str};
use crate::types::{is_numeric, ItemRec};

verus! {

/// The positions, in order, of the numeric items whose key the wildcard
/// `pattern` matches.
pub open spec fn key_matches(pattern: Seq<char>, items: Seq<ItemRec>) -> Seq<int>
    decreases items.len(),
{
    if items.len() == 0 {
        Seq::empty()
    } else {
        let rest = key_matches(pattern, items.drop_last());
        let it = items.last();
        if is_numeric(it.value_type) && wildcard_matches(pattern, it.key@) {
            rest.push(items.len() - 1)
        } else {
            rest
        }
    }
}

/// The refusal of a key that matches no numeric item of the host.
pub open spec fn no_match_refusal(host: Seq<char>, key: Seq<char>) -> Seq<char> {
    host + " 没有匹配 "@ + debug_quoted(key) + " 的数值监控项"@
}

/// The refusal of a key that matches `n` numeric items, the first of which
/// has key `first`.
pub open spec fn ambiguous_refusal(key: Seq<char>, n: nat, first: Seq<char>) -> Seq<char> {
    debug_quoted(key) + " 匹配到 "@ + dec(n) + " 个监控项（如 "@ + debug_quoted(first)
        + "…），请写完整 key 或更精确的通配"@
}

/// The position of the one numeric item of host `host_name` whose key the
/// wildcard `key` matches; a key that matches none, or several, is refused.
pub fn key_series_item(host_name: &str, key: &str, items: &Vec<ItemRec>) -> (r: Result<
    usize,
    PatrolError,
>)
    ensures
        key_matches(key@, items@).len() == 0 ==> (r matches Err(PatrolError::Config(m)) && m@
            == no_match_refusal(host_name@, key@)),
        key_matches(key@, items@).len() == 1 ==> r == Ok::<usize, PatrolError>(
            key_matches(key@, items@)[0] as usize,
        ),
        key_matches(key@, items@).len() > 1 ==> (r matches Err(PatrolError::Config(m)) && m@
            == ambiguous_refusal(
            key@,
            key_matches(key@, items@).len(),
            items@[key_matches(key@, items@)[0]].key@,
        )),
{
    let mut found: Vec<usize> = Vec::new();
    let mut i: usize = 0;
    while i < items.len()
        invariant
            0 <= i <= items.len(),
            found@.map_values(|x: usize| x as int) == key_matches(key@, items@.subrange(0, i as int)),
            forall|j: int| 0 <= j < found@.len() ==> #[trigger] found@[j] < i,
        decreases items.len() - i,
    {
        let ghost prev = found@;
        let it = &items[i];
        proof {
            let sub = items@.subrange(0, i + 1);
            assert(sub.drop_last() =~= items@.subrange(0, i as int));
            assert(sub.last() == items@[i as int]);
        }
        if it.numeric() && wildcard_match(key, it.key.as_str()) {
            found.push(i);
            assert(found@.map_values(|x: usize| x as int) =~= prev.map_values(|x: usize| x as int).push(
                i as int,
            ));
        }
        i += 1;
    }
    assert(items@.subrange(0, items.len() as int) =~= items@);
    let ghost km = key_matches(key@, items@);
    assert(found@.len() == km.len());
    if found.len() == 0 {
        let a = concat(host_name, " 没有匹配 ");
        let q = debug_str(key);
        let b = concat(a.as_str(), q.as_str());
        Err(PatrolError::Config(concat(b.as_str(), " 的数值监控项")))
    } else if found.len() == 1 {
        assert(km[0] == found@[0] as int);
        Ok(found[0])
    } else {
        assert(km[0] == found@[0] as int);
        let q = debug_str(key);
        let a = concat(q.as_str(), " 匹配到 ");
        let n = fmt_usize(found.len());
        let b = concat(a.as_str(), n.as_str());
        let c = concat(b.as_str(), " 个监控项（如 ");
        let first = debug_str(items[found[0]].key.as_str());
        let d = concat(c.as_str(), first.as_str());
        Err(PatrolError::Config(concat(d.as_str(), "…），请写完整 key 或更精确的通配")))
    }
}

/// The named metrics a chart can plot.
#[derive(Debug, Clone, Copy, PartialEq, Eq, Structural)]
pub enum SeriesMetric {
    Cpu,
    Mem,
    Disk,
}

/// The metric that a lower-cased name stands for.
pub open spec fn metric_named(lower: Seq<char>) -> Option<SeriesMetric> {
    if lower == "cpu"@ {
        Some(SeriesMetric::Cpu)
    } else if lower == "mem"@ || lower == "memory"@ {
        Some(SeriesMetric::Mem)
    } else if lower == "disk"@ {
        Some(SeriesMetric::Disk)
    } else {
        None
    }
}

/// Reads a metric name (case ignored); an unknown name is refused with the
/// names that are known.
pub fn series_metric(metric: &str) -> (r: Result<SeriesMetric, PatrolError>)
    ensures
        match metric_named(unicode_lowercase(metric@)) {
            Some(m) => r == Ok::<SeriesMetric, PatrolError>(m),
            None => (r matches Err(PatrolError::Config(e)) && e@ == "未知指标 "@ + debug_quoted(
                unicode_lowercase(metric@),
            ) + "（支持 cpu | mem | disk，或用 --key 指定任意监控项）"@),
        },
{
    let lower = to_lowercase(metric);
    let l = lower.as_str();
    if crate::text::str_eq(l, "cpu") {
        Ok(SeriesMetric::Cpu)
    } else if crate::text::str_eq(l, "mem") || crate::text::str_eq(l, "memory") {
        Ok(SeriesMetric::Mem)
    } else if crate::text::str_eq(l, "disk") {
        Ok(SeriesMetric::Disk)
    } else {
        let q = debug_str(l);
        let a = concat("未知指标 ", q.as_str());
        Err(PatrolError::Config(concat(a.as_str(), "（支持 cpu | mem | disk，或用 --key 指定任意监控项）")))
    }
}

/// The memory item a chart plots, and whether its values are inverted: the
/// utilisation when the host reports it, else the available percentage,
/// which is then plotted as 100 minus the value.
pub fn mem_series_item(c: &HostClassified) -> (r: (Option<ItemRec>, bool))
    ensures
        r.0 == (if c.mem_util is Some {
            c.mem_util
        } else {
            c.mem_pavail
        }),
        r.1 == (c.mem_util is None && c.mem_pavail is Some),
{
    match &c.mem_util {
        Some(u) => (Some(clone_item(u)), false),
        None => match &c.mem_pavail {
            Some(p) => (Some(clone_item(p)), true),
            None => (None, false),
        },
    }
}

/// The keys whose raw samples a report exports: CPU utilisation, memory
/// utilisation or availability, and the used percentage of a file system.
pub open spec fn raw_series_key(key: Seq<char>) -> bool {
    ||| key == "system.cpu.util"@
    ||| has_prefix(key, "vm.memory.util"@)
    ||| has_prefix(key, "vm.memory.size[pavailable]"@)
    ||| has_prefix(key, "vfs.fs.pused"@)
    ||| has_prefix(key, "vfs.fs.dependent.size["@) && has_suffix(key, ",pused]"@)
    ||| has_prefix(key, "vfs.fs.size["@) && has_suffix(key, ",pused]"@)
}

/// Whether a report exports the raw samples of the item with key `key`.
pub fn is_raw_series_key(key: &str) -> (b: bool)
    ensures
        b == raw_series_key(key@),
{
    str_eq(key, "system.cpu.util") || starts_with(key, "vm.memory.util") || starts_with(
        key,
        "vm.memory.size[pavailable]",
    ) || starts_with(key, "vfs.fs.pused") || (starts_with(key, "vfs.fs.dependent.size[")
        && ends_with(key, ",pused]")) || (starts_with(key, "vfs.fs.size[") && ends_with(
        key,
        ",pused]",
    ))
}

/// The items of a host that are not disabled (status other than `1`), in
/// order.
pub open spec fn enabled_of(items: Seq<ItemRec>) -> Seq<ItemRec>
    decreases items.len(),
{
    if items.len() == 0 {
        Seq::empty()
    } else {
        let rest = enabled_of(items.drop_last());
        if items.last().status@ != "1"@ {
            rest.push(items.last())
        } else {
            rest
        }
    }
}

/// The items of a host that an inspection reads: all but the disabled ones.
pub fn enabled_items(items: &Vec<ItemRec>) -> (r: Vec<ItemRec>)
    ensures
        r@ == enabled_of(items@),
{
    let mut r: Vec<ItemRec> = Vec::new();
    let mut i: usize = 0;
    while i < items.len()
        invariant
            0 <= i <= items.len(),
            r@ == enabled_of(items@.subrange(0, i as int)),
        decreases items.len() - i,
    {
        proof {
            let sub = items@.subrange(0, i + 1);
            assert(sub.drop_last() =~= items@.subrange(0, i as int));
            assert(sub.last() == items@[i as int]);
        }
        if !str_eq(items[i].status.as_str(), "1") {
            r.push(clone_item(&items[i]));
        }
        i += 1;
    }
    assert(items@.subrange(0, items.len() as int) =~= items@);
    r
}

/// The item of a slot, if the host has one.
pub open spec fn opt_item(o: Option<ItemRec>) -> Seq<ItemRec> {
    match o {
        Some(i) => seq![i],
        None => Seq::empty(),
    }
}

/// The used space, used inodes and free inodes of each file system, in order.
pub open spec fn disk_items(ds: Seq<DiskItems>) -> Seq<ItemRec>
    decreases ds.len(),
{
    if ds.len() == 0 {
        Seq::empty()
    } else {
        let d = ds.last();
        disk_items(ds.drop_last()) + opt_item(d.pused) + opt_item(d.inode_pused) + opt_item(
            d.inode_pfree,
        )
    }
}

/// The incoming and outgoing traffic of each interface, in order.
pub open spec fn net_items(ns: Seq<NetItems>) -> Seq<ItemRec>
    decreases ns.len(),
{
    if ns.len() == 0 {
        Seq::empty()
    } else {
        let n = ns.last();
        net_items(ns.drop_last()) + opt_item(n.in_bytes) + opt_item(n.out_bytes)
    }
}

/// The single-slot items an inspection aggregates: CPU, memory, swap, load,
/// zombies, processes, ICMP loss and latency and certificate days.
pub open spec fn slots_of(c: HostClassified) -> Seq<ItemRec> {
    opt_item(c.cpu_util) + opt_item(c.mem_util) + opt_item(c.mem_pavail) + opt_item(c.swap_util)
        + opt_item(c.swap_pfree) + opt_item(c.load1) + opt_item(c.load5) + opt_item(c.load15)
        + opt_item(c.zombies) + opt_item(c.proc_num) + opt_item(c.icmp_loss) + opt_item(c.icmp_sec)
        + opt_item(c.cert_days)
}

/// The items whose statistics an inspection aggregates: the single-slot
/// items, then the disk items, then the interface traffic.
pub open spec fn aggregated_of(c: HostClassified) -> Seq<ItemRec> {
    slots_of(c) + disk_items(c.disks@) + net_items(c.nets@)
}

/// Appends the item of a slot, if there is one.
fn push_opt(v: &mut Vec<ItemRec>, o: &Option<ItemRec>)
    ensures
        final(v)@ == old(v)@ + opt_item(*o),
{
    match o {
        Some(i) => {
            v.push(clone_item(i));
        },
        None => {},
    }
}

/// The single-slot items of the classified host `c` that an inspection
/// aggregates.
fn slot_items(c: &HostClassified) -> (r: Vec<ItemRec>)
    ensures
        r@ == slots_of(*c),
{
    let mut v: Vec<ItemRec> = Vec::new();
    push_opt(&mut v, &c.cpu_util);
    push_opt(&mut v, &c.mem_util);
    push_opt(&mut v, &c.mem_pavail);
    push_opt(&mut v, &c.swap_util);
    push_opt(&mut v, &c.swap_pfree);
    push_opt(&mut v, &c.load1);
    push_opt(&mut v, &c.load5);
    push_opt(&mut v, &c.load15);
    push_opt(&mut v, &c.zombies);
    push_opt(&mut v, &c.proc_num);
    push_opt(&mut v, &c.icmp_loss);
    push_opt(&mut v, &c.icmp_sec);
    push_opt(&mut v, &c.cert_days);
    assert(v@ =~= slots_of(*c));
    v
}

/// The items whose statistics an inspection of the classified host `c`
/// aggregates, in the order `aggregated_of` lists them.
pub fn aggregated_items(c: &HostClassified) -> (r: Vec<ItemRec>)
    ensures
        r@ == aggregated_of(*c),
{
    let mut v = slot_items(c);
    let ghost head = v@;
    let mut i: usize = 0;
    while i < c.disks.len()
        invariant
            0 <= i <= c.disks.len(),
            v@ == head + disk_items(c.disks@.subrange(0, i as int)),
        decreases c.disks.len() - i,
    {
        let d = &c.disks[i];
        push_opt(&mut v, &d.pused);
        push_opt(&mut v, &d.inode_pused);
        push_opt(&mut v, &d.inode_pfree);
        proof {
            let sub = c.disks@.subrange(0, i + 1);
            assert(sub.drop_last() =~= c.disks@.subrange(0, i as int));
            assert(sub.last() == c.disks@[i as int]);
            assert(v@ =~= head + disk_items(sub));
        }
        i += 1;
    }
    assert(c.disks@.subrange(0, c.disks.len() as int) =~= c.disks@);
    let ghost mid = v@;
    let mut j: usize = 0;
    while j < c.nets.len()
        invariant
            0 <= j <= c.nets.len(),
            v@ == mid + net_items(c.nets@.subrange(0, j as int)),
        decreases c.nets.len() - j,
    {
        let n = &c.nets[j];
        push_opt(&mut v, &n.in_bytes);
        push_opt(&mut v, &n.out_bytes);
        proof {
            let sub = c.nets@.subrange(0, j + 1);
            assert(sub.drop_last() =~= c.nets@.subrange(0, j as int));
            assert(sub.last() == c.nets@[j as int]);
            assert(v@ =~= mid + net_items(sub));
        }
        j += 1;
    }
    assert(c.nets@.subrange(0, c.nets.len() as int) =~= c.nets@);
    assert(v@ =~= aggregated_of(*c));
    v
}

/// The numeric items, in order, whose key one of the wildcard `patterns`
/// matches.
pub open spec fn extra_matches(patterns: Seq<String>, items: Seq<ItemRec>) -> Seq<ItemRec>
    decreases items.len(),
{
    if items.len() == 0 {
        Seq::empty()
    } else {
        let rest = extra_matches(patterns, items.drop_last());
        let it = items.last();
        if is_numeric(it.value_type) && exists|j: int|
            0 <= j < patterns.len() && wildcard_matches(#[trigger] patterns[j]@, it.key@) {
            rest.push(it)
        } else {
            rest
        }
    }
}

/// Whether one of `patterns` matches `key`.
fn any_pattern(patterns: &Vec<String>, key: &str) -> (b: bool)
    ensures
        b == exists|j: int| 0 <= j < patterns@.len() && wildcard_matches(#[trigger] patterns@[j]@, key@),
{
    let mut j: usize = 0;
    while j < patterns.len()
        invariant
            0 <= j <= patterns.len(),
            forall|k: int| 0 <= k < j ==> !wildcard_matches(#[trigger] patterns@[k]@, key@),
        decreases patterns.len() - j,
    {
        if wildcard_match(patterns[j].as_str(), key) {
            return true;
        }
        j += 1;
    }
    false
}

/// The items a report or a query asks for by key: the numeric items whose
/// key one of the wildcard `patterns` matches, in order.
pub fn extra_items(patterns: &Vec<String>, items: &Vec<ItemRec>) -> (r: Vec<ItemRec>)
    ensures
        r@ == extra_matches(patterns@, items@),
{
    let mut r: Vec<ItemRec> = Vec::new();
    let mut i: usize = 0;
    while i < items.len()
        invariant
            0 <= i <= items.len(),
            r@ == extra_matches(patterns@, items@.subrange(0, i as int)),
        decreases items.len() - i,
    {
        proof {
            let sub = items@.subrange(0, i + 1);
            assert(sub.drop_last() =~= items@.subrange(0, i as int));
            assert(sub.last() == items@[i as int]);
        }
        if items[i].numeric() && any_pattern(patterns, items[i].key.as_str()) {
            r.push(clone_item(&items[i]));
        }
        i += 1;
    }
    assert(items@.subrange(0, items.len() as int) =~= items@);
    r
}

} // verus!
