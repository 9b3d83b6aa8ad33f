//! Discovery: the scope checks that name missing groups or hosts, the
//! operating system of a host, and the sorting of a host's items into the
//! slots that the inspection reads.
use vstd::prelude::*;
use crate::errors::PatrolError;
use crate::rules::{first_match, instance_of, mount_of, CompiledRules, RuleView};
use crate::text::{
    ascii_lower, ascii_or_ideographs, lemma_views_push, concat, contains, contains_seq, join, joined, str_eq, to_lowercase, unicode_lowercase, views,
};
use crate::types::{is_numeric, GroupRec, HostInfo, ItemRec};

verus! {

/// A copy of an item.
pub fn clone_item(it: &ItemRec) -> (r: ItemRec)
    ensures
        r == *it,
{
    ItemRec {
        itemid: it.itemid.clone(),
        hostid: it.hostid.clone(),
        key: it.key.clone(),
        name: it.name.clone(),
        value_type: it.value_type,
        units: it.units.clone(),
        lastvalue: match &it.lastvalue {
            Some(v) => Some(v.clone()),
            None => None,
        },
        lastclock: it.lastclock,
        status: it.status.clone(),
    }
}

fn clone_opt_item(it: &Option<ItemRec>) -> (r: Option<ItemRec>)
    ensures
        r == *it,
{
    match it {
        Some(i) => Some(clone_item(i)),
        None => None,
    }
}

/// The first position of `m` in `names`.
pub open spec fn first_pos(names: Seq<Seq<char>>, m: Seq<char>) -> Option<int>
    decreases names.len(),
{
    if names.len() == 0 {
        None
    } else {
        match first_pos(names.drop_last(), m) {
            Some(i) => Some(i),
            None => if names.last() == m {
                Some(names.len() - 1)
            } else {
                None
            },
        }
    }
}

/// A left-to-right scan that stops at `p` finds the first position.
pub proof fn lemma_first_pos_scan(names: Seq<Seq<char>>, m: Seq<char>, p: int)
    requires
        0 <= p <= names.len(),
        forall|k: int| 0 <= k < p ==> names[k] != m,
        p < names.len() ==> names[p] == m,
    ensures
        p < names.len() ==> first_pos(names, m) == Some(p),
        p == names.len() ==> first_pos(names, m) is None,
    decreases names.len(),
{
    if names.len() > 0 {
        let t = names.drop_last();
        if p < names.len() - 1 {
            lemma_first_pos_scan(t, m, p);
        } else {
            assert forall|k: int| 0 <= k < t.len() implies t[k] != m by {
                assert(t[k] == names[k]);
            }
            lemma_first_pos_scan(t, m, t.len() as int);
        }
    }
}

// ---------------------------------------------------------------------------
// Scope checks
// ---------------------------------------------------------------------------

/// The names of a list of groups.
pub open spec fn group_names(gs: Seq<GroupRec>) -> Seq<Seq<char>> {
    gs.map_values(|g: GroupRec| g.name@)
}

/// The requested names that no group carries.
pub open spec fn missing_groups(gs: Seq<GroupRec>, names: Seq<Seq<char>>) -> Seq<Seq<char>>
    decreases names.len(),
{
    if names.len() == 0 {
        Seq::empty()
    } else {
        missing_groups(gs, names.drop_last()) + if first_pos(group_names(gs), names.last()) is Some {
            Seq::<Seq<char>>::empty()
        } else {
            seq![names.last()]
        }
    }
}

/// The ids of the first groups carrying each requested name, in request order.
pub open spec fn found_group_ids(gs: Seq<GroupRec>, names: Seq<Seq<char>>) -> Seq<Seq<char>>
    decreases names.len(),
{
    if names.len() == 0 {
        Seq::empty()
    } else {
        found_group_ids(gs, names.drop_last()) + match first_pos(group_names(gs), names.last()) {
            Some(i) => seq![gs[i].groupid@],
            None => Seq::<Seq<char>>::empty(),
        }
    }
}

/// `first_pos` finds the first position holding `m`, and none exactly when
/// no position holds it.
proof fn lemma_first_pos_spec(names: Seq<Seq<char>>, m: Seq<char>)
    ensures
        first_pos(names, m) matches Some(i) ==> 0 <= i < names.len() && names[i] == m && forall|j: int|
            0 <= j < i ==> names[j] != m,
        first_pos(names, m) is None ==> forall|j: int| 0 <= j < names.len() ==> names[j] != m,
    decreases names.len(),
{
    if names.len() > 0 {
        lemma_first_pos_spec(names.drop_last(), m);
        assert forall|j: int| 0 <= j < names.len() - 1 implies names[j] == names.drop_last()[j] by {}
    }
}

/// Some group of `gs` carries the name `n`.
pub open spec fn group_carries(gs: Seq<GroupRec>, n: Seq<char>) -> bool {
    exists|j: int| 0 <= j < gs.len() && #[trigger] gs[j].name@ == n
}

/// Each requested group name that some group carries resolves to the id of
/// the first group carrying it, in request order; a name that no group
/// carries is reported missing. So when every name is carried, the ids are
/// one per name, each the `groupid` of the first group of that name.
pub proof fn law_group_ids_by_name(gs: Seq<GroupRec>, names: Seq<Seq<char>>)
    ensures
        (forall|k: int| 0 <= k < names.len() ==> group_carries(gs, #[trigger] names[k]))
            ==> missing_groups(gs, names).len() == 0,
        forall|k: int| 0 <= k < names.len() && !group_carries(gs, #[trigger] names[k])
            ==> missing_groups(gs, names).contains(names[k]),
        missing_groups(gs, names).len() == 0 ==> found_group_ids(gs, names).len() == names.len(),
        missing_groups(gs, names).len() == 0 ==> forall|k: int| 0 <= k < names.len() ==> exists|j: int|
            0 <= j < gs.len() && gs[j].name@ == names[k] && #[trigger] found_group_ids(gs, names)[k]
                == gs[j].groupid@ && forall|i: int| 0 <= i < j ==> gs[i].name@ != names[k],
    decreases names.len(),
{
    if names.len() > 0 {
        let init = names.drop_last();
        let m = names.last();
        law_group_ids_by_name(gs, init);
        let gn = group_names(gs);
        lemma_first_pos_spec(gn, m);
        assert forall|j: int| 0 <= j < gs.len() implies gn[j] == #[trigger] gs[j].name@ by {}
        assert forall|k: int| 0 <= k < init.len() implies names[k] == #[trigger] init[k] by {}
        if forall|k: int| 0 <= k < names.len() ==> group_carries(gs, #[trigger] names[k]) {
            assert forall|k: int| 0 <= k < init.len() implies group_carries(gs, #[trigger] init[k]) by {
                assert(names[k] == init[k]);
            }
            assert(group_carries(gs, names[names.len() - 1]));
            let j = choose|j: int| 0 <= j < gs.len() && #[trigger] gs[j].name@ == names[names.len() - 1];
            assert(gn[j] == m);
        }
        assert forall|k: int| 0 <= k < names.len() && !group_carries(gs, #[trigger] names[k])
            implies missing_groups(gs, names).contains(names[k]) by {
            if k < init.len() {
                assert(names[k] == init[k]);
                assert(!group_carries(gs, init[k]));
                let mi = missing_groups(gs, init);
                assert(mi.contains(init[k]));
                let w = choose|w: int| 0 <= w < mi.len() && mi[w] == init[k];
                assert(missing_groups(gs, names)[w] == mi[w]);
            } else {
                assert(first_pos(gn, m) is None) by {
                    if first_pos(gn, m) is Some {
                        let i = first_pos(gn, m)->0;
                        assert(gs[i].name@ == m);
                        assert(group_carries(gs, names[k]));
                    }
                }
                let mg = missing_groups(gs, names);
                assert(mg[mg.len() - 1] == m);
            }
        }
        if missing_groups(gs, names).len() == 0 {
            let mi = missing_groups(gs, init);
            assert(mi.len() == 0);
            assert(first_pos(gn, m) is Some);
            let i = first_pos(gn, m)->0;
            let f = found_group_ids(gs, names);
            let fi = found_group_ids(gs, init);
            assert(f == fi.push(gs[i].groupid@)) by {
                assert(f =~= fi + seq![gs[i].groupid@]);
            }
            assert forall|k: int| 0 <= k < names.len() implies exists|j: int|
                0 <= j < gs.len() && gs[j].name@ == names[k] && #[trigger] f[k] == gs[j].groupid@
                    && forall|x: int| 0 <= x < j ==> gs[x].name@ != names[k] by {
                if k < init.len() {
                    assert(f[k] == fi[k]);
                    assert(names[k] == init[k]);
                    let j = choose|j: int|
                        0 <= j < gs.len() && gs[j].name@ == init[k] && #[trigger] fi[k] == gs[j].groupid@
                            && forall|x: int| 0 <= x < j ==> gs[x].name@ != init[k];
                    assert(gs[j].name@ == names[k] && f[k] == gs[j].groupid@);
                } else {
                    assert(f[k] == gs[i].groupid@);
                    assert(gs[i].name@ == m);
                    assert forall|x: int| 0 <= x < i implies gs[x].name@ != names[k] by {
                        assert(gn[x] != m);
                    }
                }
            }
        }
    }
}

fn position_of_name(names: &Vec<String>, m: &str) -> (r: Option<usize>)
    ensures
        r matches Some(p) ==> first_pos(views(names@), m@) == Some(p as int),
        r is None ==> first_pos(views(names@), m@) is None,
        r matches Some(p) ==> p < names@.len() && names@[p as int]@ == m@,
{
    let mut p: usize = 0;
    while p < names.len() && !str_eq(names[p].as_str(), m)
        invariant
            0 <= p <= names.len(),
            forall|k: int| 0 <= k < p ==> views(names@)[k] != m@,
        decreases names.len() - p,
    {
        p += 1;
    }
    proof {
        lemma_first_pos_scan(views(names@), m@, p as int);
    }
    if p < names.len() {
        Some(p)
    } else {
        None
    }
}

/// The group ids for the requested group names. Names that no group carries
/// are refused together, with a hint to list the groups.
pub fn resolve_group_ids(groups: &Vec<GroupRec>, names: &Vec<String>) -> (r: Result<Vec<String>, PatrolError>)
    ensures
        missing_groups(groups@, views(names@)).len() == 0 ==> (r matches Ok(ids) && views(ids@) == found_group_ids(groups@, views(names@))),
        missing_groups(groups@, views(names@)).len() > 0 ==> (r matches Err(PatrolError::Config(msg)) && msg@ == "未找到主机群组："@ + joined(
            missing_groups(groups@, views(names@)),
            "、"@,
        ) + "（可用 zbxpatrol groups 查看）"@),
{
    let mut gnames: Vec<String> = Vec::new();
    let mut k: usize = 0;
    while k < groups.len()
        invariant
            0 <= k <= groups.len(),
            gnames@.len() == k,
            forall|j: int| 0 <= j < k ==> #[trigger] gnames@[j]@ == groups@[j].name@,
        decreases groups.len() - k,
    {
        gnames.push(groups[k].name.clone());
        k += 1;
    }
    assert(views(gnames@) =~= group_names(groups@));
    let mut ids: Vec<String> = Vec::new();
    let mut missing: Vec<String> = Vec::new();
    let mut i: usize = 0;
    while i < names.len()
        invariant
            0 <= i <= names.len(),
            views(gnames@) == group_names(groups@),
            views(ids@) == found_group_ids(groups@, views(names@).subrange(0, i as int)),
            views(missing@) == missing_groups(groups@, views(names@).subrange(0, i as int)),
        decreases names.len() - i,
    {
        let ghost pre = views(names@).subrange(0, i + 1);
        assert(pre.drop_last() =~= views(names@).subrange(0, i as int));
        assert(pre.last() == names@[i as int]@);
        match position_of_name(&gnames, names[i].as_str()) {
            Some(p) => {
                let ghost before = ids@;
                ids.push(groups[p].groupid.clone());
                proof {
                    crate::text::lemma_views_push(before, groups@[p as int].groupid);
                    assert(first_pos(group_names(groups@), pre.last()) == Some(p as int));
                    assert(found_group_ids(groups@, pre) == found_group_ids(groups@, pre.drop_last()) + seq![groups@[p as int].groupid@]);
                }
                assert(views(ids@) =~= found_group_ids(groups@, pre));
                assert(views(missing@) =~= missing_groups(groups@, pre));
            },
            None => {
                let ghost before = missing@;
                missing.push(names[i].clone());
                proof {
                    crate::text::lemma_views_push(before, names@[i as int]);
                }
                assert(views(ids@) =~= found_group_ids(groups@, pre));
                assert(views(missing@) =~= missing_groups(groups@, pre));
            },
        }
        i += 1;
    }
    assert(views(names@).subrange(0, names.len() as int) =~= views(names@));
    if missing.len() > 0 {
        let j = join(&missing, "、");
        let a = concat("未找到主机群组：", j.as_str());
        let msg = concat(a.as_str(), "（可用 zbxpatrol groups 查看）");
        Err(PatrolError::Config(msg))
    } else {
        Ok(ids)
    }
}

/// The technical names of a list of hosts.
pub open spec fn host_names(hs: Seq<HostInfo>) -> Seq<Seq<char>> {
    hs.map_values(|h: HostInfo| h.host@)
}

/// The requested host names that no found host carries.
pub open spec fn missing_hosts(hs: Seq<HostInfo>, names: Seq<Seq<char>>) -> Seq<Seq<char>>
    decreases names.len(),
{
    if names.len() == 0 {
        Seq::empty()
    } else {
        missing_hosts(hs, names.drop_last()) + if first_pos(host_names(hs), names.last()) is Some {
            Seq::<Seq<char>>::empty()
        } else {
            seq![names.last()]
        }
    }
}

/// Checks that every requested host name was found (names are compared
/// exactly, case included); the missing ones are refused together.
pub fn check_hosts_found(hosts: &Vec<HostInfo>, names: &Vec<String>) -> (r: Result<(), PatrolError>)
    ensures
        missing_hosts(hosts@, views(names@)).len() == 0 ==> r is Ok,
        missing_hosts(hosts@, views(names@)).len() > 0 ==> (r matches Err(PatrolError::Config(msg)) && msg@ == "未找到主机："@ + joined(
            missing_hosts(hosts@, views(names@)),
            "、"@,
        ) + "（可用 zbxpatrol hosts 查看；注意大小写需完全一致）"@),
{
    let mut hnames: Vec<String> = Vec::new();
    let mut k: usize = 0;
    while k < hosts.len()
        invariant
            0 <= k <= hosts.len(),
            hnames@.len() == k,
            forall|j: int| 0 <= j < k ==> #[trigger] hnames@[j]@ == hosts@[j].host@,
        decreases hosts.len() - k,
    {
        hnames.push(hosts[k].host.clone());
        k += 1;
    }
    assert(views(hnames@) =~= host_names(hosts@));
    let mut missing: Vec<String> = Vec::new();
    let mut i: usize = 0;
    while i < names.len()
        invariant
            0 <= i <= names.len(),
            views(hnames@) == host_names(hosts@),
            views(missing@) == missing_hosts(hosts@, views(names@).subrange(0, i as int)),
        decreases names.len() - i,
    {
        let ghost pre = views(names@).subrange(0, i + 1);
        assert(pre.drop_last() =~= views(names@).subrange(0, i as int));
        assert(pre.last() == names@[i as int]@);
        match position_of_name(&hnames, names[i].as_str()) {
            Some(_) => {
                assert(views(missing@) =~= missing_hosts(hosts@, pre));
            },
            None => {
                let ghost before = missing@;
                missing.push(names[i].clone());
                proof {
                    crate::text::lemma_views_push(before, names@[i as int]);
                }
                assert(views(missing@) =~= missing_hosts(hosts@, pre));
            },
        }
        i += 1;
    }
    assert(views(names@).subrange(0, names.len() as int) =~= views(names@));
    if missing.len() > 0 {
        let j = join(&missing, "、");
        let a = concat("未找到主机：", j.as_str());
        let msg = concat(a.as_str(), "（可用 zbxpatrol hosts 查看；注意大小写需完全一致）");
        Err(PatrolError::Config(msg))
    } else {
        Ok(())
    }
}

/// Refuses an empty host list.
pub fn check_hosts_nonempty(hosts: &Vec<HostInfo>) -> (r: Result<(), PatrolError>)
    ensures
        hosts@.len() > 0 <==> r is Ok,
        hosts@.len() == 0 ==> (r matches Err(PatrolError::Config(msg)) && msg@ == "范围内没有主机（群组为空？）"@),
{
    if hosts.len() == 0 {
        Err(PatrolError::Config(crate::text::owned("范围内没有主机（群组为空？）")))
    } else {
        Ok(())
    }
}

// ---------------------------------------------------------------------------
// Operating system
// ---------------------------------------------------------------------------

/// The position of the first item with key `key`.
pub open spec fn first_item_with_key(items: Seq<ItemRec>, key: Seq<char>) -> Option<int> {
    first_pos(items.map_values(|i: ItemRec| i.key@), key)
}

/// The non-empty last value of the first item with key `key`.
pub open spec fn detail_for(items: Seq<ItemRec>, key: Seq<char>) -> Option<Seq<char>> {
    match first_item_with_key(items, key) {
        Some(i) => match items[i].lastvalue {
            Some(v) => if v@.len() > 0 {
                Some(v@)
            } else {
                None
            },
            None => None,
        },
        None => None,
    }
}

/// The operating-system text of a host: the last value of system.uname,
/// else system.sw.os, else system.sw.os[short], else empty.
pub open spec fn os_detail(items: Seq<ItemRec>) -> Seq<char> {
    match detail_for(items, "system.uname"@) {
        Some(d) => d,
        None => match detail_for(items, "system.sw.os"@) {
            Some(d) => d,
            None => match detail_for(items, "system.sw.os[short]"@) {
                Some(d) => d,
                None => Seq::empty(),
            },
        },
    }
}

/// The family named by a lower-cased operating-system text.
pub open spec fn os_family_name(lower: Seq<char>, detail_empty: bool) -> Seq<char> {
    if contains_seq(lower, "windows"@) || contains_seq(lower, "microsoft"@) {
        "Windows"@
    } else if contains_seq(lower, "linux"@) {
        "Linux"@
    } else if contains_seq(lower, "freebsd"@) {
        "FreeBSD"@
    } else if contains_seq(lower, "darwin"@) || contains_seq(lower, "mac os"@) {
        "macOS"@
    } else if contains_seq(lower, "aix"@) {
        "AIX"@
    } else if contains_seq(lower, "hp-ux"@) {
        "HP-UX"@
    } else if contains_seq(lower, "sunos"@) || contains_seq(lower, "solaris"@) {
        "Solaris"@
    } else if detail_empty {
        "未知"@
    } else {
        "其他"@
    }
}

fn detail_exec(items: &Vec<ItemRec>, key: &str) -> (r: Option<String>)
    ensures
        match detail_for(items@, key@) {
            Some(d) => r matches Some(s) && s@ == d,
            None => r is None,
        },
{
    let ghost keys = items@.map_values(|i: ItemRec| i.key@);
    let mut p: usize = 0;
    while p < items.len() && !str_eq(items[p].key.as_str(), key)
        invariant
            0 <= p <= items.len(),
            keys == items@.map_values(|i: ItemRec| i.key@),
            forall|k: int| 0 <= k < p ==> keys[k] != key@,
        decreases items.len() - p,
    {
        p += 1;
    }
    proof {
        lemma_first_pos_scan(keys, key@, p as int);
    }
    if p < items.len() {
        match &items[p].lastvalue {
            Some(v) => {
                if crate::text::chars_of(v.as_str()).len() > 0 {
                    Some(v.clone())
                } else {
                    None
                }
            },
            None => None,
        }
    } else {
        None
    }
}

/// The operating-system family and text of a host, from system.uname or
/// system.sw.os: (family, text). The family is Windows, Linux, FreeBSD,
/// macOS, AIX, HP-UX, Solaris, 其他 for other texts, 未知 without one.
pub fn os_family_of(items: &Vec<ItemRec>) -> (r: (String, String))
    ensures
        r.1@ == os_detail(items@),
        r.0@ == os_family_name(unicode_lowercase(os_detail(items@)), os_detail(items@).len() == 0),
        ascii_or_ideographs(os_detail(items@)) ==> r.0@ == os_family_name(
            ascii_lower(os_detail(items@)),
            os_detail(items@).len() == 0,
        ),
{
    let detail = match detail_exec(items, "system.uname") {
        Some(d) => d,
        None => match detail_exec(items, "system.sw.os") {
            Some(d) => d,
            None => match detail_exec(items, "system.sw.os[short]") {
                Some(d) => d,
                None => String::new(),
            },
        },
    };
    let lower = to_lowercase(detail.as_str());
    let family = os_family_named(lower.as_str(), detail.as_str());
    (crate::text::owned(family), detail)
}

/// How a lower-cased operating-system text names its family: a text that
/// mentions windows or microsoft is Windows; otherwise one that mentions linux
/// is Linux; otherwise freebsd is FreeBSD, darwin or mac os is macOS, aix is
/// AIX, hp-ux is HP-UX, sunos or solaris is Solaris, in that order; a text
/// with none of these is 未知 when there is no text at all and 其他 otherwise.
pub proof fn law_os_family_by_text(lower: Seq<char>, empty: bool)
    ensures
        contains_seq(lower, "windows"@) || contains_seq(lower, "microsoft"@) ==> os_family_name(
            lower,
            empty,
        ) == "Windows"@,
        !contains_seq(lower, "windows"@) && !contains_seq(lower, "microsoft"@) && contains_seq(
            lower,
            "linux"@,
        ) ==> os_family_name(lower, empty) == "Linux"@,
        !contains_seq(lower, "windows"@) && !contains_seq(lower, "microsoft"@) && !contains_seq(
            lower,
            "linux"@,
        ) && contains_seq(lower, "freebsd"@) ==> os_family_name(lower, empty) == "FreeBSD"@,
        !contains_seq(lower, "windows"@) && !contains_seq(lower, "microsoft"@) && !contains_seq(
            lower,
            "linux"@,
        ) && !contains_seq(lower, "freebsd"@) && (contains_seq(lower, "darwin"@) || contains_seq(
            lower,
            "mac os"@,
        )) ==> os_family_name(lower, empty) == "macOS"@,
        ({
            let before_aix = !contains_seq(lower, "windows"@) && !contains_seq(lower, "microsoft"@)
                && !contains_seq(lower, "linux"@) && !contains_seq(lower, "freebsd"@)
                && !contains_seq(lower, "darwin"@) && !contains_seq(lower, "mac os"@);
            &&& before_aix && contains_seq(lower, "aix"@) ==> os_family_name(lower, empty) == "AIX"@
            &&& before_aix && !contains_seq(lower, "aix"@) && contains_seq(lower, "hp-ux"@)
                ==> os_family_name(lower, empty) == "HP-UX"@
            &&& before_aix && !contains_seq(lower, "aix"@) && !contains_seq(lower, "hp-ux"@) && (
            contains_seq(lower, "sunos"@) || contains_seq(lower, "solaris"@)) ==> os_family_name(
                lower,
                empty,
            ) == "Solaris"@
        }),
        ({
            let none = !contains_seq(lower, "windows"@) && !contains_seq(lower, "microsoft"@)
                && !contains_seq(lower, "linux"@) && !contains_seq(lower, "freebsd"@)
                && !contains_seq(lower, "darwin"@) && !contains_seq(lower, "mac os"@)
                && !contains_seq(lower, "aix"@) && !contains_seq(lower, "hp-ux"@)
                && !contains_seq(lower, "sunos"@) && !contains_seq(lower, "solaris"@);
            &&& none && empty ==> os_family_name(lower, empty) == "未知"@
            &&& none && !empty ==> os_family_name(lower, empty) == "其他"@
        }),
{
}

/// The family named by the lower-cased operating-system text `lower` of the
/// text `detail`.
pub fn os_family_named(lower: &str, detail: &str) -> (r: &'static str)
    ensures
        r@ == os_family_name(lower@, detail@.len() == 0),
{
    if contains(lower, "windows") || contains(lower, "microsoft") {
        "Windows"
    } else if contains(lower, "linux") {
        "Linux"
    } else if contains(lower, "freebsd") {
        "FreeBSD"
    } else if contains(lower, "darwin") || contains(lower, "mac os") {
        "macOS"
    } else if contains(lower, "aix") {
        "AIX"
    } else if contains(lower, "hp-ux") {
        "HP-UX"
    } else if contains(lower, "sunos") || contains(lower, "solaris") {
        "Solaris"
    } else if crate::text::chars_of(detail).len() == 0 {
        "未知"
    } else {
        "其他"
    }
}

// ---------------------------------------------------------------------------
// Item classification
// ---------------------------------------------------------------------------

/// The items of one partition.
#[derive(Debug)]
pub struct DiskItems {
    pub mount: String,
    pub pused: Option<ItemRec>,
    pub used: Option<ItemRec>,
    pub total: Option<ItemRec>,
    pub inode_pused: Option<ItemRec>,
    pub inode_pfree: Option<ItemRec>,
}

/// The items of one network interface.
#[derive(Debug)]
pub struct NetItems {
    pub ifname: String,
    pub in_bytes: Option<ItemRec>,
    pub out_bytes: Option<ItemRec>,
    pub in_err: Option<ItemRec>,
    pub out_err: Option<ItemRec>,
    pub in_drop: Option<ItemRec>,
    pub out_drop: Option<ItemRec>,
    pub speed: Option<ItemRec>,
}

/// The items of a host, sorted by what they measure.
#[derive(Debug)]
pub struct HostClassified {
    pub cpu_util: Option<ItemRec>,
    pub mem_util: Option<ItemRec>,
    pub mem_pavail: Option<ItemRec>,
    pub mem_total: Option<ItemRec>,
    pub swap_util: Option<ItemRec>,
    pub swap_pfree: Option<ItemRec>,
    pub load1: Option<ItemRec>,
    pub load5: Option<ItemRec>,
    pub load15: Option<ItemRec>,
    pub cpu_num: Option<ItemRec>,
    pub uptime: Option<ItemRec>,
    pub boottime: Option<ItemRec>,
    pub zombies: Option<ItemRec>,
    pub proc_num: Option<ItemRec>,
    pub localtime: Option<ItemRec>,
    pub agent_avail: Option<ItemRec>,
    pub maxfiles: Option<ItemRec>,
    pub openfiles: Option<ItemRec>,
    pub icmp_loss: Option<ItemRec>,
    pub icmp_sec: Option<ItemRec>,
    pub cert_days: Option<ItemRec>,
    pub os_uname: Option<ItemRec>,
    pub disks: Vec<DiskItems>,
    pub nets: Vec<NetItems>,
    pub services: Vec<ItemRec>,
    pub io_awaits: Vec<ItemRec>,
    /// Every other numeric item.
    pub others_numeric: Vec<ItemRec>,
}

/// A partition as plain values.
#[verifier::ext_equal]
pub struct DiskView {
    pub mount: Seq<char>,
    pub pused: Option<ItemRec>,
    pub used: Option<ItemRec>,
    pub total: Option<ItemRec>,
    pub inode_pused: Option<ItemRec>,
    pub inode_pfree: Option<ItemRec>,
}

/// An interface as plain values.
#[verifier::ext_equal]
pub struct NetView {
    pub ifname: Seq<char>,
    pub in_bytes: Option<ItemRec>,
    pub out_bytes: Option<ItemRec>,
    pub in_err: Option<ItemRec>,
    pub out_err: Option<ItemRec>,
    pub in_drop: Option<ItemRec>,
    pub out_drop: Option<ItemRec>,
    pub speed: Option<ItemRec>,
}

/// A classified host as plain values.
#[verifier::ext_equal]
pub struct ClassView {
    pub cpu_util: Option<ItemRec>,
    pub mem_util: Option<ItemRec>,
    pub mem_pavail: Option<ItemRec>,
    pub mem_total: Option<ItemRec>,
    pub swap_util: Option<ItemRec>,
    pub swap_pfree: Option<ItemRec>,
    pub load1: Option<ItemRec>,
    pub load5: Option<ItemRec>,
    pub load15: Option<ItemRec>,
    pub cpu_num: Option<ItemRec>,
    pub uptime: Option<ItemRec>,
    pub boottime: Option<ItemRec>,
    pub zombies: Option<ItemRec>,
    pub proc_num: Option<ItemRec>,
    pub localtime: Option<ItemRec>,
    pub agent_avail: Option<ItemRec>,
    pub maxfiles: Option<ItemRec>,
    pub openfiles: Option<ItemRec>,
    pub icmp_loss: Option<ItemRec>,
    pub icmp_sec: Option<ItemRec>,
    pub cert_days: Option<ItemRec>,
    pub os_uname: Option<ItemRec>,
    pub disks: Seq<DiskView>,
    pub nets: Seq<NetView>,
    pub services: Seq<ItemRec>,
    pub io_awaits: Seq<ItemRec>,
    pub others_numeric: Seq<ItemRec>,
}

impl View for DiskItems {
    type V = DiskView;

    open spec fn view(&self) -> DiskView {
        DiskView {
            mount: self.mount@,
            pused: self.pused,
            used: self.used,
            total: self.total,
            inode_pused: self.inode_pused,
            inode_pfree: self.inode_pfree,
        }
    }
}

impl View for NetItems {
    type V = NetView;

    open spec fn view(&self) -> NetView {
        NetView {
            ifname: self.ifname@,
            in_bytes: self.in_bytes,
            out_bytes: self.out_bytes,
            in_err: self.in_err,
            out_err: self.out_err,
            in_drop: self.in_drop,
            out_drop: self.out_drop,
            speed: self.speed,
        }
    }
}

/// The plain-value forms of a list of partitions.
pub open spec fn disk_views(ds: Seq<DiskItems>) -> Seq<DiskView> {
    ds.map_values(|d: DiskItems| d@)
}

/// The plain-value forms of a list of interfaces.
pub open spec fn net_views(ns: Seq<NetItems>) -> Seq<NetView> {
    ns.map_values(|n: NetItems| n@)
}

impl View for HostClassified {
    type V = ClassView;

    open spec fn view(&self) -> ClassView {
        ClassView {
            cpu_util: self.cpu_util,
            mem_util: self.mem_util,
            mem_pavail: self.mem_pavail,
            mem_total: self.mem_total,
            swap_util: self.swap_util,
            swap_pfree: self.swap_pfree,
            load1: self.load1,
            load5: self.load5,
            load15: self.load15,
            cpu_num: self.cpu_num,
            uptime: self.uptime,
            boottime: self.boottime,
            zombies: self.zombies,
            proc_num: self.proc_num,
            localtime: self.localtime,
            agent_avail: self.agent_avail,
            maxfiles: self.maxfiles,
            openfiles: self.openfiles,
            icmp_loss: self.icmp_loss,
            icmp_sec: self.icmp_sec,
            cert_days: self.cert_days,
            os_uname: self.os_uname,
            disks: disk_views(self.disks@),
            nets: net_views(self.nets@),
            services: self.services@,
            io_awaits: self.io_awaits@,
            others_numeric: self.others_numeric@,
        }
    }
}

/// A single-item slot of a classified host.
#[derive(Debug, Clone, Copy, PartialEq, Eq, Structural)]
pub enum Slot {
    CpuUtil,
    MemUtil,
    MemPavail,
    MemTotal,
    SwapUtil,
    SwapPfree,
    Load1,
    Load5,
    Load15,
    CpuNum,
    Uptime,
    Boottime,
    Zombies,
    ProcNum,
    Localtime,
    AgentAvail,
    Maxfiles,
    Openfiles,
    IcmpLoss,
    IcmpSec,
    CertDays,
}

/// A per-partition item kind.
#[derive(Debug, Clone, Copy, PartialEq, Eq, Structural)]
pub enum DiskField {
    Pused,
    Used,
    Total,
    InodePused,
    InodePfree,
}

/// A per-interface item kind.
#[derive(Debug, Clone, Copy, PartialEq, Eq, Structural)]
pub enum NetField {
    InBytes,
    OutBytes,
    InErr,
    OutErr,
    InDrop,
    OutDrop,
    Speed,
}

/// Where the items of a rule go.
#[derive(Debug, Clone, Copy, PartialEq, Eq, Structural)]
pub enum Placement {
    Slot(Slot),
    Disk(DiskField),
    Net(NetField),
    Service,
    IoAwait,
    Other,
}

/// Where the items of the rule with id `id` go.
pub open spec fn placement_of(id: Seq<char>) -> Placement {
    if id == "cpu_util"@ {
        Placement::Slot(Slot::CpuUtil)
    } else if id == "mem_util"@ {
        Placement::Slot(Slot::MemUtil)
    } else if id == "mem_pavail"@ {
        Placement::Slot(Slot::MemPavail)
    } else if id == "mem_total"@ {
        Placement::Slot(Slot::MemTotal)
    } else if id == "swap_util"@ {
        Placement::Slot(Slot::SwapUtil)
    } else if id == "swap_pfree"@ {
        Placement::Slot(Slot::SwapPfree)
    } else if id == "load1"@ {
        Placement::Slot(Slot::Load1)
    } else if id == "load5"@ {
        Placement::Slot(Slot::Load5)
    } else if id == "load15"@ {
        Placement::Slot(Slot::Load15)
    } else if id == "cpu_num"@ {
        Placement::Slot(Slot::CpuNum)
    } else if id == "uptime"@ {
        Placement::Slot(Slot::Uptime)
    } else if id == "boottime"@ {
        Placement::Slot(Slot::Boottime)
    } else if id == "zombies"@ {
        Placement::Slot(Slot::Zombies)
    } else if id == "proc_num"@ {
        Placement::Slot(Slot::ProcNum)
    } else if id == "localtime"@ {
        Placement::Slot(Slot::Localtime)
    } else if id == "agent_avail"@ {
        Placement::Slot(Slot::AgentAvail)
    } else if id == "maxfiles"@ {
        Placement::Slot(Slot::Maxfiles)
    } else if id == "openfiles"@ {
        Placement::Slot(Slot::Openfiles)
    } else if id == "icmp_loss"@ {
        Placement::Slot(Slot::IcmpLoss)
    } else if id == "icmp_sec"@ {
        Placement::Slot(Slot::IcmpSec)
    } else if id == "cert_days"@ {
        Placement::Slot(Slot::CertDays)
    } else if id == "disk_pused"@ || id == "disk_pused_old"@ {
        Placement::Disk(DiskField::Pused)
    } else if id == "disk_used"@ {
        Placement::Disk(DiskField::Used)
    } else if id == "disk_total"@ {
        Placement::Disk(DiskField::Total)
    } else if id == "inode_pused"@ {
        Placement::Disk(DiskField::InodePused)
    } else if id == "inode_pfree"@ {
        Placement::Disk(DiskField::InodePfree)
    } else if id == "if_in"@ || id == "if_in_bytes"@ {
        Placement::Net(NetField::InBytes)
    } else if id == "if_out"@ || id == "if_out_bytes"@ {
        Placement::Net(NetField::OutBytes)
    } else if id == "if_in_err"@ {
        Placement::Net(NetField::InErr)
    } else if id == "if_out_err"@ {
        Placement::Net(NetField::OutErr)
    } else if id == "if_in_drop"@ {
        Placement::Net(NetField::InDrop)
    } else if id == "if_out_drop"@ {
        Placement::Net(NetField::OutDrop)
    } else if id == "if_speed"@ {
        Placement::Net(NetField::Speed)
    } else if id == "tcp_service"@ {
        Placement::Service
    } else if id == "io_await"@ {
        Placement::IoAwait
    } else {
        Placement::Other
    }
}

/// The rule id whose items fill each single-item slot.
pub open spec fn slot_rule_id(s: Slot) -> Seq<char> {
    match s {
        Slot::CpuUtil => "cpu_util"@,
        Slot::MemUtil => "mem_util"@,
        Slot::MemPavail => "mem_pavail"@,
        Slot::MemTotal => "mem_total"@,
        Slot::SwapUtil => "swap_util"@,
        Slot::SwapPfree => "swap_pfree"@,
        Slot::Load1 => "load1"@,
        Slot::Load5 => "load5"@,
        Slot::Load15 => "load15"@,
        Slot::CpuNum => "cpu_num"@,
        Slot::Uptime => "uptime"@,
        Slot::Boottime => "boottime"@,
        Slot::Zombies => "zombies"@,
        Slot::ProcNum => "proc_num"@,
        Slot::Localtime => "localtime"@,
        Slot::AgentAvail => "agent_avail"@,
        Slot::Maxfiles => "maxfiles"@,
        Slot::Openfiles => "openfiles"@,
        Slot::IcmpLoss => "icmp_loss"@,
        Slot::IcmpSec => "icmp_sec"@,
        Slot::CertDays => "cert_days"@,
    }
}

/// The rule id whose items fill each per-partition field.
pub open spec fn disk_rule_id(f: DiskField) -> Seq<char> {
    match f {
        DiskField::Pused => "disk_pused"@,
        DiskField::Used => "disk_used"@,
        DiskField::Total => "disk_total"@,
        DiskField::InodePused => "inode_pused"@,
        DiskField::InodePfree => "inode_pfree"@,
    }
}

/// The rule id whose items fill each per-interface field.
pub open spec fn net_rule_id(f: NetField) -> Seq<char> {
    match f {
        NetField::InBytes => "if_in"@,
        NetField::OutBytes => "if_out"@,
        NetField::InErr => "if_in_err"@,
        NetField::OutErr => "if_out_err"@,
        NetField::InDrop => "if_in_drop"@,
        NetField::OutDrop => "if_out_drop"@,
        NetField::Speed => "if_speed"@,
    }
}

proof fn lemma_slot_ids(sl: Slot)
    ensures
        placement_of(slot_rule_id(sl)) == Placement::Slot(sl),
{
    match sl {
        Slot::CpuUtil => {
            assert(placement_of(slot_rule_id(Slot::CpuUtil)) == Placement::Slot(Slot::CpuUtil)) by {
                reveal_strlit("cpu_util");
                assert("cpu_util"@.len() == 8);
            }
        },
        Slot::MemUtil => {
            assert(placement_of(slot_rule_id(Slot::MemUtil)) == Placement::Slot(Slot::MemUtil)) by {
                reveal_strlit("mem_util");
                assert("mem_util"@.len() == 8);
                reveal_strlit("cpu_util");
                assert("mem_util"@[0] != "cpu_util"@[0]);
                assert("mem_util"@ != "cpu_util"@);
            }
        },
        Slot::MemPavail => {
            assert(placement_of(slot_rule_id(Slot::MemPavail)) == Placement::Slot(Slot::MemPavail)) by {
                reveal_strlit("mem_pavail");
                assert("mem_pavail"@.len() == 10);
                reveal_strlit("cpu_util");
                assert("cpu_util"@.len() == 8);
                assert("mem_pavail"@ != "cpu_util"@);
                reveal_strlit("mem_util");
                assert("mem_util"@.len() == 8);
                assert("mem_pavail"@ != "mem_util"@);
            }
        },
        Slot::MemTotal => {
            assert(placement_of(slot_rule_id(Slot::MemTotal)) == Placement::Slot(Slot::MemTotal)) by {
                reveal_strlit("mem_total");
                assert("mem_total"@.len() == 9);
                reveal_strlit("cpu_util");
                assert("cpu_util"@.len() == 8);
                assert("mem_total"@ != "cpu_util"@);
                reveal_strlit("mem_util");
                assert("mem_util"@.len() == 8);
                assert("mem_total"@ != "mem_util"@);
                reveal_strlit("mem_pavail");
                assert("mem_pavail"@.len() == 10);
                assert("mem_total"@ != "mem_pavail"@);
            }
        },
        Slot::SwapUtil => {
            assert(placement_of(slot_rule_id(Slot::SwapUtil)) == Placement::Slot(Slot::SwapUtil)) by {
                reveal_strlit("swap_util");
                assert("swap_util"@.len() == 9);
                reveal_strlit("cpu_util");
                assert("cpu_util"@.len() == 8);
                assert("swap_util"@ != "cpu_util"@);
                reveal_strlit("mem_util");
                assert("mem_util"@.len() == 8);
                assert("swap_util"@ != "mem_util"@);
                reveal_strlit("mem_pavail");
                assert("mem_pavail"@.len() == 10);
                assert("swap_util"@ != "mem_pavail"@);
                reveal_strlit("mem_total");
                assert("swap_util"@[0] != "mem_total"@[0]);
                assert("swap_util"@ != "mem_total"@);
            }
        },
        Slot::SwapPfree => {
            assert(placement_of(slot_rule_id(Slot::SwapPfree)) == Placement::Slot(Slot::SwapPfree)) by {
                reveal_strlit("swap_pfree");
                assert("swap_pfree"@.len() == 10);
                reveal_strlit("cpu_util");
                assert("cpu_util"@.len() == 8);
                assert("swap_pfree"@ != "cpu_util"@);
                reveal_strlit("mem_util");
                assert("mem_util"@.len() == 8);
                assert("swap_pfree"@ != "mem_util"@);
                reveal_strlit("mem_pavail");
                assert("swap_pfree"@[0] != "mem_pavail"@[0]);
                assert("swap_pfree"@ != "mem_pavail"@);
                reveal_strlit("mem_total");
                assert("mem_total"@.len() == 9);
                assert("swap_pfree"@ != "mem_total"@);
                reveal_strlit("swap_util");
                assert("swap_util"@.len() == 9);
                assert("swap_pfree"@ != "swap_util"@);
            }
        },
        Slot::Load1 => {
            assert(placement_of(slot_rule_id(Slot::Load1)) == Placement::Slot(Slot::Load1)) by {
                reveal_strlit("load1");
                assert("load1"@.len() == 5);
                reveal_strlit("cpu_util");
                assert("cpu_util"@.len() == 8);
                assert("load1"@ != "cpu_util"@);
                reveal_strlit("mem_util");
                assert("mem_util"@.len() == 8);
                assert("load1"@ != "mem_util"@);
                reveal_strlit("mem_pavail");
                assert("mem_pavail"@.len() == 10);
                assert("load1"@ != "mem_pavail"@);
                reveal_strlit("mem_total");
                assert("mem_total"@.len() == 9);
                assert("load1"@ != "mem_total"@);
                reveal_strlit("swap_util");
                assert("swap_util"@.len() == 9);
                assert("load1"@ != "swap_util"@);
                reveal_strlit("swap_pfree");
                assert("swap_pfree"@.len() == 10);
                assert("load1"@ != "swap_pfree"@);
            }
        },
        Slot::Load5 => {
            assert(placement_of(slot_rule_id(Slot::Load5)) == Placement::Slot(Slot::Load5)) by {
                reveal_strlit("load5");
                assert("load5"@.len() == 5);
                reveal_strlit("cpu_util");
                assert("cpu_util"@.len() == 8);
                assert("load5"@ != "cpu_util"@);
                reveal_strlit("mem_util");
                assert("mem_util"@.len() == 8);
                assert("load5"@ != "mem_util"@);
                reveal_strlit("mem_pavail");
                assert("mem_pavail"@.len() == 10);
                assert("load5"@ != "mem_pavail"@);
                reveal_strlit("mem_total");
                assert("mem_total"@.len() == 9);
                assert("load5"@ != "mem_total"@);
                reveal_strlit("swap_util");
                assert("swap_util"@.len() == 9);
                assert("load5"@ != "swap_util"@);
                reveal_strlit("swap_pfree");
                assert("swap_pfree"@.len() == 10);
                assert("load5"@ != "swap_pfree"@);
                reveal_strlit("load1");
                assert("load5"@[4] != "load1"@[4]);
                assert("load5"@ != "load1"@);
            }
        },
        Slot::Load15 => {
            assert(placement_of(slot_rule_id(Slot::Load15)) == Placement::Slot(Slot::Load15)) by {
                reveal_strlit("load15");
                assert("load15"@.len() == 6);
                reveal_strlit("cpu_util");
                assert("cpu_util"@.len() == 8);
                assert("load15"@ != "cpu_util"@);
                reveal_strlit("mem_util");
                assert("mem_util"@.len() == 8);
                assert("load15"@ != "mem_util"@);
                reveal_strlit("mem_pavail");
                assert("mem_pavail"@.len() == 10);
                assert("load15"@ != "mem_pavail"@);
                reveal_strlit("mem_total");
                assert("mem_total"@.len() == 9);
                assert("load15"@ != "mem_total"@);
                reveal_strlit("swap_util");
                assert("swap_util"@.len() == 9);
                assert("load15"@ != "swap_util"@);
                reveal_strlit("swap_pfree");
                assert("swap_pfree"@.len() == 10);
                assert("load15"@ != "swap_pfree"@);
                reveal_strlit("load1");
                assert("load1"@.len() == 5);
                assert("load15"@ != "load1"@);
                reveal_strlit("load5");
                assert("load5"@.len() == 5);
                assert("load15"@ != "load5"@);
            }
        },
        Slot::CpuNum => {
            assert(placement_of(slot_rule_id(Slot::CpuNum)) == Placement::Slot(Slot::CpuNum)) by {
                reveal_strlit("cpu_num");
                assert("cpu_num"@.len() == 7);
                reveal_strlit("cpu_util");
                assert("cpu_util"@.len() == 8);
                assert("cpu_num"@ != "cpu_util"@);
                reveal_strlit("mem_util");
                assert("mem_util"@.len() == 8);
                assert("cpu_num"@ != "mem_util"@);
                reveal_strlit("mem_pavail");
                assert("mem_pavail"@.len() == 10);
                assert("cpu_num"@ != "mem_pavail"@);
                reveal_strlit("mem_total");
                assert("mem_total"@.len() == 9);
                assert("cpu_num"@ != "mem_total"@);
                reveal_strlit("swap_util");
                assert("swap_util"@.len() == 9);
                assert("cpu_num"@ != "swap_util"@);
                reveal_strlit("swap_pfree");
                assert("swap_pfree"@.len() == 10);
                assert("cpu_num"@ != "swap_pfree"@);
                reveal_strlit("load1");
                assert("load1"@.len() == 5);
                assert("cpu_num"@ != "load1"@);
                reveal_strlit("load5");
                assert("load5"@.len() == 5);
                assert("cpu_num"@ != "load5"@);
                reveal_strlit("load15");
                assert("load15"@.len() == 6);
                assert("cpu_num"@ != "load15"@);
            }
        },
        Slot::Uptime => {
            assert(placement_of(slot_rule_id(Slot::Uptime)) == Placement::Slot(Slot::Uptime)) by {
                reveal_strlit("uptime");
                assert("uptime"@.len() == 6);
                reveal_strlit("cpu_util");
                assert("cpu_util"@.len() == 8);
                assert("uptime"@ != "cpu_util"@);
                reveal_strlit("mem_util");
                assert("mem_util"@.len() == 8);
                assert("uptime"@ != "mem_util"@);
                reveal_strlit("mem_pavail");
                assert("mem_pavail"@.len() == 10);
                assert("uptime"@ != "mem_pavail"@);
                reveal_strlit("mem_total");
                assert("mem_total"@.len() == 9);
                assert("uptime"@ != "mem_total"@);
                reveal_strlit("swap_util");
                assert("swap_util"@.len() == 9);
                assert("uptime"@ != "swap_util"@);
                reveal_strlit("swap_pfree");
                assert("swap_pfree"@.len() == 10);
                assert("uptime"@ != "swap_pfree"@);
                reveal_strlit("load1");
                assert("load1"@.len() == 5);
                assert("uptime"@ != "load1"@);
                reveal_strlit("load5");
                assert("load5"@.len() == 5);
                assert("uptime"@ != "load5"@);
                reveal_strlit("load15");
                assert("uptime"@[0] != "load15"@[0]);
                assert("uptime"@ != "load15"@);
                reveal_strlit("cpu_num");
                assert("cpu_num"@.len() == 7);
                assert("uptime"@ != "cpu_num"@);
            }
        },
        Slot::Boottime => {
            assert(placement_of(slot_rule_id(Slot::Boottime)) == Placement::Slot(Slot::Boottime)) by {
                reveal_strlit("boottime");
                assert("boottime"@.len() == 8);
                reveal_strlit("cpu_util");
                assert("boottime"@[0] != "cpu_util"@[0]);
                assert("boottime"@ != "cpu_util"@);
                reveal_strlit("mem_util");
                assert("boottime"@[0] != "mem_util"@[0]);
                assert("boottime"@ != "mem_util"@);
                reveal_strlit("mem_pavail");
                assert("mem_pavail"@.len() == 10);
                assert("boottime"@ != "mem_pavail"@);
                reveal_strlit("mem_total");
                assert("mem_total"@.len() == 9);
                assert("boottime"@ != "mem_total"@);
                reveal_strlit("swap_util");
                assert("swap_util"@.len() == 9);
                assert("boottime"@ != "swap_util"@);
                reveal_strlit("swap_pfree");
                assert("swap_pfree"@.len() == 10);
                assert("boottime"@ != "swap_pfree"@);
                reveal_strlit("load1");
                assert("load1"@.len() == 5);
                assert("boottime"@ != "load1"@);
                reveal_strlit("load5");
                assert("load5"@.len() == 5);
                assert("boottime"@ != "load5"@);
                reveal_strlit("load15");
                assert("load15"@.len() == 6);
                assert("boottime"@ != "load15"@);
                reveal_strlit("cpu_num");
                assert("cpu_num"@.len() == 7);
                assert("boottime"@ != "cpu_num"@);
                reveal_strlit("uptime");
                assert("uptime"@.len() == 6);
                assert("boottime"@ != "uptime"@);
            }
        },
        Slot::Zombies => {
            assert(placement_of(slot_rule_id(Slot::Zombies)) == Placement::Slot(Slot::Zombies)) by {
                reveal_strlit("zombies");
                assert("zombies"@.len() == 7);
                reveal_strlit("cpu_util");
                assert("cpu_util"@.len() == 8);
                assert("zombies"@ != "cpu_util"@);
                reveal_strlit("mem_util");
                assert("mem_util"@.len() == 8);
                assert("zombies"@ != "mem_util"@);
                reveal_strlit("mem_pavail");
                assert("mem_pavail"@.len() == 10);
                assert("zombies"@ != "mem_pavail"@);
                reveal_strlit("mem_total");
                assert("mem_total"@.len() == 9);
                assert("zombies"@ != "mem_total"@);
                reveal_strlit("swap_util");
                assert("swap_util"@.len() == 9);
                assert("zombies"@ != "swap_util"@);
                reveal_strlit("swap_pfree");
                assert("swap_pfree"@.len() == 10);
                assert("zombies"@ != "swap_pfree"@);
                reveal_strlit("load1");
                assert("load1"@.len() == 5);
                assert("zombies"@ != "load1"@);
                reveal_strlit("load5");
                assert("load5"@.len() == 5);
                assert("zombies"@ != "load5"@);
                reveal_strlit("load15");
                assert("load15"@.len() == 6);
                assert("zombies"@ != "load15"@);
                reveal_strlit("cpu_num");
                assert("zombies"@[0] != "cpu_num"@[0]);
                assert("zombies"@ != "cpu_num"@);
                reveal_strlit("uptime");
                assert("uptime"@.len() == 6);
                assert("zombies"@ != "uptime"@);
                reveal_strlit("boottime");
                assert("boottime"@.len() == 8);
                assert("zombies"@ != "boottime"@);
            }
        },
        Slot::ProcNum => {
            assert(placement_of(slot_rule_id(Slot::ProcNum)) == Placement::Slot(Slot::ProcNum)) by {
                reveal_strlit("proc_num");
                assert("proc_num"@.len() == 8);
                reveal_strlit("cpu_util");
                assert("proc_num"@[0] != "cpu_util"@[0]);
                assert("proc_num"@ != "cpu_util"@);
                reveal_strlit("mem_util");
                assert("proc_num"@[0] != "mem_util"@[0]);
                assert("proc_num"@ != "mem_util"@);
                reveal_strlit("mem_pavail");
                assert("mem_pavail"@.len() == 10);
                assert("proc_num"@ != "mem_pavail"@);
                reveal_strlit("mem_total");
                assert("mem_total"@.len() == 9);
                assert("proc_num"@ != "mem_total"@);
                reveal_strlit("swap_util");
                assert("swap_util"@.len() == 9);
                assert("proc_num"@ != "swap_util"@);
                reveal_strlit("swap_pfree");
                assert("swap_pfree"@.len() == 10);
                assert("proc_num"@ != "swap_pfree"@);
                reveal_strlit("load1");
                assert("load1"@.len() == 5);
                assert("proc_num"@ != "load1"@);
                reveal_strlit("load5");
                assert("load5"@.len() == 5);
                assert("proc_num"@ != "load5"@);
                reveal_strlit("load15");
                assert("load15"@.len() == 6);
                assert("proc_num"@ != "load15"@);
                reveal_strlit("cpu_num");
                assert("cpu_num"@.len() == 7);
                assert("proc_num"@ != "cpu_num"@);
                reveal_strlit("uptime");
                assert("uptime"@.len() == 6);
                assert("proc_num"@ != "uptime"@);
                reveal_strlit("boottime");
                assert("proc_num"@[0] != "boottime"@[0]);
                assert("proc_num"@ != "boottime"@);
                reveal_strlit("zombies");
                assert("zombies"@.len() == 7);
                assert("proc_num"@ != "zombies"@);
            }
        },
        Slot::Localtime => {
            assert(placement_of(slot_rule_id(Slot::Localtime)) == Placement::Slot(Slot::Localtime)) by {
                reveal_strlit("localtime");
                assert("localtime"@.len() == 9);
                reveal_strlit("cpu_util");
                assert("cpu_util"@.len() == 8);
                assert("localtime"@ != "cpu_util"@);
                reveal_strlit("mem_util");
                assert("mem_util"@.len() == 8);
                assert("localtime"@ != "mem_util"@);
                reveal_strlit("mem_pavail");
                assert("mem_pavail"@.len() == 10);
                assert("localtime"@ != "mem_pavail"@);
                reveal_strlit("mem_total");
                assert("localtime"@[0] != "mem_total"@[0]);
                assert("localtime"@ != "mem_total"@);
                reveal_strlit("swap_util");
                assert("localtime"@[0] != "swap_util"@[0]);
                assert("localtime"@ != "swap_util"@);
                reveal_strlit("swap_pfree");
                assert("swap_pfree"@.len() == 10);
                assert("localtime"@ != "swap_pfree"@);
                reveal_strlit("load1");
                assert("load1"@.len() == 5);
                assert("localtime"@ != "load1"@);
                reveal_strlit("load5");
                assert("load5"@.len() == 5);
                assert("localtime"@ != "load5"@);
                reveal_strlit("load15");
                assert("load15"@.len() == 6);
                assert("localtime"@ != "load15"@);
                reveal_strlit("cpu_num");
                assert("cpu_num"@.len() == 7);
                assert("localtime"@ != "cpu_num"@);
                reveal_strlit("uptime");
                assert("uptime"@.len() == 6);
                assert("localtime"@ != "uptime"@);
                reveal_strlit("boottime");
                assert("boottime"@.len() == 8);
                assert("localtime"@ != "boottime"@);
                reveal_strlit("zombies");
                assert("zombies"@.len() == 7);
                assert("localtime"@ != "zombies"@);
                reveal_strlit("proc_num");
                assert("proc_num"@.len() == 8);
                assert("localtime"@ != "proc_num"@);
            }
        },
        Slot::AgentAvail => {
            assert(placement_of(slot_rule_id(Slot::AgentAvail)) == Placement::Slot(Slot::AgentAvail)) by {
                reveal_strlit("agent_avail");
                assert("agent_avail"@.len() == 11);
                reveal_strlit("cpu_util");
                assert("cpu_util"@.len() == 8);
                assert("agent_avail"@ != "cpu_util"@);
                reveal_strlit("mem_util");
                assert("mem_util"@.len() == 8);
                assert("agent_avail"@ != "mem_util"@);
                reveal_strlit("mem_pavail");
                assert("mem_pavail"@.len() == 10);
                assert("agent_avail"@ != "mem_pavail"@);
                reveal_strlit("mem_total");
                assert("mem_total"@.len() == 9);
                assert("agent_avail"@ != "mem_total"@);
                reveal_strlit("swap_util");
                assert("swap_util"@.len() == 9);
                assert("agent_avail"@ != "swap_util"@);
                reveal_strlit("swap_pfree");
                assert("swap_pfree"@.len() == 10);
                assert("agent_avail"@ != "swap_pfree"@);
                reveal_strlit("load1");
                assert("load1"@.len() == 5);
                assert("agent_avail"@ != "load1"@);
                reveal_strlit("load5");
                assert("load5"@.len() == 5);
                assert("agent_avail"@ != "load5"@);
                reveal_strlit("load15");
                assert("load15"@.len() == 6);
                assert("agent_avail"@ != "load15"@);
                reveal_strlit("cpu_num");
                assert("cpu_num"@.len() == 7);
                assert("agent_avail"@ != "cpu_num"@);
                reveal_strlit("uptime");
                assert("uptime"@.len() == 6);
                assert("agent_avail"@ != "uptime"@);
                reveal_strlit("boottime");
                assert("boottime"@.len() == 8);
                assert("agent_avail"@ != "boottime"@);
                reveal_strlit("zombies");
                assert("zombies"@.len() == 7);
                assert("agent_avail"@ != "zombies"@);
                reveal_strlit("proc_num");
                assert("proc_num"@.len() == 8);
                assert("agent_avail"@ != "proc_num"@);
                reveal_strlit("localtime");
                assert("localtime"@.len() == 9);
                assert("agent_avail"@ != "localtime"@);
            }
        },
        Slot::Maxfiles => {
            assert(placement_of(slot_rule_id(Slot::Maxfiles)) == Placement::Slot(Slot::Maxfiles)) by {
                reveal_strlit("maxfiles");
                assert("maxfiles"@.len() == 8);
                reveal_strlit("cpu_util");
                assert("maxfiles"@[0] != "cpu_util"@[0]);
                assert("maxfiles"@ != "cpu_util"@);
                reveal_strlit("mem_util");
                assert("maxfiles"@[1] != "mem_util"@[1]);
                assert("maxfiles"@ != "mem_util"@);
                reveal_strlit("mem_pavail");
                assert("mem_pavail"@.len() == 10);
                assert("maxfiles"@ != "mem_pavail"@);
                reveal_strlit("mem_total");
                assert("mem_total"@.len() == 9);
                assert("maxfiles"@ != "mem_total"@);
                reveal_strlit("swap_util");
                assert("swap_util"@.len() == 9);
                assert("maxfiles"@ != "swap_util"@);
                reveal_strlit("swap_pfree");
                assert("swap_pfree"@.len() == 10);
                assert("maxfiles"@ != "swap_pfree"@);
                reveal_strlit("load1");
                assert("load1"@.len() == 5);
                assert("maxfiles"@ != "load1"@);
                reveal_strlit("load5");
                assert("load5"@.len() == 5);
                assert("maxfiles"@ != "load5"@);
                reveal_strlit("load15");
                assert("load15"@.len() == 6);
                assert("maxfiles"@ != "load15"@);
                reveal_strlit("cpu_num");
                assert("cpu_num"@.len() == 7);
                assert("maxfiles"@ != "cpu_num"@);
                reveal_strlit("uptime");
                assert("uptime"@.len() == 6);
                assert("maxfiles"@ != "uptime"@);
                reveal_strlit("boottime");
                assert("maxfiles"@[0] != "boottime"@[0]);
                assert("maxfiles"@ != "boottime"@);
                reveal_strlit("zombies");
                assert("zombies"@.len() == 7);
                assert("maxfiles"@ != "zombies"@);
                reveal_strlit("proc_num");
                assert("maxfiles"@[0] != "proc_num"@[0]);
                assert("maxfiles"@ != "proc_num"@);
                reveal_strlit("localtime");
                assert("localtime"@.len() == 9);
                assert("maxfiles"@ != "localtime"@);
                reveal_strlit("agent_avail");
                assert("agent_avail"@.len() == 11);
                assert("maxfiles"@ != "agent_avail"@);
            }
        },
        Slot::Openfiles => {
            assert(placement_of(slot_rule_id(Slot::Openfiles)) == Placement::Slot(Slot::Openfiles)) by {
                reveal_strlit("openfiles");
                assert("openfiles"@.len() == 9);
                reveal_strlit("cpu_util");
                assert("cpu_util"@.len() == 8);
                assert("openfiles"@ != "cpu_util"@);
                reveal_strlit("mem_util");
                assert("mem_util"@.len() == 8);
                assert("openfiles"@ != "mem_util"@);
                reveal_strlit("mem_pavail");
                assert("mem_pavail"@.len() == 10);
                assert("openfiles"@ != "mem_pavail"@);
                reveal_strlit("mem_total");
                assert("openfiles"@[0] != "mem_total"@[0]);
                assert("openfiles"@ != "mem_total"@);
                reveal_strlit("swap_util");
                assert("openfiles"@[0] != "swap_util"@[0]);
                assert("openfiles"@ != "swap_util"@);
                reveal_strlit("swap_pfree");
                assert("swap_pfree"@.len() == 10);
                assert("openfiles"@ != "swap_pfree"@);
                reveal_strlit("load1");
                assert("load1"@.len() == 5);
                assert("openfiles"@ != "load1"@);
                reveal_strlit("load5");
                assert("load5"@.len() == 5);
                assert("openfiles"@ != "load5"@);
                reveal_strlit("load15");
                assert("load15"@.len() == 6);
                assert("openfiles"@ != "load15"@);
                reveal_strlit("cpu_num");
                assert("cpu_num"@.len() == 7);
                assert("openfiles"@ != "cpu_num"@);
                reveal_strlit("uptime");
                assert("uptime"@.len() == 6);
                assert("openfiles"@ != "uptime"@);
                reveal_strlit("boottime");
                assert("boottime"@.len() == 8);
                assert("openfiles"@ != "boottime"@);
                reveal_strlit("zombies");
                assert("zombies"@.len() == 7);
                assert("openfiles"@ != "zombies"@);
                reveal_strlit("proc_num");
                assert("proc_num"@.len() == 8);
                assert("openfiles"@ != "proc_num"@);
                reveal_strlit("localtime");
                assert("openfiles"@[0] != "localtime"@[0]);
                assert("openfiles"@ != "localtime"@);
                reveal_strlit("agent_avail");
                assert("agent_avail"@.len() == 11);
                assert("openfiles"@ != "agent_avail"@);
                reveal_strlit("maxfiles");
                assert("maxfiles"@.len() == 8);
                assert("openfiles"@ != "maxfiles"@);
            }
        },
        Slot::IcmpLoss => {
            assert(placement_of(slot_rule_id(Slot::IcmpLoss)) == Placement::Slot(Slot::IcmpLoss)) by {
                reveal_strlit("icmp_loss");
                assert("icmp_loss"@.len() == 9);
                reveal_strlit("cpu_util");
                assert("cpu_util"@.len() == 8);
                assert("icmp_loss"@ != "cpu_util"@);
                reveal_strlit("mem_util");
                assert("mem_util"@.len() == 8);
                assert("icmp_loss"@ != "mem_util"@);
                reveal_strlit("mem_pavail");
                assert("mem_pavail"@.len() == 10);
                assert("icmp_loss"@ != "mem_pavail"@);
                reveal_strlit("mem_total");
                assert("icmp_loss"@[0] != "mem_total"@[0]);
                assert("icmp_loss"@ != "mem_total"@);
                reveal_strlit("swap_util");
                assert("icmp_loss"@[0] != "swap_util"@[0]);
                assert("icmp_loss"@ != "swap_util"@);
                reveal_strlit("swap_pfree");
                assert("swap_pfree"@.len() == 10);
                assert("icmp_loss"@ != "swap_pfree"@);
                reveal_strlit("load1");
                assert("load1"@.len() == 5);
                assert("icmp_loss"@ != "load1"@);
                reveal_strlit("load5");
                assert("load5"@.len() == 5);
                assert("icmp_loss"@ != "load5"@);
                reveal_strlit("load15");
                assert("load15"@.len() == 6);
                assert("icmp_loss"@ != "load15"@);
                reveal_strlit("cpu_num");
                assert("cpu_num"@.len() == 7);
                assert("icmp_loss"@ != "cpu_num"@);
                reveal_strlit("uptime");
                assert("uptime"@.len() == 6);
                assert("icmp_loss"@ != "uptime"@);
                reveal_strlit("boottime");
                assert("boottime"@.len() == 8);
                assert("icmp_loss"@ != "boottime"@);
                reveal_strlit("zombies");
                assert("zombies"@.len() == 7);
                assert("icmp_loss"@ != "zombies"@);
                reveal_strlit("proc_num");
                assert("proc_num"@.len() == 8);
                assert("icmp_loss"@ != "proc_num"@);
                reveal_strlit("localtime");
                assert("icmp_loss"@[0] != "localtime"@[0]);
                assert("icmp_loss"@ != "localtime"@);
                reveal_strlit("agent_avail");
                assert("agent_avail"@.len() == 11);
                assert("icmp_loss"@ != "agent_avail"@);
                reveal_strlit("maxfiles");
                assert("maxfiles"@.len() == 8);
                assert("icmp_loss"@ != "maxfiles"@);
                reveal_strlit("openfiles");
                assert("icmp_loss"@[0] != "openfiles"@[0]);
                assert("icmp_loss"@ != "openfiles"@);
            }
        },
        Slot::IcmpSec => {
            assert(placement_of(slot_rule_id(Slot::IcmpSec)) == Placement::Slot(Slot::IcmpSec)) by {
                reveal_strlit("icmp_sec");
                assert("icmp_sec"@.len() == 8);
                reveal_strlit("cpu_util");
                assert("icmp_sec"@[0] != "cpu_util"@[0]);
                assert("icmp_sec"@ != "cpu_util"@);
                reveal_strlit("mem_util");
                assert("icmp_sec"@[0] != "mem_util"@[0]);
                assert("icmp_sec"@ != "mem_util"@);
                reveal_strlit("mem_pavail");
                assert("mem_pavail"@.len() == 10);
                assert("icmp_sec"@ != "mem_pavail"@);
                reveal_strlit("mem_total");
                assert("mem_total"@.len() == 9);
                assert("icmp_sec"@ != "mem_total"@);
                reveal_strlit("swap_util");
                assert("swap_util"@.len() == 9);
                assert("icmp_sec"@ != "swap_util"@);
                reveal_strlit("swap_pfree");
                assert("swap_pfree"@.len() == 10);
                assert("icmp_sec"@ != "swap_pfree"@);
                reveal_strlit("load1");
                assert("load1"@.len() == 5);
                assert("icmp_sec"@ != "load1"@);
                reveal_strlit("load5");
                assert("load5"@.len() == 5);
                assert("icmp_sec"@ != "load5"@);
                reveal_strlit("load15");
                assert("load15"@.len() == 6);
                assert("icmp_sec"@ != "load15"@);
                reveal_strlit("cpu_num");
                assert("cpu_num"@.len() == 7);
                assert("icmp_sec"@ != "cpu_num"@);
                reveal_strlit("uptime");
                assert("uptime"@.len() == 6);
                assert("icmp_sec"@ != "uptime"@);
                reveal_strlit("boottime");
                assert("icmp_sec"@[0] != "boottime"@[0]);
                assert("icmp_sec"@ != "boottime"@);
                reveal_strlit("zombies");
                assert("zombies"@.len() == 7);
                assert("icmp_sec"@ != "zombies"@);
                reveal_strlit("proc_num");
                assert("icmp_sec"@[0] != "proc_num"@[0]);
                assert("icmp_sec"@ != "proc_num"@);
                reveal_strlit("localtime");
                assert("localtime"@.len() == 9);
                assert("icmp_sec"@ != "localtime"@);
                reveal_strlit("agent_avail");
                assert("agent_avail"@.len() == 11);
                assert("icmp_sec"@ != "agent_avail"@);
                reveal_strlit("maxfiles");
                assert("icmp_sec"@[0] != "maxfiles"@[0]);
                assert("icmp_sec"@ != "maxfiles"@);
                reveal_strlit("openfiles");
                assert("openfiles"@.len() == 9);
                assert("icmp_sec"@ != "openfiles"@);
                reveal_strlit("icmp_loss");
                assert("icmp_loss"@.len() == 9);
                assert("icmp_sec"@ != "icmp_loss"@);
            }
        },
        Slot::CertDays => {
            assert(placement_of(slot_rule_id(Slot::CertDays)) == Placement::Slot(Slot::CertDays)) by {
                reveal_strlit("cert_days");
                assert("cert_days"@.len() == 9);
                reveal_strlit("cpu_util");
                assert("cpu_util"@.len() == 8);
                assert("cert_days"@ != "cpu_util"@);
                reveal_strlit("mem_util");
                assert("mem_util"@.len() == 8);
                assert("cert_days"@ != "mem_util"@);
                reveal_strlit("mem_pavail");
                assert("mem_pavail"@.len() == 10);
                assert("cert_days"@ != "mem_pavail"@);
                reveal_strlit("mem_total");
                assert("cert_days"@[0] != "mem_total"@[0]);
                assert("cert_days"@ != "mem_total"@);
                reveal_strlit("swap_util");
                assert("cert_days"@[0] != "swap_util"@[0]);
                assert("cert_days"@ != "swap_util"@);
                reveal_strlit("swap_pfree");
                assert("swap_pfree"@.len() == 10);
                assert("cert_days"@ != "swap_pfree"@);
                reveal_strlit("load1");
                assert("load1"@.len() == 5);
                assert("cert_days"@ != "load1"@);
                reveal_strlit("load5");
                assert("load5"@.len() == 5);
                assert("cert_days"@ != "load5"@);
                reveal_strlit("load15");
                assert("load15"@.len() == 6);
                assert("cert_days"@ != "load15"@);
                reveal_strlit("cpu_num");
                assert("cpu_num"@.len() == 7);
                assert("cert_days"@ != "cpu_num"@);
                reveal_strlit("uptime");
                assert("uptime"@.len() == 6);
                assert("cert_days"@ != "uptime"@);
                reveal_strlit("boottime");
                assert("boottime"@.len() == 8);
                assert("cert_days"@ != "boottime"@);
                reveal_strlit("zombies");
                assert("zombies"@.len() == 7);
                assert("cert_days"@ != "zombies"@);
                reveal_strlit("proc_num");
                assert("proc_num"@.len() == 8);
                assert("cert_days"@ != "proc_num"@);
                reveal_strlit("localtime");
                assert("cert_days"@[0] != "localtime"@[0]);
                assert("cert_days"@ != "localtime"@);
                reveal_strlit("agent_avail");
                assert("agent_avail"@.len() == 11);
                assert("cert_days"@ != "agent_avail"@);
                reveal_strlit("maxfiles");
                assert("maxfiles"@.len() == 8);
                assert("cert_days"@ != "maxfiles"@);
                reveal_strlit("openfiles");
                assert("cert_days"@[0] != "openfiles"@[0]);
                assert("cert_days"@ != "openfiles"@);
                reveal_strlit("icmp_loss");
                assert("cert_days"@[0] != "icmp_loss"@[0]);
                assert("cert_days"@ != "icmp_loss"@);
                reveal_strlit("icmp_sec");
                assert("icmp_sec"@.len() == 8);
                assert("cert_days"@ != "icmp_sec"@);
            }
        },
    }
}

proof fn lemma_disk_ids(df: DiskField)
    ensures
        placement_of(disk_rule_id(df)) == Placement::Disk(df),
{
    match df {
        DiskField::Pused => {
            assert(placement_of(disk_rule_id(DiskField::Pused)) == Placement::Disk(DiskField::Pused)) by {
                reveal_strlit("disk_pused");
                assert("disk_pused"@.len() == 10);
                reveal_strlit("cpu_util");
                assert("cpu_util"@.len() == 8);
                assert("disk_pused"@ != "cpu_util"@);
                reveal_strlit("mem_util");
                assert("mem_util"@.len() == 8);
                assert("disk_pused"@ != "mem_util"@);
                reveal_strlit("mem_pavail");
                assert("disk_pused"@[0] != "mem_pavail"@[0]);
                assert("disk_pused"@ != "mem_pavail"@);
                reveal_strlit("mem_total");
                assert("mem_total"@.len() == 9);
                assert("disk_pused"@ != "mem_total"@);
                reveal_strlit("swap_util");
                assert("swap_util"@.len() == 9);
                assert("disk_pused"@ != "swap_util"@);
                reveal_strlit("swap_pfree");
                assert("disk_pused"@[0] != "swap_pfree"@[0]);
                assert("disk_pused"@ != "swap_pfree"@);
                reveal_strlit("load1");
                assert("load1"@.len() == 5);
                assert("disk_pused"@ != "load1"@);
                reveal_strlit("load5");
                assert("load5"@.len() == 5);
                assert("disk_pused"@ != "load5"@);
                reveal_strlit("load15");
                assert("load15"@.len() == 6);
                assert("disk_pused"@ != "load15"@);
                reveal_strlit("cpu_num");
                assert("cpu_num"@.len() == 7);
                assert("disk_pused"@ != "cpu_num"@);
                reveal_strlit("uptime");
                assert("uptime"@.len() == 6);
                assert("disk_pused"@ != "uptime"@);
                reveal_strlit("boottime");
                assert("boottime"@.len() == 8);
                assert("disk_pused"@ != "boottime"@);
                reveal_strlit("zombies");
                assert("zombies"@.len() == 7);
                assert("disk_pused"@ != "zombies"@);
                reveal_strlit("proc_num");
                assert("proc_num"@.len() == 8);
                assert("disk_pused"@ != "proc_num"@);
                reveal_strlit("localtime");
                assert("localtime"@.len() == 9);
                assert("disk_pused"@ != "localtime"@);
                reveal_strlit("agent_avail");
                assert("agent_avail"@.len() == 11);
                assert("disk_pused"@ != "agent_avail"@);
                reveal_strlit("maxfiles");
                assert("maxfiles"@.len() == 8);
                assert("disk_pused"@ != "maxfiles"@);
                reveal_strlit("openfiles");
                assert("openfiles"@.len() == 9);
                assert("disk_pused"@ != "openfiles"@);
                reveal_strlit("icmp_loss");
                assert("icmp_loss"@.len() == 9);
                assert("disk_pused"@ != "icmp_loss"@);
                reveal_strlit("icmp_sec");
                assert("icmp_sec"@.len() == 8);
                assert("disk_pused"@ != "icmp_sec"@);
                reveal_strlit("cert_days");
                assert("cert_days"@.len() == 9);
                assert("disk_pused"@ != "cert_days"@);
            }
        },
        DiskField::Used => {
            assert(placement_of(disk_rule_id(DiskField::Used)) == Placement::Disk(DiskField::Used)) by {
                reveal_strlit("disk_used");
                assert("disk_used"@.len() == 9);
                reveal_strlit("cpu_util");
                assert("cpu_util"@.len() == 8);
                assert("disk_used"@ != "cpu_util"@);
                reveal_strlit("mem_util");
                assert("mem_util"@.len() == 8);
                assert("disk_used"@ != "mem_util"@);
                reveal_strlit("mem_pavail");
                assert("mem_pavail"@.len() == 10);
                assert("disk_used"@ != "mem_pavail"@);
                reveal_strlit("mem_total");
                assert("disk_used"@[0] != "mem_total"@[0]);
                assert("disk_used"@ != "mem_total"@);
                reveal_strlit("swap_util");
                assert("disk_used"@[0] != "swap_util"@[0]);
                assert("disk_used"@ != "swap_util"@);
                reveal_strlit("swap_pfree");
                assert("swap_pfree"@.len() == 10);
                assert("disk_used"@ != "swap_pfree"@);
                reveal_strlit("load1");
                assert("load1"@.len() == 5);
                assert("disk_used"@ != "load1"@);
                reveal_strlit("load5");
                assert("load5"@.len() == 5);
                assert("disk_used"@ != "load5"@);
                reveal_strlit("load15");
                assert("load15"@.len() == 6);
                assert("disk_used"@ != "load15"@);
                reveal_strlit("cpu_num");
                assert("cpu_num"@.len() == 7);
                assert("disk_used"@ != "cpu_num"@);
                reveal_strlit("uptime");
                assert("uptime"@.len() == 6);
                assert("disk_used"@ != "uptime"@);
                reveal_strlit("boottime");
                assert("boottime"@.len() == 8);
                assert("disk_used"@ != "boottime"@);
                reveal_strlit("zombies");
                assert("zombies"@.len() == 7);
                assert("disk_used"@ != "zombies"@);
                reveal_strlit("proc_num");
                assert("proc_num"@.len() == 8);
                assert("disk_used"@ != "proc_num"@);
                reveal_strlit("localtime");
                assert("disk_used"@[0] != "localtime"@[0]);
                assert("disk_used"@ != "localtime"@);
                reveal_strlit("agent_avail");
                assert("agent_avail"@.len() == 11);
                assert("disk_used"@ != "agent_avail"@);
                reveal_strlit("maxfiles");
                assert("maxfiles"@.len() == 8);
                assert("disk_used"@ != "maxfiles"@);
                reveal_strlit("openfiles");
                assert("disk_used"@[0] != "openfiles"@[0]);
                assert("disk_used"@ != "openfiles"@);
                reveal_strlit("icmp_loss");
                assert("disk_used"@[0] != "icmp_loss"@[0]);
                assert("disk_used"@ != "icmp_loss"@);
                reveal_strlit("icmp_sec");
                assert("icmp_sec"@.len() == 8);
                assert("disk_used"@ != "icmp_sec"@);
                reveal_strlit("cert_days");
                assert("disk_used"@[0] != "cert_days"@[0]);
                assert("disk_used"@ != "cert_days"@);
                reveal_strlit("disk_pused");
                assert("disk_pused"@.len() == 10);
                assert("disk_used"@ != "disk_pused"@);
                reveal_strlit("disk_pused_old");
                assert("disk_pused_old"@.len() == 14);
                assert("disk_used"@ != "disk_pused_old"@);
            }
        },
        DiskField::Total => {
            assert(placement_of(disk_rule_id(DiskField::Total)) == Placement::Disk(DiskField::Total)) by {
                reveal_strlit("disk_total");
                assert("disk_total"@.len() == 10);
                reveal_strlit("cpu_util");
                assert("cpu_util"@.len() == 8);
                assert("disk_total"@ != "cpu_util"@);
                reveal_strlit("mem_util");
                assert("mem_util"@.len() == 8);
                assert("disk_total"@ != "mem_util"@);
                reveal_strlit("mem_pavail");
                assert("disk_total"@[0] != "mem_pavail"@[0]);
                assert("disk_total"@ != "mem_pavail"@);
                reveal_strlit("mem_total");
                assert("mem_total"@.len() == 9);
                assert("disk_total"@ != "mem_total"@);
                reveal_strlit("swap_util");
                assert("swap_util"@.len() == 9);
                assert("disk_total"@ != "swap_util"@);
                reveal_strlit("swap_pfree");
                assert("disk_total"@[0] != "swap_pfree"@[0]);
                assert("disk_total"@ != "swap_pfree"@);
                reveal_strlit("load1");
                assert("load1"@.len() == 5);
                assert("disk_total"@ != "load1"@);
                reveal_strlit("load5");
                assert("load5"@.len() == 5);
                assert("disk_total"@ != "load5"@);
                reveal_strlit("load15");
                assert("load15"@.len() == 6);
                assert("disk_total"@ != "load15"@);
                reveal_strlit("cpu_num");
                assert("cpu_num"@.len() == 7);
                assert("disk_total"@ != "cpu_num"@);
                reveal_strlit("uptime");
                assert("uptime"@.len() == 6);
                assert("disk_total"@ != "uptime"@);
                reveal_strlit("boottime");
                assert("boottime"@.len() == 8);
                assert("disk_total"@ != "boottime"@);
                reveal_strlit("zombies");
                assert("zombies"@.len() == 7);
                assert("disk_total"@ != "zombies"@);
                reveal_strlit("proc_num");
                assert("proc_num"@.len() == 8);
                assert("disk_total"@ != "proc_num"@);
                reveal_strlit("localtime");
                assert("localtime"@.len() == 9);
                assert("disk_total"@ != "localtime"@);
                reveal_strlit("agent_avail");
                assert("agent_avail"@.len() == 11);
                assert("disk_total"@ != "agent_avail"@);
                reveal_strlit("maxfiles");
                assert("maxfiles"@.len() == 8);
                assert("disk_total"@ != "maxfiles"@);
                reveal_strlit("openfiles");
                assert("openfiles"@.len() == 9);
                assert("disk_total"@ != "openfiles"@);
                reveal_strlit("icmp_loss");
                assert("icmp_loss"@.len() == 9);
                assert("disk_total"@ != "icmp_loss"@);
                reveal_strlit("icmp_sec");
                assert("icmp_sec"@.len() == 8);
                assert("disk_total"@ != "icmp_sec"@);
                reveal_strlit("cert_days");
                assert("cert_days"@.len() == 9);
                assert("disk_total"@ != "cert_days"@);
                reveal_strlit("disk_pused");
                assert("disk_total"@[5] != "disk_pused"@[5]);
                assert("disk_total"@ != "disk_pused"@);
                reveal_strlit("disk_pused_old");
                assert("disk_pused_old"@.len() == 14);
                assert("disk_total"@ != "disk_pused_old"@);
                reveal_strlit("disk_used");
                assert("disk_used"@.len() == 9);
                assert("disk_total"@ != "disk_used"@);
            }
        },
        DiskField::InodePused => {
            assert(placement_of(disk_rule_id(DiskField::InodePused)) == Placement::Disk(DiskField::InodePused)) by {
                reveal_strlit("inode_pused");
                assert("inode_pused"@.len() == 11);
                reveal_strlit("cpu_util");
                assert("cpu_util"@.len() == 8);
                assert("inode_pused"@ != "cpu_util"@);
                reveal_strlit("mem_util");
                assert("mem_util"@.len() == 8);
                assert("inode_pused"@ != "mem_util"@);
                reveal_strlit("mem_pavail");
                assert("mem_pavail"@.len() == 10);
                assert("inode_pused"@ != "mem_pavail"@);
                reveal_strlit("mem_total");
                assert("mem_total"@.len() == 9);
                assert("inode_pused"@ != "mem_total"@);
                reveal_strlit("swap_util");
                assert("swap_util"@.len() == 9);
                assert("inode_pused"@ != "swap_util"@);
                reveal_strlit("swap_pfree");
                assert("swap_pfree"@.len() == 10);
                assert("inode_pused"@ != "swap_pfree"@);
                reveal_strlit("load1");
                assert("load1"@.len() == 5);
                assert("inode_pused"@ != "load1"@);
                reveal_strlit("load5");
                assert("load5"@.len() == 5);
                assert("inode_pused"@ != "load5"@);
                reveal_strlit("load15");
                assert("load15"@.len() == 6);
                assert("inode_pused"@ != "load15"@);
                reveal_strlit("cpu_num");
                assert("cpu_num"@.len() == 7);
                assert("inode_pused"@ != "cpu_num"@);
                reveal_strlit("uptime");
                assert("uptime"@.len() == 6);
                assert("inode_pused"@ != "uptime"@);
                reveal_strlit("boottime");
                assert("boottime"@.len() == 8);
                assert("inode_pused"@ != "boottime"@);
                reveal_strlit("zombies");
                assert("zombies"@.len() == 7);
                assert("inode_pused"@ != "zombies"@);
                reveal_strlit("proc_num");
                assert("proc_num"@.len() == 8);
                assert("inode_pused"@ != "proc_num"@);
                reveal_strlit("localtime");
                assert("localtime"@.len() == 9);
                assert("inode_pused"@ != "localtime"@);
                reveal_strlit("agent_avail");
                assert("inode_pused"@[0] != "agent_avail"@[0]);
                assert("inode_pused"@ != "agent_avail"@);
                reveal_strlit("maxfiles");
                assert("maxfiles"@.len() == 8);
                assert("inode_pused"@ != "maxfiles"@);
                reveal_strlit("openfiles");
                assert("openfiles"@.len() == 9);
                assert("inode_pused"@ != "openfiles"@);
                reveal_strlit("icmp_loss");
                assert("icmp_loss"@.len() == 9);
                assert("inode_pused"@ != "icmp_loss"@);
                reveal_strlit("icmp_sec");
                assert("icmp_sec"@.len() == 8);
                assert("inode_pused"@ != "icmp_sec"@);
                reveal_strlit("cert_days");
                assert("cert_days"@.len() == 9);
                assert("inode_pused"@ != "cert_days"@);
                reveal_strlit("disk_pused");
                assert("disk_pused"@.len() == 10);
                assert("inode_pused"@ != "disk_pused"@);
                reveal_strlit("disk_pused_old");
                assert("disk_pused_old"@.len() == 14);
                assert("inode_pused"@ != "disk_pused_old"@);
                reveal_strlit("disk_used");
                assert("disk_used"@.len() == 9);
                assert("inode_pused"@ != "disk_used"@);
                reveal_strlit("disk_total");
                assert("disk_total"@.len() == 10);
                assert("inode_pused"@ != "disk_total"@);
            }
        },
        DiskField::InodePfree => {
            assert(placement_of(disk_rule_id(DiskField::InodePfree)) == Placement::Disk(DiskField::InodePfree)) by {
                reveal_strlit("inode_pfree");
                assert("inode_pfree"@.len() == 11);
                reveal_strlit("cpu_util");
                assert("cpu_util"@.len() == 8);
                assert("inode_pfree"@ != "cpu_util"@);
                reveal_strlit("mem_util");
                assert("mem_util"@.len() == 8);
                assert("inode_pfree"@ != "mem_util"@);
                reveal_strlit("mem_pavail");
                assert("mem_pavail"@.len() == 10);
                assert("inode_pfree"@ != "mem_pavail"@);
                reveal_strlit("mem_total");
                assert("mem_total"@.len() == 9);
                assert("inode_pfree"@ != "mem_total"@);
                reveal_strlit("swap_util");
                assert("swap_util"@.len() == 9);
                assert("inode_pfree"@ != "swap_util"@);
                reveal_strlit("swap_pfree");
                assert("swap_pfree"@.len() == 10);
                assert("inode_pfree"@ != "swap_pfree"@);
                reveal_strlit("load1");
                assert("load1"@.len() == 5);
                assert("inode_pfree"@ != "load1"@);
                reveal_strlit("load5");
                assert("load5"@.len() == 5);
                assert("inode_pfree"@ != "load5"@);
                reveal_strlit("load15");
                assert("load15"@.len() == 6);
                assert("inode_pfree"@ != "load15"@);
                reveal_strlit("cpu_num");
                assert("cpu_num"@.len() == 7);
                assert("inode_pfree"@ != "cpu_num"@);
                reveal_strlit("uptime");
                assert("uptime"@.len() == 6);
                assert("inode_pfree"@ != "uptime"@);
                reveal_strlit("boottime");
                assert("boottime"@.len() == 8);
                assert("inode_pfree"@ != "boottime"@);
                reveal_strlit("zombies");
                assert("zombies"@.len() == 7);
                assert("inode_pfree"@ != "zombies"@);
                reveal_strlit("proc_num");
                assert("proc_num"@.len() == 8);
                assert("inode_pfree"@ != "proc_num"@);
                reveal_strlit("localtime");
                assert("localtime"@.len() == 9);
                assert("inode_pfree"@ != "localtime"@);
                reveal_strlit("agent_avail");
                assert("inode_pfree"@[0] != "agent_avail"@[0]);
                assert("inode_pfree"@ != "agent_avail"@);
                reveal_strlit("maxfiles");
                assert("maxfiles"@.len() == 8);
                assert("inode_pfree"@ != "maxfiles"@);
                reveal_strlit("openfiles");
                assert("openfiles"@.len() == 9);
                assert("inode_pfree"@ != "openfiles"@);
                reveal_strlit("icmp_loss");
                assert("icmp_loss"@.len() == 9);
                assert("inode_pfree"@ != "icmp_loss"@);
                reveal_strlit("icmp_sec");
                assert("icmp_sec"@.len() == 8);
                assert("inode_pfree"@ != "icmp_sec"@);
                reveal_strlit("cert_days");
                assert("cert_days"@.len() == 9);
                assert("inode_pfree"@ != "cert_days"@);
                reveal_strlit("disk_pused");
                assert("disk_pused"@.len() == 10);
                assert("inode_pfree"@ != "disk_pused"@);
                reveal_strlit("disk_pused_old");
                assert("disk_pused_old"@.len() == 14);
                assert("inode_pfree"@ != "disk_pused_old"@);
                reveal_strlit("disk_used");
                assert("disk_used"@.len() == 9);
                assert("inode_pfree"@ != "disk_used"@);
                reveal_strlit("disk_total");
                assert("disk_total"@.len() == 10);
                assert("inode_pfree"@ != "disk_total"@);
                reveal_strlit("inode_pused");
                assert("inode_pfree"@[7] != "inode_pused"@[7]);
                assert("inode_pfree"@ != "inode_pused"@);
            }
        },
    }
}

proof fn lemma_net_ids(nf: NetField)
    ensures
        placement_of(net_rule_id(nf)) == Placement::Net(nf),
{
    match nf {
        NetField::InBytes => {
            assert(placement_of(net_rule_id(NetField::InBytes)) == Placement::Net(NetField::InBytes)) by {
                reveal_strlit("if_in");
                assert("if_in"@.len() == 5);
                reveal_strlit("cpu_util");
                assert("cpu_util"@.len() == 8);
                assert("if_in"@ != "cpu_util"@);
                reveal_strlit("mem_util");
                assert("mem_util"@.len() == 8);
                assert("if_in"@ != "mem_util"@);
                reveal_strlit("mem_pavail");
                assert("mem_pavail"@.len() == 10);
                assert("if_in"@ != "mem_pavail"@);
                reveal_strlit("mem_total");
                assert("mem_total"@.len() == 9);
                assert("if_in"@ != "mem_total"@);
                reveal_strlit("swap_util");
                assert("swap_util"@.len() == 9);
                assert("if_in"@ != "swap_util"@);
                reveal_strlit("swap_pfree");
                assert("swap_pfree"@.len() == 10);
                assert("if_in"@ != "swap_pfree"@);
                reveal_strlit("load1");
                assert("if_in"@[0] != "load1"@[0]);
                assert("if_in"@ != "load1"@);
                reveal_strlit("load5");
                assert("if_in"@[0] != "load5"@[0]);
                assert("if_in"@ != "load5"@);
                reveal_strlit("load15");
                assert("load15"@.len() == 6);
                assert("if_in"@ != "load15"@);
                reveal_strlit("cpu_num");
                assert("cpu_num"@.len() == 7);
                assert("if_in"@ != "cpu_num"@);
                reveal_strlit("uptime");
                assert("uptime"@.len() == 6);
                assert("if_in"@ != "uptime"@);
                reveal_strlit("boottime");
                assert("boottime"@.len() == 8);
                assert("if_in"@ != "boottime"@);
                reveal_strlit("zombies");
                assert("zombies"@.len() == 7);
                assert("if_in"@ != "zombies"@);
                reveal_strlit("proc_num");
                assert("proc_num"@.len() == 8);
                assert("if_in"@ != "proc_num"@);
                reveal_strlit("localtime");
                assert("localtime"@.len() == 9);
                assert("if_in"@ != "localtime"@);
                reveal_strlit("agent_avail");
                assert("agent_avail"@.len() == 11);
                assert("if_in"@ != "agent_avail"@);
                reveal_strlit("maxfiles");
                assert("maxfiles"@.len() == 8);
                assert("if_in"@ != "maxfiles"@);
                reveal_strlit("openfiles");
                assert("openfiles"@.len() == 9);
                assert("if_in"@ != "openfiles"@);
                reveal_strlit("icmp_loss");
                assert("icmp_loss"@.len() == 9);
                assert("if_in"@ != "icmp_loss"@);
                reveal_strlit("icmp_sec");
                assert("icmp_sec"@.len() == 8);
                assert("if_in"@ != "icmp_sec"@);
                reveal_strlit("cert_days");
                assert("cert_days"@.len() == 9);
                assert("if_in"@ != "cert_days"@);
                reveal_strlit("disk_pused");
                assert("disk_pused"@.len() == 10);
                assert("if_in"@ != "disk_pused"@);
                reveal_strlit("disk_pused_old");
                assert("disk_pused_old"@.len() == 14);
                assert("if_in"@ != "disk_pused_old"@);
                reveal_strlit("disk_used");
                assert("disk_used"@.len() == 9);
                assert("if_in"@ != "disk_used"@);
                reveal_strlit("disk_total");
                assert("disk_total"@.len() == 10);
                assert("if_in"@ != "disk_total"@);
                reveal_strlit("inode_pused");
                assert("inode_pused"@.len() == 11);
                assert("if_in"@ != "inode_pused"@);
                reveal_strlit("inode_pfree");
                assert("inode_pfree"@.len() == 11);
                assert("if_in"@ != "inode_pfree"@);
            }
        },
        NetField::OutBytes => {
            assert(placement_of(net_rule_id(NetField::OutBytes)) == Placement::Net(NetField::OutBytes)) by {
                reveal_strlit("if_out");
                assert("if_out"@.len() == 6);
                reveal_strlit("cpu_util");
                assert("cpu_util"@.len() == 8);
                assert("if_out"@ != "cpu_util"@);
                reveal_strlit("mem_util");
                assert("mem_util"@.len() == 8);
                assert("if_out"@ != "mem_util"@);
                reveal_strlit("mem_pavail");
                assert("mem_pavail"@.len() == 10);
                assert("if_out"@ != "mem_pavail"@);
                reveal_strlit("mem_total");
                assert("mem_total"@.len() == 9);
                assert("if_out"@ != "mem_total"@);
                reveal_strlit("swap_util");
                assert("swap_util"@.len() == 9);
                assert("if_out"@ != "swap_util"@);
                reveal_strlit("swap_pfree");
                assert("swap_pfree"@.len() == 10);
                assert("if_out"@ != "swap_pfree"@);
                reveal_strlit("load1");
                assert("load1"@.len() == 5);
                assert("if_out"@ != "load1"@);
                reveal_strlit("load5");
                assert("load5"@.len() == 5);
                assert("if_out"@ != "load5"@);
                reveal_strlit("load15");
                assert("if_out"@[0] != "load15"@[0]);
                assert("if_out"@ != "load15"@);
                reveal_strlit("cpu_num");
                assert("cpu_num"@.len() == 7);
                assert("if_out"@ != "cpu_num"@);
                reveal_strlit("uptime");
                assert("if_out"@[0] != "uptime"@[0]);
                assert("if_out"@ != "uptime"@);
                reveal_strlit("boottime");
                assert("boottime"@.len() == 8);
                assert("if_out"@ != "boottime"@);
                reveal_strlit("zombies");
                assert("zombies"@.len() == 7);
                assert("if_out"@ != "zombies"@);
                reveal_strlit("proc_num");
                assert("proc_num"@.len() == 8);
                assert("if_out"@ != "proc_num"@);
                reveal_strlit("localtime");
                assert("localtime"@.len() == 9);
                assert("if_out"@ != "localtime"@);
                reveal_strlit("agent_avail");
                assert("agent_avail"@.len() == 11);
                assert("if_out"@ != "agent_avail"@);
                reveal_strlit("maxfiles");
                assert("maxfiles"@.len() == 8);
                assert("if_out"@ != "maxfiles"@);
                reveal_strlit("openfiles");
                assert("openfiles"@.len() == 9);
                assert("if_out"@ != "openfiles"@);
                reveal_strlit("icmp_loss");
                assert("icmp_loss"@.len() == 9);
                assert("if_out"@ != "icmp_loss"@);
                reveal_strlit("icmp_sec");
                assert("icmp_sec"@.len() == 8);
                assert("if_out"@ != "icmp_sec"@);
                reveal_strlit("cert_days");
                assert("cert_days"@.len() == 9);
                assert("if_out"@ != "cert_days"@);
                reveal_strlit("disk_pused");
                assert("disk_pused"@.len() == 10);
                assert("if_out"@ != "disk_pused"@);
                reveal_strlit("disk_pused_old");
                assert("disk_pused_old"@.len() == 14);
                assert("if_out"@ != "disk_pused_old"@);
                reveal_strlit("disk_used");
                assert("disk_used"@.len() == 9);
                assert("if_out"@ != "disk_used"@);
                reveal_strlit("disk_total");
                assert("disk_total"@.len() == 10);
                assert("if_out"@ != "disk_total"@);
                reveal_strlit("inode_pused");
                assert("inode_pused"@.len() == 11);
                assert("if_out"@ != "inode_pused"@);
                reveal_strlit("inode_pfree");
                assert("inode_pfree"@.len() == 11);
                assert("if_out"@ != "inode_pfree"@);
                reveal_strlit("if_in");
                assert("if_in"@.len() == 5);
                assert("if_out"@ != "if_in"@);
                reveal_strlit("if_in_bytes");
                assert("if_in_bytes"@.len() == 11);
                assert("if_out"@ != "if_in_bytes"@);
            }
        },
        NetField::InErr => {
            assert(placement_of(net_rule_id(NetField::InErr)) == Placement::Net(NetField::InErr)) by {
                reveal_strlit("if_in_err");
                assert("if_in_err"@.len() == 9);
                reveal_strlit("cpu_util");
                assert("cpu_util"@.len() == 8);
                assert("if_in_err"@ != "cpu_util"@);
                reveal_strlit("mem_util");
                assert("mem_util"@.len() == 8);
                assert("if_in_err"@ != "mem_util"@);
                reveal_strlit("mem_pavail");
                assert("mem_pavail"@.len() == 10);
                assert("if_in_err"@ != "mem_pavail"@);
                reveal_strlit("mem_total");
                assert("if_in_err"@[0] != "mem_total"@[0]);
                assert("if_in_err"@ != "mem_total"@);
                reveal_strlit("swap_util");
                assert("if_in_err"@[0] != "swap_util"@[0]);
                assert("if_in_err"@ != "swap_util"@);
                reveal_strlit("swap_pfree");
                assert("swap_pfree"@.len() == 10);
                assert("if_in_err"@ != "swap_pfree"@);
                reveal_strlit("load1");
                assert("load1"@.len() == 5);
                assert("if_in_err"@ != "load1"@);
                reveal_strlit("load5");
                assert("load5"@.len() == 5);
                assert("if_in_err"@ != "load5"@);
                reveal_strlit("load15");
                assert("load15"@.len() == 6);
                assert("if_in_err"@ != "load15"@);
                reveal_strlit("cpu_num");
                assert("cpu_num"@.len() == 7);
                assert("if_in_err"@ != "cpu_num"@);
                reveal_strlit("uptime");
                assert("uptime"@.len() == 6);
                assert("if_in_err"@ != "uptime"@);
                reveal_strlit("boottime");
                assert("boottime"@.len() == 8);
                assert("if_in_err"@ != "boottime"@);
                reveal_strlit("zombies");
                assert("zombies"@.len() == 7);
                assert("if_in_err"@ != "zombies"@);
                reveal_strlit("proc_num");
                assert("proc_num"@.len() == 8);
                assert("if_in_err"@ != "proc_num"@);
                reveal_strlit("localtime");
                assert("if_in_err"@[0] != "localtime"@[0]);
                assert("if_in_err"@ != "localtime"@);
                reveal_strlit("agent_avail");
                assert("agent_avail"@.len() == 11);
                assert("if_in_err"@ != "agent_avail"@);
                reveal_strlit("maxfiles");
                assert("maxfiles"@.len() == 8);
                assert("if_in_err"@ != "maxfiles"@);
                reveal_strlit("openfiles");
                assert("if_in_err"@[0] != "openfiles"@[0]);
                assert("if_in_err"@ != "openfiles"@);
                reveal_strlit("icmp_loss");
                assert("if_in_err"@[1] != "icmp_loss"@[1]);
                assert("if_in_err"@ != "icmp_loss"@);
                reveal_strlit("icmp_sec");
                assert("icmp_sec"@.len() == 8);
                assert("if_in_err"@ != "icmp_sec"@);
                reveal_strlit("cert_days");
                assert("if_in_err"@[0] != "cert_days"@[0]);
                assert("if_in_err"@ != "cert_days"@);
                reveal_strlit("disk_pused");
                assert("disk_pused"@.len() == 10);
                assert("if_in_err"@ != "disk_pused"@);
                reveal_strlit("disk_pused_old");
                assert("disk_pused_old"@.len() == 14);
                assert("if_in_err"@ != "disk_pused_old"@);
                reveal_strlit("disk_used");
                assert("if_in_err"@[0] != "disk_used"@[0]);
                assert("if_in_err"@ != "disk_used"@);
                reveal_strlit("disk_total");
                assert("disk_total"@.len() == 10);
                assert("if_in_err"@ != "disk_total"@);
                reveal_strlit("inode_pused");
                assert("inode_pused"@.len() == 11);
                assert("if_in_err"@ != "inode_pused"@);
                reveal_strlit("inode_pfree");
                assert("inode_pfree"@.len() == 11);
                assert("if_in_err"@ != "inode_pfree"@);
                reveal_strlit("if_in");
                assert("if_in"@.len() == 5);
                assert("if_in_err"@ != "if_in"@);
                reveal_strlit("if_in_bytes");
                assert("if_in_bytes"@.len() == 11);
                assert("if_in_err"@ != "if_in_bytes"@);
                reveal_strlit("if_out");
                assert("if_out"@.len() == 6);
                assert("if_in_err"@ != "if_out"@);
                reveal_strlit("if_out_bytes");
                assert("if_out_bytes"@.len() == 12);
                assert("if_in_err"@ != "if_out_bytes"@);
            }
        },
        NetField::OutErr => {
            assert(placement_of(net_rule_id(NetField::OutErr)) == Placement::Net(NetField::OutErr)) by {
                reveal_strlit("if_out_err");
                assert("if_out_err"@.len() == 10);
                reveal_strlit("cpu_util");
                assert("cpu_util"@.len() == 8);
                assert("if_out_err"@ != "cpu_util"@);
                reveal_strlit("mem_util");
                assert("mem_util"@.len() == 8);
                assert("if_out_err"@ != "mem_util"@);
                reveal_strlit("mem_pavail");
                assert("if_out_err"@[0] != "mem_pavail"@[0]);
                assert("if_out_err"@ != "mem_pavail"@);
                reveal_strlit("mem_total");
                assert("mem_total"@.len() == 9);
                assert("if_out_err"@ != "mem_total"@);
                reveal_strlit("swap_util");
                assert("swap_util"@.len() == 9);
                assert("if_out_err"@ != "swap_util"@);
                reveal_strlit("swap_pfree");
                assert("if_out_err"@[0] != "swap_pfree"@[0]);
                assert("if_out_err"@ != "swap_pfree"@);
                reveal_strlit("load1");
                assert("load1"@.len() == 5);
                assert("if_out_err"@ != "load1"@);
                reveal_strlit("load5");
                assert("load5"@.len() == 5);
                assert("if_out_err"@ != "load5"@);
                reveal_strlit("load15");
                assert("load15"@.len() == 6);
                assert("if_out_err"@ != "load15"@);
                reveal_strlit("cpu_num");
                assert("cpu_num"@.len() == 7);
                assert("if_out_err"@ != "cpu_num"@);
                reveal_strlit("uptime");
                assert("uptime"@.len() == 6);
                assert("if_out_err"@ != "uptime"@);
                reveal_strlit("boottime");
                assert("boottime"@.len() == 8);
                assert("if_out_err"@ != "boottime"@);
                reveal_strlit("zombies");
                assert("zombies"@.len() == 7);
                assert("if_out_err"@ != "zombies"@);
                reveal_strlit("proc_num");
                assert("proc_num"@.len() == 8);
                assert("if_out_err"@ != "proc_num"@);
                reveal_strlit("localtime");
                assert("localtime"@.len() == 9);
                assert("if_out_err"@ != "localtime"@);
                reveal_strlit("agent_avail");
                assert("agent_avail"@.len() == 11);
                assert("if_out_err"@ != "agent_avail"@);
                reveal_strlit("maxfiles");
                assert("maxfiles"@.len() == 8);
                assert("if_out_err"@ != "maxfiles"@);
                reveal_strlit("openfiles");
                assert("openfiles"@.len() == 9);
                assert("if_out_err"@ != "openfiles"@);
                reveal_strlit("icmp_loss");
                assert("icmp_loss"@.len() == 9);
                assert("if_out_err"@ != "icmp_loss"@);
                reveal_strlit("icmp_sec");
                assert("icmp_sec"@.len() == 8);
                assert("if_out_err"@ != "icmp_sec"@);
                reveal_strlit("cert_days");
                assert("cert_days"@.len() == 9);
                assert("if_out_err"@ != "cert_days"@);
                reveal_strlit("disk_pused");
                assert("if_out_err"@[0] != "disk_pused"@[0]);
                assert("if_out_err"@ != "disk_pused"@);
                reveal_strlit("disk_pused_old");
                assert("disk_pused_old"@.len() == 14);
                assert("if_out_err"@ != "disk_pused_old"@);
                reveal_strlit("disk_used");
                assert("disk_used"@.len() == 9);
                assert("if_out_err"@ != "disk_used"@);
                reveal_strlit("disk_total");
                assert("if_out_err"@[0] != "disk_total"@[0]);
                assert("if_out_err"@ != "disk_total"@);
                reveal_strlit("inode_pused");
                assert("inode_pused"@.len() == 11);
                assert("if_out_err"@ != "inode_pused"@);
                reveal_strlit("inode_pfree");
                assert("inode_pfree"@.len() == 11);
                assert("if_out_err"@ != "inode_pfree"@);
                reveal_strlit("if_in");
                assert("if_in"@.len() == 5);
                assert("if_out_err"@ != "if_in"@);
                reveal_strlit("if_in_bytes");
                assert("if_in_bytes"@.len() == 11);
                assert("if_out_err"@ != "if_in_bytes"@);
                reveal_strlit("if_out");
                assert("if_out"@.len() == 6);
                assert("if_out_err"@ != "if_out"@);
                reveal_strlit("if_out_bytes");
                assert("if_out_bytes"@.len() == 12);
                assert("if_out_err"@ != "if_out_bytes"@);
                reveal_strlit("if_in_err");
                assert("if_in_err"@.len() == 9);
                assert("if_out_err"@ != "if_in_err"@);
            }
        },
        NetField::InDrop => {
            assert(placement_of(net_rule_id(NetField::InDrop)) == Placement::Net(NetField::InDrop)) by {
                reveal_strlit("if_in_drop");
                assert("if_in_drop"@.len() == 10);
                reveal_strlit("cpu_util");
                assert("cpu_util"@.len() == 8);
                assert("if_in_drop"@ != "cpu_util"@);
                reveal_strlit("mem_util");
                assert("mem_util"@.len() == 8);
                assert("if_in_drop"@ != "mem_util"@);
                reveal_strlit("mem_pavail");
                assert("if_in_drop"@[0] != "mem_pavail"@[0]);
                assert("if_in_drop"@ != "mem_pavail"@);
                reveal_strlit("mem_total");
                assert("mem_total"@.len() == 9);
                assert("if_in_drop"@ != "mem_total"@);
                reveal_strlit("swap_util");
                assert("swap_util"@.len() == 9);
                assert("if_in_drop"@ != "swap_util"@);
                reveal_strlit("swap_pfree");
                assert("if_in_drop"@[0] != "swap_pfree"@[0]);
                assert("if_in_drop"@ != "swap_pfree"@);
                reveal_strlit("load1");
                assert("load1"@.len() == 5);
                assert("if_in_drop"@ != "load1"@);
                reveal_strlit("load5");
                assert("load5"@.len() == 5);
                assert("if_in_drop"@ != "load5"@);
                reveal_strlit("load15");
                assert("load15"@.len() == 6);
                assert("if_in_drop"@ != "load15"@);
                reveal_strlit("cpu_num");
                assert("cpu_num"@.len() == 7);
                assert("if_in_drop"@ != "cpu_num"@);
                reveal_strlit("uptime");
                assert("uptime"@.len() == 6);
                assert("if_in_drop"@ != "uptime"@);
                reveal_strlit("boottime");
                assert("boottime"@.len() == 8);
                assert("if_in_drop"@ != "boottime"@);
                reveal_strlit("zombies");
                assert("zombies"@.len() == 7);
                assert("if_in_drop"@ != "zombies"@);
                reveal_strlit("proc_num");
                assert("proc_num"@.len() == 8);
                assert("if_in_drop"@ != "proc_num"@);
                reveal_strlit("localtime");
                assert("localtime"@.len() == 9);
                assert("if_in_drop"@ != "localtime"@);
                reveal_strlit("agent_avail");
                assert("agent_avail"@.len() == 11);
                assert("if_in_drop"@ != "agent_avail"@);
                reveal_strlit("maxfiles");
                assert("maxfiles"@.len() == 8);
                assert("if_in_drop"@ != "maxfiles"@);
                reveal_strlit("openfiles");
                assert("openfiles"@.len() == 9);
                assert("if_in_drop"@ != "openfiles"@);
                reveal_strlit("icmp_loss");
                assert("icmp_loss"@.len() == 9);
                assert("if_in_drop"@ != "icmp_loss"@);
                reveal_strlit("icmp_sec");
                assert("icmp_sec"@.len() == 8);
                assert("if_in_drop"@ != "icmp_sec"@);
                reveal_strlit("cert_days");
                assert("cert_days"@.len() == 9);
                assert("if_in_drop"@ != "cert_days"@);
                reveal_strlit("disk_pused");
                assert("if_in_drop"@[0] != "disk_pused"@[0]);
                assert("if_in_drop"@ != "disk_pused"@);
                reveal_strlit("disk_pused_old");
                assert("disk_pused_old"@.len() == 14);
                assert("if_in_drop"@ != "disk_pused_old"@);
                reveal_strlit("disk_used");
                assert("disk_used"@.len() == 9);
                assert("if_in_drop"@ != "disk_used"@);
                reveal_strlit("disk_total");
                assert("if_in_drop"@[0] != "disk_total"@[0]);
                assert("if_in_drop"@ != "disk_total"@);
                reveal_strlit("inode_pused");
                assert("inode_pused"@.len() == 11);
                assert("if_in_drop"@ != "inode_pused"@);
                reveal_strlit("inode_pfree");
                assert("inode_pfree"@.len() == 11);
                assert("if_in_drop"@ != "inode_pfree"@);
                reveal_strlit("if_in");
                assert("if_in"@.len() == 5);
                assert("if_in_drop"@ != "if_in"@);
                reveal_strlit("if_in_bytes");
                assert("if_in_bytes"@.len() == 11);
                assert("if_in_drop"@ != "if_in_bytes"@);
                reveal_strlit("if_out");
                assert("if_out"@.len() == 6);
                assert("if_in_drop"@ != "if_out"@);
                reveal_strlit("if_out_bytes");
                assert("if_out_bytes"@.len() == 12);
                assert("if_in_drop"@ != "if_out_bytes"@);
                reveal_strlit("if_in_err");
                assert("if_in_err"@.len() == 9);
                assert("if_in_drop"@ != "if_in_err"@);
                reveal_strlit("if_out_err");
                assert("if_in_drop"@[3] != "if_out_err"@[3]);
                assert("if_in_drop"@ != "if_out_err"@);
            }
        },
        NetField::OutDrop => {
            assert(placement_of(net_rule_id(NetField::OutDrop)) == Placement::Net(NetField::OutDrop)) by {
                reveal_strlit("if_out_drop");
                assert("if_out_drop"@.len() == 11);
                reveal_strlit("cpu_util");
                assert("cpu_util"@.len() == 8);
                assert("if_out_drop"@ != "cpu_util"@);
                reveal_strlit("mem_util");
                assert("mem_util"@.len() == 8);
                assert("if_out_drop"@ != "mem_util"@);
                reveal_strlit("mem_pavail");
                assert("mem_pavail"@.len() == 10);
                assert("if_out_drop"@ != "mem_pavail"@);
                reveal_strlit("mem_total");
                assert("mem_total"@.len() == 9);
                assert("if_out_drop"@ != "mem_total"@);
                reveal_strlit("swap_util");
                assert("swap_util"@.len() == 9);
                assert("if_out_drop"@ != "swap_util"@);
                reveal_strlit("swap_pfree");
                assert("swap_pfree"@.len() == 10);
                assert("if_out_drop"@ != "swap_pfree"@);
                reveal_strlit("load1");
                assert("load1"@.len() == 5);
                assert("if_out_drop"@ != "load1"@);
                reveal_strlit("load5");
                assert("load5"@.len() == 5);
                assert("if_out_drop"@ != "load5"@);
                reveal_strlit("load15");
                assert("load15"@.len() == 6);
                assert("if_out_drop"@ != "load15"@);
                reveal_strlit("cpu_num");
                assert("cpu_num"@.len() == 7);
                assert("if_out_drop"@ != "cpu_num"@);
                reveal_strlit("uptime");
                assert("uptime"@.len() == 6);
                assert("if_out_drop"@ != "uptime"@);
                reveal_strlit("boottime");
                assert("boottime"@.len() == 8);
                assert("if_out_drop"@ != "boottime"@);
                reveal_strlit("zombies");
                assert("zombies"@.len() == 7);
                assert("if_out_drop"@ != "zombies"@);
                reveal_strlit("proc_num");
                assert("proc_num"@.len() == 8);
                assert("if_out_drop"@ != "proc_num"@);
                reveal_strlit("localtime");
                assert("localtime"@.len() == 9);
                assert("if_out_drop"@ != "localtime"@);
                reveal_strlit("agent_avail");
                assert("if_out_drop"@[0] != "agent_avail"@[0]);
                assert("if_out_drop"@ != "agent_avail"@);
                reveal_strlit("maxfiles");
                assert("maxfiles"@.len() == 8);
                assert("if_out_drop"@ != "maxfiles"@);
                reveal_strlit("openfiles");
                assert("openfiles"@.len() == 9);
                assert("if_out_drop"@ != "openfiles"@);
                reveal_strlit("icmp_loss");
                assert("icmp_loss"@.len() == 9);
                assert("if_out_drop"@ != "icmp_loss"@);
                reveal_strlit("icmp_sec");
                assert("icmp_sec"@.len() == 8);
                assert("if_out_drop"@ != "icmp_sec"@);
                reveal_strlit("cert_days");
                assert("cert_days"@.len() == 9);
                assert("if_out_drop"@ != "cert_days"@);
                reveal_strlit("disk_pused");
                assert("disk_pused"@.len() == 10);
                assert("if_out_drop"@ != "disk_pused"@);
                reveal_strlit("disk_pused_old");
                assert("disk_pused_old"@.len() == 14);
                assert("if_out_drop"@ != "disk_pused_old"@);
                reveal_strlit("disk_used");
                assert("disk_used"@.len() == 9);
                assert("if_out_drop"@ != "disk_used"@);
                reveal_strlit("disk_total");
                assert("disk_total"@.len() == 10);
                assert("if_out_drop"@ != "disk_total"@);
                reveal_strlit("inode_pused");
                assert("if_out_drop"@[1] != "inode_pused"@[1]);
                assert("if_out_drop"@ != "inode_pused"@);
                reveal_strlit("inode_pfree");
                assert("if_out_drop"@[1] != "inode_pfree"@[1]);
                assert("if_out_drop"@ != "inode_pfree"@);
                reveal_strlit("if_in");
                assert("if_in"@.len() == 5);
                assert("if_out_drop"@ != "if_in"@);
                reveal_strlit("if_in_bytes");
                assert("if_out_drop"@[3] != "if_in_bytes"@[3]);
                assert("if_out_drop"@ != "if_in_bytes"@);
                reveal_strlit("if_out");
                assert("if_out"@.len() == 6);
                assert("if_out_drop"@ != "if_out"@);
                reveal_strlit("if_out_bytes");
                assert("if_out_bytes"@.len() == 12);
                assert("if_out_drop"@ != "if_out_bytes"@);
                reveal_strlit("if_in_err");
                assert("if_in_err"@.len() == 9);
                assert("if_out_drop"@ != "if_in_err"@);
                reveal_strlit("if_out_err");
                assert("if_out_err"@.len() == 10);
                assert("if_out_drop"@ != "if_out_err"@);
                reveal_strlit("if_in_drop");
                assert("if_in_drop"@.len() == 10);
                assert("if_out_drop"@ != "if_in_drop"@);
            }
        },
        NetField::Speed => {
            assert(placement_of(net_rule_id(NetField::Speed)) == Placement::Net(NetField::Speed)) by {
                reveal_strlit("if_speed");
                assert("if_speed"@.len() == 8);
                reveal_strlit("cpu_util");
                assert("if_speed"@[0] != "cpu_util"@[0]);
                assert("if_speed"@ != "cpu_util"@);
                reveal_strlit("mem_util");
                assert("if_speed"@[0] != "mem_util"@[0]);
                assert("if_speed"@ != "mem_util"@);
                reveal_strlit("mem_pavail");
                assert("mem_pavail"@.len() == 10);
                assert("if_speed"@ != "mem_pavail"@);
                reveal_strlit("mem_total");
                assert("mem_total"@.len() == 9);
                assert("if_speed"@ != "mem_total"@);
                reveal_strlit("swap_util");
                assert("swap_util"@.len() == 9);
                assert("if_speed"@ != "swap_util"@);
                reveal_strlit("swap_pfree");
                assert("swap_pfree"@.len() == 10);
                assert("if_speed"@ != "swap_pfree"@);
                reveal_strlit("load1");
                assert("load1"@.len() == 5);
                assert("if_speed"@ != "load1"@);
                reveal_strlit("load5");
                assert("load5"@.len() == 5);
                assert("if_speed"@ != "load5"@);
                reveal_strlit("load15");
                assert("load15"@.len() == 6);
                assert("if_speed"@ != "load15"@);
                reveal_strlit("cpu_num");
                assert("cpu_num"@.len() == 7);
                assert("if_speed"@ != "cpu_num"@);
                reveal_strlit("uptime");
                assert("uptime"@.len() == 6);
                assert("if_speed"@ != "uptime"@);
                reveal_strlit("boottime");
                assert("if_speed"@[0] != "boottime"@[0]);
                assert("if_speed"@ != "boottime"@);
                reveal_strlit("zombies");
                assert("zombies"@.len() == 7);
                assert("if_speed"@ != "zombies"@);
                reveal_strlit("proc_num");
                assert("if_speed"@[0] != "proc_num"@[0]);
                assert("if_speed"@ != "proc_num"@);
                reveal_strlit("localtime");
                assert("localtime"@.len() == 9);
                assert("if_speed"@ != "localtime"@);
                reveal_strlit("agent_avail");
                assert("agent_avail"@.len() == 11);
                assert("if_speed"@ != "agent_avail"@);
                reveal_strlit("maxfiles");
                assert("if_speed"@[0] != "maxfiles"@[0]);
                assert("if_speed"@ != "maxfiles"@);
                reveal_strlit("openfiles");
                assert("openfiles"@.len() == 9);
                assert("if_speed"@ != "openfiles"@);
                reveal_strlit("icmp_loss");
                assert("icmp_loss"@.len() == 9);
                assert("if_speed"@ != "icmp_loss"@);
                reveal_strlit("icmp_sec");
                assert("if_speed"@[1] != "icmp_sec"@[1]);
                assert("if_speed"@ != "icmp_sec"@);
                reveal_strlit("cert_days");
                assert("cert_days"@.len() == 9);
                assert("if_speed"@ != "cert_days"@);
                reveal_strlit("disk_pused");
                assert("disk_pused"@.len() == 10);
                assert("if_speed"@ != "disk_pused"@);
                reveal_strlit("disk_pused_old");
                assert("disk_pused_old"@.len() == 14);
                assert("if_speed"@ != "disk_pused_old"@);
                reveal_strlit("disk_used");
                assert("disk_used"@.len() == 9);
                assert("if_speed"@ != "disk_used"@);
                reveal_strlit("disk_total");
                assert("disk_total"@.len() == 10);
                assert("if_speed"@ != "disk_total"@);
                reveal_strlit("inode_pused");
                assert("inode_pused"@.len() == 11);
                assert("if_speed"@ != "inode_pused"@);
                reveal_strlit("inode_pfree");
                assert("inode_pfree"@.len() == 11);
                assert("if_speed"@ != "inode_pfree"@);
                reveal_strlit("if_in");
                assert("if_in"@.len() == 5);
                assert("if_speed"@ != "if_in"@);
                reveal_strlit("if_in_bytes");
                assert("if_in_bytes"@.len() == 11);
                assert("if_speed"@ != "if_in_bytes"@);
                reveal_strlit("if_out");
                assert("if_out"@.len() == 6);
                assert("if_speed"@ != "if_out"@);
                reveal_strlit("if_out_bytes");
                assert("if_out_bytes"@.len() == 12);
                assert("if_speed"@ != "if_out_bytes"@);
                reveal_strlit("if_in_err");
                assert("if_in_err"@.len() == 9);
                assert("if_speed"@ != "if_in_err"@);
                reveal_strlit("if_out_err");
                assert("if_out_err"@.len() == 10);
                assert("if_speed"@ != "if_out_err"@);
                reveal_strlit("if_in_drop");
                assert("if_in_drop"@.len() == 10);
                assert("if_speed"@ != "if_in_drop"@);
                reveal_strlit("if_out_drop");
                assert("if_out_drop"@.len() == 11);
                assert("if_speed"@ != "if_out_drop"@);
            }
        },
    }
}

/// Each rule puts its items where its id says: the items of a slot's rule
/// (`load1`, `load5`, `cpu_util`, ...) go to that slot and to no other, those
/// of a partition or interface rule go to that field, the older names of the
/// used-space and traffic rules go where the current ones do, and service
/// checks and disk latency have places of their own.
pub proof fn law_rules_place_by_id(sl: Slot, df: DiskField, nf: NetField)
    ensures
        placement_of(slot_rule_id(sl)) == Placement::Slot(sl),
        placement_of(disk_rule_id(df)) == Placement::Disk(df),
        placement_of(net_rule_id(nf)) == Placement::Net(nf),
        placement_of("disk_pused_old"@) == Placement::Disk(DiskField::Pused),
        placement_of("if_in_bytes"@) == Placement::Net(NetField::InBytes),
        placement_of("if_out_bytes"@) == Placement::Net(NetField::OutBytes),
        placement_of("tcp_service"@) == Placement::Service,
        placement_of("io_await"@) == Placement::IoAwait,
{
    lemma_slot_ids(sl);
    lemma_disk_ids(df);
    lemma_net_ids(nf);
    assert(placement_of("disk_pused_old"@) == Placement::Disk(DiskField::Pused)) by {
        reveal_strlit("disk_pused_old");
        assert("disk_pused_old"@.len() == 14);
        reveal_strlit("cpu_util");
        assert("cpu_util"@.len() == 8);
        assert("disk_pused_old"@ != "cpu_util"@);
        reveal_strlit("mem_util");
        assert("mem_util"@.len() == 8);
        assert("disk_pused_old"@ != "mem_util"@);
        reveal_strlit("mem_pavail");
        assert("mem_pavail"@.len() == 10);
        assert("disk_pused_old"@ != "mem_pavail"@);
        reveal_strlit("mem_total");
        assert("mem_total"@.len() == 9);
        assert("disk_pused_old"@ != "mem_total"@);
        reveal_strlit("swap_util");
        assert("swap_util"@.len() == 9);
        assert("disk_pused_old"@ != "swap_util"@);
        reveal_strlit("swap_pfree");
        assert("swap_pfree"@.len() == 10);
        assert("disk_pused_old"@ != "swap_pfree"@);
        reveal_strlit("load1");
        assert("load1"@.len() == 5);
        assert("disk_pused_old"@ != "load1"@);
        reveal_strlit("load5");
        assert("load5"@.len() == 5);
        assert("disk_pused_old"@ != "load5"@);
        reveal_strlit("load15");
        assert("load15"@.len() == 6);
        assert("disk_pused_old"@ != "load15"@);
        reveal_strlit("cpu_num");
        assert("cpu_num"@.len() == 7);
        assert("disk_pused_old"@ != "cpu_num"@);
        reveal_strlit("uptime");
        assert("uptime"@.len() == 6);
        assert("disk_pused_old"@ != "uptime"@);
        reveal_strlit("boottime");
        assert("boottime"@.len() == 8);
        assert("disk_pused_old"@ != "boottime"@);
        reveal_strlit("zombies");
        assert("zombies"@.len() == 7);
        assert("disk_pused_old"@ != "zombies"@);
        reveal_strlit("proc_num");
        assert("proc_num"@.len() == 8);
        assert("disk_pused_old"@ != "proc_num"@);
        reveal_strlit("localtime");
        assert("localtime"@.len() == 9);
        assert("disk_pused_old"@ != "localtime"@);
        reveal_strlit("agent_avail");
        assert("agent_avail"@.len() == 11);
        assert("disk_pused_old"@ != "agent_avail"@);
        reveal_strlit("maxfiles");
        assert("maxfiles"@.len() == 8);
        assert("disk_pused_old"@ != "maxfiles"@);
        reveal_strlit("openfiles");
        assert("openfiles"@.len() == 9);
        assert("disk_pused_old"@ != "openfiles"@);
        reveal_strlit("icmp_loss");
        assert("icmp_loss"@.len() == 9);
        assert("disk_pused_old"@ != "icmp_loss"@);
        reveal_strlit("icmp_sec");
        assert("icmp_sec"@.len() == 8);
        assert("disk_pused_old"@ != "icmp_sec"@);
        reveal_strlit("cert_days");
        assert("cert_days"@.len() == 9);
        assert("disk_pused_old"@ != "cert_days"@);
        reveal_strlit("disk_pused");
        assert("disk_pused"@.len() == 10);
        assert("disk_pused_old"@ != "disk_pused"@);
    }
    assert(placement_of("if_in_bytes"@) == Placement::Net(NetField::InBytes)) by {
        reveal_strlit("if_in_bytes");
        assert("if_in_bytes"@.len() == 11);
        reveal_strlit("cpu_util");
        assert("cpu_util"@.len() == 8);
        assert("if_in_bytes"@ != "cpu_util"@);
        reveal_strlit("mem_util");
        assert("mem_util"@.len() == 8);
        assert("if_in_bytes"@ != "mem_util"@);
        reveal_strlit("mem_pavail");
        assert("mem_pavail"@.len() == 10);
        assert("if_in_bytes"@ != "mem_pavail"@);
        reveal_strlit("mem_total");
        assert("mem_total"@.len() == 9);
        assert("if_in_bytes"@ != "mem_total"@);
        reveal_strlit("swap_util");
        assert("swap_util"@.len() == 9);
        assert("if_in_bytes"@ != "swap_util"@);
        reveal_strlit("swap_pfree");
        assert("swap_pfree"@.len() == 10);
        assert("if_in_bytes"@ != "swap_pfree"@);
        reveal_strlit("load1");
        assert("load1"@.len() == 5);
        assert("if_in_bytes"@ != "load1"@);
        reveal_strlit("load5");
        assert("load5"@.len() == 5);
        assert("if_in_bytes"@ != "load5"@);
        reveal_strlit("load15");
        assert("load15"@.len() == 6);
        assert("if_in_bytes"@ != "load15"@);
        reveal_strlit("cpu_num");
        assert("cpu_num"@.len() == 7);
        assert("if_in_bytes"@ != "cpu_num"@);
        reveal_strlit("uptime");
        assert("uptime"@.len() == 6);
        assert("if_in_bytes"@ != "uptime"@);
        reveal_strlit("boottime");
        assert("boottime"@.len() == 8);
        assert("if_in_bytes"@ != "boottime"@);
        reveal_strlit("zombies");
        assert("zombies"@.len() == 7);
        assert("if_in_bytes"@ != "zombies"@);
        reveal_strlit("proc_num");
        assert("proc_num"@.len() == 8);
        assert("if_in_bytes"@ != "proc_num"@);
        reveal_strlit("localtime");
        assert("localtime"@.len() == 9);
        assert("if_in_bytes"@ != "localtime"@);
        reveal_strlit("agent_avail");
        assert("if_in_bytes"@[0] != "agent_avail"@[0]);
        assert("if_in_bytes"@ != "agent_avail"@);
        reveal_strlit("maxfiles");
        assert("maxfiles"@.len() == 8);
        assert("if_in_bytes"@ != "maxfiles"@);
        reveal_strlit("openfiles");
        assert("openfiles"@.len() == 9);
        assert("if_in_bytes"@ != "openfiles"@);
        reveal_strlit("icmp_loss");
        assert("icmp_loss"@.len() == 9);
        assert("if_in_bytes"@ != "icmp_loss"@);
        reveal_strlit("icmp_sec");
        assert("icmp_sec"@.len() == 8);
        assert("if_in_bytes"@ != "icmp_sec"@);
        reveal_strlit("cert_days");
        assert("cert_days"@.len() == 9);
        assert("if_in_bytes"@ != "cert_days"@);
        reveal_strlit("disk_pused");
        assert("disk_pused"@.len() == 10);
        assert("if_in_bytes"@ != "disk_pused"@);
        reveal_strlit("disk_pused_old");
        assert("disk_pused_old"@.len() == 14);
        assert("if_in_bytes"@ != "disk_pused_old"@);
        reveal_strlit("disk_used");
        assert("disk_used"@.len() == 9);
        assert("if_in_bytes"@ != "disk_used"@);
        reveal_strlit("disk_total");
        assert("disk_total"@.len() == 10);
        assert("if_in_bytes"@ != "disk_total"@);
        reveal_strlit("inode_pused");
        assert("if_in_bytes"@[1] != "inode_pused"@[1]);
        assert("if_in_bytes"@ != "inode_pused"@);
        reveal_strlit("inode_pfree");
        assert("if_in_bytes"@[1] != "inode_pfree"@[1]);
        assert("if_in_bytes"@ != "inode_pfree"@);
        reveal_strlit("if_in");
        assert("if_in"@.len() == 5);
        assert("if_in_bytes"@ != "if_in"@);
    }
    assert(placement_of("if_out_bytes"@) == Placement::Net(NetField::OutBytes)) by {
        reveal_strlit("if_out_bytes");
        assert("if_out_bytes"@.len() == 12);
        reveal_strlit("cpu_util");
        assert("cpu_util"@.len() == 8);
        assert("if_out_bytes"@ != "cpu_util"@);
        reveal_strlit("mem_util");
        assert("mem_util"@.len() == 8);
        assert("if_out_bytes"@ != "mem_util"@);
        reveal_strlit("mem_pavail");
        assert("mem_pavail"@.len() == 10);
        assert("if_out_bytes"@ != "mem_pavail"@);
        reveal_strlit("mem_total");
        assert("mem_total"@.len() == 9);
        assert("if_out_bytes"@ != "mem_total"@);
        reveal_strlit("swap_util");
        assert("swap_util"@.len() == 9);
        assert("if_out_bytes"@ != "swap_util"@);
        reveal_strlit("swap_pfree");
        assert("swap_pfree"@.len() == 10);
        assert("if_out_bytes"@ != "swap_pfree"@);
        reveal_strlit("load1");
        assert("load1"@.len() == 5);
        assert("if_out_bytes"@ != "load1"@);
        reveal_strlit("load5");
        assert("load5"@.len() == 5);
        assert("if_out_bytes"@ != "load5"@);
        reveal_strlit("load15");
        assert("load15"@.len() == 6);
        assert("if_out_bytes"@ != "load15"@);
        reveal_strlit("cpu_num");
        assert("cpu_num"@.len() == 7);
        assert("if_out_bytes"@ != "cpu_num"@);
        reveal_strlit("uptime");
        assert("uptime"@.len() == 6);
        assert("if_out_bytes"@ != "uptime"@);
        reveal_strlit("boottime");
        assert("boottime"@.len() == 8);
        assert("if_out_bytes"@ != "boottime"@);
        reveal_strlit("zombies");
        assert("zombies"@.len() == 7);
        assert("if_out_bytes"@ != "zombies"@);
        reveal_strlit("proc_num");
        assert("proc_num"@.len() == 8);
        assert("if_out_bytes"@ != "proc_num"@);
        reveal_strlit("localtime");
        assert("localtime"@.len() == 9);
        assert("if_out_bytes"@ != "localtime"@);
        reveal_strlit("agent_avail");
        assert("agent_avail"@.len() == 11);
        assert("if_out_bytes"@ != "agent_avail"@);
        reveal_strlit("maxfiles");
        assert("maxfiles"@.len() == 8);
        assert("if_out_bytes"@ != "maxfiles"@);
        reveal_strlit("openfiles");
        assert("openfiles"@.len() == 9);
        assert("if_out_bytes"@ != "openfiles"@);
        reveal_strlit("icmp_loss");
        assert("icmp_loss"@.len() == 9);
        assert("if_out_bytes"@ != "icmp_loss"@);
        reveal_strlit("icmp_sec");
        assert("icmp_sec"@.len() == 8);
        assert("if_out_bytes"@ != "icmp_sec"@);
        reveal_strlit("cert_days");
        assert("cert_days"@.len() == 9);
        assert("if_out_bytes"@ != "cert_days"@);
        reveal_strlit("disk_pused");
        assert("disk_pused"@.len() == 10);
        assert("if_out_bytes"@ != "disk_pused"@);
        reveal_strlit("disk_pused_old");
        assert("disk_pused_old"@.len() == 14);
        assert("if_out_bytes"@ != "disk_pused_old"@);
        reveal_strlit("disk_used");
        assert("disk_used"@.len() == 9);
        assert("if_out_bytes"@ != "disk_used"@);
        reveal_strlit("disk_total");
        assert("disk_total"@.len() == 10);
        assert("if_out_bytes"@ != "disk_total"@);
        reveal_strlit("inode_pused");
        assert("inode_pused"@.len() == 11);
        assert("if_out_bytes"@ != "inode_pused"@);
        reveal_strlit("inode_pfree");
        assert("inode_pfree"@.len() == 11);
        assert("if_out_bytes"@ != "inode_pfree"@);
        reveal_strlit("if_in");
        assert("if_in"@.len() == 5);
        assert("if_out_bytes"@ != "if_in"@);
        reveal_strlit("if_in_bytes");
        assert("if_in_bytes"@.len() == 11);
        assert("if_out_bytes"@ != "if_in_bytes"@);
        reveal_strlit("if_out");
        assert("if_out"@.len() == 6);
        assert("if_out_bytes"@ != "if_out"@);
    }
    assert(placement_of("tcp_service"@) == Placement::Service) by {
        reveal_strlit("tcp_service");
        assert("tcp_service"@.len() == 11);
        reveal_strlit("cpu_util");
        assert("cpu_util"@.len() == 8);
        assert("tcp_service"@ != "cpu_util"@);
        reveal_strlit("mem_util");
        assert("mem_util"@.len() == 8);
        assert("tcp_service"@ != "mem_util"@);
        reveal_strlit("mem_pavail");
        assert("mem_pavail"@.len() == 10);
        assert("tcp_service"@ != "mem_pavail"@);
        reveal_strlit("mem_total");
        assert("mem_total"@.len() == 9);
        assert("tcp_service"@ != "mem_total"@);
        reveal_strlit("swap_util");
        assert("swap_util"@.len() == 9);
        assert("tcp_service"@ != "swap_util"@);
        reveal_strlit("swap_pfree");
        assert("swap_pfree"@.len() == 10);
        assert("tcp_service"@ != "swap_pfree"@);
        reveal_strlit("load1");
        assert("load1"@.len() == 5);
        assert("tcp_service"@ != "load1"@);
        reveal_strlit("load5");
        assert("load5"@.len() == 5);
        assert("tcp_service"@ != "load5"@);
        reveal_strlit("load15");
        assert("load15"@.len() == 6);
        assert("tcp_service"@ != "load15"@);
        reveal_strlit("cpu_num");
        assert("cpu_num"@.len() == 7);
        assert("tcp_service"@ != "cpu_num"@);
        reveal_strlit("uptime");
        assert("uptime"@.len() == 6);
        assert("tcp_service"@ != "uptime"@);
        reveal_strlit("boottime");
        assert("boottime"@.len() == 8);
        assert("tcp_service"@ != "boottime"@);
        reveal_strlit("zombies");
        assert("zombies"@.len() == 7);
        assert("tcp_service"@ != "zombies"@);
        reveal_strlit("proc_num");
        assert("proc_num"@.len() == 8);
        assert("tcp_service"@ != "proc_num"@);
        reveal_strlit("localtime");
        assert("localtime"@.len() == 9);
        assert("tcp_service"@ != "localtime"@);
        reveal_strlit("agent_avail");
        assert("tcp_service"@[0] != "agent_avail"@[0]);
        assert("tcp_service"@ != "agent_avail"@);
        reveal_strlit("maxfiles");
        assert("maxfiles"@.len() == 8);
        assert("tcp_service"@ != "maxfiles"@);
        reveal_strlit("openfiles");
        assert("openfiles"@.len() == 9);
        assert("tcp_service"@ != "openfiles"@);
        reveal_strlit("icmp_loss");
        assert("icmp_loss"@.len() == 9);
        assert("tcp_service"@ != "icmp_loss"@);
        reveal_strlit("icmp_sec");
        assert("icmp_sec"@.len() == 8);
        assert("tcp_service"@ != "icmp_sec"@);
        reveal_strlit("cert_days");
        assert("cert_days"@.len() == 9);
        assert("tcp_service"@ != "cert_days"@);
        reveal_strlit("disk_pused");
        assert("disk_pused"@.len() == 10);
        assert("tcp_service"@ != "disk_pused"@);
        reveal_strlit("disk_pused_old");
        assert("disk_pused_old"@.len() == 14);
        assert("tcp_service"@ != "disk_pused_old"@);
        reveal_strlit("disk_used");
        assert("disk_used"@.len() == 9);
        assert("tcp_service"@ != "disk_used"@);
        reveal_strlit("disk_total");
        assert("disk_total"@.len() == 10);
        assert("tcp_service"@ != "disk_total"@);
        reveal_strlit("inode_pused");
        assert("tcp_service"@[0] != "inode_pused"@[0]);
        assert("tcp_service"@ != "inode_pused"@);
        reveal_strlit("inode_pfree");
        assert("tcp_service"@[0] != "inode_pfree"@[0]);
        assert("tcp_service"@ != "inode_pfree"@);
        reveal_strlit("if_in");
        assert("if_in"@.len() == 5);
        assert("tcp_service"@ != "if_in"@);
        reveal_strlit("if_in_bytes");
        assert("tcp_service"@[0] != "if_in_bytes"@[0]);
        assert("tcp_service"@ != "if_in_bytes"@);
        reveal_strlit("if_out");
        assert("if_out"@.len() == 6);
        assert("tcp_service"@ != "if_out"@);
        reveal_strlit("if_out_bytes");
        assert("if_out_bytes"@.len() == 12);
        assert("tcp_service"@ != "if_out_bytes"@);
        reveal_strlit("if_in_err");
        assert("if_in_err"@.len() == 9);
        assert("tcp_service"@ != "if_in_err"@);
        reveal_strlit("if_out_err");
        assert("if_out_err"@.len() == 10);
        assert("tcp_service"@ != "if_out_err"@);
        reveal_strlit("if_in_drop");
        assert("if_in_drop"@.len() == 10);
        assert("tcp_service"@ != "if_in_drop"@);
        reveal_strlit("if_out_drop");
        assert("tcp_service"@[0] != "if_out_drop"@[0]);
        assert("tcp_service"@ != "if_out_drop"@);
        reveal_strlit("if_speed");
        assert("if_speed"@.len() == 8);
        assert("tcp_service"@ != "if_speed"@);
    }
    assert(placement_of("io_await"@) == Placement::IoAwait) by {
        reveal_strlit("io_await");
        assert("io_await"@.len() == 8);
        reveal_strlit("cpu_util");
        assert("io_await"@[0] != "cpu_util"@[0]);
        assert("io_await"@ != "cpu_util"@);
        reveal_strlit("mem_util");
        assert("io_await"@[0] != "mem_util"@[0]);
        assert("io_await"@ != "mem_util"@);
        reveal_strlit("mem_pavail");
        assert("mem_pavail"@.len() == 10);
        assert("io_await"@ != "mem_pavail"@);
        reveal_strlit("mem_total");
        assert("mem_total"@.len() == 9);
        assert("io_await"@ != "mem_total"@);
        reveal_strlit("swap_util");
        assert("swap_util"@.len() == 9);
        assert("io_await"@ != "swap_util"@);
        reveal_strlit("swap_pfree");
        assert("swap_pfree"@.len() == 10);
        assert("io_await"@ != "swap_pfree"@);
        reveal_strlit("load1");
        assert("load1"@.len() == 5);
        assert("io_await"@ != "load1"@);
        reveal_strlit("load5");
        assert("load5"@.len() == 5);
        assert("io_await"@ != "load5"@);
        reveal_strlit("load15");
        assert("load15"@.len() == 6);
        assert("io_await"@ != "load15"@);
        reveal_strlit("cpu_num");
        assert("cpu_num"@.len() == 7);
        assert("io_await"@ != "cpu_num"@);
        reveal_strlit("uptime");
        assert("uptime"@.len() == 6);
        assert("io_await"@ != "uptime"@);
        reveal_strlit("boottime");
        assert("io_await"@[0] != "boottime"@[0]);
        assert("io_await"@ != "boottime"@);
        reveal_strlit("zombies");
        assert("zombies"@.len() == 7);
        assert("io_await"@ != "zombies"@);
        reveal_strlit("proc_num");
        assert("io_await"@[0] != "proc_num"@[0]);
        assert("io_await"@ != "proc_num"@);
        reveal_strlit("localtime");
        assert("localtime"@.len() == 9);
        assert("io_await"@ != "localtime"@);
        reveal_strlit("agent_avail");
        assert("agent_avail"@.len() == 11);
        assert("io_await"@ != "agent_avail"@);
        reveal_strlit("maxfiles");
        assert("io_await"@[0] != "maxfiles"@[0]);
        assert("io_await"@ != "maxfiles"@);
        reveal_strlit("openfiles");
        assert("openfiles"@.len() == 9);
        assert("io_await"@ != "openfiles"@);
        reveal_strlit("icmp_loss");
        assert("icmp_loss"@.len() == 9);
        assert("io_await"@ != "icmp_loss"@);
        reveal_strlit("icmp_sec");
        assert("io_await"@[1] != "icmp_sec"@[1]);
        assert("io_await"@ != "icmp_sec"@);
        reveal_strlit("cert_days");
        assert("cert_days"@.len() == 9);
        assert("io_await"@ != "cert_days"@);
        reveal_strlit("disk_pused");
        assert("disk_pused"@.len() == 10);
        assert("io_await"@ != "disk_pused"@);
        reveal_strlit("disk_pused_old");
        assert("disk_pused_old"@.len() == 14);
        assert("io_await"@ != "disk_pused_old"@);
        reveal_strlit("disk_used");
        assert("disk_used"@.len() == 9);
        assert("io_await"@ != "disk_used"@);
        reveal_strlit("disk_total");
        assert("disk_total"@.len() == 10);
        assert("io_await"@ != "disk_total"@);
        reveal_strlit("inode_pused");
        assert("inode_pused"@.len() == 11);
        assert("io_await"@ != "inode_pused"@);
        reveal_strlit("inode_pfree");
        assert("inode_pfree"@.len() == 11);
        assert("io_await"@ != "inode_pfree"@);
        reveal_strlit("if_in");
        assert("if_in"@.len() == 5);
        assert("io_await"@ != "if_in"@);
        reveal_strlit("if_in_bytes");
        assert("if_in_bytes"@.len() == 11);
        assert("io_await"@ != "if_in_bytes"@);
        reveal_strlit("if_out");
        assert("if_out"@.len() == 6);
        assert("io_await"@ != "if_out"@);
        reveal_strlit("if_out_bytes");
        assert("if_out_bytes"@.len() == 12);
        assert("io_await"@ != "if_out_bytes"@);
        reveal_strlit("if_in_err");
        assert("if_in_err"@.len() == 9);
        assert("io_await"@ != "if_in_err"@);
        reveal_strlit("if_out_err");
        assert("if_out_err"@.len() == 10);
        assert("io_await"@ != "if_out_err"@);
        reveal_strlit("if_in_drop");
        assert("if_in_drop"@.len() == 10);
        assert("io_await"@ != "if_in_drop"@);
        reveal_strlit("if_out_drop");
        assert("if_out_drop"@.len() == 11);
        assert("io_await"@ != "if_out_drop"@);
        reveal_strlit("if_speed");
        assert("io_await"@[1] != "if_speed"@[1]);
        assert("io_await"@ != "if_speed"@);
        reveal_strlit("tcp_service");
        assert("tcp_service"@.len() == 11);
        assert("io_await"@ != "tcp_service"@);
    }
}

/// Where the items of the rule with id `id` go.
pub fn placement(id: &str) -> (p: Placement)
    ensures
        p == placement_of(id@),
{
    if str_eq(id, "cpu_util") {
        Placement::Slot(Slot::CpuUtil)
    } else if str_eq(id, "mem_util") {
        Placement::Slot(Slot::MemUtil)
    } else if str_eq(id, "mem_pavail") {
        Placement::Slot(Slot::MemPavail)
    } else if str_eq(id, "mem_total") {
        Placement::Slot(Slot::MemTotal)
    } else if str_eq(id, "swap_util") {
        Placement::Slot(Slot::SwapUtil)
    } else if str_eq(id, "swap_pfree") {
        Placement::Slot(Slot::SwapPfree)
    } else if str_eq(id, "load1") {
        Placement::Slot(Slot::Load1)
    } else if str_eq(id, "load5") {
        Placement::Slot(Slot::Load5)
    } else if str_eq(id, "load15") {
        Placement::Slot(Slot::Load15)
    } else if str_eq(id, "cpu_num") {
        Placement::Slot(Slot::CpuNum)
    } else if str_eq(id, "uptime") {
        Placement::Slot(Slot::Uptime)
    } else if str_eq(id, "boottime") {
        Placement::Slot(Slot::Boottime)
    } else if str_eq(id, "zombies") {
        Placement::Slot(Slot::Zombies)
    } else if str_eq(id, "proc_num") {
        Placement::Slot(Slot::ProcNum)
    } else if str_eq(id, "localtime") {
        Placement::Slot(Slot::Localtime)
    } else if str_eq(id, "agent_avail") {
        Placement::Slot(Slot::AgentAvail)
    } else if str_eq(id, "maxfiles") {
        Placement::Slot(Slot::Maxfiles)
    } else if str_eq(id, "openfiles") {
        Placement::Slot(Slot::Openfiles)
    } else if str_eq(id, "icmp_loss") {
        Placement::Slot(Slot::IcmpLoss)
    } else if str_eq(id, "icmp_sec") {
        Placement::Slot(Slot::IcmpSec)
    } else if str_eq(id, "cert_days") {
        Placement::Slot(Slot::CertDays)
    } else if str_eq(id, "disk_pused") || str_eq(id, "disk_pused_old") {
        Placement::Disk(DiskField::Pused)
    } else if str_eq(id, "disk_used") {
        Placement::Disk(DiskField::Used)
    } else if str_eq(id, "disk_total") {
        Placement::Disk(DiskField::Total)
    } else if str_eq(id, "inode_pused") {
        Placement::Disk(DiskField::InodePused)
    } else if str_eq(id, "inode_pfree") {
        Placement::Disk(DiskField::InodePfree)
    } else if str_eq(id, "if_in") || str_eq(id, "if_in_bytes") {
        Placement::Net(NetField::InBytes)
    } else if str_eq(id, "if_out") || str_eq(id, "if_out_bytes") {
        Placement::Net(NetField::OutBytes)
    } else if str_eq(id, "if_in_err") {
        Placement::Net(NetField::InErr)
    } else if str_eq(id, "if_out_err") {
        Placement::Net(NetField::OutErr)
    } else if str_eq(id, "if_in_drop") {
        Placement::Net(NetField::InDrop)
    } else if str_eq(id, "if_out_drop") {
        Placement::Net(NetField::OutDrop)
    } else if str_eq(id, "if_speed") {
        Placement::Net(NetField::Speed)
    } else if str_eq(id, "tcp_service") {
        Placement::Service
    } else if str_eq(id, "io_await") {
        Placement::IoAwait
    } else {
        Placement::Other
    }
}

/// `c` with `it` in slot `s`.
pub open spec fn with_slot(c: ClassView, s: Slot, it: ItemRec) -> ClassView {
    match s {
        Slot::CpuUtil => ClassView { cpu_util: Some(it), ..c },
        Slot::MemUtil => ClassView { mem_util: Some(it), ..c },
        Slot::MemPavail => ClassView { mem_pavail: Some(it), ..c },
        Slot::MemTotal => ClassView { mem_total: Some(it), ..c },
        Slot::SwapUtil => ClassView { swap_util: Some(it), ..c },
        Slot::SwapPfree => ClassView { swap_pfree: Some(it), ..c },
        Slot::Load1 => ClassView { load1: Some(it), ..c },
        Slot::Load5 => ClassView { load5: Some(it), ..c },
        Slot::Load15 => ClassView { load15: Some(it), ..c },
        Slot::CpuNum => ClassView { cpu_num: Some(it), ..c },
        Slot::Uptime => ClassView { uptime: Some(it), ..c },
        Slot::Boottime => ClassView { boottime: Some(it), ..c },
        Slot::Zombies => ClassView { zombies: Some(it), ..c },
        Slot::ProcNum => ClassView { proc_num: Some(it), ..c },
        Slot::Localtime => ClassView { localtime: Some(it), ..c },
        Slot::AgentAvail => ClassView { agent_avail: Some(it), ..c },
        Slot::Maxfiles => ClassView { maxfiles: Some(it), ..c },
        Slot::Openfiles => ClassView { openfiles: Some(it), ..c },
        Slot::IcmpLoss => ClassView { icmp_loss: Some(it), ..c },
        Slot::IcmpSec => ClassView { icmp_sec: Some(it), ..c },
        Slot::CertDays => ClassView { cert_days: Some(it), ..c },
    }
}

/// A partition named `m` without items.
pub open spec fn new_disk(m: Seq<char>) -> DiskView {
    DiskView { mount: m, pused: None, used: None, total: None, inode_pused: None, inode_pfree: None }
}

/// `d` with `it` as its item of kind `f`.
pub open spec fn with_disk_field(d: DiskView, f: DiskField, it: ItemRec) -> DiskView {
    match f {
        DiskField::Pused => DiskView { pused: Some(it), ..d },
        DiskField::Used => DiskView { used: Some(it), ..d },
        DiskField::Total => DiskView { total: Some(it), ..d },
        DiskField::InodePused => DiskView { inode_pused: Some(it), ..d },
        DiskField::InodePfree => DiskView { inode_pfree: Some(it), ..d },
    }
}

/// An interface named `m` without items.
pub open spec fn new_net(m: Seq<char>) -> NetView {
    NetView { ifname: m, in_bytes: None, out_bytes: None, in_err: None, out_err: None, in_drop: None, out_drop: None, speed: None }
}

/// `n` with `it` as its item of kind `f`.
pub open spec fn with_net_field(n: NetView, f: NetField, it: ItemRec) -> NetView {
    match f {
        NetField::InBytes => NetView { in_bytes: Some(it), ..n },
        NetField::OutBytes => NetView { out_bytes: Some(it), ..n },
        NetField::InErr => NetView { in_err: Some(it), ..n },
        NetField::OutErr => NetView { out_err: Some(it), ..n },
        NetField::InDrop => NetView { in_drop: Some(it), ..n },
        NetField::OutDrop => NetView { out_drop: Some(it), ..n },
        NetField::Speed => NetView { speed: Some(it), ..n },
    }
}

/// The mounts of a list of partitions.
pub open spec fn mounts(ds: Seq<DiskView>) -> Seq<Seq<char>> {
    ds.map_values(|d: DiskView| d.mount)
}

/// The names of a list of interfaces.
pub open spec fn ifnames(ns: Seq<NetView>) -> Seq<Seq<char>> {
    ns.map_values(|n: NetView| n.ifname)
}

/// `ds` with `it` filed under partition `m`: into the first partition of that
/// mount, or into a new partition appended at the end.
pub open spec fn set_disk(ds: Seq<DiskView>, m: Seq<char>, f: DiskField, it: ItemRec) -> Seq<DiskView> {
    match first_pos(mounts(ds), m) {
        Some(p) => ds.update(p, with_disk_field(ds[p], f, it)),
        None => ds.push(with_disk_field(new_disk(m), f, it)),
    }
}

/// `ns` with `it` filed under interface `m`.
pub open spec fn set_net(ns: Seq<NetView>, m: Seq<char>, f: NetField, it: ItemRec) -> Seq<NetView> {
    match first_pos(ifnames(ns), m) {
        Some(p) => ns.update(p, with_net_field(ns[p], f, it)),
        None => ns.push(with_net_field(new_net(m), f, it)),
    }
}

/// `c` with `it` placed as `p` says.
pub open spec fn place(c: ClassView, p: Placement, it: ItemRec) -> ClassView {
    match p {
        Placement::Slot(s) => with_slot(c, s, it),
        Placement::Disk(f) => match instance_of(it.key@) {
            Some(m) => ClassView { disks: set_disk(c.disks, m, f, it), ..c },
            None => c,
        },
        Placement::Net(f) => match instance_of(it.key@) {
            Some(m) => ClassView { nets: set_net(c.nets, m, f, it), ..c },
            None => c,
        },
        Placement::Service => ClassView { services: c.services.push(it), ..c },
        Placement::IoAwait => ClassView { io_awaits: c.io_awaits.push(it), ..c },
        Placement::Other => ClassView { others_numeric: c.others_numeric.push(it), ..c },
    }
}

/// `c` after looking at one more item: system.uname is kept as the OS text;
/// other non-numeric items are skipped; numeric items go where the first
/// matching rule says, or among the others when no rule matches.
pub open spec fn classify_step(c: ClassView, it: ItemRec, rules: Seq<RuleView>) -> ClassView {
    if it.key@ == "system.uname"@ {
        ClassView { os_uname: Some(it), ..c }
    } else if !is_numeric(it.value_type) {
        c
    } else {
        match first_match(rules, it.key@) {
            Some(i) => place(c, placement_of(rules[i].0), it),
            None => ClassView { others_numeric: c.others_numeric.push(it), ..c },
        }
    }
}

/// A classified host without items.
pub open spec fn empty_class() -> ClassView {
    ClassView {
        cpu_util: None,
        mem_util: None,
        mem_pavail: None,
        mem_total: None,
        swap_util: None,
        swap_pfree: None,
        load1: None,
        load5: None,
        load15: None,
        cpu_num: None,
        uptime: None,
        boottime: None,
        zombies: None,
        proc_num: None,
        localtime: None,
        agent_avail: None,
        maxfiles: None,
        openfiles: None,
        icmp_loss: None,
        icmp_sec: None,
        cert_days: None,
        os_uname: None,
        disks: Seq::empty(),
        nets: Seq::empty(),
        services: Seq::empty(),
        io_awaits: Seq::empty(),
        others_numeric: Seq::empty(),
    }
}

/// The items looked at in order.
pub open spec fn classify_fold(items: Seq<ItemRec>, rules: Seq<RuleView>) -> ClassView
    decreases items.len(),
{
    if items.len() == 0 {
        empty_class()
    } else {
        classify_step(classify_fold(items.drop_last(), rules), items.last(), rules)
    }
}

/// A partition that has a space item (pused, used or total).
pub open spec fn disk_has_data(d: DiskView) -> bool {
    d.pused is Some || d.total is Some || d.used is Some
}

/// An interface that has a traffic or speed item.
pub open spec fn net_has_data(n: NetView) -> bool {
    n.in_bytes is Some || n.out_bytes is Some || n.speed is Some
}

/// The partitions with data, in order.
pub open spec fn keep_disks(ds: Seq<DiskView>) -> Seq<DiskView>
    decreases ds.len(),
{
    if ds.len() == 0 {
        Seq::empty()
    } else {
        keep_disks(ds.drop_last()) + if disk_has_data(ds.last()) {
            seq![ds.last()]
        } else {
            Seq::<DiskView>::empty()
        }
    }
}

/// The interfaces with data, in order.
pub open spec fn keep_nets(ns: Seq<NetView>) -> Seq<NetView>
    decreases ns.len(),
{
    if ns.len() == 0 {
        Seq::empty()
    } else {
        keep_nets(ns.drop_last()) + if net_has_data(ns.last()) {
            seq![ns.last()]
        } else {
            Seq::<NetView>::empty()
        }
    }
}

/// The classification of a host's items: each item placed in order, then the
/// partitions and interfaces without any data dropped.
pub open spec fn classified(items: Seq<ItemRec>, rules: Seq<RuleView>) -> ClassView {
    let c = classify_fold(items, rules);
    ClassView { disks: keep_disks(c.disks), nets: keep_nets(c.nets), ..c }
}

fn empty_classified() -> (c: HostClassified)
    ensures
        c@ == empty_class(),
{
    let c = HostClassified {
        cpu_util: None,
        mem_util: None,
        mem_pavail: None,
        mem_total: None,
        swap_util: None,
        swap_pfree: None,
        load1: None,
        load5: None,
        load15: None,
        cpu_num: None,
        uptime: None,
        boottime: None,
        zombies: None,
        proc_num: None,
        localtime: None,
        agent_avail: None,
        maxfiles: None,
        openfiles: None,
        icmp_loss: None,
        icmp_sec: None,
        cert_days: None,
        os_uname: None,
        disks: Vec::new(),
        nets: Vec::new(),
        services: Vec::new(),
        io_awaits: Vec::new(),
        others_numeric: Vec::new(),
    };
    assert(c@ =~= empty_class());
    c
}

fn set_slot(c: &mut HostClassified, s: Slot, it: ItemRec)
    ensures
        final(c)@ == with_slot(old(c)@, s, it),
{
    match s {
        Slot::CpuUtil => c.cpu_util = Some(it),
        Slot::MemUtil => c.mem_util = Some(it),
        Slot::MemPavail => c.mem_pavail = Some(it),
        Slot::MemTotal => c.mem_total = Some(it),
        Slot::SwapUtil => c.swap_util = Some(it),
        Slot::SwapPfree => c.swap_pfree = Some(it),
        Slot::Load1 => c.load1 = Some(it),
        Slot::Load5 => c.load5 = Some(it),
        Slot::Load15 => c.load15 = Some(it),
        Slot::CpuNum => c.cpu_num = Some(it),
        Slot::Uptime => c.uptime = Some(it),
        Slot::Boottime => c.boottime = Some(it),
        Slot::Zombies => c.zombies = Some(it),
        Slot::ProcNum => c.proc_num = Some(it),
        Slot::Localtime => c.localtime = Some(it),
        Slot::AgentAvail => c.agent_avail = Some(it),
        Slot::Maxfiles => c.maxfiles = Some(it),
        Slot::Openfiles => c.openfiles = Some(it),
        Slot::IcmpLoss => c.icmp_loss = Some(it),
        Slot::IcmpSec => c.icmp_sec = Some(it),
        Slot::CertDays => c.cert_days = Some(it),
    }
}

fn clone_disk(d: &DiskItems) -> (r: DiskItems)
    ensures
        r@ == d@,
{
    DiskItems {
        mount: d.mount.clone(),
        pused: clone_opt_item(&d.pused),
        used: clone_opt_item(&d.used),
        total: clone_opt_item(&d.total),
        inode_pused: clone_opt_item(&d.inode_pused),
        inode_pfree: clone_opt_item(&d.inode_pfree),
    }
}

fn clone_net(n: &NetItems) -> (r: NetItems)
    ensures
        r@ == n@,
{
    NetItems {
        ifname: n.ifname.clone(),
        in_bytes: clone_opt_item(&n.in_bytes),
        out_bytes: clone_opt_item(&n.out_bytes),
        in_err: clone_opt_item(&n.in_err),
        out_err: clone_opt_item(&n.out_err),
        in_drop: clone_opt_item(&n.in_drop),
        out_drop: clone_opt_item(&n.out_drop),
        speed: clone_opt_item(&n.speed),
    }
}

fn set_disk_field(d: &mut DiskItems, f: DiskField, it: ItemRec)
    ensures
        final(d)@ == with_disk_field(old(d)@, f, it),
{
    match f {
        DiskField::Pused => d.pused = Some(it),
        DiskField::Used => d.used = Some(it),
        DiskField::Total => d.total = Some(it),
        DiskField::InodePused => d.inode_pused = Some(it),
        DiskField::InodePfree => d.inode_pfree = Some(it),
    }
}

fn set_net_field(n: &mut NetItems, f: NetField, it: ItemRec)
    ensures
        final(n)@ == with_net_field(old(n)@, f, it),
{
    match f {
        NetField::InBytes => n.in_bytes = Some(it),
        NetField::OutBytes => n.out_bytes = Some(it),
        NetField::InErr => n.in_err = Some(it),
        NetField::OutErr => n.out_err = Some(it),
        NetField::InDrop => n.in_drop = Some(it),
        NetField::OutDrop => n.out_drop = Some(it),
        NetField::Speed => n.speed = Some(it),
    }
}

fn put_disk(ds: &mut Vec<DiskItems>, m: String, f: DiskField, it: ItemRec)
    ensures
        disk_views(final(ds)@) == set_disk(disk_views(old(ds)@), m@, f, it),
{
    let ghost names = mounts(disk_views(ds@));
    let mut p: usize = 0;
    while p < ds.len() && !str_eq(ds[p].mount.as_str(), m.as_str())
        invariant
            0 <= p <= ds.len(),
            names == mounts(disk_views(ds@)),
            forall|k: int| 0 <= k < p ==> names[k] != m@,
        decreases ds.len() - p,
    {
        p += 1;
    }
    proof {
        lemma_first_pos_scan(names, m@, p as int);
    }
    if p < ds.len() {
        let mut nd = clone_disk(&ds[p]);
        set_disk_field(&mut nd, f, it);
        ds.set(p, nd);
    } else {
        let mut nd = DiskItems { mount: m, pused: None, used: None, total: None, inode_pused: None, inode_pfree: None };
        set_disk_field(&mut nd, f, it);
        ds.push(nd);
    }
    assert(disk_views(ds@) =~= set_disk(disk_views(old(ds)@), m@, f, it));
}

fn put_net(ns: &mut Vec<NetItems>, m: String, f: NetField, it: ItemRec)
    ensures
        net_views(final(ns)@) == set_net(net_views(old(ns)@), m@, f, it),
{
    let ghost names = ifnames(net_views(ns@));
    let mut p: usize = 0;
    while p < ns.len() && !str_eq(ns[p].ifname.as_str(), m.as_str())
        invariant
            0 <= p <= ns.len(),
            names == ifnames(net_views(ns@)),
            forall|k: int| 0 <= k < p ==> names[k] != m@,
        decreases ns.len() - p,
    {
        p += 1;
    }
    proof {
        lemma_first_pos_scan(names, m@, p as int);
    }
    if p < ns.len() {
        let mut nn = clone_net(&ns[p]);
        set_net_field(&mut nn, f, it);
        ns.set(p, nn);
    } else {
        let mut nn = NetItems { ifname: m, in_bytes: None, out_bytes: None, in_err: None, out_err: None, in_drop: None, out_drop: None, speed: None };
        set_net_field(&mut nn, f, it);
        ns.push(nn);
    }
    assert(net_views(ns@) =~= set_net(net_views(old(ns)@), m@, f, it));
}

fn place_item(c: &mut HostClassified, p: Placement, it: &ItemRec)
    ensures
        final(c)@ == place(old(c)@, p, *it),
{
    match p {
        Placement::Slot(s) => set_slot(c, s, clone_item(it)),
        Placement::Disk(f) => {
            match mount_of(it.key.as_str()) {
                Some(m) => {
                    put_disk(&mut c.disks, m, f, clone_item(it));
                },
                None => {},
            }
        },
        Placement::Net(f) => {
            match crate::rules::ifname_of(it.key.as_str()) {
                Some(m) => {
                    put_net(&mut c.nets, m, f, clone_item(it));
                },
                None => {},
            }
        },
        Placement::Service => c.services.push(clone_item(it)),
        Placement::IoAwait => c.io_awaits.push(clone_item(it)),
        Placement::Other => c.others_numeric.push(clone_item(it)),
    }
    assert(c@ =~= place(old(c)@, p, *it));
}

fn keep_disks_exec(ds: &Vec<DiskItems>) -> (r: Vec<DiskItems>)
    ensures
        disk_views(r@) == keep_disks(disk_views(ds@)),
{
    let mut r: Vec<DiskItems> = Vec::new();
    let mut i: usize = 0;
    while i < ds.len()
        invariant
            0 <= i <= ds.len(),
            disk_views(r@) == keep_disks(disk_views(ds@).subrange(0, i as int)),
        decreases ds.len() - i,
    {
        let ghost pre = disk_views(ds@).subrange(0, i + 1);
        assert(pre.drop_last() =~= disk_views(ds@).subrange(0, i as int));
        assert(pre.last() == ds@[i as int]@);
        let d = &ds[i];
        if d.pused.is_some() || d.total.is_some() || d.used.is_some() {
            r.push(clone_disk(d));
        }
        assert(disk_views(r@) =~= keep_disks(pre));
        i += 1;
    }
    assert(disk_views(ds@).subrange(0, ds.len() as int) =~= disk_views(ds@));
    r
}

fn keep_nets_exec(ns: &Vec<NetItems>) -> (r: Vec<NetItems>)
    ensures
        net_views(r@) == keep_nets(net_views(ns@)),
{
    let mut r: Vec<NetItems> = Vec::new();
    let mut i: usize = 0;
    while i < ns.len()
        invariant
            0 <= i <= ns.len(),
            net_views(r@) == keep_nets(net_views(ns@).subrange(0, i as int)),
        decreases ns.len() - i,
    {
        let ghost pre = net_views(ns@).subrange(0, i + 1);
        assert(pre.drop_last() =~= net_views(ns@).subrange(0, i as int));
        assert(pre.last() == ns@[i as int]@);
        let n = &ns[i];
        if n.in_bytes.is_some() || n.out_bytes.is_some() || n.speed.is_some() {
            r.push(clone_net(n));
        }
        assert(net_views(r@) =~= keep_nets(pre));
        i += 1;
    }
    assert(net_views(ns@).subrange(0, ns.len() as int) =~= net_views(ns@));
    r
}

/// Sorts the items of one host by rule: OS text from system.uname, single
/// metrics into their slots (a later item replaces an earlier one),
/// partitions and interfaces grouped by the instance in their key, service
/// probes, IO latencies and every other numeric item in order; partitions and
/// interfaces without data are dropped.
pub fn classify_host(items: &Vec<ItemRec>, rules: &CompiledRules) -> (c: HostClassified)
    ensures
        c@ == classified(items@, rules.rule_list()),
{
    let mut keys: Vec<String> = Vec::new();
    let mut k: usize = 0;
    while k < items.len()
        invariant
            0 <= k <= items.len(),
            keys@.len() == k,
            forall|j: int| 0 <= j < k ==> #[trigger] keys@[j]@ == items@[j].key@,
        decreases items.len() - k,
    {
        keys.push(items[k].key.clone());
        k += 1;
    }
    let firsts = rules.match_keys(&keys);
    let mut c = empty_classified();
    let mut k: usize = 0;
    while k < items.len()
        invariant
            0 <= k <= items.len(),
            keys@.len() == items@.len(),
            firsts@.len() == items@.len(),
            forall|j: int| 0 <= j < items@.len() ==> #[trigger] keys@[j]@ == items@[j].key@,
            forall|j: int|
                0 <= j < keys@.len() ==> (#[trigger] firsts@[j] matches Some(i) ==> first_match(
                    rules.rule_list(),
                    keys@[j]@,
                ) == Some(i as int)) && (firsts@[j] is None ==> first_match(rules.rule_list(), keys@[j]@) is None),
            c@ == classify_fold(items@.subrange(0, k as int), rules.rule_list()),
        decreases items.len() - k,
    {
        let ghost pre = items@.subrange(0, k + 1);
        assert(pre.drop_last() =~= items@.subrange(0, k as int));
        assert(pre.last() == items@[k as int]);
        let it = &items[k];
        assert(keys@[k as int]@ == it.key@);
        if str_eq(it.key.as_str(), "system.uname") {
            c.os_uname = Some(clone_item(it));
            assert(c@ =~= classify_fold(pre, rules.rule_list()));
        } else if it.numeric() {
            match firsts[k] {
                Some(i) => {
                    proof {
                        crate::rules::lemma_first_match_bounds(rules.rule_list(), it.key@);
                    }
                    let r = rules.get(i);
                    let p = placement(r.id.as_str());
                    place_item(&mut c, p, it);
                },
                None => {
                    c.others_numeric.push(clone_item(it));
                    assert(c@ =~= classify_fold(pre, rules.rule_list()));
                },
            }
        }
        k += 1;
    }
    assert(items@.subrange(0, items.len() as int) =~= items@);
    let kd = keep_disks_exec(&c.disks);
    let kn = keep_nets_exec(&c.nets);
    c.disks = kd;
    c.nets = kn;
    assert(c@ =~= classified(items@, rules.rule_list()));
    c
}

/// A host group with the ids of its member hosts (`hostgroup.get` with
/// `selectHosts`).
#[derive(Debug, Clone)]
pub struct GroupMembers {
    pub name: String,
    pub hostids: Vec<String>,
}

/// How many entries of `ids` are `hid`.
pub open spec fn occurrences(ids: Seq<String>, hid: Seq<char>) -> nat
    decreases ids.len(),
{
    if ids.len() == 0 {
        0
    } else {
        occurrences(ids.drop_last(), hid) + if ids.last()@ == hid {
            1nat
        } else {
            0nat
        }
    }
}

/// The names of the groups that list `hid`, in group order, once per listing.
pub open spec fn member_names(gs: Seq<GroupMembers>, hid: Seq<char>) -> Seq<Seq<char>>
    decreases gs.len(),
{
    if gs.len() == 0 {
        Seq::empty()
    } else {
        let g = gs.last();
        member_names(gs.drop_last(), hid) + Seq::new(occurrences(g.hostids@, hid), |k: int| g.name@)
    }
}

/// The groups of host `h` once the memberships are filled in: its own when
/// it has any, else the groups that list it.
pub open spec fn filled_groups(h: HostInfo, gs: Seq<GroupMembers>) -> Seq<Seq<char>> {
    if h.groups@.len() == 0 {
        member_names(gs, h.hostid@)
    } else {
        views(h.groups@)
    }
}

/// The names of the groups of `gs` that list `hid`.
fn names_listing(gs: &Vec<GroupMembers>, hid: &str) -> (r: Vec<String>)
    ensures
        views(r@) == member_names(gs@, hid@),
{
    let mut out: Vec<String> = Vec::new();
    let mut a: usize = 0;
    while a < gs.len()
        invariant
            0 <= a <= gs.len(),
            views(out@) == member_names(gs@.subrange(0, a as int), hid@),
        decreases gs.len() - a,
    {
        let g = &gs[a];
        assert(gs@.subrange(0, a + 1).drop_last() =~= gs@.subrange(0, a as int));
        let ghost base = views(out@);
        let mut b: usize = 0;
        while b < g.hostids.len()
            invariant
                0 <= b <= g.hostids.len(),
                views(out@) == base + Seq::new(
                    occurrences(g.hostids@.subrange(0, b as int), hid@),
                    |k: int| g.name@,
                ),
            decreases g.hostids.len() - b,
        {
            assert(g.hostids@.subrange(0, b + 1).drop_last() =~= g.hostids@.subrange(0, b as int));
            if str_eq(g.hostids[b].as_str(), hid) {
                let ghost before = out@;
                out.push(g.name.clone());
                proof {
                    lemma_views_push(before, g.name);
                }
                assert(views(out@) =~= base + Seq::new(
                    occurrences(g.hostids@.subrange(0, b + 1), hid@),
                    |k: int| g.name@,
                ));
            } else {
                assert(Seq::new(occurrences(g.hostids@.subrange(0, b + 1), hid@), |k: int| g.name@)
                    =~= Seq::new(occurrences(g.hostids@.subrange(0, b as int), hid@), |k: int| g.name@));
            }
            b += 1;
        }
        assert(g.hostids@.subrange(0, g.hostids.len() as int) =~= g.hostids@);
        a += 1;
    }
    assert(gs@.subrange(0, gs.len() as int) =~= gs@);
    out
}

/// Hosts for which `host.get` returned no groups get the groups that list
/// them in `gs`; every other field, and every host with groups, is kept.
pub fn fill_missing_groups(hosts: &mut Vec<HostInfo>, gs: &Vec<GroupMembers>)
    ensures
        final(hosts).len() == old(hosts).len(),
        forall|i: int|
            0 <= i < old(hosts).len() ==> {
                let o = #[trigger] old(hosts)@[i];
                let n = final(hosts)@[i];
                &&& n.hostid == o.hostid
                &&& n.host == o.host
                &&& n.name == o.name
                &&& n.ip == o.ip
                &&& n.os_family == o.os_family
                &&& n.status == o.status
                &&& views(n.groups@) == filled_groups(o, gs@)
            },
{
    let ghost start = hosts@;
    let mut i: usize = 0;
    while i < hosts.len()
        invariant
            0 <= i <= hosts.len(),
            hosts.len() == start.len(),
            forall|j: int|
                0 <= j < start.len() ==> {
                    let o = #[trigger] start[j];
                    let n = hosts@[j];
                    &&& n.hostid == o.hostid
                    &&& n.host == o.host
                    &&& n.name == o.name
                    &&& n.ip == o.ip
                    &&& n.os_family == o.os_family
                    &&& n.status == o.status
                    &&& (j < i ==> views(n.groups@) == filled_groups(o, gs@))
                    &&& (j >= i ==> n == o)
                },
        decreases hosts.len() - i,
    {
        assert(hosts@[i as int] == start[i as int]);
        if hosts[i].groups.len() == 0 {
            let names = names_listing(gs, hosts[i].hostid.as_str());
            let h = HostInfo {
                hostid: hosts[i].hostid.clone(),
                host: hosts[i].host.clone(),
                name: hosts[i].name.clone(),
                ip: hosts[i].ip.clone(),
                groups: names,
                os_family: hosts[i].os_family.clone(),
                status: hosts[i].status.clone(),
            };
            hosts.set(i, h);
        }
        i += 1;
    }
}

proof fn lemma_first_pos_facts(names: Seq<Seq<char>>, m: Seq<char>)
    ensures
        match first_pos(names, m) {
            Some(p) => 0 <= p < names.len() && names[p] == m,
            None => forall|k: int| 0 <= k < names.len() ==> names[k] != m,
        },
    decreases names.len(),
{
    if names.len() > 0 {
        lemma_first_pos_facts(names.drop_last(), m);
        assert forall|k: int| 0 <= k < names.len() - 1 implies names[k] == names.drop_last()[k] by {}
    }
}

/// The partitions of `ds` have distinct mounts.
pub open spec fn distinct_mounts(ds: Seq<DiskView>) -> bool {
    forall|a: int, b: int| 0 <= a < ds.len() && 0 <= b < ds.len() && a != b ==> (#[trigger] ds[a]).mount != (#[trigger] ds[b]).mount
}

/// The interfaces of `ns` have distinct names.
pub open spec fn distinct_ifnames(ns: Seq<NetView>) -> bool {
    forall|a: int, b: int| 0 <= a < ns.len() && 0 <= b < ns.len() && a != b ==> (#[trigger] ns[a]).ifname != (#[trigger] ns[b]).ifname
}

/// Every item of `s` is numeric.
pub open spec fn all_numeric(s: Seq<ItemRec>) -> bool {
    forall|k: int| 0 <= k < s.len() ==> is_numeric((#[trigger] s[k]).value_type)
}

/// What every intermediate classification keeps.
pub open spec fn fold_ok(c: ClassView) -> bool {
    &&& distinct_mounts(c.disks)
    &&& distinct_ifnames(c.nets)
    &&& all_numeric(c.others_numeric)
    &&& all_numeric(c.services)
    &&& all_numeric(c.io_awaits)
}

proof fn lemma_fold_ok(items: Seq<ItemRec>, rules: Seq<RuleView>)
    ensures
        fold_ok(classify_fold(items, rules)),
    decreases items.len(),
{
    if items.len() > 0 {
        lemma_fold_ok(items.drop_last(), rules);
        let c = classify_fold(items.drop_last(), rules);
        let it = items.last();
        let n = classify_fold(items, rules);
        if it.key@ != "system.uname"@ && is_numeric(it.value_type) {
            match first_match(rules, it.key@) {
                Some(i) => {
                    match placement_of(rules[i].0) {
                        Placement::Disk(f) => match instance_of(it.key@) {
                            Some(m) => {
                                lemma_first_pos_facts(mounts(c.disks), m);
                                match first_pos(mounts(c.disks), m) {
                                    Some(p) => {
                                        assert(mounts(c.disks)[p] == c.disks[p].mount);
                                        assert forall|a: int, b: int|
                                            0 <= a < n.disks.len() && 0 <= b < n.disks.len() && a != b implies (
                                            #[trigger] n.disks[a]).mount != (#[trigger] n.disks[b]).mount by {
                                            assert(n.disks[a].mount == c.disks[a].mount);
                                            assert(n.disks[b].mount == c.disks[b].mount);
                                        }
                                    },
                                    None => {
                                        assert forall|a: int, b: int|
                                            0 <= a < n.disks.len() && 0 <= b < n.disks.len() && a != b implies (
                                            #[trigger] n.disks[a]).mount != (#[trigger] n.disks[b]).mount by {
                                            if a < c.disks.len() && b < c.disks.len() {
                                            } else if a < c.disks.len() {
                                                assert(mounts(c.disks)[a] == c.disks[a].mount);
                                            } else {
                                                assert(mounts(c.disks)[b] == c.disks[b].mount);
                                            }
                                        }
                                    },
                                }
                            },
                            None => {},
                        },
                        Placement::Net(f) => match instance_of(it.key@) {
                            Some(m) => {
                                lemma_first_pos_facts(ifnames(c.nets), m);
                                match first_pos(ifnames(c.nets), m) {
                                    Some(p) => {
                                        assert(ifnames(c.nets)[p] == c.nets[p].ifname);
                                        assert forall|a: int, b: int|
                                            0 <= a < n.nets.len() && 0 <= b < n.nets.len() && a != b implies (
                                            #[trigger] n.nets[a]).ifname != (#[trigger] n.nets[b]).ifname by {
                                            assert(n.nets[a].ifname == c.nets[a].ifname);
                                            assert(n.nets[b].ifname == c.nets[b].ifname);
                                        }
                                    },
                                    None => {
                                        assert forall|a: int, b: int|
                                            0 <= a < n.nets.len() && 0 <= b < n.nets.len() && a != b implies (
                                            #[trigger] n.nets[a]).ifname != (#[trigger] n.nets[b]).ifname by {
                                            if a < c.nets.len() && b < c.nets.len() {
                                            } else if a < c.nets.len() {
                                                assert(ifnames(c.nets)[a] == c.nets[a].ifname);
                                            } else {
                                                assert(ifnames(c.nets)[b] == c.nets[b].ifname);
                                            }
                                        }
                                    },
                                }
                            },
                            None => {},
                        },
                        _ => {},
                    }
                },
                None => {},
            }
        }
    }
}

proof fn lemma_keep_disks(ds: Seq<DiskView>)
    requires
        distinct_mounts(ds),
    ensures
        distinct_mounts(keep_disks(ds)),
        forall|k: int| 0 <= k < keep_disks(ds).len() ==> disk_has_data(#[trigger] keep_disks(ds)[k]),
        forall|k: int| 0 <= k < keep_disks(ds).len() ==> ds.contains(#[trigger] keep_disks(ds)[k]),
    decreases ds.len(),
{
    if ds.len() > 0 {
        let t = ds.drop_last();
        assert(distinct_mounts(t)) by {
            assert forall|a: int, b: int| 0 <= a < t.len() && 0 <= b < t.len() && a != b implies (#[trigger] t[a]).mount
                != (#[trigger] t[b]).mount by {
                assert(t[a] == ds[a] && t[b] == ds[b]);
            }
        }
        lemma_keep_disks(t);
        let k0 = keep_disks(t);
        assert forall|k: int| 0 <= k < k0.len() implies ds.contains(#[trigger] k0[k]) by {
            let j = choose|j: int| 0 <= j < t.len() && t[j] == k0[k];
            assert(ds[j] == t[j]);
        }
        if disk_has_data(ds.last()) {
            let kn = keep_disks(ds);
            assert(kn =~= k0.push(ds.last()));
            assert forall|a: int| 0 <= a < k0.len() implies (#[trigger] k0[a]).mount != ds.last().mount by {
                let j = choose|j: int| 0 <= j < t.len() && t[j] == k0[a];
                assert(ds[j] == t[j]);
                assert(ds[j].mount != ds[ds.len() - 1].mount);
            }
            assert forall|k: int| 0 <= k < kn.len() implies ds.contains(#[trigger] kn[k]) by {
                if k < k0.len() {
                    assert(kn[k] == k0[k]);
                } else {
                    assert(ds[ds.len() - 1] == kn[k]);
                }
            }
        } else {
            assert(keep_disks(ds) =~= k0);
        }
    }
}

proof fn lemma_keep_nets(ns: Seq<NetView>)
    requires
        distinct_ifnames(ns),
    ensures
        distinct_ifnames(keep_nets(ns)),
        forall|k: int| 0 <= k < keep_nets(ns).len() ==> net_has_data(#[trigger] keep_nets(ns)[k]),
        forall|k: int| 0 <= k < keep_nets(ns).len() ==> ns.contains(#[trigger] keep_nets(ns)[k]),
    decreases ns.len(),
{
    if ns.len() > 0 {
        let t = ns.drop_last();
        assert(distinct_ifnames(t)) by {
            assert forall|a: int, b: int| 0 <= a < t.len() && 0 <= b < t.len() && a != b implies (#[trigger] t[a]).ifname
                != (#[trigger] t[b]).ifname by {
                assert(t[a] == ns[a] && t[b] == ns[b]);
            }
        }
        lemma_keep_nets(t);
        let k0 = keep_nets(t);
        assert forall|k: int| 0 <= k < k0.len() implies ns.contains(#[trigger] k0[k]) by {
            let j = choose|j: int| 0 <= j < t.len() && t[j] == k0[k];
            assert(ns[j] == t[j]);
        }
        if net_has_data(ns.last()) {
            let kn = keep_nets(ns);
            assert(kn =~= k0.push(ns.last()));
            assert forall|a: int| 0 <= a < k0.len() implies (#[trigger] k0[a]).ifname != ns.last().ifname by {
                let j = choose|j: int| 0 <= j < t.len() && t[j] == k0[a];
                assert(ns[j] == t[j]);
                assert(ns[j].ifname != ns[ns.len() - 1].ifname);
            }
            assert forall|k: int| 0 <= k < kn.len() implies ns.contains(#[trigger] kn[k]) by {
                if k < k0.len() {
                    assert(kn[k] == k0[k]);
                } else {
                    assert(ns[ns.len() - 1] == kn[k]);
                }
            }
        } else {
            assert(keep_nets(ns) =~= k0);
        }
    }
}

/// A classification keeps only numeric items among the services, I/O waits
/// and other items; each partition and interface appears once, under its own
/// name, and only when it holds data.
pub proof fn law_classified_shape(items: Seq<ItemRec>, rules: Seq<RuleView>)
    ensures
        all_numeric(classified(items, rules).others_numeric),
        all_numeric(classified(items, rules).services),
        all_numeric(classified(items, rules).io_awaits),
        distinct_mounts(classified(items, rules).disks),
        distinct_ifnames(classified(items, rules).nets),
        forall|k: int|
            0 <= k < classified(items, rules).disks.len() ==> disk_has_data(
                #[trigger] classified(items, rules).disks[k],
            ),
        forall|k: int|
            0 <= k < classified(items, rules).nets.len() ==> net_has_data(
                #[trigger] classified(items, rules).nets[k],
            ),
{
    lemma_fold_ok(items, rules);
    let c = classify_fold(items, rules);
    lemma_keep_disks(c.disks);
    lemma_keep_nets(c.nets);
}

} // verus!
