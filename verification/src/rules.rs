//! Item recognition rules: a key pattern decides the category, unit and
//! aggregation of an item. Built-in rules are calibrated on the Zabbix 7.4
//! Linux templates; custom rules with the same id replace them.
use vstd::prelude::*;
use crate::text::{
    chars_of, concat, contains_seq, first_where, has_char, is_quote, owned, push_char, replace, replaced,
    str_eq, strip_both, strip_quotes,
};

verus! {

/// How an item is aggregated.
#[derive(Debug, Clone, Copy, PartialEq, Eq, Structural)]
pub enum AggKind {
    /// Utilisation: current / avg / max / min, part of the main table and of scoring.
    Util,
    /// Raw value: current / avg / max / min, shown in the details.
    Raw,
    /// Event: count or state within the range.
    Event,
}

/// A recognition rule: items whose key matches `pattern` belong to `id`.
#[derive(Debug)]
pub struct MetricRule {
    pub id: String,
    pub pattern: String,
    pub label: String,
    pub unit: String,
    pub kind: AggKind,
}

/// A rule as plain values: (id, pattern, label, unit, kind).
pub type RuleView = (Seq<char>, Seq<char>, Seq<char>, Seq<char>, AggKind);

/// The plain-value form of a rule.
pub open spec fn rule_view(r: MetricRule) -> RuleView {
    (r.id@, r.pattern@, r.label@, r.unit@, r.kind)
}

/// The plain-value forms of a list of rules.
pub open spec fn rule_views(rs: Seq<MetricRule>) -> Seq<RuleView> {
    rs.map_values(|r: MetricRule| rule_view(r))
}

impl MetricRule {
    /// A copy of the rule.
    pub fn duplicate(&self) -> (r: MetricRule)
        ensures
            rule_view(r) == rule_view(*self),
    {
        MetricRule {
            id: self.id.clone(),
            pattern: self.pattern.clone(),
            label: self.label.clone(),
            unit: self.unit.clone(),
            kind: self.kind,
        }
    }
}

// ---------------------------------------------------------------------------
// The regex crate
// ---------------------------------------------------------------------------

/// Whether `regex::Regex::new` accepts `pattern`.
pub uninterp spec fn regex_valid(pattern: Seq<char>) -> bool;

/// Whether the compiled `pattern` matches somewhere in `haystack`
/// (`regex::Regex::is_match`).
pub uninterp spec fn regex_matches(pattern: Seq<char>, haystack: Seq<char>) -> bool;

/// Compiles `pattern` with `regex::Regex::new` and, when it compiles, asks
/// `Regex::is_match` of each key. Claims: the result is present exactly when
/// the pattern compiles, and then holds one answer per key, in order.
#[verifier::external_body]
fn regex_match_all(pattern: &str, keys: &Vec<String>) -> (r: Option<Vec<bool>>)
    ensures
        r is Some <==> regex_valid(pattern@),
        r matches Some(v) ==> v@.len() == keys@.len() && forall|i: int|
            0 <= i < keys@.len() ==> v@[i] == regex_matches(pattern@, #[trigger] keys@[i]@),
{
    match regex::Regex::new(pattern) {
        Ok(re) => Some(keys.iter().map(|k| re.is_match(k)).collect()),
        Err(_) => None,
    }
}

/// The characters that `regex::escape` prefixes with a backslash.
pub open spec fn is_regex_meta(c: char) -> bool {
    c == '\\' || c == '.' || c == '+' || c == '*' || c == '?' || c == '(' || c == ')' || c == '|'
        || c == '[' || c == ']' || c == '{' || c == '}' || c == '^' || c == '$' || c == '#' || c
        == '&' || c == '-' || c == '~'
}

/// `s` with every regex meta character escaped by a backslash.
pub open spec fn regex_escaped(s: Seq<char>) -> Seq<char>
    decreases s.len(),
{
    if s.len() == 0 {
        Seq::empty()
    } else {
        regex_escaped(s.drop_last()) + if is_regex_meta(s.last()) {
            seq!['\\', s.last()]
        } else {
            seq![s.last()]
        }
    }
}

/// Whether `c` is one of the characters that `regex_escaped` escapes.
fn is_meta(c: char) -> (b: bool)
    ensures
        b == is_regex_meta(c),
{
    c == '\\' || c == '.' || c == '+' || c == '*' || c == '?' || c == '(' || c == ')' || c == '|'
        || c == '[' || c == ']' || c == '{' || c == '}' || c == '^' || c == '$' || c == '#' || c
        == '&' || c == '-' || c == '~'
}

/// `s` with every regex meta character escaped by a backslash, as
/// `regex::escape` writes it.
fn regex_escape(s: &str) -> (r: String)
    ensures
        r@ == regex_escaped(s@),
{
    let v = chars_of(s);
    let mut r = String::new();
    let mut i: usize = 0;
    while i < v.len()
        invariant
            0 <= i <= v.len(),
            v@ == s@,
            r@ == regex_escaped(v@.subrange(0, i as int)),
        decreases v.len() - i,
    {
        let c = v[i];
        if is_meta(c) {
            push_char(&mut r, '\\');
        }
        push_char(&mut r, c);
        proof {
            let next = v@.subrange(0, i + 1);
            assert(next.drop_last() =~= v@.subrange(0, i as int));
            assert(next.last() == c);
        }
        i += 1;
    }
    assert(v@.subrange(0, v.len() as int) =~= v@);
    r
}

/// The anchored regex that a wildcard pattern stands for: `*` becomes `.*`,
/// `?` becomes `.`, everything else is literal.
pub open spec fn wildcard_regex(pattern: Seq<char>) -> Seq<char> {
    "^"@ + replaced(replaced(regex_escaped(pattern), "\\*"@, ".*"@), "\\?"@, "."@) + "$"@
}

/// Whether `key` matches the wildcard `pattern`.
pub open spec fn wildcard_matches(pattern: Seq<char>, key: Seq<char>) -> bool {
    ||| pattern == key
    ||| (pattern.contains('*') || pattern.contains('?')) && regex_valid(wildcard_regex(pattern))
        && regex_matches(wildcard_regex(pattern), key)
}

/// Simple wildcard matching (`*` any run, `?` any one character, the rest
/// literal), used for `--keys` and queries. A pattern without wildcards
/// matches only the identical key.
pub fn wildcard_match(pattern: &str, key: &str) -> (r: bool)
    ensures
        r == wildcard_matches(pattern@, key@),
{
    if str_eq(pattern, key) {
        return true;
    }
    if !has_char(pattern, '*') && !has_char(pattern, '?') {
        return false;
    }
    proof {
        reveal_strlit("\\*");
        reveal_strlit("\\?");
    }
    let esc = regex_escape(pattern);
    let a = replace(esc.as_str(), "\\*", ".*");
    let b = replace(a.as_str(), "\\?", ".");
    let c = concat("^", b.as_str());
    let re = concat(c.as_str(), "$");
    let keys = vec![owned(key)];
    match regex_match_all(re.as_str(), &keys) {
        Some(v) => {
            assert(keys@[0]@ == key@);
            v[0]
        },
        None => false,
    }
}

/// The regex text that one wildcard character stands for: `*` is any run
/// (`.*`), `?` exactly one character (`.`), a regex meta character is
/// escaped with a backslash, and any other character stands for itself.
pub open spec fn glob_piece(c: char) -> Seq<char> {
    if c == '*' {
        seq!['.', '*']
    } else if c == '?' {
        seq!['.']
    } else if is_regex_meta(c) {
        seq!['\\', c]
    } else {
        seq![c]
    }
}

/// The regex text of a wildcard pattern, character by character.
pub open spec fn glob_pieces(p: Seq<char>) -> Seq<char>
    decreases p.len(),
{
    if p.len() == 0 {
        Seq::empty()
    } else {
        glob_piece(p[0]) + glob_pieces(p.drop_first())
    }
}

/// A character escaped for a regex.
spec fn esc_piece(c: char) -> Seq<char> {
    if is_regex_meta(c) {
        seq!['\\', c]
    } else {
        seq![c]
    }
}

/// The escaped pattern after its escaped stars became `.*`.
spec fn star_pass(p: Seq<char>) -> Seq<char>
    decreases p.len(),
{
    if p.len() == 0 {
        Seq::empty()
    } else {
        (if p[0] == '*' {
            seq!['.', '*']
        } else {
            esc_piece(p[0])
        }) + star_pass(p.drop_first())
    }
}

proof fn lemma_escaped_concat(a: Seq<char>, b: Seq<char>)
    ensures
        regex_escaped(a + b) == regex_escaped(a) + regex_escaped(b),
    decreases b.len(),
{
    if b.len() == 0 {
        assert(a + b =~= a);
        assert(regex_escaped(a) + regex_escaped(b) =~= regex_escaped(a));
    } else {
        lemma_escaped_concat(a, b.drop_last());
        assert((a + b).drop_last() =~= a + b.drop_last());
        assert((a + b).last() == b.last());
        assert(regex_escaped(a) + regex_escaped(b) =~= regex_escaped(a) + regex_escaped(b.drop_last())
            + (if is_regex_meta(b.last()) {
            seq!['\\', b.last()]
        } else {
            seq![b.last()]
        }));
    }
}

proof fn lemma_escaped_front(p: Seq<char>)
    requires
        p.len() > 0,
    ensures
        regex_escaped(p) == esc_piece(p[0]) + regex_escaped(p.drop_first()),
{
    assert(p =~= seq![p[0]] + p.drop_first());
    lemma_escaped_concat(seq![p[0]], p.drop_first());
    let one = seq![p[0]];
    assert(one.drop_last() =~= Seq::<char>::empty());
    assert(one.last() == p[0]);
    assert(regex_escaped(one.drop_last()) =~= Seq::<char>::empty());
    assert(regex_escaped(one) =~= esc_piece(p[0]));
}

/// A two-character pattern that does not start `s` is skipped over one
/// character.
proof fn lemma_replaced_skip(a: char, rest: Seq<char>, from: Seq<char>, to: Seq<char>)
    requires
        from.len() == 2,
        !(rest.len() > 0 && a == from[0] && rest[0] == from[1]),
    ensures
        replaced(seq![a] + rest, from, to) == seq![a] + replaced(rest, from, to),
{
    let s = seq![a] + rest;
    if s.len() >= 2 {
        assert(s.subrange(0, 2) != from) by {
            if s.subrange(0, 2) == from {
                assert(s.subrange(0, 2)[0] == a && s.subrange(0, 2)[1] == rest[0]);
            }
        }
        assert(s.drop_first() =~= rest);
    } else {
        assert(rest.len() == 0);
        assert(rest.len() < from.len());
    }
}

/// A two-character pattern that starts `s` is replaced.
proof fn lemma_replaced_hit(rest: Seq<char>, from: Seq<char>, to: Seq<char>)
    requires
        from.len() == 2,
    ensures
        replaced(from + rest, from, to) == to + replaced(rest, from, to),
{
    let s = from + rest;
    assert(s.subrange(0, 2) =~= from);
    assert(s.subrange(2, s.len() as int) =~= rest);
}

proof fn lemma_star_pass(p: Seq<char>)
    ensures
        replaced(regex_escaped(p), seq!['\\', '*'], seq!['.', '*']) == star_pass(p),
        star_pass(p).len() > 0 ==> star_pass(p)[0] != '?',
        regex_escaped(p).len() > 0 ==> regex_escaped(p)[0] != '*' && regex_escaped(p)[0] != '?',
    decreases p.len(),
{
    let from = seq!['\\', '*'];
    let to = seq!['.', '*'];
    if p.len() == 0 {
        assert(regex_escaped(p) =~= Seq::<char>::empty());
    } else {
        let c = p[0];
        let t = p.drop_first();
        lemma_star_pass(t);
        lemma_escaped_front(p);
        let re = regex_escaped(t);
        if c == '*' {
            assert(regex_escaped(p) =~= from + re);
            lemma_replaced_hit(re, from, to);
        } else if is_regex_meta(c) {
            assert(regex_escaped(p) =~= seq!['\\'] + (seq![c] + re));
            lemma_replaced_skip(c, re, from, to);
            lemma_replaced_skip('\\', seq![c] + re, from, to);
            assert(seq!['\\'] + (seq![c] + replaced(re, from, to)) =~= seq!['\\', c] + replaced(re, from, to));
        } else {
            assert(regex_escaped(p) =~= seq![c] + re);
            lemma_replaced_skip(c, re, from, to);
        }
    }
}

proof fn lemma_question_pass(p: Seq<char>)
    ensures
        replaced(star_pass(p), seq!['\\', '?'], seq!['.']) == glob_pieces(p),
    decreases p.len(),
{
    let from = seq!['\\', '?'];
    let to = seq!['.'];
    if p.len() > 0 {
        let c = p[0];
        let t = p.drop_first();
        lemma_question_pass(t);
        lemma_star_pass(t);
        let sp = star_pass(t);
        if c == '*' {
            assert(star_pass(p) =~= seq!['.'] + (seq!['*'] + sp));
            lemma_replaced_skip('*', sp, from, to);
            lemma_replaced_skip('.', seq!['*'] + sp, from, to);
            assert(seq!['.'] + (seq!['*'] + replaced(sp, from, to)) =~= seq!['.', '*'] + replaced(sp, from, to));
        } else if c == '?' {
            assert(star_pass(p) =~= from + sp);
            lemma_replaced_hit(sp, from, to);
        } else if is_regex_meta(c) {
            assert(star_pass(p) =~= seq!['\\'] + (seq![c] + sp));
            lemma_replaced_skip(c, sp, from, to);
            lemma_replaced_skip('\\', seq![c] + sp, from, to);
            assert(seq!['\\'] + (seq![c] + replaced(sp, from, to)) =~= seq!['\\', c] + replaced(sp, from, to));
        } else {
            assert(star_pass(p) =~= seq![c] + sp);
            lemma_replaced_skip(c, sp, from, to);
        }
    }
}

/// The regex that a wildcard pattern is matched with is the pattern read
/// character by character, anchored at both ends: `*` becomes `.*` (any
/// run), `?` becomes `.` (exactly one character), a regex meta character is
/// escaped and every other character stands for itself.
pub proof fn law_wildcard_regex(p: Seq<char>, key: Seq<char>)
    ensures
        wildcard_regex(p) == seq!['^'] + glob_pieces(p) + seq!['$'],
        wildcard_matches(p, key) == (p == key || (p.contains('*') || p.contains('?')) && regex_valid(
            seq!['^'] + glob_pieces(p) + seq!['$'],
        ) && regex_matches(seq!['^'] + glob_pieces(p) + seq!['$'], key)),
{
    reveal_strlit("^");
    reveal_strlit("$");
    reveal_strlit("\\*");
    reveal_strlit(".*");
    reveal_strlit("\\?");
    reveal_strlit(".");
    assert("\\*"@ =~= seq!['\\', '*']);
    assert(".*"@ =~= seq!['.', '*']);
    assert("\\?"@ =~= seq!['\\', '?']);
    assert("."@ =~= seq!['.']);
    lemma_star_pass(p);
    lemma_question_pass(p);
}

// ---------------------------------------------------------------------------
// Instance names in keys
// ---------------------------------------------------------------------------

/// The instance named inside the brackets of a key: up to the first comma or
/// closing bracket, without surrounding quotes.
pub open spec fn instance_of(key: Seq<char>) -> Option<Seq<char>> {
    let start = first_where(key, |c: char| c == '[');
    if start >= key.len() {
        None
    } else {
        let rest = key.subrange(start + 1, key.len() as int);
        let end = first_where(rest, |c: char| c == ',' || c == ']');
        Some(strip_both(rest.subrange(0, end), |c: char| is_quote(c)))
    }
}

/// Extracts the mount point or instance from a key:
/// `vfs.fs.dependent.size[/data,pused]` → `/data`, `vfs.fs.pused[/boot]` →
/// `/boot`, `net.if.in["ens3"]` → `ens3`.
pub fn mount_of(key: &str) -> (r: Option<String>)
    ensures
        r matches Some(s) ==> instance_of(key@) == Some(s@),
        r is None ==> instance_of(key@) is None,
{
    let v = chars_of(key);
    let ghost open_p = |c: char| c == '[';
    let ghost close_p = |c: char| c == ',' || c == ']';
    let mut start: usize = 0;
    while start < v.len() && v[start] != '['
        invariant
            v@ == key@,
            0 <= start <= v.len(),
            forall|c: char| #[trigger] open_p(c) == (c == '['),
            forall|k: int| 0 <= k < start ==> !open_p(#[trigger] v@[k]),
        decreases v.len() - start,
    {
        start += 1;
    }
    proof {
        crate::text::lemma_first_where(key@, open_p, start as int);
    }
    if start >= v.len() {
        return None;
    }
    let ghost rest = key@.subrange(start + 1, key@.len() as int);
    let mut end: usize = start + 1;
    while end < v.len() && v[end] != ',' && v[end] != ']'
        invariant
            v@ == key@,
            start + 1 <= end <= v.len(),
            forall|c: char| #[trigger] close_p(c) == (c == ',' || c == ']'),
            forall|k: int| start + 1 <= k < end ==> !close_p(#[trigger] v@[k]),
        decreases v.len() - end,
    {
        end += 1;
    }
    proof {
        let e = end - start - 1;
        assert forall|k: int| 0 <= k < e implies !close_p(#[trigger] rest[k]) by {
            assert(rest[k] == v@[k + start + 1]);
        }
        if e < rest.len() {
            assert(rest[e] == v@[end as int]);
        }
        crate::text::lemma_first_where(rest, close_p, e);
        assert(rest.subrange(0, e) =~= v@.subrange(start + 1, end as int));
    }
    Some(strip_quotes(&v, start + 1, end))
}

/// Extracts the interface name from a key: `net.if.in["ens3",errors]` → `ens3`.
pub fn ifname_of(key: &str) -> (r: Option<String>)
    ensures
        r matches Some(s) ==> instance_of(key@) == Some(s@),
        r is None ==> instance_of(key@) is None,
{
    mount_of(key)
}

// ---------------------------------------------------------------------------
// Built-in rules
// ---------------------------------------------------------------------------

/// The built-in rules, in matching order.
pub open spec fn builtin_table() -> Seq<RuleView> {
    seq![
        ("cpu_util"@, r"^system\.cpu\.util(\[\])?$"@, "CPU 利用率"@, "%"@, AggKind::Util),
        ("load1"@, r"^system\.cpu\.load\[(all|percpu),avg1\]$"@, "1 分钟负载"@, ""@, AggKind::Raw),
        ("load5"@, r"^system\.cpu\.load\[(all|percpu),avg5\]$"@, "5 分钟负载"@, ""@, AggKind::Raw),
        ("load15"@, r"^system\.cpu\.load\[(all|percpu),avg15\]$"@, "15 分钟负载"@, ""@, AggKind::Raw),
        ("cpu_num"@, r"^system\.cpu\.num$"@, "CPU 核数"@, ""@, AggKind::Raw),
        ("mem_util"@, r"^vm\.memory\.(util|utilization)$"@, "内存利用率"@, "%"@, AggKind::Util),
        ("mem_pavail"@, r"^vm\.memory\.size\[pavailable\]$"@, "内存可用%(取反)"@, "%"@, AggKind::Util),
        ("mem_total"@, r"^vm\.memory\.size\[total\]$"@, "内存总量"@, "B"@, AggKind::Raw),
        ("swap_util"@, r"^system\.swap\.(util|pused)$"@, "swap 利用率"@, "%"@, AggKind::Util),
        ("swap_pfree"@, r"^system\.swap\.size\[[^\]]*,pfree\]$"@, "swap 空闲%(取反)"@, "%"@, AggKind::Util),
        ("uptime"@, r"^system\.uptime$"@, "运行时长"@, "s"@, AggKind::Raw),
        ("boottime"@, r"^system\.boottime$"@, "启动时间"@, "unixtime"@, AggKind::Raw),
        ("disk_pused"@, r"^vfs\.fs\.(dependent\.)?size\[[^\]]*,pused\]$"@, "分区空间%"@, "%"@, AggKind::Util),
        ("disk_pused_old"@, r"^vfs\.fs\.pused\["@, "分区空间%(老)"@, "%"@, AggKind::Util),
        ("disk_used"@, r"^vfs\.fs\.(dependent\.)?size\[[^\]]*,used\]$"@, "分区已用"@, "B"@, AggKind::Raw),
        ("disk_total"@, r"^vfs\.fs\.(dependent\.)?size\[[^\]]*,total\]$"@, "分区总量"@, "B"@, AggKind::Raw),
        ("inode_pused"@, r"^vfs\.fs\.(dependent\.)?inode\[[^\]]*,pused\]$"@, "inode%"@, "%"@, AggKind::Util),
        ("inode_pfree"@, r"^vfs\.fs\.(dependent\.)?inode\[[^\]]*,pfree\]$"@, "inode 空闲%(取反)"@, "%"@, AggKind::Util),
        ("io_await"@, r"^vfs\.dev\.(read|write)\.await\["@, "磁盘 IO 延迟"@, "ms"@, AggKind::Raw),
        ("zombies"@, r"^proc\.num\[[^\]]*zombie[^\]]*\]$"@, "僵尸进程"@, ""@, AggKind::Raw),
        ("localtime"@, r"^system\.localtime$"@, "系统时间"@, "unixtime"@, AggKind::Raw),
        ("agent_avail"@, r"^(zabbix\[host,active_agent,available\]|agent\.available|zabbix\[host\]agent\.available)$"@, "Agent 可用性"@, ""@, AggKind::Event),
        ("proc_num"@, r"^proc\.num(\[\])?$"@, "进程数"@, ""@, AggKind::Raw),
        ("maxfiles"@, r"^kernel\.maxfiles$"@, "fd 上限"@, ""@, AggKind::Raw),
        ("openfiles"@, r"^kernel\.openfiles$"@, "打开文件数"@, ""@, AggKind::Raw),
        ("tcp_service"@, r"^net\.tcp\.(service|port)\["@, "服务探测"@, ""@, AggKind::Event),
        ("if_in"@, r"^net\.if\.in\[[^\],\]]*\]$"@, "网卡入流量"@, "B"@, AggKind::Raw),
        ("if_in_bytes"@, r"^net\.if\.in\[[^\]]*,bytes\]$"@, "网卡入流量(bytes)"@, "B"@, AggKind::Raw),
        ("if_in_err"@, r"^net\.if\.in\[[^\]]*,errors\]$"@, "网卡入错包"@, ""@, AggKind::Raw),
        ("if_in_drop"@, r"^net\.if\.in\[[^\]]*,dropped\]$"@, "网卡入丢包"@, ""@, AggKind::Raw),
        ("if_out"@, r"^net\.if\.out\[[^\],\]]*\]$"@, "网卡出流量"@, "B"@, AggKind::Raw),
        ("if_out_bytes"@, r"^net\.if\.out\[[^\]]*,bytes\]$"@, "网卡出流量(bytes)"@, "B"@, AggKind::Raw),
        ("if_out_err"@, r"^net\.if\.out\[[^\]]*,errors\]$"@, "网卡出错包"@, ""@, AggKind::Raw),
        ("if_out_drop"@, r"^net\.if\.out\[[^\]]*,dropped\]$"@, "网卡出丢包"@, ""@, AggKind::Raw),
        ("if_speed"@, r"^net\.if\.speed\["@, "网卡速率"@, "bps"@, AggKind::Raw),
        ("icmp_loss"@, r"^icmppingloss$"@, "ICMP 丢包率"@, "%"@, AggKind::Util),
        ("icmp_sec"@, r"^icmppingsec\["@, "ICMP 延迟"@, "s"@, AggKind::Raw),
        ("cert_days"@, r"cert.*(expire|valid).*days|^tls\.cert"@, "证书剩余天数"@, "d"@, AggKind::Raw),
    ]
}

fn mk(id: &str, pattern: &str, label: &str, unit: &str, kind: AggKind) -> (r: MetricRule)
    ensures
        rule_view(r) == (id@, pattern@, label@, unit@, kind),
{
    MetricRule { id: owned(id), pattern: owned(pattern), label: owned(label), unit: owned(unit), kind }
}

/// The built-in recognition rules, in matching order.
#[verifier::rlimit(40)]
pub fn builtin_rules() -> (r: Vec<MetricRule>)
    ensures
        rule_views(r@) == builtin_table(),
{
    let r = vec![
        mk("cpu_util", r"^system\.cpu\.util(\[\])?$", "CPU 利用率", "%", AggKind::Util),
        mk("load1", r"^system\.cpu\.load\[(all|percpu),avg1\]$", "1 分钟负载", "", AggKind::Raw),
        mk("load5", r"^system\.cpu\.load\[(all|percpu),avg5\]$", "5 分钟负载", "", AggKind::Raw),
        mk("load15", r"^system\.cpu\.load\[(all|percpu),avg15\]$", "15 分钟负载", "", AggKind::Raw),
        mk("cpu_num", r"^system\.cpu\.num$", "CPU 核数", "", AggKind::Raw),
        mk("mem_util", r"^vm\.memory\.(util|utilization)$", "内存利用率", "%", AggKind::Util),
        mk("mem_pavail", r"^vm\.memory\.size\[pavailable\]$", "内存可用%(取反)", "%", AggKind::Util),
        mk("mem_total", r"^vm\.memory\.size\[total\]$", "内存总量", "B", AggKind::Raw),
        mk("swap_util", r"^system\.swap\.(util|pused)$", "swap 利用率", "%", AggKind::Util),
        mk("swap_pfree", r"^system\.swap\.size\[[^\]]*,pfree\]$", "swap 空闲%(取反)", "%", AggKind::Util),
        mk("uptime", r"^system\.uptime$", "运行时长", "s", AggKind::Raw),
        mk("boottime", r"^system\.boottime$", "启动时间", "unixtime", AggKind::Raw),
        mk("disk_pused", r"^vfs\.fs\.(dependent\.)?size\[[^\]]*,pused\]$", "分区空间%", "%", AggKind::Util),
        mk("disk_pused_old", r"^vfs\.fs\.pused\[", "分区空间%(老)", "%", AggKind::Util),
        mk("disk_used", r"^vfs\.fs\.(dependent\.)?size\[[^\]]*,used\]$", "分区已用", "B", AggKind::Raw),
        mk("disk_total", r"^vfs\.fs\.(dependent\.)?size\[[^\]]*,total\]$", "分区总量", "B", AggKind::Raw),
        mk("inode_pused", r"^vfs\.fs\.(dependent\.)?inode\[[^\]]*,pused\]$", "inode%", "%", AggKind::Util),
        mk("inode_pfree", r"^vfs\.fs\.(dependent\.)?inode\[[^\]]*,pfree\]$", "inode 空闲%(取反)", "%", AggKind::Util),
        mk("io_await", r"^vfs\.dev\.(read|write)\.await\[", "磁盘 IO 延迟", "ms", AggKind::Raw),
        mk("zombies", r"^proc\.num\[[^\]]*zombie[^\]]*\]$", "僵尸进程", "", AggKind::Raw),
        mk("localtime", r"^system\.localtime$", "系统时间", "unixtime", AggKind::Raw),
        mk("agent_avail", r"^(zabbix\[host,active_agent,available\]|agent\.available|zabbix\[host\]agent\.available)$", "Agent 可用性", "", AggKind::Event),
        mk("proc_num", r"^proc\.num(\[\])?$", "进程数", "", AggKind::Raw),
        mk("maxfiles", r"^kernel\.maxfiles$", "fd 上限", "", AggKind::Raw),
        mk("openfiles", r"^kernel\.openfiles$", "打开文件数", "", AggKind::Raw),
        mk("tcp_service", r"^net\.tcp\.(service|port)\[", "服务探测", "", AggKind::Event),
        mk("if_in", r"^net\.if\.in\[[^\],\]]*\]$", "网卡入流量", "B", AggKind::Raw),
        mk("if_in_bytes", r"^net\.if\.in\[[^\]]*,bytes\]$", "网卡入流量(bytes)", "B", AggKind::Raw),
        mk("if_in_err", r"^net\.if\.in\[[^\]]*,errors\]$", "网卡入错包", "", AggKind::Raw),
        mk("if_in_drop", r"^net\.if\.in\[[^\]]*,dropped\]$", "网卡入丢包", "", AggKind::Raw),
        mk("if_out", r"^net\.if\.out\[[^\],\]]*\]$", "网卡出流量", "B", AggKind::Raw),
        mk("if_out_bytes", r"^net\.if\.out\[[^\]]*,bytes\]$", "网卡出流量(bytes)", "B", AggKind::Raw),
        mk("if_out_err", r"^net\.if\.out\[[^\]]*,errors\]$", "网卡出错包", "", AggKind::Raw),
        mk("if_out_drop", r"^net\.if\.out\[[^\]]*,dropped\]$", "网卡出丢包", "", AggKind::Raw),
        mk("if_speed", r"^net\.if\.speed\[", "网卡速率", "bps", AggKind::Raw),
        mk("icmp_loss", r"^icmppingloss$", "ICMP 丢包率", "%", AggKind::Util),
        mk("icmp_sec", r"^icmppingsec\[", "ICMP 延迟", "s", AggKind::Raw),
        mk("cert_days", r"cert.*(expire|valid).*days|^tls\.cert", "证书剩余天数", "d", AggKind::Raw),
    ];
    assert(rule_views(r@) =~= builtin_table());
    r
}

// ---------------------------------------------------------------------------
// Compiled rule set
// ---------------------------------------------------------------------------

/// The first position of a rule with id `id`.
pub open spec fn index_of_id(rules: Seq<RuleView>, id: Seq<char>) -> Option<int>
    decreases rules.len(),
{
    if rules.len() == 0 {
        None
    } else {
        match index_of_id(rules.drop_last(), id) {
            Some(i) => Some(i),
            None => if rules.last().0 == id {
                Some(rules.len() - 1)
            } else {
                None
            },
        }
    }
}

/// `rules` with `c` in place of the first rule of the same id, or with `c`
/// appended when no rule has that id.
pub open spec fn with_custom(rules: Seq<RuleView>, c: RuleView) -> Seq<RuleView> {
    match index_of_id(rules, c.0) {
        Some(p) => rules.update(p, c),
        None => rules.push(c),
    }
}

/// The built-in rules with each custom rule applied in turn.
pub open spec fn merged(base: Seq<RuleView>, custom: Seq<RuleView>) -> Seq<RuleView>
    decreases custom.len(),
{
    if custom.len() == 0 {
        base
    } else {
        with_custom(merged(base, custom.drop_last()), custom.last())
    }
}

/// A custom rule takes the place of the first rule with its id, keeping
/// every other rule where it was; a custom rule with a new id comes last.
pub proof fn law_custom_rule_placed(base: Seq<RuleView>, c: RuleView)
    ensures
        match index_of_id(base, c.0) {
            Some(p) => {
                &&& 0 <= p < base.len()
                &&& base[p].0 == c.0
                &&& with_custom(base, c).len() == base.len()
                &&& with_custom(base, c)[p] == c
                &&& forall|q: int| 0 <= q < base.len() && q != p ==> #[trigger] with_custom(base, c)[q] == base[q]
            },
            None => {
                &&& forall|q: int| 0 <= q < base.len() ==> (#[trigger] base[q]).0 != c.0
                &&& with_custom(base, c) == base.push(c)
            },
        },
{
    lemma_index_of_id(base, c.0);
}

proof fn lemma_index_of_id(rules: Seq<RuleView>, id: Seq<char>)
    ensures
        match index_of_id(rules, id) {
            Some(p) => 0 <= p < rules.len() && rules[p].0 == id && forall|q: int|
                0 <= q < p ==> (#[trigger] rules[q]).0 != id,
            None => forall|q: int| 0 <= q < rules.len() ==> (#[trigger] rules[q]).0 != id,
        },
    decreases rules.len(),
{
    if rules.len() > 0 {
        lemma_index_of_id(rules.drop_last(), id);
        assert forall|q: int| 0 <= q < rules.len() - 1 implies rules[q] == rules.drop_last()[q] by {}
    }
}

/// The rules whose pattern compiles, in order.
pub open spec fn keep_valid(rules: Seq<RuleView>) -> Seq<RuleView>
    decreases rules.len(),
{
    if rules.len() == 0 {
        Seq::empty()
    } else {
        keep_valid(rules.drop_last()) + if regex_valid(rules.last().1) {
            seq![rules.last()]
        } else {
            Seq::<RuleView>::empty()
        }
    }
}

/// The rule set made from built-in rules and custom rules: custom rules
/// replace built-in ones of the same id or are appended; rules whose pattern
/// does not compile are dropped.
pub open spec fn loaded_rules(custom: Seq<RuleView>) -> Seq<RuleView> {
    keep_valid(merged(builtin_table(), custom))
}

/// The position of the first rule whose pattern matches `key`.
pub open spec fn first_match(rules: Seq<RuleView>, key: Seq<char>) -> Option<int>
    decreases rules.len(),
{
    if rules.len() == 0 {
        None
    } else {
        match first_match(rules.drop_last(), key) {
            Some(i) => Some(i),
            None => if regex_matches(rules.last().1, key) {
                Some(rules.len() - 1)
            } else {
                None
            },
        }
    }
}

proof fn lemma_index_of_id_bounds(rules: Seq<RuleView>, id: Seq<char>)
    ensures
        index_of_id(rules, id) matches Some(i) ==> 0 <= i < rules.len() && rules[i].0 == id,
    decreases rules.len(),
{
    if rules.len() > 0 {
        lemma_index_of_id_bounds(rules.drop_last(), id);
    }
}

pub proof fn lemma_first_match_bounds(rules: Seq<RuleView>, key: Seq<char>)
    ensures
        first_match(rules, key) matches Some(i) ==> 0 <= i < rules.len() && regex_matches(
            rules[i].1,
            key,
        ),
    decreases rules.len(),
{
    if rules.len() > 0 {
        lemma_first_match_bounds(rules.drop_last(), key);
    }
}

proof fn lemma_keep_valid_all_valid(rules: Seq<RuleView>)
    ensures
        forall|i: int| 0 <= i < keep_valid(rules).len() ==> regex_valid(#[trigger] keep_valid(rules)[i].1),
    decreases rules.len(),
{
    if rules.len() > 0 {
        lemma_keep_valid_all_valid(rules.drop_last());
        let a = keep_valid(rules.drop_last());
        assert forall|i: int| 0 <= i < keep_valid(rules).len() implies regex_valid(
            #[trigger] keep_valid(rules)[i].1,
        ) by {
            if i < a.len() {
                assert(keep_valid(rules)[i] == a[i]);
            }
        }
    }
}

/// The item recognition rules, ready for matching: every pattern compiles.
pub struct CompiledRules {
    rules: Vec<MetricRule>,
}

impl CompiledRules {
    /// The rules, in matching order.
    pub closed spec fn rule_list(&self) -> Seq<RuleView> {
        rule_views(self.rules@)
    }

    #[verifier::type_invariant]
    closed spec fn patterns_compile(&self) -> bool {
        forall|i: int| 0 <= i < self.rules@.len() ==> regex_valid(#[trigger] self.rules@[i].pattern@)
    }

    /// Built-in rules plus custom rules (a custom rule replaces the built-in
    /// one of the same id); rules whose pattern does not compile are dropped.
    pub fn load(custom: &Vec<MetricRule>) -> (r: CompiledRules)
        ensures
            r.rule_list() == loaded_rules(rule_views(custom@)),
    {
        let mut all = builtin_rules();
        let mut k: usize = 0;
        while k < custom.len()
            invariant
                0 <= k <= custom.len(),
                rule_views(all@) == merged(builtin_table(), rule_views(custom@.subrange(0, k as int))),
            decreases custom.len() - k,
        {
            let c = &custom[k];
            let ghost before = rule_views(all@);
            assert(rule_views(custom@.subrange(0, k + 1)).drop_last() =~= rule_views(
                custom@.subrange(0, k as int),
            ));
            assert(rule_views(custom@.subrange(0, k + 1)).last() == rule_view(*c));
            // position of the first rule with the same id
            let mut p: usize = 0;
            while p < all.len() && !str_eq(all[p].id.as_str(), c.id.as_str())
                invariant
                    0 <= p <= all.len(),
                    rule_views(all@) == before,
                    index_of_id(before.subrange(0, p as int), c.id@) is None,
                decreases all.len() - p,
            {
                assert(before.subrange(0, p + 1).drop_last() =~= before.subrange(0, p as int));
                p += 1;
            }
            let found = p < all.len();
            proof {
                lemma_index_prefix(before, c.id@, p as int, found);
            }
            if found {
                all.set(p, c.duplicate());
                assert(rule_views(all@) =~= with_custom(before, rule_view(*c)));
            } else {
                all.push(c.duplicate());
                assert(rule_views(all@) =~= with_custom(before, rule_view(*c)));
            }
            k += 1;
        }
        assert(custom@.subrange(0, custom.len() as int) =~= custom@);
        let ghost all_v = rule_views(all@);
        let mut rules: Vec<MetricRule> = Vec::new();
        let no_keys: Vec<String> = Vec::new();
        let mut i: usize = 0;
        while i < all.len()
            invariant
                0 <= i <= all.len(),
                rule_views(all@) == all_v,
                rule_views(rules@) == keep_valid(all_v.subrange(0, i as int)),
                forall|j: int| 0 <= j < rules@.len() ==> regex_valid(#[trigger] rules@[j].pattern@),
            decreases all.len() - i,
        {
            assert(all_v.subrange(0, i + 1).drop_last() =~= all_v.subrange(0, i as int));
            assert(all_v.subrange(0, i + 1).last() == rule_view(all@[i as int]));
            let ok = regex_match_all(all[i].pattern.as_str(), &no_keys);
            if ok.is_some() {
                rules.push(all[i].duplicate());
                assert(rule_views(rules@) =~= keep_valid(all_v.subrange(0, i + 1)));
            } else {
                assert(rule_views(rules@) =~= keep_valid(all_v.subrange(0, i + 1)));
            }
            i += 1;
        }
        assert(all_v.subrange(0, all.len() as int) =~= all_v);
        CompiledRules { rules }
    }

    /// The first rule whose pattern matches `key`.
    pub fn match_key(&self, key: &str) -> (r: Option<&MetricRule>)
        ensures
            match first_match(self.rule_list(), key@) {
                Some(i) => r matches Some(m) && rule_view(*m) == self.rule_list()[i],
                None => r is None,
            },
    {
        proof {
            use_type_invariant(self);
        }
        let keys = vec![owned(key)];
        let mut i: usize = 0;
        while i < self.rules.len()
            invariant
                0 <= i <= self.rules.len(),
                keys@.len() == 1,
                keys@[0]@ == key@,
                forall|j: int| 0 <= j < self.rules@.len() ==> regex_valid(#[trigger] self.rules@[j].pattern@),
                first_match(rule_views(self.rules@).subrange(0, i as int), key@) is None,
            decreases self.rules.len() - i,
        {
            let ghost pre = rule_views(self.rules@).subrange(0, i + 1);
            assert(pre.drop_last() =~= rule_views(self.rules@).subrange(0, i as int));
            assert(pre.last() == rule_view(self.rules@[i as int]));
            let m = regex_match_all(self.rules[i].pattern.as_str(), &keys);
            match m {
                Some(v) => {
                    if v[0] {
                        proof {
                            lemma_first_match_prefix(rule_views(self.rules@), key@, i as int + 1);
                        }
                        return Some(&self.rules[i]);
                    }
                },
                None => {},
            }
            i += 1;
        }
        assert(rule_views(self.rules@).subrange(0, self.rules@.len() as int) =~= rule_views(self.rules@));
        None
    }

    /// For each key, the position of the first rule whose pattern matches it;
    /// each pattern is compiled once.
    pub fn match_keys(&self, keys: &Vec<String>) -> (r: Vec<Option<usize>>)
        ensures
            r@.len() == keys@.len(),
            forall|j: int|
                0 <= j < keys@.len() ==> (#[trigger] r@[j] matches Some(i) ==> first_match(
                    self.rule_list(),
                    keys@[j]@,
                ) == Some(i as int)) && (r@[j] is None ==> first_match(self.rule_list(), keys@[j]@) is None),
    {
        proof {
            use_type_invariant(self);
        }
        let ghost all = rule_views(self.rules@);
        let mut r: Vec<Option<usize>> = Vec::new();
        let mut j: usize = 0;
        while j < keys.len()
            invariant
                0 <= j <= keys.len(),
                r@.len() == j,
                forall|m: int| 0 <= m < j ==> #[trigger] r@[m] is None,
            decreases keys.len() - j,
        {
            r.push(None);
            j += 1;
        }
        let mut i: usize = 0;
        while i < self.rules.len()
            invariant
                0 <= i <= self.rules.len(),
                all == rule_views(self.rules@),
                r@.len() == keys@.len(),
                forall|q: int| 0 <= q < self.rules@.len() ==> regex_valid(#[trigger] self.rules@[q].pattern@),
                forall|m: int|
                    0 <= m < keys@.len() ==> (#[trigger] r@[m] matches Some(x) ==> first_match(
                        all.subrange(0, i as int),
                        keys@[m]@,
                    ) == Some(x as int)) && (r@[m] is None ==> first_match(all.subrange(0, i as int), keys@[m]@) is None),
            decreases self.rules.len() - i,
        {
            let ghost pre = all.subrange(0, i + 1);
            assert(pre.drop_last() =~= all.subrange(0, i as int));
            assert(pre.last() == rule_view(self.rules@[i as int]));
            let hits = regex_match_all(self.rules[i].pattern.as_str(), keys);
            let hits = match hits {
                Some(h) => h,
                None => {
                    assert(false);
                    Vec::new()
                },
            };
            let ghost r0 = r@;
            let mut m: usize = 0;
            while m < keys.len()
                invariant
                    0 <= m <= keys.len(),
                    r@.len() == keys@.len(),
                    hits@.len() == keys@.len(),
                    r0.len() == keys@.len(),
                    pre.len() == i + 1,
                    pre.drop_last() == all.subrange(0, i as int),
                    forall|q: int| 0 <= q < keys@.len() ==> hits@[q] == regex_matches(pre.last().1, #[trigger] keys@[q]@),
                    forall|q: int|
                        0 <= q < keys@.len() ==> (#[trigger] r0[q] matches Some(x) ==> first_match(
                            all.subrange(0, i as int),
                            keys@[q]@,
                        ) == Some(x as int)) && (r0[q] is None ==> first_match(all.subrange(0, i as int), keys@[q]@) is None),
                    forall|q: int| m <= q < keys@.len() ==> #[trigger] r@[q] == r0[q],
                    forall|q: int|
                        0 <= q < m ==> (#[trigger] r@[q] matches Some(x) ==> first_match(pre, keys@[q]@) == Some(
                            x as int,
                        )) && (r@[q] is None ==> first_match(pre, keys@[q]@) is None),
                decreases keys.len() - m,
            {
                assert(hits@[m as int] == regex_matches(pre.last().1, keys@[m as int]@));
                if r[m].is_none() && hits[m] {
                    r.set(m, Some(i));
                }
                m += 1;
            }
            i += 1;
        }
        assert(all.subrange(0, self.rules@.len() as int) =~= all);
        r
    }

    /// The number of rules.
    pub fn len(&self) -> (n: usize)
        ensures
            n == self.rule_list().len(),
    {
        self.rules.len()
    }

    /// The rule at position `i`.
    pub fn get(&self, i: usize) -> (r: &MetricRule)
        requires
            i < self.rule_list().len(),
        ensures
            rule_view(*r) == self.rule_list()[i as int],
    {
        &self.rules[i]
    }

    /// The first rule with id `id`.
    pub fn by_id(&self, id: &str) -> (r: Option<&MetricRule>)
        ensures
            match index_of_id(self.rule_list(), id@) {
                Some(i) => r matches Some(m) && rule_view(*m) == self.rule_list()[i],
                None => r is None,
            },
    {
        let mut i: usize = 0;
        while i < self.rules.len()
            invariant
                0 <= i <= self.rules.len(),
                index_of_id(rule_views(self.rules@).subrange(0, i as int), id@) is None,
            decreases self.rules.len() - i,
        {
            let ghost pre = rule_views(self.rules@).subrange(0, i + 1);
            assert(pre.drop_last() =~= rule_views(self.rules@).subrange(0, i as int));
            if str_eq(self.rules[i].id.as_str(), id) {
                proof {
                    lemma_index_prefix(rule_views(self.rules@), id@, i as int, true);
                }
                return Some(&self.rules[i]);
            }
            i += 1;
        }
        assert(rule_views(self.rules@).subrange(0, self.rules@.len() as int) =~= rule_views(self.rules@));
        None
    }
}

impl Default for CompiledRules {
    /// The built-in rules alone.
    fn default() -> (r: Self)
        ensures
            r.rule_list() == loaded_rules(Seq::empty()),
    {
        let none: Vec<MetricRule> = Vec::new();
        let r = Self::load(&none);
        assert(rule_views(none@) =~= Seq::<RuleView>::empty());
        r
    }
}

/// When no rule among the first `p` has id `id` and rule `p` does (if
/// `found`), the first rule with that id is at `p`; otherwise, with `p` the
/// length, there is none.
proof fn lemma_index_prefix(rules: Seq<RuleView>, id: Seq<char>, p: int, found: bool)
    requires
        0 <= p <= rules.len(),
        index_of_id(rules.subrange(0, p), id) is None,
        found ==> p < rules.len() && rules[p].0 == id,
        !found ==> p == rules.len(),
    ensures
        found ==> index_of_id(rules, id) == Some(p),
        !found ==> index_of_id(rules, id) is None,
    decreases rules.len() - p,
{
    if !found {
        assert(rules.subrange(0, p) =~= rules);
    } else if p + 1 == rules.len() {
        assert(rules.drop_last() =~= rules.subrange(0, p));
    } else {
        let pre = rules.subrange(0, p + 1);
        assert(pre.drop_last() =~= rules.subrange(0, p));
        lemma_index_grow(rules, id, p + 1);
    }
}

proof fn lemma_index_grow(rules: Seq<RuleView>, id: Seq<char>, k: int)
    requires
        0 <= k <= rules.len(),
        index_of_id(rules.subrange(0, k), id) is Some,
    ensures
        index_of_id(rules, id) == index_of_id(rules.subrange(0, k), id),
    decreases rules.len() - k,
{
    if k == rules.len() {
        assert(rules.subrange(0, k) =~= rules);
    } else {
        assert(rules.drop_last().subrange(0, k) =~= rules.subrange(0, k));
        lemma_index_grow(rules.drop_last(), id, k);
    }
}

/// A match found within the first `k` rules is the first match overall.
proof fn lemma_first_match_prefix(rules: Seq<RuleView>, key: Seq<char>, k: int)
    requires
        0 <= k <= rules.len(),
        first_match(rules.subrange(0, k), key) is Some,
    ensures
        first_match(rules, key) == first_match(rules.subrange(0, k), key),
    decreases rules.len() - k,
{
    if k == rules.len() {
        assert(rules.subrange(0, k) =~= rules);
    } else {
        assert(rules.drop_last().subrange(0, k) =~= rules.subrange(0, k));
        lemma_first_match_prefix(rules.drop_last(), key, k);
    }
}

} // verus!
