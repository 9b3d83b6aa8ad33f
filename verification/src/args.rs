//! What the command line and the HTTP API ask for: the scope, the time range,
//! a filtered page of a list and a picked entry of a menu.
use vstd::prelude::*;
use crate::errors::PatrolError;
use crate::text::{
    chars_of, concat, contains, owned, parse_usize, parsed_usize, str_eq, to_lowercase,
    unicode_lowercase,
};
use crate::timerange::{Period, TimeSpec, debug_quoted, debug_str};
use crate::types::Scope;

verus! {

/// The period that a `--period` value names.
pub open spec fn period_named(p: Seq<char>) -> Option<Period> {
    if p == "day"@ {
        Some(Period::Day)
    } else if p == "week"@ {
        Some(Period::Week)
    } else if p == "month"@ {
        Some(Period::Month)
    } else if p == "year"@ {
        Some(Period::Year)
    } else {
        None
    }
}

/// The view of an optional string.
pub open spec fn opt_seq(v: Option<String>) -> Option<Seq<char>> {
    match v {
        Some(s) => Some(s@),
        None => None,
    }
}

/// The time range that the options ask for: `from`/`to` first, then `last`,
/// then `period` (a day when none is given); `Err` carries an unknown period.
pub open spec fn time_spec_of(
    period: Option<String>,
    last: Option<String>,
    from: Option<String>,
    to: Option<String>,
) -> Result<TimeSpec, Seq<char>> {
    match from {
        Some(f) => Ok(TimeSpec::FromTo { from: f, to: to }),
        None => match last {
            Some(l) => Ok(TimeSpec::Last(l)),
            None => match period {
                None => Ok(TimeSpec::Period(Period::Day)),
                Some(p) => match period_named(p@) {
                    Some(x) => Ok(TimeSpec::Period(x)),
                    None => Err(p@),
                },
            },
        },
    }
}

/// The period named `p`.
fn period_of(p: &str) -> (r: Option<Period>)
    ensures
        r == period_named(p@),
{
    if str_eq(p, "day") {
        Some(Period::Day)
    } else if str_eq(p, "week") {
        Some(Period::Week)
    } else if str_eq(p, "month") {
        Some(Period::Month)
    } else if str_eq(p, "year") {
        Some(Period::Year)
    } else {
        None
    }
}

/// The time range asked for, or the unknown period name.
fn time_spec(period: Option<String>, last: Option<String>, from: Option<String>, to: Option<String>) -> (r:
    Result<TimeSpec, String>)
    ensures
        match time_spec_of(period, last, from, to) {
            Ok(t) => r == Ok::<TimeSpec, String>(t),
            Err(p) => r matches Err(e) && e@ == p,
        },
{
    match from {
        Some(f) => Ok(TimeSpec::FromTo { from: f, to }),
        None => match last {
            Some(l) => Ok(TimeSpec::Last(l)),
            None => match period {
                None => Ok(TimeSpec::Period(Period::Day)),
                Some(p) => match period_of(p.as_str()) {
                    Some(x) => Ok(TimeSpec::Period(x)),
                    None => Err(p),
                },
            },
        },
    }
}

/// The time range of the command-line options; an unknown period is a
/// configuration error that names the expected values.
pub fn cli_time_spec(
    period: Option<String>,
    last: Option<String>,
    from: Option<String>,
    to: Option<String>,
) -> (r: Result<TimeSpec, PatrolError>)
    ensures
        match time_spec_of(period, last, from, to) {
            Ok(t) => r == Ok::<TimeSpec, PatrolError>(t),
            Err(p) => (r matches Err(PatrolError::Config(m)) && m@ == "unknown period "@
                + debug_quoted(p) + " (expected day|week|month|year)"@),
        },
{
    match time_spec(period, last, from, to) {
        Ok(t) => Ok(t),
        Err(p) => {
            let q = debug_str(p.as_str());
            let head = concat("unknown period ", q.as_str());
            Err(PatrolError::Config(concat(head.as_str(), " (expected day|week|month|year)")))
        },
    }
}

/// The time fields of an HTTP request, as a nested `time` object or at the
/// top level of the request.
#[derive(Debug, Clone)]
pub struct TimeFields {
    pub period: Option<String>,
    pub last: Option<String>,
    pub from: Option<String>,
    pub to: Option<String>,
}

/// The refusal of a request that gives both a nested `time` object and
/// top-level time fields.
pub open spec fn mixed_time_refusal() -> Seq<char> {
    "time 对象不能与顶层 period/last/from/to 同时使用"@
}

/// The time fields a request asks with: the nested object when it is given
/// alone, else the top-level fields; none when both are given.
pub open spec fn request_time_fields(
    time: Option<TimeFields>,
    period: Option<String>,
    last: Option<String>,
    from: Option<String>,
    to: Option<String>,
) -> Option<TimeFields> {
    match time {
        Some(t) => if period is None && last is None && from is None && to is None {
            Some(t)
        } else {
            None
        },
        None => Some(TimeFields { period, last, from, to }),
    }
}

/// Picks the time fields of an HTTP request: the nested `time` object or the
/// top-level fields; giving both is a configuration error.
pub fn api_time_fields(
    time: Option<TimeFields>,
    period: Option<String>,
    last: Option<String>,
    from: Option<String>,
    to: Option<String>,
) -> (r: Result<TimeFields, PatrolError>)
    ensures
        match request_time_fields(time, period, last, from, to) {
            Some(f) => r == Ok::<TimeFields, PatrolError>(f),
            None => (r matches Err(PatrolError::Config(m)) && m@ == mixed_time_refusal()),
        },
{
    match time {
        Some(t) => if period.is_none() && last.is_none() && from.is_none() && to.is_none() {
            Ok(t)
        } else {
            Err(PatrolError::Config(owned("time 对象不能与顶层 period/last/from/to 同时使用")))
        },
        None => Ok(TimeFields { period, last, from, to }),
    }
}

/// The time range of an HTTP request, from its nested `time` object or its
/// top-level fields (giving both is refused); an unknown period is a
/// configuration error.
pub fn api_time_spec(
    time: Option<TimeFields>,
    period: Option<String>,
    last: Option<String>,
    from: Option<String>,
    to: Option<String>,
) -> (r: Result<TimeSpec, PatrolError>)
    ensures
        match request_time_fields(time, period, last, from, to) {
            None => (r matches Err(PatrolError::Config(m)) && m@ == mixed_time_refusal()),
            Some(f) => match time_spec_of(f.period, f.last, f.from, f.to) {
                Ok(t) => r == Ok::<TimeSpec, PatrolError>(t),
                Err(p) => (r matches Err(PatrolError::Config(m)) && m@ == "未知 period "@
                    + debug_quoted(p)),
            },
        },
{
    let f = match api_time_fields(time, period, last, from, to) {
        Ok(f) => f,
        Err(e) => return Err(e),
    };
    match time_spec(f.period, f.last, f.from, f.to) {
        Ok(t) => Ok(t),
        Err(p) => {
            let q = debug_str(p.as_str());
            Err(PatrolError::Config(concat("未知 period ", q.as_str())))
        },
    }
}

/// The scope of the command-line options: the single host if given, else
/// the host list if not empty, else the groups if any, else all hosts (the
/// more specific option wins).
pub fn cli_scope(groups: Vec<String>, host: Option<String>, hosts: Vec<String>) -> (r: Scope)
    ensures
        host is Some ==> (r matches Scope::Hosts(v) && v@ == seq![host->0]),
        host is None && hosts.len() > 0 ==> r == Scope::Hosts(hosts),
        host is None && hosts.len() == 0 && groups.len() > 0 ==> r == Scope::Groups(groups),
        host is None && hosts.len() == 0 && groups.len() == 0 ==> r == Scope::All,
{
    match host {
        Some(h) => {
            let mut v: Vec<String> = Vec::new();
            v.push(h);
            Scope::Hosts(v)
        },
        None => if hosts.len() > 0 {
            Scope::Hosts(hosts)
        } else if groups.len() > 0 {
            Scope::Groups(groups)
        } else {
            Scope::All
        },
    }
}

/// The scope of an HTTP request: the hosts if given, else the group if
/// given, else all hosts (the more specific parameter wins).
pub fn api_scope(group: Option<String>, hosts: Option<Vec<String>>) -> (r: Scope)
    ensures
        hosts is Some ==> r == Scope::Hosts(hosts->0),
        hosts is None && group is Some ==> (r matches Scope::Groups(v) && v@ == seq![group->0]),
        hosts is None && group is None ==> r == Scope::All,
{
    match hosts {
        Some(h) => Scope::Hosts(h),
        None => match group {
            Some(g) => {
                let mut v: Vec<String> = Vec::new();
                v.push(g);
                Scope::Groups(v)
            },
            None => Scope::All,
        },
    }
}

/// The positions (in order) of the labels that the search finds, ignoring
/// case; all of them without a search or with an empty one.
pub open spec fn searched(labels: Seq<String>, search: Option<Seq<char>>) -> Seq<int>
    decreases labels.len(),
{
    if labels.len() == 0 {
        Seq::empty()
    } else {
        let rest = searched(labels.drop_last(), search);
        let keep = match search {
            Some(s) => s.len() == 0 || crate::text::contains_seq(
                unicode_lowercase(labels.last()@),
                unicode_lowercase(s),
            ),
            None => true,
        };
        if keep {
            rest.push(labels.len() - 1)
        } else {
            rest
        }
    }
}

/// The first entry of page `page` (counted from 1, the first page when
/// none is given) of pages of `size` entries.
pub open spec fn page_start(page: Option<usize>, size: nat) -> nat {
    let p: nat = match page {
        Some(x) => x as nat,
        None => 1,
    };
    if p == 0 {
        0
    } else {
        ((p - 1) as nat) * size
    }
}

/// The entries of `kept` on the page asked for; all of them when `size` is
/// none or 0.
pub open spec fn paged(kept: Seq<int>, page: Option<usize>, size: Option<usize>) -> Seq<int> {
    match size {
        Some(n) => if n > 0 {
            let start = page_start(page, n as nat);
            if start < kept.len() {
                let end = if start + n < kept.len() {
                    start + n
                } else {
                    kept.len() as int
                };
                kept.subrange(start as int, end)
            } else {
                Seq::empty()
            }
        } else {
            kept
        },
        None => kept,
    }
}

/// The positions of the entries shown of a list whose labels are `labels`:
/// those the search finds, then the page asked for; and whether any entry
/// found was left off the page.
pub fn filter_page(labels: &Vec<String>, search: Option<&str>, page: Option<usize>, size: Option<usize>) -> (r:
    (Vec<usize>, bool))
    requires
        match size {
            Some(n) => page_start(page, n as nat) <= usize::MAX,
            None => true,
        },
    ensures
        r.0@.map_values(|i: usize| i as int) == paged(
            searched(labels@, match search {
                Some(s) => Some(s@),
                None => None,
            }),
            page,
            size,
        ),
        r.1 == (searched(labels@, match search {
            Some(s) => Some(s@),
            None => None,
        }).len() > r.0.len()),
{
    let ghost sv: Option<Seq<char>> = match search {
        Some(s) => Some(s@),
        None => None,
    };
    let lower: Option<String> = match search {
        Some(s) => if s.is_empty() {
            None
        } else {
            Some(to_lowercase(s))
        },
        None => None,
    };
    let mut kept: Vec<usize> = Vec::new();
    let mut i: usize = 0;
    while i < labels.len()
        invariant
            0 <= i <= labels.len(),
            match lower {
                Some(l) => sv is Some && sv->0.len() > 0 && l@ == unicode_lowercase(sv->0),
                None => sv is None || sv->0.len() == 0,
            },
            kept@.map_values(|x: usize| x as int) == searched(labels@.subrange(0, i as int), sv),
            forall|a: int| 0 <= a < kept.len() ==> #[trigger] kept@[a] < i,
        decreases labels.len() - i,
    {
        assert(labels@.subrange(0, i + 1).drop_last() =~= labels@.subrange(0, i as int));
        let keep = match &lower {
            Some(l) => {
                let ll = to_lowercase(labels[i].as_str());
                contains(ll.as_str(), l.as_str())
            },
            None => true,
        };
        let ghost before = kept@;
        if keep {
            kept.push(i);
            assert(kept@.map_values(|x: usize| x as int) =~= before.map_values(|x: usize| x as int).push(
                i as int,
            ));
        }
        i += 1;
    }
    assert(labels@.subrange(0, labels.len() as int) =~= labels@);
    let total = kept.len();
    let ghost kv = kept@.map_values(|x: usize| x as int);
    let out: Vec<usize> = match size {
        Some(n) => if n > 0 {
            let p: usize = match page {
                Some(x) => x,
                None => 1,
            };
            let start: usize = if p == 0 {
                0
            } else {
                assert(((p - 1) as nat) * (n as nat) <= usize::MAX);
                (p - 1) * n
            };
            if start < kept.len() {
                let end: usize = if kept.len() - start > n {
                    start + n
                } else {
                    kept.len()
                };
                let mut o: Vec<usize> = Vec::new();
                let mut j: usize = start;
                while j < end
                    invariant
                        start <= j <= end <= kept.len(),
                        o@.map_values(|x: usize| x as int) == kv.subrange(start as int, j as int),
                        kv == kept@.map_values(|x: usize| x as int),
                    decreases end - j,
                {
                    let ghost before = o@;
                    o.push(kept[j]);
                    assert(kv[j as int] == kept@[j as int] as int);
                    assert(o@.map_values(|x: usize| x as int) =~= before.map_values(|x: usize| x as int).push(
                        kept@[j as int] as int,
                    ));
                    assert(kv.subrange(start as int, j + 1) =~= kv.subrange(start as int, j as int).push(
                        kv[j as int],
                    ));
                    j += 1;
                }
                o
            } else {
                Vec::new()
            }
        } else {
            kept
        },
        None => kept,
    };
    let truncated = total > out.len();
    (out, truncated)
}

/// Whether `c` is an ASCII letter.
pub open spec fn is_ascii_letter(c: char) -> bool {
    ('a' <= c && c <= 'z') || ('A' <= c && c <= 'Z')
}

/// The position of a letter counted from 1 (`a` or `A` is 1).
pub open spec fn letter_number(c: char) -> int {
    if 'a' <= c && c <= 'z' {
        (c as int) - ('a' as int) + 1
    } else {
        (c as int) - ('A' as int) + 1
    }
}

/// The entry (from 0) that a menu answer picks among `len` entries: a number
/// from 1, or a single letter from `a`; none for anything else or out of
/// range.
pub open spec fn picked(s: Seq<char>, len: usize) -> Option<usize> {
    match parsed_usize(s) {
        Some(n) => if 1 <= n && n <= len {
            Some((n - 1) as usize)
        } else {
            None
        },
        None => if s.len() == 1 && is_ascii_letter(s[0]) {
            let n = letter_number(s[0]);
            if 1 <= n && n <= len {
                Some((n - 1) as usize)
            } else {
                None
            }
        } else {
            None
        },
    }
}

/// The entry that a menu answer `s` picks among `len` entries.
pub fn parse_pick(s: &str, len: usize) -> (r: Option<usize>)
    ensures
        r == picked(s@, len),
{
    match parse_usize(s) {
        Some(n) => {
            return if n >= 1 && n <= len {
                Some(n - 1)
            } else {
                None
            };
        },
        None => {},
    }
    let v = chars_of(s);
    if v.len() == 1 {
        let c = v[0];
        let n: u32 = if 'a' <= c && c <= 'z' {
            (c as u32) - ('a' as u32) + 1
        } else if 'A' <= c && c <= 'Z' {
            (c as u32) - ('A' as u32) + 1
        } else {
            return None;
        };
        if n >= 1 && (n as usize) <= len {
            return Some((n - 1) as usize);
        }
    }
    None
}

/// Whether an HTTP request may pass: `/health` and a server without a token
/// always; otherwise only with the header `Bearer <token>`.
pub open spec fn request_allowed(path: Seq<char>, token: Option<Seq<char>>, header: Option<Seq<char>>) -> bool {
    path == "/health"@ || match token {
        None => true,
        Some(t) => header == Some("Bearer "@ + t),
    }
}

/// Whether an HTTP request for `path`, with the `Authorization` header
/// `header` (none when absent or not text), may pass a server started with
/// `token`.
pub fn authorized(path: &str, token: Option<&str>, header: Option<&str>) -> (r: bool)
    ensures
        r == request_allowed(
            path@,
            match token {
                Some(t) => Some(t@),
                None => None,
            },
            match header {
                Some(h) => Some(h@),
                None => None,
            },
        ),
{
    if str_eq(path, "/health") {
        return true;
    }
    match token {
        None => true,
        Some(t) => match header {
            Some(h) => {
                let expect = concat("Bearer ", t);
                str_eq(h, expect.as_str())
            },
            None => false,
        },
    }
}

} // verus!
