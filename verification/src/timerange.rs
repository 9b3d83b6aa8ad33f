//! Time ranges: a preset period, a relative duration (`48h` / `15d` / `12M` /
//! `30m`) or an explicit from/to pair; from/to wins over last, last over
//! period.
use vstd::prelude::*;
use vstd::utf8::encode_utf8;
use chrono::{Datelike, TimeZone, Timelike};
use crate::errors::PatrolError;
use crate::text::{
    chars_of, concat, dec_int, fmt_i64, owned, parse_i64, parsed_i64, replace, replaced, string_of,
    trim, trimmed,
};

verus! {

/// A preset period.
#[derive(Debug, Clone, Copy, PartialEq, Eq, Structural)]
pub enum Period {
    Day,
    Week,
    Month,
    Year,
}

/// The length of a period in seconds: 24h, 7d, 30d, 365d.
pub open spec fn period_seconds(p: Period) -> i64 {
    match p {
        Period::Day => 86400,
        Period::Week => 604800,
        Period::Month => 2592000,
        Period::Year => 31536000,
    }
}

impl Period {
    /// The length of the period in seconds.
    pub fn seconds(self) -> (s: i64)
        ensures
            s == period_seconds(self),
    {
        match self {
            Period::Day => 24 * 3600,
            Period::Week => 7 * 24 * 3600,
            Period::Month => 30 * 24 * 3600,
            Period::Year => 365 * 24 * 3600,
        }
    }

    /// The Chinese label: 日, 周, 月, 年.
    pub fn label(self) -> (r: &'static str)
        ensures
            r@ == match self {
                Period::Day => "日"@,
                Period::Week => "周"@,
                Period::Month => "月"@,
                Period::Year => "年"@,
            },
    {
        match self {
            Period::Day => "日",
            Period::Week => "周",
            Period::Month => "月",
            Period::Year => "年",
        }
    }
}

/// A week is seven days, a month thirty and a year 365.
pub proof fn law_period_lengths()
    ensures
        period_seconds(Period::Week) == 7 * period_seconds(Period::Day),
        period_seconds(Period::Month) == 30 * period_seconds(Period::Day),
        period_seconds(Period::Year) == 365 * period_seconds(Period::Day),
{
}

/// One of the three ways to give a range.
#[derive(Debug, Clone)]
pub enum TimeSpec {
    Period(Period),
    Last(String),
    FromTo { from: String, to: Option<String> },
}

impl Default for TimeSpec {
    /// The last day.
    fn default() -> (s: Self)
        ensures
            s matches TimeSpec::Period(p) && p == Period::Day,
    {
        TimeSpec::Period(Period::Day)
    }
}

/// The seconds per unit of a relative duration: h/H hours, d/D days, M months
/// of 30 days, m minutes.
pub open spec fn unit_seconds(u: Seq<char>) -> Option<int> {
    if u == "h"@ || u == "H"@ {
        Some(3600)
    } else if u == "d"@ || u == "D"@ {
        Some(86400)
    } else if u == "M"@ {
        Some(2592000)
    } else if u == "m"@ {
        Some(60)
    } else {
        None
    }
}

/// The number part of a relative duration: all but its last character.
pub open spec fn duration_number(s: Seq<char>) -> Seq<char> {
    let t = trimmed(s);
    if t.len() == 0 {
        t
    } else {
        t.drop_last()
    }
}

/// The unit part of a relative duration: its last character.
pub open spec fn duration_unit(s: Seq<char>) -> Seq<char> {
    let t = trimmed(s);
    if t.len() == 0 {
        t
    } else {
        seq![t.last()]
    }
}

/// The seconds a relative duration spells, or the message of its refusal.
pub open spec fn last_duration_result(s: Seq<char>) -> Result<int, Seq<char>> {
    let t = trimmed(s);
    match parsed_i64(duration_number(s)) {
        None => Err("--last 格式错误："@ + t + "（示例 48h / 15d / 12M）"@),
        Some(n) => match unit_seconds(duration_unit(s)) {
            None => Err("--last 单位不支持："@ + duration_unit(s) + "（支持 h/d/M/m）"@),
            Some(f) => if n * f <= 0 {
                Err("--last 时长必须为正"@)
            } else {
                Ok(n * f)
            },
        },
    }
}

/// The inputs on which reading a relative duration does not panic: the last
/// character is a single byte, and the product fits in an `i64`.
pub open spec fn last_duration_defined(s: Seq<char>) -> bool {
    let t = trimmed(s);
    &&& (t.len() == 0 || (t.last() as u32) < 128)
    &&& match (parsed_i64(duration_number(s)), unit_seconds(duration_unit(s))) {
        (Some(n), Some(f)) => i64::MIN <= n * f <= i64::MAX,
        _ => true,
    }
}

/// Reads `48h` / `15d` / `12M` / `30m` (minutes) as seconds.
pub fn parse_last_duration(s: &str) -> (r: Result<i64, PatrolError>)
    requires
        last_duration_defined(s@),
    ensures
        match last_duration_result(s@) {
            Ok(v) => r matches Ok(x) && x == v,
            Err(m) => r matches Err(PatrolError::Config(e)) && e@ == m,
        },
{
    let t = trim(s);
    let v = chars_of(t.as_str());
    let cut: usize = if v.len() == 0 {
        0
    } else {
        v.len() - 1
    };
    let num = string_of(&v, 0, cut);
    let unit = string_of(&v, cut, v.len());
    assert(num@ =~= duration_number(s@));
    assert(unit@ =~= duration_unit(s@));
    let n = match parse_i64(num.as_str()) {
        Some(n) => n,
        None => {
            let a = concat("--last 格式错误：", t.as_str());
            return Err(PatrolError::Config(concat(a.as_str(), "（示例 48h / 15d / 12M）")));
        },
    };
    let u = unit.as_str();
    let secs: i64 = if crate::text::str_eq(u, "h") || crate::text::str_eq(u, "H") {
        n * 3600
    } else if crate::text::str_eq(u, "d") || crate::text::str_eq(u, "D") {
        n * 86400
    } else if crate::text::str_eq(u, "M") {
        assert(i64::MIN <= n * 30 <= i64::MAX) by (nonlinear_arith)
            requires
                i64::MIN <= n * 2592000 <= i64::MAX,
        ;
        assert(n * 30 * 86400 == n * 2592000) by (nonlinear_arith);
        n * 30 * 86400
    } else if crate::text::str_eq(u, "m") {
        n * 60
    } else {
        let a = concat("--last 单位不支持：", u);
        return Err(PatrolError::Config(concat(a.as_str(), "（支持 h/d/M/m）")));
    };
    if secs <= 0 {
        return Err(PatrolError::Config(owned("--last 时长必须为正")));
    }
    Ok(secs)
}

// ---------------------------------------------------------------------------
// Calendar times (the chrono and chrono-tz crates)
// ---------------------------------------------------------------------------

/// A calendar date and wall-clock time: (year, month, day, hour, minute,
/// second).
pub type Civil = (i32, u32, u32, u32, u32, u32);

/// What `chrono::NaiveDate::parse_from_str(s, "%Y-%m-%d")` yields, as a
/// civil time at midnight, or the text of its error.
pub uninterp spec fn parsed_date(s: Seq<char>) -> Result<Civil, Seq<char>>;

/// What `chrono::NaiveDateTime::parse_from_str(s, fmt)` yields, or the text of
/// its error.
pub uninterp spec fn parsed_datetime(s: Seq<char>, fmt: Seq<char>) -> Result<Civil, Seq<char>>;

/// The epoch second of the civil time `t` in the IANA zone named `tz`
/// (chrono-tz `from_local_datetime(..).single()`); none when the zone name is
/// unknown, or the time does not exist or is ambiguous there.
pub uninterp spec fn local_epoch(tz: Seq<char>, t: Civil) -> Option<i64>;

/// `chrono::DateTime::from_timestamp(ts, 0)` (the epoch itself when out of
/// range) shown in zone `tz` with the strftime format `fmt`; none when the
/// zone name is unknown.
pub uninterp spec fn formatted_local(ts: i64, tz: Seq<char>, fmt: Seq<char>) -> Option<Seq<char>>;

/// Whether chrono-tz knows a zone named `name`.
pub uninterp spec fn tz_valid(name: Seq<char>) -> bool;

/// The `Debug` form of a string: quoted, with escapes.
pub uninterp spec fn debug_quoted(s: Seq<char>) -> Seq<char>;

/// `NaiveDate::parse_from_str(s, "%Y-%m-%d")`, at midnight.
#[verifier::external_body]
fn chrono_parse_date(s: &str) -> (r: Result<Civil, String>)
    ensures
        match parsed_date(s@) {
            Ok(c) => r == Ok::<Civil, String>(c),
            Err(m) => r matches Err(e) && e@ == m,
        },
{
    match chrono::NaiveDate::parse_from_str(s, "%Y-%m-%d") {
        Ok(d) => Ok((d.year(), d.month(), d.day(), 0, 0, 0)),
        Err(e) => Err(e.to_string()),
    }
}

/// `NaiveDateTime::parse_from_str(s, fmt)`.
#[verifier::external_body]
fn chrono_parse_datetime(s: &str, fmt: &str) -> (r: Result<Civil, String>)
    ensures
        match parsed_datetime(s@, fmt@) {
            Ok(c) => r == Ok::<Civil, String>(c),
            Err(m) => r matches Err(e) && e@ == m,
        },
{
    match chrono::NaiveDateTime::parse_from_str(s, fmt) {
        Ok(d) => Ok((d.year(), d.month(), d.day(), d.hour(), d.minute(), d.second())),
        Err(e) => Err(e.to_string()),
    }
}

/// The epoch second of a civil time in a named zone (chrono-tz
/// `from_local_datetime(..).single()`).
#[verifier::external_body]
fn chrono_local_epoch(tz: &str, t: Civil) -> (r: Option<i64>)
    ensures
        r == local_epoch(tz@, t),
{
    let zone: chrono_tz::Tz = tz.parse().ok()?;
    let naive = chrono::NaiveDate::from_ymd_opt(t.0, t.1, t.2)?.and_hms_opt(t.3, t.4, t.5)?;
    zone.from_local_datetime(&naive).single().map(|dt| dt.timestamp())
}

/// The two strftime formats the reports use; chrono's `format` refuses (and
/// `to_string` then panics on) malformed ones.
pub open spec fn report_format(fmt: Seq<char>) -> bool {
    fmt == "%Y%m%d%H%M"@ || fmt == "%Y-%m-%d %H:%M"@
}

/// An epoch second shown in a named zone with one of the report formats.
#[verifier::external_body]
fn chrono_format_local(ts: i64, tz: &str, fmt: &str) -> (r: Option<String>)
    requires
        report_format(fmt@),
    ensures
        match formatted_local(ts, tz@, fmt@) {
            Some(f) => r matches Some(s) && s@ == f,
            None => r is None,
        },
{
    let zone: chrono_tz::Tz = tz.parse().ok()?;
    let dt = chrono::DateTime::from_timestamp(ts, 0).unwrap_or_default();
    Some(dt.with_timezone(&zone).format(fmt).to_string())
}

/// Whether chrono-tz knows the zone `name` (`str::parse::<chrono_tz::Tz>`).
#[verifier::external_body]
pub(crate) fn tz_known(name: &str) -> (r: bool)
    ensures
        r == tz_valid(name@),
{
    name.parse::<chrono_tz::Tz>().is_ok()
}

/// The `Debug` form of a string (`format!("{s:?}")`).
#[verifier::external_body]
pub(crate) fn debug_str(s: &str) -> (r: String)
    ensures
        r@ == debug_quoted(s@),
{
    format!("{s:?}")
}

/// The current epoch second (`chrono::Utc::now().timestamp()`). Claims only
/// that it is not negative: `Utc::now` panics on a clock before the epoch.
/// Which moment it reads is left unsaid.
#[verifier::external_body]
fn now_epoch() -> (r: i64)
    ensures
        r >= 0,
{
    chrono::Utc::now().timestamp()
}

/// `s` with every `T` replaced by a space.
pub open spec fn t_as_space(s: Seq<char>) -> Seq<char> {
    replaced(s, "T"@, " "@)
}

/// The epoch second that `s` names in zone `tz`, or the message of its
/// refusal: a ten-byte (UTF-8) `YYYY-MM-DD` is midnight of that day; anything else is
/// read as `YYYY-MM-DD HH:MM:SS`, then as `YYYY-MM-DD HH:MM`, after a `T`
/// between date and time is taken as a space.
pub open spec fn datetime_result(s: Seq<char>, tz: Seq<char>) -> Result<i64, Seq<char>> {
    let t = trimmed(s);
    let civil: Result<Civil, Seq<char>> = if encode_utf8(t).len() as usize == 10 {
        match parsed_date(t) {
            Ok(c) => Ok(c),
            Err(e) => Err("日期格式错误 "@ + debug_quoted(t) + "："@ + e + "（应为 YYYY-MM-DD）"@),
        }
    } else {
        match parsed_datetime(t_as_space(t), "%Y-%m-%d %H:%M:%S"@) {
            Ok(c) => Ok(c),
            Err(_) => match parsed_datetime(t_as_space(t), "%Y-%m-%d %H:%M"@) {
                Ok(c) => Ok(c),
                Err(e) => Err("时间格式错误 "@ + debug_quoted(t) + "："@ + e
                    + "（应为 \"YYYY-MM-DD[ HH:MM[:SS]]\"）"@),
            },
        }
    };
    match civil {
        Err(m) => Err(m),
        Ok(c) => match local_epoch(tz, c) {
            Some(e) => Ok(e),
            None => Err("时间 "@ + debug_quoted(t) + " 在时区中不存在或有歧义"@),
        },
    }
}

/// Reads `YYYY-MM-DD` or `YYYY-MM-DD HH:MM[:SS]` in zone `tz` as an epoch
/// second.
pub fn parse_datetime(s: &str, tz: &str) -> (r: Result<i64, PatrolError>)
    ensures
        match datetime_result(s@, tz@) {
            Ok(v) => r matches Ok(x) && x == v,
            Err(m) => r matches Err(PatrolError::Config(e)) && e@ == m,
        },
{
    let t = trim(s);
    let q = debug_str(t.as_str());
    proof {
        reveal_strlit("T");
        reveal_strlit(" ");
    }
    let civil: Civil = if t.as_str().len() == 10 {
        match chrono_parse_date(t.as_str()) {
            Ok(c) => c,
            Err(e) => {
                let a = concat("日期格式错误 ", q.as_str());
                let b = concat(a.as_str(), "：");
                let c = concat(b.as_str(), e.as_str());
                return Err(PatrolError::Config(concat(c.as_str(), "（应为 YYYY-MM-DD）")));
            },
        }
    } else {
        let spaced = replace(t.as_str(), "T", " ");
        match chrono_parse_datetime(spaced.as_str(), "%Y-%m-%d %H:%M:%S") {
            Ok(c) => c,
            Err(_) => match chrono_parse_datetime(spaced.as_str(), "%Y-%m-%d %H:%M") {
                Ok(c) => c,
                Err(e) => {
                    let a = concat("时间格式错误 ", q.as_str());
                    let b = concat(a.as_str(), "：");
                    let c = concat(b.as_str(), e.as_str());
                    return Err(
                        PatrolError::Config(
                            concat(c.as_str(), "（应为 \"YYYY-MM-DD[ HH:MM[:SS]]\"）"),
                        ),
                    );
                },
            },
        }
    };
    match chrono_local_epoch(tz, civil) {
        Some(e) => Ok(e),
        None => {
            let a = concat("时间 ", q.as_str());
            Err(PatrolError::Config(concat(a.as_str(), " 在时区中不存在或有歧义")))
        },
    }
}

/// A resolved range `[from, till]` in epoch seconds, shown in zone `tz`.
#[derive(Debug, Clone)]
pub struct TimeRange {
    pub from: i64,
    pub till: i64,
    /// IANA zone name.
    pub tz: String,
}

/// The range that `spec` gives at the moment `now`, or the message of its
/// refusal.
pub open spec fn range_result(spec: TimeSpec, tz: Seq<char>, now: i64) -> Result<(int, int), Seq<char>> {
    match spec {
        TimeSpec::Period(p) => Ok((now - period_seconds(p), now as int)),
        TimeSpec::Last(s) => match last_duration_result(s@) {
            Ok(d) => Ok((now - d, now as int)),
            Err(m) => Err(m),
        },
        TimeSpec::FromTo { from, to } => match datetime_result(from@, tz) {
            Err(m) => Err(m),
            Ok(f) => {
                let t: Result<int, Seq<char>> = match to {
                    Some(t) => match datetime_result(t@, tz) {
                        Ok(v) => Ok(v as int),
                        Err(m) => Err(m),
                    },
                    None => Ok(now as int),
                };
                match t {
                    Err(m) => Err(m),
                    Ok(t) => if f >= t {
                        Err("起始时间必须早于结束时间（"@ + from@ + " >= "@ + dec_int(t) + "）"@)
                    } else {
                        Ok((f as int, t))
                    },
                }
            },
        },
    }
}

/// The inputs on which resolving a range does not panic: a relative
/// duration must be readable, and the start must not underflow.
pub open spec fn range_defined(spec: TimeSpec, now: i64) -> bool {
    match spec {
        TimeSpec::Period(p) => now - period_seconds(p) >= i64::MIN,
        TimeSpec::Last(s) => last_duration_defined(s@) && match last_duration_result(s@) {
            Ok(d) => now - d >= i64::MIN,
            Err(_) => true,
        },
        TimeSpec::FromTo { .. } => true,
    }
}

/// The specs that `resolve` reads without panicking: a relative duration
/// must be readable.
pub open spec fn spec_readable(spec: TimeSpec) -> bool {
    match spec {
        TimeSpec::Last(s) => last_duration_defined(s@),
        _ => true,
    }
}

/// Whether `parse_last_duration` reads `s` without panicking (a single-byte
/// last character, and a product that fits in an `i64`).
pub fn last_duration_readable(s: &str) -> (b: bool)
    ensures
        b == last_duration_defined(s@),
{
    let t = trim(s);
    let v = chars_of(t.as_str());
    if v.len() == 0 {
        return true;
    }
    let last = v[v.len() - 1];
    if (last as u32) >= 128 {
        return false;
    }
    let cut = v.len() - 1;
    let num = string_of(&v, 0, cut);
    let unit = string_of(&v, cut, v.len());
    assert(num@ =~= duration_number(s@));
    assert(unit@ =~= duration_unit(s@));
    let n = match parse_i64(num.as_str()) {
        Some(n) => n,
        None => return true,
    };
    let u = unit.as_str();
    if crate::text::str_eq(u, "h") || crate::text::str_eq(u, "H") {
        -2562047788015215 <= n && n <= 2562047788015215
    } else if crate::text::str_eq(u, "d") || crate::text::str_eq(u, "D") {
        -106751991167300 <= n && n <= 106751991167300
    } else if crate::text::str_eq(u, "M") {
        -3558399705576 <= n && n <= 3558399705576
    } else if crate::text::str_eq(u, "m") {
        -153722867280912930 <= n && n <= 153722867280912930
    } else {
        true
    }
}

/// At or after the epoch, every readable spec resolves without underflow.
proof fn lemma_defined_after_epoch(spec: TimeSpec, now: i64)
    requires
        spec_readable(spec),
        now >= 0,
    ensures
        range_defined(spec, now),
{
}

impl TimeRange {
    /// Resolves `spec` at the current moment: a period or duration ends now;
    /// an explicit range ends at `to` (now when absent) and must start before
    /// it. Every period and every readable positive duration resolves.
    pub fn resolve(spec: &TimeSpec, tz: &str) -> (r: Result<TimeRange, PatrolError>)
        requires
            spec_readable(*spec),
        ensures
            exists|now: i64|
                now >= 0 && match #[trigger] range_result(*spec, tz@, now) {
                    Ok((f, t)) => r matches Ok(x) && x.from == f && x.till == t && x.tz@ == tz@,
                    Err(m) => r matches Err(PatrolError::Config(e)) && e@ == m,
                },
            spec is Period ==> r is Ok,
            spec matches TimeSpec::Last(s) && last_duration_result(s@) is Ok ==> r is Ok,
    {
        let now = now_epoch();
        proof {
            lemma_defined_after_epoch(*spec, now);
        }
        let r = Self::resolve_at(spec, tz, now);
        assert(now >= 0 && match range_result(*spec, tz@, now) {
            Ok((f, t)) => r matches Ok(x) && x.from == f && x.till == t && x.tz@ == tz@,
            Err(m) => r matches Err(PatrolError::Config(e)) && e@ == m,
        });
        r
    }

    /// Whether `resolve` accepts `spec`: a relative duration must be
    /// readable without overflow (see `last_duration_readable`).
    pub fn can_resolve(spec: &TimeSpec) -> (b: bool)
        ensures
            b == spec_readable(*spec),
    {
        match spec {
            TimeSpec::Last(s) => last_duration_readable(s.as_str()),
            _ => true,
        }
    }

    /// Resolves `spec` as if the current moment were `now`.
    pub fn resolve_at(spec: &TimeSpec, tz: &str, now: i64) -> (r: Result<TimeRange, PatrolError>)
        requires
            range_defined(*spec, now),
        ensures
            match range_result(*spec, tz@, now) {
                Ok((f, t)) => r matches Ok(x) && x.from == f && x.till == t && x.tz@ == tz@,
                Err(m) => r matches Err(PatrolError::Config(e)) && e@ == m,
            },
    {
        match spec {
            TimeSpec::Period(p) => Ok(TimeRange { from: now - p.seconds(), till: now, tz: owned(tz) }),
            TimeSpec::Last(s) => {
                match parse_last_duration(s.as_str()) {
                    Ok(d) => Ok(TimeRange { from: now - d, till: now, tz: owned(tz) }),
                    Err(e) => Err(e),
                }
            },
            TimeSpec::FromTo { from, to } => {
                let f = match parse_datetime(from.as_str(), tz) {
                    Ok(f) => f,
                    Err(e) => return Err(e),
                };
                let t = match to {
                    Some(t) => match parse_datetime(t.as_str(), tz) {
                        Ok(v) => v,
                        Err(e) => return Err(e),
                    },
                    None => now,
                };
                if f >= t {
                    let a = concat("起始时间必须早于结束时间（", from.as_str());
                    let b = concat(a.as_str(), " >= ");
                    let n = fmt_i64(t);
                    let c = concat(b.as_str(), n.as_str());
                    return Err(PatrolError::Config(concat(c.as_str(), "）")));
                }
                Ok(TimeRange { from: f, till: t, tz: owned(tz) })
            },
        }
    }

    /// The length of the range in seconds.
    pub fn seconds(&self) -> (s: i64)
        requires
            i64::MIN <= self.till - self.from <= i64::MAX,
        ensures
            s == self.till - self.from,
    {
        self.till - self.from
    }

    /// Compact range text for file names: `202609010800-202609151759`.
    pub fn fmt_compact(&self) -> (r: String)
        ensures
            r@ == local_or_empty(self.from, self.tz@, "%Y%m%d%H%M"@) + "-"@ + local_or_empty(
                self.till,
                self.tz@,
                "%Y%m%d%H%M"@,
            ),
    {
        let a = fmt_ts(self.from, self.tz.as_str(), "%Y%m%d%H%M");
        let b = fmt_ts(self.till, self.tz.as_str(), "%Y%m%d%H%M");
        let c = concat(a.as_str(), "-");
        concat(c.as_str(), b.as_str())
    }

    /// Readable range text: `2026-09-01 08:00 ~ 2026-09-15 17:59`.
    pub fn fmt_human(&self) -> (r: String)
        ensures
            r@ == local_or_empty(self.from, self.tz@, "%Y-%m-%d %H:%M"@) + " ~ "@ + local_or_empty(
                self.till,
                self.tz@,
                "%Y-%m-%d %H:%M"@,
            ),
    {
        let a = self.fmt_from();
        let b = self.fmt_till();
        let c = concat(a.as_str(), " ~ ");
        concat(c.as_str(), b.as_str())
    }

    /// The start as `YYYY-MM-DD HH:MM` in the range's zone.
    pub fn fmt_from(&self) -> (r: String)
        ensures
            r@ == local_or_empty(self.from, self.tz@, "%Y-%m-%d %H:%M"@),
    {
        fmt_ts(self.from, self.tz.as_str(), "%Y-%m-%d %H:%M")
    }

    /// The end as `YYYY-MM-DD HH:MM` in the range's zone.
    pub fn fmt_till(&self) -> (r: String)
        ensures
            r@ == local_or_empty(self.till, self.tz@, "%Y-%m-%d %H:%M"@),
    {
        fmt_ts(self.till, self.tz.as_str(), "%Y-%m-%d %H:%M")
    }
}

/// An epoch second shown in zone `tz`, empty for an unknown zone.
pub open spec fn local_or_empty(ts: i64, tz: Seq<char>, fmt: Seq<char>) -> Seq<char> {
    match formatted_local(ts, tz, fmt) {
        Some(f) => f,
        None => Seq::empty(),
    }
}

fn fmt_ts(ts: i64, tz: &str, fmt: &str) -> (r: String)
    requires
        report_format(fmt@),
    ensures
        r@ == local_or_empty(ts, tz@, fmt@),
{
    match chrono_format_local(ts, tz, fmt) {
        Some(s) => s,
        None => String::new(),
    }
}

/// A resolved range always starts before it ends, and a period or duration
/// ends at the moment of resolution and spans exactly its length.
pub proof fn law_range_order(spec: TimeSpec, tz: Seq<char>, now: i64)
    requires
        range_defined(spec, now),
    ensures
        range_result(spec, tz, now) matches Ok((f, t)) ==> f < t,
        spec matches TimeSpec::Period(p) ==> range_result(spec, tz, now) == Ok::<(int, int), Seq<char>>(
            (now - period_seconds(p), now as int),
        ),
{
    match spec {
        TimeSpec::Last(s) => {
            match last_duration_result(s@) {
                Ok(d) => {
                    assert(d > 0);
                },
                Err(_) => {},
            }
        },
        _ => {},
    }
}

} // verus!
