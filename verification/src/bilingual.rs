//! English renderings of the Chinese texts that reports are made of.
use vstd::prelude::*;
use crate::lang::Lang;
use crate::text::{has_prefix, owned, replace, replaced, starts_with, str_eq};

verus! {

/// The English name of a risk level; any other text is kept.
pub open spec fn risk_level_en(s: Seq<char>) -> Seq<char> {
    if s == "健康"@ {
        "Healthy"@
    } else if s == "低危"@ {
        "Low"@
    } else if s == "中危"@ {
        "Medium"@
    } else if s == "高危"@ {
        "High"@
    } else if s == "严重"@ {
        "Critical"@
    } else {
        s
    }
}

/// The English name of a problem severity label; any other text is kept.
pub open spec fn severity_en(s: Seq<char>) -> Seq<char> {
    if s == "未分类"@ {
        "Not Classified"@
    } else if s == "信息"@ {
        "Information"@
    } else if s == "警告"@ {
        "Warning"@
    } else if s == "一般"@ {
        "Average"@
    } else if s == "高危"@ {
        "High"@
    } else if s == "灾难"@ {
        "Disaster"@
    } else {
        s
    }
}

/// The English form of a strictness label, chosen by its first word; any
/// other text is kept.
pub open spec fn strictness_en(s: Seq<char>) -> Seq<char> {
    if has_prefix(s, "宽松"@) {
        "Loose (90% baseline)"@
    } else if has_prefix(s, "标准"@) {
        "Standard (80% baseline)"@
    } else if has_prefix(s, "严格"@) {
        "Strict (70% baseline)"@
    } else {
        s
    }
}

/// The English form of an availability text; any other text is kept.
pub open spec fn availability_en(s: Seq<char>) -> Seq<char> {
    if s == "正常"@ {
        "OK"@
    } else if s == "不可达"@ {
        "Unreachable"@
    } else {
        s
    }
}

/// A risk point with its Chinese key phrases replaced by English ones, in a
/// fixed order.
pub open spec fn risk_point_en(s: Seq<char>) -> Seq<char> {
    let s1 = replaced(s, "使用率"@, " usage "@);
    let s2 = replaced(s1, "达到严重阈值"@, "reached CRITICAL threshold"@);
    let s3 = replaced(s2, "达到高危阈值"@, "reached HIGH threshold"@);
    let s4 = replaced(s3, "达到中危阈值"@, "reached MEDIUM threshold"@);
    let s5 = replaced(s4, "达到低危阈值"@, "reached LOW threshold"@);
    let s6 = replaced(s5, "平均使用率"@, "avg usage"@);
    let s7 = replaced(s6, "CPU 峰值"@, "CPU peak"@);
    let s8 = replaced(s7, "内存"@, "Memory"@);
    let s9 = replaced(s8, "磁盘最满分区"@, "Disk (fullest partition)"@);
    let s10 = replaced(s9, "主机不可达"@, "Host unreachable"@);
    let s11 = replaced(s10, "服务探测失败"@, "Service check failed"@);
    let s12 = replaced(s11, "区间内发生"@, "occurred in range: "@);
    let s13 = replaced(s12, "次重启"@, " reboots"@);
    replaced(s13, "个未恢复的高危/灾难告警"@, " unresolved high/disaster alerts"@)
}

/// The English name of a risk level (健康/低危/中危/高危/严重).
pub fn risk_level(s: &str) -> (r: String)
    ensures
        r@ == risk_level_en(s@),
{
    if str_eq(s, "健康") {
        owned("Healthy")
    } else if str_eq(s, "低危") {
        owned("Low")
    } else if str_eq(s, "中危") {
        owned("Medium")
    } else if str_eq(s, "高危") {
        owned("High")
    } else if str_eq(s, "严重") {
        owned("Critical")
    } else {
        owned(s)
    }
}

/// The English name of a severity label (未分类/信息/警告/一般/高危/灾难).
pub fn severity(s: &str) -> (r: String)
    ensures
        r@ == severity_en(s@),
{
    if str_eq(s, "未分类") {
        owned("Not Classified")
    } else if str_eq(s, "信息") {
        owned("Information")
    } else if str_eq(s, "警告") {
        owned("Warning")
    } else if str_eq(s, "一般") {
        owned("Average")
    } else if str_eq(s, "高危") {
        owned("High")
    } else if str_eq(s, "灾难") {
        owned("Disaster")
    } else {
        owned(s)
    }
}

/// The English form of a strictness label such as `标准（基准 80%）`.
pub fn strictness(s: &str) -> (r: String)
    ensures
        r@ == strictness_en(s@),
{
    if starts_with(s, "宽松") {
        owned("Loose (90% baseline)")
    } else if starts_with(s, "标准") {
        owned("Standard (80% baseline)")
    } else if starts_with(s, "严格") {
        owned("Strict (70% baseline)")
    } else {
        owned(s)
    }
}

/// `OK` for a reachable host, `Unreachable` otherwise.
pub fn availability(ok: bool) -> (r: String)
    ensures
        r@ == (if ok {
            "OK"@
        } else {
            "Unreachable"@
        }),
{
    if ok {
        owned("OK")
    } else {
        owned("Unreachable")
    }
}

/// The English form of 正常 / 不可达.
pub fn availability_str(s: &str) -> (r: String)
    ensures
        r@ == availability_en(s@),
{
    if str_eq(s, "正常") {
        owned("OK")
    } else if str_eq(s, "不可达") {
        owned("Unreachable")
    } else {
        owned(s)
    }
}

/// A risk point as shown in language `lang`: kept as it is in Chinese, with
/// its key phrases put into English otherwise.
pub fn risk_point(s: &str, lang: Lang) -> (r: String)
    ensures
        lang == Lang::Zh ==> r@ == s@,
        lang == Lang::En ==> r@ == risk_point_en(s@),
{
    if lang == Lang::Zh {
        return owned(s);
    }
    proof {
        reveal_strlit("使用率");
        reveal_strlit("达到严重阈值");
        reveal_strlit("达到高危阈值");
        reveal_strlit("达到中危阈值");
        reveal_strlit("达到低危阈值");
        reveal_strlit("平均使用率");
        reveal_strlit("CPU 峰值");
        reveal_strlit("内存");
        reveal_strlit("磁盘最满分区");
        reveal_strlit("主机不可达");
        reveal_strlit("服务探测失败");
        reveal_strlit("区间内发生");
        reveal_strlit("次重启");
        reveal_strlit("个未恢复的高危/灾难告警");
    }
    let s1 = replace(s, "使用率", " usage ");
    let s2 = replace(s1.as_str(), "达到严重阈值", "reached CRITICAL threshold");
    let s3 = replace(s2.as_str(), "达到高危阈值", "reached HIGH threshold");
    let s4 = replace(s3.as_str(), "达到中危阈值", "reached MEDIUM threshold");
    let s5 = replace(s4.as_str(), "达到低危阈值", "reached LOW threshold");
    let s6 = replace(s5.as_str(), "平均使用率", "avg usage");
    let s7 = replace(s6.as_str(), "CPU 峰值", "CPU peak");
    let s8 = replace(s7.as_str(), "内存", "Memory");
    let s9 = replace(s8.as_str(), "磁盘最满分区", "Disk (fullest partition)");
    let s10 = replace(s9.as_str(), "主机不可达", "Host unreachable");
    let s11 = replace(s10.as_str(), "服务探测失败", "Service check failed");
    let s12 = replace(s11.as_str(), "区间内发生", "occurred in range: ");
    let s13 = replace(s12.as_str(), "次重启", " reboots");
    replace(s13.as_str(), "个未恢复的高危/灾难告警", " unresolved high/disaster alerts")
}

} // verus!
