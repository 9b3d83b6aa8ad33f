//! Text helpers of the report renderers.
use vstd::prelude::*;
use crate::lang::{t, Lang};
use crate::text::{
    chars_of, concat, has_char, join, joined, owned, push_char, replace, replaced, str_eq, views,
};

verus! {

/// A CSV field: quoted, with inner quotes doubled, when it holds a comma or a
/// quote; kept as it is otherwise.
pub open spec fn csv_field(s: Seq<char>) -> Seq<char> {
    if s.contains(',') || s.contains('"') {
        seq!['"'] + replaced(s, seq!['"'], seq!['"', '"']) + seq!['"']
    } else {
        s
    }
}

/// `s` as a CSV field.
pub fn csv_escape(s: &str) -> (r: String)
    ensures
        r@ == csv_field(s@),
{
    if has_char(s, ',') || has_char(s, '"') {
        proof {
            reveal_strlit("\"");
            reveal_strlit("\"\"");
            assert("\""@ =~= seq!['"']);
            assert("\"\""@ =~= seq!['"', '"']);
        }
        let doubled = replace(s, "\"", "\"\"");
        let opened = concat("\"", doubled.as_str());
        let r = concat(opened.as_str(), "\"");
        assert(r@ =~= seq!['"'] + replaced(s@, seq!['"'], seq!['"', '"']) + seq!['"']);
        r
    } else {
        owned(s)
    }
}

/// The menu label of a host: `name (ip) [os]`, `?` for an unknown system.
pub open spec fn host_label_text(host: Seq<char>, ip: Seq<char>, os: Seq<char>) -> Seq<char> {
    host + " ("@ + ip + ") ["@ + (if os.len() == 0 {
        "?"@
    } else {
        os
    }) + "]"@
}

/// The menu label of a host.
pub fn host_label(host: &str, ip: &str, os_family: &str) -> (r: String)
    ensures
        r@ == host_label_text(host@, ip@, os_family@),
{
    let a = concat(host, " (");
    let b = concat(a.as_str(), ip);
    let c = concat(b.as_str(), ") [");
    let d = if os_family.is_empty() {
        concat(c.as_str(), "?")
    } else {
        concat(c.as_str(), os_family)
    };
    concat(d.as_str(), "]")
}

/// The scope line of a report in language `lang`: all hosts, the groups
/// after a heading, or the host names, names joined with 、.
pub open spec fn scope_text_of(lang: Lang, scope_type: Seq<char>, names: Seq<Seq<char>>) -> Seq<char> {
    if scope_type == "all"@ {
        if lang == Lang::Zh {
            "全部主机"@
        } else {
            "All hosts"@
        }
    } else if scope_type == "group"@ {
        (if lang == Lang::Zh {
            "群组"@
        } else {
            "Group"@
        }) + " "@ + joined(names, "、"@)
    } else {
        joined(names, "、"@)
    }
}

/// The scope line of a report.
pub fn scope_text(lang: Lang, scope_type: &str, names: &Vec<String>) -> (r: String)
    ensures
        r@ == scope_text_of(lang, scope_type@, views(names@)),
{
    let list = join(names, "、");
    if str_eq(scope_type, "all") {
        owned(t(lang, "All hosts", "全部主机"))
    } else if str_eq(scope_type, "group") {
        let head = concat(t(lang, "Group", "群组"), " ");
        concat(head.as_str(), list.as_str())
    } else {
        list
    }
}

/// Whether `char::is_alphanumeric` holds of `c` (the Unicode `Alphabetic`
/// or `Numeric` property).
pub uninterp spec fn unicode_alphanumeric(c: char) -> bool;

/// `char::is_alphanumeric`; its answer is only named.
#[verifier::external_body]
fn is_alphanumeric(c: char) -> (b: bool)
    ensures
        b == unicode_alphanumeric(c),
{
    c.is_alphanumeric()
}

/// The character a file name keeps for `c`: letters, digits, `-`, `_` and
/// `.` stay, anything else becomes `_`.
pub open spec fn file_char(c: char) -> char {
    if unicode_alphanumeric(c) || c == '-' || c == '_' || c == '.' {
        c
    } else {
        '_'
    }
}

/// `s` made safe for a file name, character by character.
pub open spec fn file_safe(s: Seq<char>) -> Seq<char> {
    s.map_values(|c: char| file_char(c))
}

/// `s` with every character that a file name should not hold replaced by
/// `_`.
pub fn safe_file_part(s: &str) -> (r: String)
    ensures
        r@ == file_safe(s@),
{
    let v = chars_of(s);
    let mut r = String::new();
    let mut i: usize = 0;
    while i < v.len()
        invariant
            0 <= i <= v.len(),
            v@ == s@,
            r@ == file_safe(v@.subrange(0, i as int)),
        decreases v.len() - i,
    {
        let c = v[i];
        let keep = is_alphanumeric(c) || c == '-' || c == '_' || c == '.';
        if keep {
            push_char(&mut r, c);
        } else {
            push_char(&mut r, '_');
        }
        assert(file_safe(v@.subrange(0, i + 1)) =~= file_safe(v@.subrange(0, i as int)).push(file_char(c)));
        i += 1;
    }
    assert(v@.subrange(0, v.len() as int) =~= v@);
    r
}

/// The scope part of a report's file name: the first scope name, else
/// 全部主机 for all hosts, else 自定义范围; made safe for a file name.
pub fn report_file_scope(scope_names: &Vec<String>, scope_type: &str) -> (r: String)
    ensures
        r@ == file_safe(
            if scope_names.len() > 0 {
                scope_names@[0]@
            } else if scope_type@ == "all"@ {
                "全部主机"@
            } else {
                "自定义范围"@
            },
        ),
{
    if scope_names.len() > 0 {
        safe_file_part(scope_names[0].as_str())
    } else if str_eq(scope_type, "all") {
        safe_file_part("全部主机")
    } else {
        safe_file_part("自定义范围")
    }
}

} // verus!
