//! The language of the user interface: English (the default) or Chinese.
use vstd::prelude::*;
use crate::text::{to_lowercase, str_eq, unicode_lowercase};

verus! {

/// A user-interface language.
#[derive(Clone, Copy, PartialEq, Eq, Structural, Debug)]
pub enum Lang {
    En,
    Zh,
}

/// The names under which Chinese is chosen (compared in lower case).
pub open spec fn names_chinese(lower: Seq<char>) -> bool {
    ||| lower == "zh"@
    ||| lower == "cn"@
    ||| lower == "zh-cn"@
    ||| lower == "chinese"@
    ||| lower == "中文"@
    ||| lower == "简体"@
}

/// The language a user's choice `s` selects: Chinese for one of its names,
/// English for anything else.
pub open spec fn lang_named(s: Seq<char>) -> Lang {
    if names_chinese(unicode_lowercase(s)) {
        Lang::Zh
    } else {
        Lang::En
    }
}

/// The other language.
pub open spec fn other(l: Lang) -> Lang {
    match l {
        Lang::En => Lang::Zh,
        Lang::Zh => Lang::En,
    }
}

impl Lang {
    /// The language's own name.
    pub fn label(self) -> (r: &'static str)
        ensures
            r@ == (match self {
                Lang::En => "English"@,
                Lang::Zh => "中文"@,
            }),
    {
        match self {
            Lang::En => "English",
            Lang::Zh => "中文",
        }
    }
}

/// The language chosen by `s` (`--lang`): never refused, English unless `s`
/// names Chinese.
pub fn parse(s: &str) -> (r: Option<Lang>)
    ensures
        r == Some(lang_named(s@)),
{
    let lower = to_lowercase(s);
    let l = lower.as_str();
    if str_eq(l, "zh") || str_eq(l, "cn") || str_eq(l, "zh-cn") || str_eq(l, "chinese") || str_eq(
        l,
        "中文",
    ) || str_eq(l, "简体") {
        Some(Lang::Zh)
    } else {
        Some(Lang::En)
    }
}

/// The language after a toggle from `current`.
pub fn toggle(current: Lang) -> (r: Lang)
    ensures
        r == other(current),
{
    if current == Lang::Zh {
        Lang::En
    } else {
        Lang::Zh
    }
}

/// The text for language `lang`: `zh` in Chinese, `en` otherwise.
pub fn t<'a>(lang: Lang, en: &'a str, zh: &'a str) -> (r: &'a str)
    ensures
        r == (if lang == Lang::Zh {
            zh
        } else {
            en
        }),
{
    if lang == Lang::Zh {
        zh
    } else {
        en
    }
}

/// Whether `lang` is Chinese.
pub fn is_zh(lang: Lang) -> (r: bool)
    ensures
        r == (lang == Lang::Zh),
{
    lang == Lang::Zh
}

/// Toggling twice gives back the language one started from, and a toggle
/// always changes it.
pub proof fn law_toggle_involution(l: Lang)
    ensures
        other(other(l)) == l,
        other(l) != l,
{
}

} // verus!
