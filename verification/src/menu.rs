//! Answers to the interactive menus: several entries picked at once, and the
//! answer to a paged list (a number, a name, or a new search).
use vstd::prelude::*;
use crate::args::{parse_pick, picked};
use crate::text::{
    chars_of, contains, contains_seq, has_prefix, parse_usize, parsed_usize, starts_with, str_eq,
    string_of, to_lowercase, unicode_lowercase,
};

verus! {

/// A separator between picks: comma, space or full-width comma.
pub open spec fn is_pick_sep(c: char) -> bool {
    c == ',' || c == ' ' || c == '，'
}

/// Reading `s` left to right: the finished non-empty parts, and the part in
/// progress.
pub open spec fn scan_parts(s: Seq<char>) -> (Seq<Seq<char>>, Seq<char>)
    decreases s.len(),
{
    if s.len() == 0 {
        (Seq::empty(), Seq::empty())
    } else {
        let (done, cur) = scan_parts(s.drop_last());
        if is_pick_sep(s.last()) {
            if cur.len() > 0 {
                (done.push(cur), Seq::empty())
            } else {
                (done, Seq::empty())
            }
        } else {
            (done, cur.push(s.last()))
        }
    }
}

/// The non-empty parts of `s` between separators, in order.
pub open spec fn pick_parts(s: Seq<char>) -> Seq<Seq<char>> {
    let (done, cur) = scan_parts(s);
    if cur.len() > 0 {
        done.push(cur)
    } else {
        done
    }
}

/// Every part picks an entry among `len`.
pub open spec fn all_pick(parts: Seq<Seq<char>>, len: usize) -> bool {
    forall|k: int| 0 <= k < parts.len() ==> (#[trigger] picked(parts[k], len)) is Some
}

/// Entry `x` is picked by some part.
pub open spec fn some_part_picks(parts: Seq<Seq<char>>, len: usize, x: usize) -> bool {
    exists|k: int| 0 <= k < parts.len() && #[trigger] picked(parts[k], len) == Some(x)
}

/// The parts of `s` as strings.
fn split_parts(s: &str) -> (r: Vec<String>)
    ensures
        r@.map_values(|t: String| t@) == pick_parts(s@),
{
    let v = chars_of(s);
    let mut done: Vec<String> = Vec::new();
    let mut start: usize = 0;
    let mut i: usize = 0;
    while i < v.len()
        invariant
            v@ == s@,
            0 <= start <= i <= v.len(),
            done@.map_values(|t: String| t@) == scan_parts(s@.subrange(0, i as int)).0,
            v@.subrange(start as int, i as int) == scan_parts(s@.subrange(0, i as int)).1,
        decreases v.len() - i,
    {
        assert(s@.subrange(0, i + 1).drop_last() =~= s@.subrange(0, i as int));
        assert(s@.subrange(0, i + 1).last() == v@[i as int]);
        let c = v[i];
        if c == ',' || c == ' ' || c == '，' {
            if i > start {
                let part = string_of(&v, start, i);
                let ghost before = done@;
                done.push(part);
                assert(done@.map_values(|t: String| t@) =~= before.map_values(|t: String| t@).push(part@));
            }
            start = i + 1;
            assert(v@.subrange(start as int, i + 1) =~= Seq::<char>::empty());
        } else {
            assert(v@.subrange(start as int, i + 1) =~= v@.subrange(start as int, i as int).push(c));
        }
        i += 1;
    }
    assert(s@.subrange(0, v.len() as int) =~= s@);
    if i > start {
        let part = string_of(&v, start, i);
        let ghost before = done@;
        done.push(part);
        assert(done@.map_values(|t: String| t@) =~= before.map_values(|t: String| t@).push(part@));
    }
    done
}

/// The entries that a multiple-choice answer picks among `len` shown ones:
/// the separated parts, each a number from 1 or a letter from `a`, in
/// ascending order without repeats; none when there is no part or some part
/// picks nothing.
pub fn pick_many(answer: &str, len: usize) -> (r: Option<Vec<usize>>)
    ensures
        match r {
            Some(v) => {
                &&& pick_parts(answer@).len() > 0
                &&& all_pick(pick_parts(answer@), len)
                &&& forall|a: int, b: int| 0 <= a < b < v.len() ==> #[trigger] v@[a] < #[trigger] v@[b]
                &&& forall|x: usize| v@.contains(x) <==> some_part_picks(pick_parts(answer@), len, x)
            },
            None => pick_parts(answer@).len() == 0 || !all_pick(pick_parts(answer@), len),
        },
{
    let parts = split_parts(answer);
    let ghost ps = pick_parts(answer@);
    assert(parts@.len() == ps.len());
    if parts.len() == 0 {
        return None;
    }
    let mut sel: Vec<usize> = Vec::new();
    let mut k: usize = 0;
    while k < parts.len()
        invariant
            0 <= k <= parts.len(),
            ps == pick_parts(answer@),
            parts@.map_values(|t: String| t@) == ps,
            forall|j: int| 0 <= j < k ==> (#[trigger] picked(ps[j], len)) is Some,
            forall|a: int, b: int| 0 <= a < b < sel.len() ==> #[trigger] sel@[a] < #[trigger] sel@[b],
            forall|x: usize|
                sel@.contains(x) <==> exists|j: int| 0 <= j < k && #[trigger] picked(ps[j], len) == Some(x),
        decreases parts.len() - k,
    {
        assert(parts@[k as int]@ == ps[k as int]);
        match parse_pick(parts[k].as_str(), len) {
            None => {
                assert(picked(ps[k as int], len) is None);
                assert(!all_pick(ps, len));
                return None;
            },
            Some(x) => {
                let mut p: usize = 0;
                while p < sel.len() && sel[p] < x
                    invariant
                        0 <= p <= sel.len(),
                        forall|a: int| 0 <= a < p ==> #[trigger] sel@[a] < x,
                    decreases sel.len() - p,
                {
                    p += 1;
                }
                let ghost old_sel = sel@;
                if p < sel.len() && sel[p] == x {
                    assert forall|y: usize| sel@.contains(y) <==> exists|j: int|
                        0 <= j < k + 1 && #[trigger] picked(ps[j], len) == Some(y) by {
                        if exists|j: int| 0 <= j < k + 1 && #[trigger] picked(ps[j], len) == Some(y) {
                            let j = choose|j: int| 0 <= j < k + 1 && #[trigger] picked(ps[j], len) == Some(y);
                            if j == k {
                                assert(sel@[p as int] == y);
                            }
                        }
                    }
                } else {
                    sel.insert(p, x);
                    assert forall|a: int, b: int| 0 <= a < b < sel.len() implies #[trigger] sel@[a] < #[trigger] sel@[b] by {
                        if b < p {
                            assert(sel@[a] == old_sel[a] && sel@[b] == old_sel[b]);
                        } else if b == p {
                            assert(sel@[a] == old_sel[a]);
                        } else if a == p {
                            assert(sel@[b] == old_sel[b - 1]);
                            assert(old_sel[p as int] > x);
                            if b - 1 > p {
                                assert(old_sel[p as int] < old_sel[b - 1]);
                            }
                        } else if a < p {
                            assert(sel@[a] == old_sel[a] && sel@[b] == old_sel[b - 1]);
                        } else {
                            assert(sel@[a] == old_sel[a - 1] && sel@[b] == old_sel[b - 1]);
                        }
                    }
                    assert forall|y: usize| sel@.contains(y) <==> exists|j: int|
                        0 <= j < k + 1 && #[trigger] picked(ps[j], len) == Some(y) by {
                        if sel@.contains(y) {
                            let a = choose|a: int| 0 <= a < sel.len() && sel@[a] == y;
                            if a != p {
                                let oa = if a < p { a } else { a - 1 };
                                assert(sel@[a] == old_sel[oa]);
                                assert(old_sel.contains(y));
                            } else {
                                assert(picked(ps[k as int], len) == Some(y));
                            }
                        }
                        if exists|j: int| 0 <= j < k + 1 && #[trigger] picked(ps[j], len) == Some(y) {
                            let j = choose|j: int| 0 <= j < k + 1 && #[trigger] picked(ps[j], len) == Some(y);
                            if j == k {
                                assert(sel@[p as int] == y);
                            } else {
                                assert(old_sel.contains(y));
                                let a = choose|a: int| 0 <= a < old_sel.len() && old_sel[a] == y;
                                let a1 = if a < p { a } else { a + 1 };
                                assert(sel@[a1] == y);
                            }
                        }
                    }
                }
            },
        }
        k += 1;
    }
    proof {
        assert forall|x: usize| sel@.contains(x) <==> some_part_picks(ps, len, x) by {
            if sel@.contains(x) {
                let j = choose|j: int| 0 <= j < parts.len() && #[trigger] picked(ps[j], len) == Some(x);
                assert(0 <= j < ps.len() && picked(ps[j], len) == Some(x));
            }
        }
    }
    Some(sel)
}

/// What an answer to a paged list does.
#[derive(Debug, Clone, PartialEq, Eq)]
pub enum PageAnswer {
    /// The entry with this position in the full list is chosen.
    Select(usize),
    /// The list is narrowed to these positions.
    Filter(Vec<usize>),
    /// Nothing matches; the current list stays.
    NoMatch,
}

/// What an answer does, as plain values.
pub enum PageChoice {
    Select(int),
    Filter(Seq<usize>),
    NoMatch,
}

/// The plain values of an answer.
pub open spec fn choice_of(a: PageAnswer) -> PageChoice {
    match a {
        PageAnswer::Select(i) => PageChoice::Select(i as int),
        PageAnswer::Filter(v) => PageChoice::Filter(v@),
        PageAnswer::NoMatch => PageChoice::NoMatch,
    }
}

/// The lower-case form of an entry's name.
pub open spec fn lower_name(items: Seq<String>, i: int) -> Seq<char> {
    unicode_lowercase(items[i]@)
}

/// The first position among `shown` whose name, in lower case, is `a`.
pub open spec fn exact_match(items: Seq<String>, shown: Seq<usize>, a: Seq<char>) -> Option<usize>
    decreases shown.len(),
{
    if shown.len() == 0 {
        None
    } else if lower_name(items, shown[0] as int) == a {
        Some(shown[0])
    } else {
        exact_match(items, shown.drop_first(), a)
    }
}

/// The positions among `shown` whose lower-case name starts with `a`
/// (`prefix`) or contains it.
pub open spec fn name_matches(items: Seq<String>, shown: Seq<usize>, a: Seq<char>, prefix: bool) -> Seq<usize>
    decreases shown.len(),
{
    if shown.len() == 0 {
        Seq::empty()
    } else {
        let rest = name_matches(items, shown.drop_last(), a, prefix);
        let n = lower_name(items, shown.last() as int);
        if (if prefix {
            has_prefix(n, a)
        } else {
            contains_seq(n, a)
        }) {
            rest.push(shown.last())
        } else {
            rest
        }
    }
}

/// The positions below `n` whose lower-case name contains `a`.
pub open spec fn all_hits(items: Seq<String>, a: Seq<char>, n: int) -> Seq<usize>
    decreases n,
{
    if n <= 0 {
        Seq::empty()
    } else if contains_seq(lower_name(items, n - 1), a) {
        all_hits(items, a, n - 1).push((n - 1) as usize)
    } else {
        all_hits(items, a, n - 1)
    }
}

/// What the lower-case answer `a` does to the list `items` shown as
/// `shown`: a number picks the entry at that place; else a name equal to
/// `a`; else the only name starting with `a`; else the only name containing
/// `a`; else the list narrows to every name (of the full list) containing
/// `a`, or stays when there is none.
pub open spec fn page_choice(items: Seq<String>, shown: Seq<usize>, a: Seq<char>) -> PageChoice {
    let by_number = match parsed_usize(a) {
        Some(n) => 1 <= n <= shown.len(),
        None => false,
    };
    if by_number {
        PageChoice::Select(shown[parsed_usize(a)->0 - 1] as int)
    } else {
        match exact_match(items, shown, a) {
            Some(i) => PageChoice::Select(i as int),
            None => {
                let p = name_matches(items, shown, a, true);
                if p.len() == 1 {
                    PageChoice::Select(p[0] as int)
                } else {
                    let c = name_matches(items, shown, a, false);
                    if c.len() == 1 {
                        PageChoice::Select(c[0] as int)
                    } else {
                        let h = all_hits(items, a, items.len() as int);
                        if h.len() == 0 {
                            PageChoice::NoMatch
                        } else {
                            PageChoice::Filter(h)
                        }
                    }
                }
            },
        }
    }
}

fn find_exact(items: &Vec<String>, shown: &Vec<usize>, a: &str) -> (r: Option<usize>)
    requires
        forall|k: int| 0 <= k < shown.len() ==> #[trigger] shown@[k] < items.len(),
    ensures
        r == exact_match(items@, shown@, a@),
{
    let mut k: usize = 0;
    assert(shown@.subrange(0, shown.len() as int) =~= shown@);
    while k < shown.len()
        invariant
            0 <= k <= shown.len(),
            forall|j: int| 0 <= j < shown.len() ==> #[trigger] shown@[j] < items.len(),
            exact_match(items@, shown@, a@) == exact_match(items@, shown@.subrange(k as int, shown.len() as int), a@),
        decreases shown.len() - k,
    {
        let ghost rest = shown@.subrange(k as int, shown.len() as int);
        assert(rest.drop_first() =~= shown@.subrange(k + 1, shown.len() as int));
        assert(rest[0] == shown@[k as int]);
        let n = to_lowercase(items[shown[k]].as_str());
        if str_eq(n.as_str(), a) {
            return Some(shown[k]);
        }
        k += 1;
    }
    None
}

fn collect_matches(items: &Vec<String>, shown: &Vec<usize>, a: &str, prefix: bool) -> (r: Vec<usize>)
    requires
        forall|k: int| 0 <= k < shown.len() ==> #[trigger] shown@[k] < items.len(),
    ensures
        r@ == name_matches(items@, shown@, a@, prefix),
{
    let mut out: Vec<usize> = Vec::new();
    let mut k: usize = 0;
    while k < shown.len()
        invariant
            0 <= k <= shown.len(),
            forall|j: int| 0 <= j < shown.len() ==> #[trigger] shown@[j] < items.len(),
            out@ == name_matches(items@, shown@.subrange(0, k as int), a@, prefix),
        decreases shown.len() - k,
    {
        assert(shown@.subrange(0, k + 1).drop_last() =~= shown@.subrange(0, k as int));
        let n = to_lowercase(items[shown[k]].as_str());
        let hit = if prefix {
            starts_with(n.as_str(), a)
        } else {
            contains(n.as_str(), a)
        };
        if hit {
            out.push(shown[k]);
        }
        k += 1;
    }
    assert(shown@.subrange(0, shown.len() as int) =~= shown@);
    out
}

fn collect_hits(items: &Vec<String>, a: &str) -> (r: Vec<usize>)
    ensures
        r@ == all_hits(items@, a@, items.len() as int),
{
    let mut out: Vec<usize> = Vec::new();
    let mut i: usize = 0;
    while i < items.len()
        invariant
            0 <= i <= items.len(),
            out@ == all_hits(items@, a@, i as int),
        decreases items.len() - i,
    {
        let n = to_lowercase(items[i].as_str());
        if contains(n.as_str(), a) {
            out.push(i);
        }
        i += 1;
    }
    out
}

/// What the (lower-case) answer `answer` does to the list `items` shown as
/// the positions `shown`.
pub fn page_answer(items: &Vec<String>, shown: &Vec<usize>, answer: &str) -> (r: PageAnswer)
    requires
        forall|k: int| 0 <= k < shown.len() ==> #[trigger] shown@[k] < items.len(),
    ensures
        choice_of(r) == page_choice(items@, shown@, answer@),
{
    match parse_usize(answer) {
        Some(n) => {
            if n >= 1 && n <= shown.len() {
                return PageAnswer::Select(shown[n - 1]);
            }
        },
        None => {},
    }
    match find_exact(items, shown, answer) {
        Some(i) => {
            return PageAnswer::Select(i);
        },
        None => {},
    }
    let p = collect_matches(items, shown, answer, true);
    if p.len() == 1 {
        return PageAnswer::Select(p[0]);
    }
    let c = collect_matches(items, shown, answer, false);
    if c.len() == 1 {
        return PageAnswer::Select(c[0]);
    }
    let h = collect_hits(items, answer);
    if h.len() == 0 {
        PageAnswer::NoMatch
    } else {
        PageAnswer::Filter(h)
    }
}

/// The commands understood at every menu prompt.
#[derive(Debug, Clone, Copy, PartialEq, Eq, Structural)]
pub enum MenuCommand {
    Help,
    Back,
    Exit,
    Main,
    Groups,
    Hosts,
    ToggleLang,
    /// Not a command: the answer is for the menu itself.
    Other,
}

/// The command that a lower-case answer names; `g` and `h` only while
/// browsing.
pub open spec fn command_named(lower: Seq<char>, in_browse: bool) -> MenuCommand {
    if lower == "?"@ || lower == "？"@ || lower == "help"@ {
        MenuCommand::Help
    } else if lower == "q"@ {
        MenuCommand::Back
    } else if lower == "exit"@ || lower == "quit"@ {
        MenuCommand::Exit
    } else if lower == "m"@ {
        MenuCommand::Main
    } else if lower == "g"@ && in_browse {
        MenuCommand::Groups
    } else if lower == "h"@ && in_browse {
        MenuCommand::Hosts
    } else if lower == "l"@ || lower == "lang"@ || lower == "语言"@ {
        MenuCommand::ToggleLang
    } else {
        MenuCommand::Other
    }
}

/// The command that the answer `answer` names, compared in lower case.
pub fn command_of(answer: &str, in_browse: bool) -> (r: MenuCommand)
    ensures
        r == command_named(unicode_lowercase(answer@), in_browse),
{
    let lower = to_lowercase(answer);
    let l = lower.as_str();
    if str_eq(l, "?") || str_eq(l, "？") || str_eq(l, "help") {
        MenuCommand::Help
    } else if str_eq(l, "q") {
        MenuCommand::Back
    } else if str_eq(l, "exit") || str_eq(l, "quit") {
        MenuCommand::Exit
    } else if str_eq(l, "m") {
        MenuCommand::Main
    } else if str_eq(l, "g") && in_browse {
        MenuCommand::Groups
    } else if str_eq(l, "h") && in_browse {
        MenuCommand::Hosts
    } else if str_eq(l, "l") || str_eq(l, "lang") || str_eq(l, "语言") {
        MenuCommand::ToggleLang
    } else {
        MenuCommand::Other
    }
}

} // verus!
