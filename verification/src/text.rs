//! Character-level text helpers, each stated over the character sequence of
//! its arguments.
use vstd::prelude::*;
use vstd::utf8::is_ascii_chars;

verus! {

// ---------------------------------------------------------------------------
// Specifications
// ---------------------------------------------------------------------------

/// The Unicode `White_Space` property, which `char::is_whitespace` follows.
pub open spec fn is_ws(c: char) -> bool {
    ||| ('\u{9}' <= c && c <= '\u{d}')
    ||| c == ' '
    ||| c == '\u{85}'
    ||| c == '\u{a0}'
    ||| c == '\u{1680}'
    ||| ('\u{2000}' <= c && c <= '\u{200a}')
    ||| c == '\u{2028}'
    ||| c == '\u{2029}'
    ||| c == '\u{202f}'
    ||| c == '\u{205f}'
    ||| c == '\u{3000}'
}

/// `s` without its leading white space.
pub open spec fn trim_left(s: Seq<char>) -> Seq<char>
    decreases s.len(),
{
    if s.len() > 0 && is_ws(s[0]) {
        trim_left(s.drop_first())
    } else {
        s
    }
}

/// `s` without its trailing white space.
pub open spec fn trim_right(s: Seq<char>) -> Seq<char>
    decreases s.len(),
{
    if s.len() > 0 && is_ws(s.last()) {
        trim_right(s.drop_last())
    } else {
        s
    }
}

/// `s` without leading and trailing white space (what `str::trim` returns).
pub open spec fn trimmed(s: Seq<char>) -> Seq<char> {
    trim_right(trim_left(s))
}

/// The position of the first character of `s` that satisfies `p`, or the
/// length of `s` when none does.
pub open spec fn first_where(s: Seq<char>, p: spec_fn(char) -> bool) -> int
    decreases s.len(),
{
    if s.len() == 0 {
        0
    } else if p(s[0]) {
        0
    } else {
        1 + first_where(s.drop_first(), p)
    }
}

/// `s` without the leading characters that satisfy `p`.
pub open spec fn strip_left(s: Seq<char>, p: spec_fn(char) -> bool) -> Seq<char>
    decreases s.len(),
{
    if s.len() > 0 && p(s[0]) {
        strip_left(s.drop_first(), p)
    } else {
        s
    }
}

/// `s` without the trailing characters that satisfy `p`.
pub open spec fn strip_right(s: Seq<char>, p: spec_fn(char) -> bool) -> Seq<char>
    decreases s.len(),
{
    if s.len() > 0 && p(s.last()) {
        strip_right(s.drop_last(), p)
    } else {
        s
    }
}

/// `s` without the leading and trailing characters that satisfy `p`
/// (what `str::trim_matches` returns for a character predicate).
pub open spec fn strip_both(s: Seq<char>, p: spec_fn(char) -> bool) -> Seq<char> {
    strip_right(strip_left(s, p), p)
}

/// A double or single quote.
pub open spec fn is_quote(c: char) -> bool {
    c == '"' || c == '\''
}

/// `p` is a prefix of `s`.
pub open spec fn has_prefix(s: Seq<char>, p: Seq<char>) -> bool {
    p.len() <= s.len() && s.subrange(0, p.len() as int) == p
}

/// `p` is a suffix of `s`.
pub open spec fn has_suffix(s: Seq<char>, p: Seq<char>) -> bool {
    p.len() <= s.len() && s.subrange(s.len() - p.len(), s.len() as int) == p
}

/// `needle` occurs in `s` starting at position `i`.
pub open spec fn occurs_at(s: Seq<char>, needle: Seq<char>, i: int) -> bool {
    0 <= i && i + needle.len() <= s.len() && s.subrange(i, i + needle.len()) == needle
}

/// `needle` occurs somewhere in `s` (what `str::contains` answers).
pub open spec fn contains_seq(s: Seq<char>, needle: Seq<char>) -> bool {
    exists|i: int| occurs_at(s, needle, i)
}

/// Every occurrence of `from` in `s`, taken left to right without overlap,
/// replaced by `to` (what `str::replace` returns for a non-empty pattern).
pub open spec fn replaced(s: Seq<char>, from: Seq<char>, to: Seq<char>) -> Seq<char>
    decreases s.len(),
{
    if from.len() == 0 || s.len() < from.len() {
        s
    } else if s.subrange(0, from.len() as int) == from {
        to + replaced(s.subrange(from.len() as int, s.len() as int), from, to)
    } else {
        seq![s[0]] + replaced(s.drop_first(), from, to)
    }
}

/// ASCII upper-case letters mapped to lower case, every other character kept.
pub open spec fn ascii_lower_char(c: char) -> char {
    if 'A' <= c && c <= 'Z' {
        ((c as u32) + 32) as char
    } else {
        c
    }
}

/// `s` with ASCII letters lowered.
pub open spec fn ascii_lower(s: Seq<char>) -> Seq<char> {
    s.map_values(|c: char| ascii_lower_char(c))
}

/// A character of the CJK Unified Ideographs block (U+4E00 to U+9FFF); none
/// of them has a case.
pub open spec fn is_cjk_ideograph(c: char) -> bool {
    0x4E00 <= (c as u32) <= 0x9FFF
}

/// Every character of `s` is ASCII or a CJK ideograph.
pub open spec fn ascii_or_ideographs(s: Seq<char>) -> bool {
    forall|i: int| 0 <= i < s.len() ==> (#[trigger] s[i] as u32) < 128 || is_cjk_ideograph(s[i])
}

/// The Unicode lower-case form of `s`, as `str::to_lowercase` computes it.
pub uninterp spec fn unicode_lowercase(s: Seq<char>) -> Seq<char>;

/// The decimal digit character for `d < 10`.
pub open spec fn digit_char(d: nat) -> char {
    ((d + 48) as u32) as char
}

/// Decimal representation of `n`, without sign or leading zeros.
pub open spec fn dec(n: nat) -> Seq<char>
    decreases n,
{
    if n < 10 {
        seq![digit_char(n)]
    } else {
        dec(n / 10).push(digit_char(n % 10))
    }
}

/// Decimal representation of an integer, with a leading `-` when negative.
pub open spec fn dec_int(i: int) -> Seq<char> {
    if i < 0 {
        seq!['-'] + dec((-i) as nat)
    } else {
        dec(i as nat)
    }
}

/// `c` is an ASCII decimal digit.
pub open spec fn is_digit(c: char) -> bool {
    '0' <= c && c <= '9'
}

/// All characters of `s` are ASCII digits.
pub open spec fn all_digits(s: Seq<char>) -> bool {
    forall|i: int| 0 <= i < s.len() ==> is_digit(#[trigger] s[i])
}

/// The value of a string of decimal digits.
pub open spec fn digits_value(s: Seq<char>) -> nat
    decreases s.len(),
{
    if s.len() == 0 {
        0
    } else {
        digits_value(s.drop_last()) * 10 + ((s.last() as u32) - 48) as nat
    }
}

/// The integer that `s` spells, as the integer `FromStr` impls of std read it:
/// an optional `+` or `-` sign followed by one or more ASCII digits.
pub open spec fn signed_value(s: Seq<char>) -> Option<int> {
    if s.len() > 0 && (s[0] == '+' || s[0] == '-') {
        let rest = s.drop_first();
        if rest.len() > 0 && all_digits(rest) {
            if s[0] == '-' {
                Some(-(digits_value(rest) as int))
            } else {
                Some(digits_value(rest) as int)
            }
        } else {
            None
        }
    } else if s.len() > 0 && all_digits(s) {
        Some(digits_value(s) as int)
    } else {
        None
    }
}

/// What `str::parse::<i64>` yields for `s`.
pub open spec fn parsed_i64(s: Seq<char>) -> Option<i64> {
    match signed_value(s) {
        Some(v) => if i64::MIN <= v && v <= i64::MAX {
            Some(v as i64)
        } else {
            None
        },
        None => None,
    }
}

/// What `str::parse::<usize>` yields for `s` (a `-` sign is refused).
pub open spec fn parsed_usize(s: Seq<char>) -> Option<usize> {
    match signed_value(s) {
        Some(v) => if s[0] != '-' && 0 <= v && v <= usize::MAX {
            Some(v as usize)
        } else {
            None
        },
        None => None,
    }
}

/// What `str::parse::<u64>` yields for `s` (a `-` sign is refused).
pub open spec fn parsed_u64(s: Seq<char>) -> Option<u64> {
    match signed_value(s) {
        Some(v) => if s[0] != '-' && 0 <= v && v <= u64::MAX {
            Some(v as u64)
        } else {
            None
        },
        None => None,
    }
}

/// What `str::parse::<u32>` yields for `s` (a `-` sign is refused).
pub open spec fn parsed_u32(s: Seq<char>) -> Option<u32> {
    match signed_value(s) {
        Some(v) => if s[0] != '-' && 0 <= v && v <= u32::MAX {
            Some(v as u32)
        } else {
            None
        },
        None => None,
    }
}

/// The predicate "is the character `c`".
pub open spec fn char_is(c: char) -> spec_fn(char) -> bool {
    |x: char| x == c
}

/// Whether `a` and `b` are equal once ASCII letters are lowered
/// (`str::eq_ignore_ascii_case`).
pub open spec fn eq_ascii_nocase(a: Seq<char>, b: Seq<char>) -> bool {
    ascii_lower(a) == ascii_lower(b)
}

/// `parts` joined with `sep` between neighbours (what `slice::join` returns).
pub open spec fn joined(parts: Seq<Seq<char>>, sep: Seq<char>) -> Seq<char>
    decreases parts.len(),
{
    if parts.len() == 0 {
        Seq::empty()
    } else if parts.len() == 1 {
        parts[0]
    } else {
        joined(parts.drop_last(), sep) + sep + parts.last()
    }
}

/// The views of a list of strings.
pub open spec fn views(v: Seq<String>) -> Seq<Seq<char>> {
    v.map_values(|s: String| s@)
}

// ---------------------------------------------------------------------------
// Lemmas
// ---------------------------------------------------------------------------

proof fn lemma_trim_left(s: Seq<char>, i: int)
    requires
        0 <= i <= s.len(),
        forall|k: int| 0 <= k < i ==> is_ws(#[trigger] s[k]),
        i == s.len() || !is_ws(s[i]),
    ensures
        trim_left(s) == s.subrange(i, s.len() as int),
    decreases i,
{
    if i == 0 {
        assert(s.subrange(0, s.len() as int) =~= s);
    } else {
        let t = s.drop_first();
        assert forall|k: int| 0 <= k < i - 1 implies is_ws(#[trigger] t[k]) by {
            assert(t[k] == s[k + 1]);
        }
        if i - 1 < t.len() {
            assert(t[i - 1] == s[i]);
        }
        lemma_trim_left(t, i - 1);
        assert(t.subrange(i - 1, t.len() as int) =~= s.subrange(i, s.len() as int));
    }
}

proof fn lemma_trim_right(s: Seq<char>, j: int)
    requires
        0 <= j <= s.len(),
        forall|k: int| j <= k < s.len() ==> is_ws(#[trigger] s[k]),
        j == 0 || !is_ws(s[j - 1]),
    ensures
        trim_right(s) == s.subrange(0, j),
    decreases s.len() - j,
{
    if j == s.len() {
        assert(s.subrange(0, s.len() as int) =~= s);
    } else {
        let t = s.drop_last();
        assert forall|k: int| j <= k < t.len() implies is_ws(#[trigger] t[k]) by {
            assert(t[k] == s[k]);
        }
        if j > 0 {
            assert(t[j - 1] == s[j - 1]);
        }
        lemma_trim_right(t, j);
        assert(t.subrange(0, j) =~= s.subrange(0, j));
    }
}

/// The first position found by a scan is the one `first_where` names.
pub proof fn lemma_first_where(s: Seq<char>, p: spec_fn(char) -> bool, i: int)
    requires
        0 <= i <= s.len(),
        forall|k: int| 0 <= k < i ==> !p(#[trigger] s[k]),
        i == s.len() || p(s[i]),
    ensures
        first_where(s, p) == i,
    decreases i,
{
    if i > 0 {
        let t = s.drop_first();
        assert forall|k: int| 0 <= k < i - 1 implies !p(#[trigger] t[k]) by {
            assert(t[k] == s[k + 1]);
        }
        if i - 1 < t.len() {
            assert(t[i - 1] == s[i]);
        }
        assert(!p(s[0]));
        lemma_first_where(t, p, i - 1);
    }
}

proof fn lemma_strip_left(s: Seq<char>, p: spec_fn(char) -> bool, i: int)
    requires
        0 <= i <= s.len(),
        forall|k: int| 0 <= k < i ==> p(#[trigger] s[k]),
        i == s.len() || !p(s[i]),
    ensures
        strip_left(s, p) == s.subrange(i, s.len() as int),
    decreases i,
{
    if i == 0 {
        assert(s.subrange(0, s.len() as int) =~= s);
    } else {
        let t = s.drop_first();
        assert forall|k: int| 0 <= k < i - 1 implies p(#[trigger] t[k]) by {
            assert(t[k] == s[k + 1]);
        }
        if i - 1 < t.len() {
            assert(t[i - 1] == s[i]);
        }
        lemma_strip_left(t, p, i - 1);
        assert(t.subrange(i - 1, t.len() as int) =~= s.subrange(i, s.len() as int));
    }
}

proof fn lemma_strip_right(s: Seq<char>, p: spec_fn(char) -> bool, j: int)
    requires
        0 <= j <= s.len(),
        forall|k: int| j <= k < s.len() ==> p(#[trigger] s[k]),
        j == 0 || !p(s[j - 1]),
    ensures
        strip_right(s, p) == s.subrange(0, j),
    decreases s.len() - j,
{
    if j == s.len() {
        assert(s.subrange(0, s.len() as int) =~= s);
    } else {
        let t = s.drop_last();
        assert forall|k: int| j <= k < t.len() implies p(#[trigger] t[k]) by {
            assert(t[k] == s[k]);
        }
        if j > 0 {
            assert(t[j - 1] == s[j - 1]);
        }
        lemma_strip_right(t, p, j);
        assert(t.subrange(0, j) =~= s.subrange(0, j));
    }
}

/// `trim_right(x)` is a prefix of `x` that does not end in white space.
proof fn lemma_trim_right_prefix(x: Seq<char>)
    ensures
        trim_right(x).len() <= x.len(),
        trim_right(x) == x.subrange(0, trim_right(x).len() as int),
        trim_right(x).len() == 0 || !is_ws(trim_right(x).last()),
    decreases x.len(),
{
    if x.len() > 0 && is_ws(x.last()) {
        lemma_trim_right_prefix(x.drop_last());
        assert(trim_right(x) =~= x.subrange(0, trim_right(x).len() as int));
    } else {
        assert(x.subrange(0, x.len() as int) =~= x);
    }
}

/// `trim_left(x)` does not start with white space.
proof fn lemma_trim_left_start(x: Seq<char>)
    ensures
        trim_left(x).len() == 0 || !is_ws(trim_left(x)[0]),
    decreases x.len(),
{
    if x.len() > 0 && is_ws(x[0]) {
        lemma_trim_left_start(x.drop_first());
    }
}

/// Trimmed text neither starts nor ends with white space.
pub proof fn lemma_trimmed_ends(s: Seq<char>)
    ensures
        trimmed(s).len() == 0 || (!is_ws(trimmed(s)[0]) && !is_ws(trimmed(s).last())),
{
    let x = trim_left(s);
    lemma_trim_left_start(s);
    lemma_trim_right_prefix(x);
    let t = trim_right(x);
    if t.len() > 0 {
        assert(t[0] == x[0]);
    }
}

/// Text that neither starts nor ends with white space is its own trimmed
/// form.
pub proof fn lemma_trimmed_fixed(t: Seq<char>)
    requires
        t.len() == 0 || (!is_ws(t[0]) && !is_ws(t.last())),
    ensures
        trimmed(t) == t,
{
    assert(trim_left(t) == t);
    assert(trim_right(t) == t);
}

/// Lowering ASCII letters neither makes nor removes white space, and
/// lowering twice is lowering once.
pub proof fn lemma_ascii_lower_char(c: char)
    ensures
        is_ws(ascii_lower_char(c)) == is_ws(c),
        ascii_lower_char(ascii_lower_char(c)) == ascii_lower_char(c),
        (c as u32) < 128 ==> (ascii_lower_char(c) as u32) < 128,
        !((c as u32) < 128) ==> ascii_lower_char(c) == c,
{
}

/// The views of a list grown by one string.
pub proof fn lemma_views_push(v: Seq<String>, s: String)
    ensures
        views(v.push(s)) == views(v).push(s@),
{
    assert(views(v.push(s)) =~= views(v).push(s@));
}

/// Joining one more part appends the separator and that part.
pub proof fn lemma_joined_push(parts: Seq<Seq<char>>, sep: Seq<char>, p: Seq<char>)
    requires
        parts.len() > 0,
    ensures
        joined(parts.push(p), sep) == joined(parts, sep) + sep + p,
{
    assert(parts.push(p).drop_last() =~= parts);
}

proof fn lemma_dec_nonempty(n: nat)
    ensures
        dec(n).len() > 0,
    decreases n,
{
    if n >= 10 {
        lemma_dec_nonempty(n / 10);
    }
}

// ---------------------------------------------------------------------------
// Executable helpers
// ---------------------------------------------------------------------------

/// Appends one character (`String::push`).
#[verifier::external_body]
pub(crate) fn push_char(s: &mut String, c: char)
    ensures
        final(s)@ == old(s)@.push(c),
{
    s.push(c);
}

/// The Unicode lower-case form of `s` (`str::to_lowercase`). Claims: on text
/// made of ASCII characters and CJK ideographs it lowers the ASCII letters
/// and keeps every other character (a character without a lower-case
/// mapping, as the ideographs are, is kept). Other text is only named.
#[verifier::external_body]
pub(crate) fn to_lowercase(s: &str) -> (r: String)
    ensures
        r@ == unicode_lowercase(s@),
        is_ascii_chars(s@) ==> r@ == ascii_lower(s@),
        ascii_or_ideographs(s@) ==> r@ == ascii_lower(s@),
{
    s.to_lowercase()
}

/// The characters of `s`, in order.
pub fn chars_of(s: &str) -> (v: Vec<char>)
    ensures
        v@ == s@,
{
    let mut v: Vec<char> = Vec::new();
    for c in it: s.chars()
        invariant
            v@ == it.history(),
    {
        v.push(c);
    }
    v
}

/// The characters `v[from..to]` as a string.
pub fn string_of(v: &Vec<char>, from: usize, to: usize) -> (s: String)
    requires
        from <= to <= v.len(),
    ensures
        s@ == v@.subrange(from as int, to as int),
{
    let mut s = String::new();
    let mut i = from;
    while i < to
        invariant
            from <= i <= to <= v.len(),
            s@ == v@.subrange(from as int, i as int),
        decreases to - i,
    {
        push_char(&mut s, v[i]);
        i += 1;
        assert(s@ =~= v@.subrange(from as int, i as int));
    }
    s
}

/// A copy of `s` as an owned string.
pub fn owned(s: &str) -> (r: String)
    ensures
        r@ == s@,
{
    let v = chars_of(s);
    string_of(&v, 0, v.len())
}

/// `a` followed by `b`.
pub fn concat(a: &str, b: &str) -> (r: String)
    ensures
        r@ == a@ + b@,
{
    let mut r = owned(a);
    r.append(b);
    r
}

/// Whether two strings hold the same characters.
pub fn str_eq(a: &str, b: &str) -> (r: bool)
    ensures
        r == (a@ == b@),
{
    let va = chars_of(a);
    let vb = chars_of(b);
    if va.len() != vb.len() {
        return false;
    }
    let mut i: usize = 0;
    while i < va.len()
        invariant
            va@ == a@,
            vb@ == b@,
            va.len() == vb.len(),
            0 <= i <= va.len(),
            forall|k: int| 0 <= k < i ==> va@[k] == vb@[k],
        decreases va.len() - i,
    {
        if va[i] != vb[i] {
            return false;
        }
        i += 1;
    }
    assert(va@ =~= vb@);
    true
}

/// Whether `c` is white space (`char::is_whitespace`).
pub fn is_whitespace(c: char) -> (b: bool)
    ensures
        b == is_ws(c),
{
    ('\u{9}' <= c && c <= '\u{d}') || c == ' ' || c == '\u{85}' || c == '\u{a0}' || c == '\u{1680}'
        || ('\u{2000}' <= c && c <= '\u{200a}') || c == '\u{2028}' || c == '\u{2029}' || c
        == '\u{202f}' || c == '\u{205f}' || c == '\u{3000}'
}

/// `s` without leading and trailing white space (`str::trim`).
pub fn trim(s: &str) -> (r: String)
    ensures
        r@ == trimmed(s@),
{
    let v = chars_of(s);
    let mut i: usize = 0;
    while i < v.len() && is_whitespace(v[i])
        invariant
            v@ == s@,
            0 <= i <= v.len(),
            forall|k: int| 0 <= k < i ==> is_ws(#[trigger] v@[k]),
        decreases v.len() - i,
    {
        i += 1;
    }
    proof {
        lemma_trim_left(s@, i as int);
    }
    let ghost t = s@.subrange(i as int, s@.len() as int);
    let mut j: usize = v.len();
    while j > i && is_whitespace(v[j - 1])
        invariant
            v@ == s@,
            i <= j <= v.len(),
            forall|k: int| j <= k < v.len() ==> is_ws(#[trigger] v@[k]),
        decreases j - i,
    {
        j -= 1;
    }
    proof {
        let jj = j - i;
        assert forall|k: int| jj <= k < t.len() implies is_ws(#[trigger] t[k]) by {
            assert(t[k] == v@[k + i]);
        }
        if jj > 0 {
            assert(t[jj - 1] == v@[j - 1]);
        }
        lemma_trim_right(t, jj as int);
        assert(t.subrange(0, jj as int) =~= s@.subrange(i as int, j as int));
    }
    string_of(&v, i, j)
}

/// `v[from..to]` without leading and trailing quotes
/// (`str::trim_matches(|c| c == '"' || c == '\'')`).
pub fn strip_quotes(v: &Vec<char>, from: usize, to: usize) -> (r: String)
    requires
        from <= to <= v.len(),
    ensures
        r@ == strip_both(v@.subrange(from as int, to as int), |c: char| is_quote(c)),
{
    let ghost s = v@.subrange(from as int, to as int);
    let ghost p = |c: char| is_quote(c);
    let mut i = from;
    while i < to && (v[i] == '"' || v[i] == '\'')
        invariant
            from <= i <= to <= v.len(),
            forall|k: int| from <= k < i ==> is_quote(#[trigger] v@[k]),
        decreases to - i,
    {
        i += 1;
    }
    proof {
        assert forall|k: int| 0 <= k < i - from implies p(#[trigger] s[k]) by {
            assert(s[k] == v@[k + from]);
        }
        if i < to {
            assert(s[i - from] == v@[i as int]);
        }
        lemma_strip_left(s, p, i - from);
    }
    let ghost t = s.subrange(i - from, s.len() as int);
    let mut j = to;
    while j > i && (v[j - 1] == '"' || v[j - 1] == '\'')
        invariant
            from <= i <= j <= to <= v.len(),
            forall|k: int| j <= k < to ==> is_quote(#[trigger] v@[k]),
        decreases j - i,
    {
        j -= 1;
    }
    proof {
        let jj = (j - i) as int;
        assert forall|k: int| jj <= k < t.len() implies p(#[trigger] t[k]) by {
            assert(t[k] == v@[k + i]);
        }
        if jj > 0 {
            assert(t[jj - 1] == v@[j - 1]);
        }
        lemma_strip_right(t, p, jj);
        assert(t.subrange(0, jj) =~= v@.subrange(i as int, j as int));
    }
    string_of(v, i, j)
}

/// Whether `needle` occurs in `hay` at position `i`.
fn occurs_at_exec(hay: &Vec<char>, needle: &Vec<char>, i: usize) -> (r: bool)
    ensures
        r == occurs_at(hay@, needle@, i as int),
{
    if i > hay.len() || needle.len() > hay.len() - i {
        return false;
    }
    let mut k: usize = 0;
    while k < needle.len()
        invariant
            i + needle.len() <= hay.len(),
            0 <= k <= needle.len(),
            forall|m: int| 0 <= m < k ==> hay@[i + m] == needle@[m],
        decreases needle.len() - k,
    {
        if hay[i + k] != needle[k] {
            assert(hay@.subrange(i as int, i + needle.len())[k as int] != needle@[k as int]);
            return false;
        }
        k += 1;
    }
    assert(hay@.subrange(i as int, i + needle.len()) =~= needle@);
    true
}

/// The first position at or after `from` where `needle` occurs in `hay`.
pub fn find_from(hay: &Vec<char>, needle: &Vec<char>, from: usize) -> (r: Option<usize>)
    ensures
        match r {
            Some(i) => from <= i && occurs_at(hay@, needle@, i as int) && forall|j: int|
                from <= j < i ==> !occurs_at(hay@, needle@, j),
            None => forall|j: int| from <= j ==> !occurs_at(hay@, needle@, j),
        },
{
    let mut i = from;
    while i < hay.len()
        invariant
            from <= i,
            i <= hay.len() || i == from,
            forall|j: int| from <= j < i ==> !occurs_at(hay@, needle@, j),
        decreases hay.len() - i,
    {
        if occurs_at_exec(hay, needle, i) {
            return Some(i);
        }
        i += 1;
    }
    if i == hay.len() && occurs_at_exec(hay, needle, i) {
        return Some(i);
    }
    None
}

/// Whether `needle` occurs in `hay` (`str::contains`).
pub fn contains(hay: &str, needle: &str) -> (r: bool)
    ensures
        r == contains_seq(hay@, needle@),
{
    let h = chars_of(hay);
    let n = chars_of(needle);
    match find_from(&h, &n, 0) {
        Some(_) => true,
        None => false,
    }
}

/// Whether `s` starts with `p` (`str::starts_with`).
pub fn starts_with(s: &str, p: &str) -> (r: bool)
    ensures
        r == has_prefix(s@, p@),
{
    let vs = chars_of(s);
    let vp = chars_of(p);
    let r = occurs_at_exec(&vs, &vp, 0);
    r
}

/// Whether `s` ends with `p` (`str::ends_with`).
pub fn ends_with(s: &str, p: &str) -> (r: bool)
    ensures
        r == has_suffix(s@, p@),
{
    let vs = chars_of(s);
    let vp = chars_of(p);
    if vp.len() > vs.len() {
        return false;
    }
    occurs_at_exec(&vs, &vp, vs.len() - vp.len())
}

/// Whether `c` occurs in `s`.
pub fn has_char(s: &str, c: char) -> (r: bool)
    ensures
        r == s@.contains(c),
{
    let v = chars_of(s);
    let mut i: usize = 0;
    while i < v.len()
        invariant
            v@ == s@,
            0 <= i <= v.len(),
            forall|k: int| 0 <= k < i ==> v@[k] != c,
        decreases v.len() - i,
    {
        if v[i] == c {
            return true;
        }
        i += 1;
    }
    false
}

proof fn lemma_replaced_skip(s: Seq<char>, from: Seq<char>, to: Seq<char>, i: int)
    requires
        from.len() > 0,
        0 <= i <= s.len(),
        forall|j: int| 0 <= j < i ==> !occurs_at(s, from, j),
    ensures
        replaced(s, from, to) == s.subrange(0, i) + replaced(s.subrange(i, s.len() as int), from, to),
    decreases i,
{
    if i == 0 {
        assert(s.subrange(0, 0) + replaced(s.subrange(0, s.len() as int), from, to) =~= replaced(s, from, to)) by {
            assert(s.subrange(0, s.len() as int) =~= s);
        }
    } else {
        let t = s.drop_first();
        assert(!occurs_at(s, from, 0));
        if s.len() >= from.len() {
            assert(s.subrange(0, from.len() as int) != from);
        }
        assert forall|j: int| 0 <= j < i - 1 implies !occurs_at(t, from, j) by {
            if occurs_at(t, from, j) {
                assert(s.subrange(j + 1, j + 1 + from.len()) =~= t.subrange(j, j + from.len()));
                assert(occurs_at(s, from, j + 1));
            }
        }
        lemma_replaced_skip(t, from, to, i - 1);
        assert(t.subrange(i - 1, t.len() as int) =~= s.subrange(i, s.len() as int));
        assert(seq![s[0]] + t.subrange(0, i - 1) =~= s.subrange(0, i));
        if s.len() < from.len() {
            assert(s.subrange(0, i) + replaced(s.subrange(i, s.len() as int), from, to) =~= s) by {
                assert(s.subrange(i, s.len() as int).len() < from.len());
            }
        }
    }
}

/// `s` with every occurrence of the non-empty `from` replaced by `to`
/// (`str::replace`).
pub fn replace(s: &str, from: &str, to: &str) -> (r: String)
    requires
        from@.len() > 0,
    ensures
        r@ == replaced(s@, from@, to@),
{
    let vs = chars_of(s);
    let vf = chars_of(from);
    let mut r = String::new();
    let mut pos: usize = 0;
    assert(s@.subrange(0, s@.len() as int) =~= s@);
    assert(r@ + replaced(s@, from@, to@) =~= replaced(s@, from@, to@));
    while pos <= vs.len()
        invariant
            vs@ == s@,
            vf@ == from@,
            vf@.len() > 0,
            pos <= vs.len(),
            replaced(s@, from@, to@) == r@ + replaced(s@.subrange(pos as int, s@.len() as int), from@, to@),
        decreases vs.len() - pos,
    {
        let ghost rest = s@.subrange(pos as int, s@.len() as int);
        match find_from(&vs, &vf, pos) {
            Some(i) => {
                proof {
                    assert forall|j: int| 0 <= j < i - pos implies !occurs_at(rest, from@, j) by {
                        if occurs_at(rest, from@, j) {
                            assert(s@.subrange(pos + j, pos + j + from@.len()) =~= rest.subrange(j, j + from@.len()));
                            assert(occurs_at(s@, from@, pos + j));
                        }
                    }
                    lemma_replaced_skip(rest, from@, to@, i - pos);
                    let tail = rest.subrange(i - pos, rest.len() as int);
                    assert(tail =~= s@.subrange(i as int, s@.len() as int));
                    assert(tail.subrange(0, from@.len() as int) =~= from@);
                    assert(tail.subrange(from@.len() as int, tail.len() as int) =~= s@.subrange(i + from@.len(), s@.len() as int));
                    assert(rest.subrange(0, i - pos) =~= vs@.subrange(pos as int, i as int));
                }
                let piece = string_of(&vs, pos, i);
                r.append(piece.as_str());
                r.append(to);
                pos = i + vf.len();
                assert(r@ + replaced(s@.subrange(pos as int, s@.len() as int), from@, to@)
                    =~= replaced(s@, from@, to@));
            },
            None => {
                proof {
                    assert forall|j: int| 0 <= j < rest.len() implies !occurs_at(rest, from@, j) by {
                        if occurs_at(rest, from@, j) {
                            assert(s@.subrange(pos + j, pos + j + from@.len()) =~= rest.subrange(j, j + from@.len()));
                            assert(occurs_at(s@, from@, pos + j));
                        }
                    }
                    lemma_replaced_skip(rest, from@, to@, rest.len() as int);
                    assert(rest.subrange(rest.len() as int, rest.len() as int).len() == 0);
                    assert(rest.subrange(0, rest.len() as int) =~= rest);
                }
                let piece = string_of(&vs, pos, vs.len());
                r.append(piece.as_str());
                assert(r@ =~= replaced(s@, from@, to@));
                return r;
            },
        }
    }
    r
}

/// The decimal representation of `n` (`u64::to_string`).
pub fn fmt_u64(n: u64) -> (r: String)
    ensures
        r@ == dec(n as nat),
    decreases n,
{
    let d = n % 10;
    let c: char = if d == 0 {
        '0'
    } else if d == 1 {
        '1'
    } else if d == 2 {
        '2'
    } else if d == 3 {
        '3'
    } else if d == 4 {
        '4'
    } else if d == 5 {
        '5'
    } else if d == 6 {
        '6'
    } else if d == 7 {
        '7'
    } else if d == 8 {
        '8'
    } else {
        '9'
    };
    assert(c == digit_char(d as nat));
    if n < 10 {
        let mut r = String::new();
        push_char(&mut r, c);
        assert(r@ =~= dec(n as nat));
        r
    } else {
        let mut r = fmt_u64(n / 10);
        push_char(&mut r, c);
        r
    }
}

/// The decimal representation of `i` (`i64::to_string`).
pub fn fmt_i64(i: i64) -> (r: String)
    ensures
        r@ == dec_int(i as int),
{
    if i < 0 {
        let m: u64 = if i == i64::MIN {
            9223372036854775808u64
        } else {
            (-i) as u64
        };
        let mut r = String::new();
        push_char(&mut r, '-');
        let d = fmt_u64(m);
        r.append(d.as_str());
        assert(r@ =~= dec_int(i as int));
        r
    } else {
        fmt_u64(i as u64)
    }
}

/// The decimal representation of `n` (`usize::to_string`).
pub fn fmt_usize(n: usize) -> (r: String)
    ensures
        r@ == dec(n as nat),
{
    fmt_u64(n as u64)
}

/// Reads the digits `v[from..]` as a non-negative number, refusing values
/// above `limit`.
fn digits_upto(v: &Vec<char>, from: usize, limit: u64) -> (r: Option<u64>)
    requires
        from < v.len(),
    ensures
        match r {
            Some(n) => all_digits(v@.subrange(from as int, v.len() as int)) && n == digits_value(
                v@.subrange(from as int, v.len() as int),
            ) && n <= limit,
            None => !all_digits(v@.subrange(from as int, v.len() as int)) || digits_value(
                v@.subrange(from as int, v.len() as int),
            ) > limit,
        },
{
    let ghost full = v@.subrange(from as int, v.len() as int);
    let mut acc: u64 = 0;
    let mut i = from;
    while i < v.len()
        invariant
            from <= i <= v.len(),
            full == v@.subrange(from as int, v.len() as int),
            all_digits(v@.subrange(from as int, i as int)),
            acc == digits_value(v@.subrange(from as int, i as int)),
            acc <= limit,
        decreases v.len() - i,
    {
        let c = v[i];
        let ghost pre = v@.subrange(from as int, i as int);
        let ghost next = v@.subrange(from as int, i + 1);
        assert(next.drop_last() =~= pre);
        if !('0' <= c && c <= '9') {
            assert(!all_digits(full)) by {
                assert(full[i - from] == c);
            }
            return None;
        }
        let d = (c as u32 - 48) as u64;
        assert(all_digits(next)) by {
            assert forall|k: int| 0 <= k < next.len() implies is_digit(#[trigger] next[k]) by {
                if k < pre.len() {
                    assert(next[k] == pre[k]);
                }
            }
        }
        assert(digits_value(next) == acc * 10 + d);
        if d > limit || acc > (limit - d) / 10 {
            // the digits read so far already spell a value above the limit
            proof {
                if d <= limit {
                    assert(acc * 10 + d > limit) by (nonlinear_arith)
                        requires
                            acc > (limit - d) / 10,
                            d <= limit,
                    ;
                }
                let k = (i + 1 - from) as int;
                lemma_prefix_value_grows(full, k);
                assert(full.subrange(0, k) =~= next);
            }
            return None;
        }
        assert(acc * 10 + d <= limit) by (nonlinear_arith)
            requires
                acc <= (limit - d) / 10,
                d <= limit,
        ;
        acc = acc * 10 + d;
        i += 1;
    }
    assert(v@.subrange(from as int, v.len() as int) =~= full);
    Some(acc)
}

/// The value of a digit string is at least that of any of its prefixes.
proof fn lemma_prefix_value_grows(s: Seq<char>, k: int)
    requires
        0 <= k <= s.len(),
    ensures
        all_digits(s) ==> digits_value(s.subrange(0, k)) <= digits_value(s),
    decreases s.len() - k,
{
    if k < s.len() && all_digits(s) {
        let t = s.drop_last();
        assert forall|i: int| 0 <= i < t.len() implies is_digit(#[trigger] t[i]) by {
            assert(t[i] == s[i]);
        }
        lemma_prefix_value_grows(t, k);
        assert(t.subrange(0, k) =~= s.subrange(0, k));
        assert(is_digit(s[s.len() - 1]));
    } else if k == s.len() {
        assert(s.subrange(0, k) =~= s);
    }
}

/// Reads `s` as an `i64` (`str::parse::<i64>`).
pub fn parse_i64(s: &str) -> (r: Option<i64>)
    ensures
        r == parsed_i64(s@),
{
    let v = chars_of(s);
    if v.len() == 0 {
        return None;
    }
    let neg = v[0] == '-';
    let signed = v[0] == '-' || v[0] == '+';
    let start: usize = if signed {
        1
    } else {
        0
    };
    if start >= v.len() {
        assert(s@.drop_first().len() == 0);
        return None;
    }
    assert(v@.subrange(start as int, v.len() as int) =~= if signed {
        s@.drop_first()
    } else {
        s@
    });
    let limit: u64 = if neg {
        9223372036854775808u64
    } else {
        9223372036854775807u64
    };
    match digits_upto(&v, start, limit) {
        Some(n) => {
            if neg {
                if n == 9223372036854775808u64 {
                    Some(i64::MIN)
                } else {
                    Some(-(n as i64))
                }
            } else {
                Some(n as i64)
            }
        },
        None => None,
    }
}

/// Reads `s` as a `usize` (`str::parse::<usize>`).
pub fn parse_usize(s: &str) -> (r: Option<usize>)
    ensures
        r == parsed_usize(s@),
{
    let v = chars_of(s);
    if v.len() == 0 {
        return None;
    }
    if v[0] == '-' {
        return None;
    }
    let signed = v[0] == '+';
    let start: usize = if signed {
        1
    } else {
        0
    };
    if start >= v.len() {
        return None;
    }
    assert(v@.subrange(start as int, v.len() as int) =~= if signed {
        s@.drop_first()
    } else {
        s@
    });
    match digits_upto(&v, start, usize::MAX as u64) {
        Some(n) => Some(n as usize),
        None => None,
    }
}

/// The unsigned value that `v[from..]` spells, with an optional leading `+`,
/// when it is at most `limit`.
fn parse_unsigned(v: &Vec<char>, limit: u64) -> (r: Option<u64>)
    ensures
        match r {
            Some(n) => match signed_value(v@) {
                Some(x) => v@[0] != '-' && x == n && n <= limit,
                None => false,
            },
            None => match signed_value(v@) {
                Some(x) => v@[0] == '-' || x > limit,
                None => true,
            },
        },
{
    if v.len() == 0 {
        return None;
    }
    if v[0] == '-' {
        return None;
    }
    let signed = v[0] == '+';
    let start: usize = if signed {
        1
    } else {
        0
    };
    if start >= v.len() {
        return None;
    }
    assert(v@.subrange(start as int, v.len() as int) =~= if signed {
        v@.drop_first()
    } else {
        v@
    });
    digits_upto(v, start, limit)
}

/// Reads `s` as a `u64` (`str::parse::<u64>`).
pub fn parse_u64(s: &str) -> (r: Option<u64>)
    ensures
        r == parsed_u64(s@),
{
    let v = chars_of(s);
    parse_unsigned(&v, u64::MAX)
}

/// Reads `s` as a `u32` (`str::parse::<u32>`).
pub fn parse_u32(s: &str) -> (r: Option<u32>)
    ensures
        r == parsed_u32(s@),
{
    let v = chars_of(s);
    match parse_unsigned(&v, u32::MAX as u64) {
        Some(n) => Some(n as u32),
        None => None,
    }
}

/// ASCII letters of `c` lowered.
fn lower_ascii_char(c: char) -> (r: char)
    ensures
        r == ascii_lower_char(c),
{
    if 'A' <= c && c <= 'Z' {
        let b: u8 = c as u8;
        assert(b as u32 == c as u32);
        (b + 32) as char
    } else {
        c
    }
}

/// Whether `a` and `b` are equal ignoring ASCII case (`str::eq_ignore_ascii_case`).
pub fn eq_ignore_ascii_case(a: &str, b: &str) -> (r: bool)
    ensures
        r == eq_ascii_nocase(a@, b@),
{
    let va = chars_of(a);
    let vb = chars_of(b);
    if va.len() != vb.len() {
        assert(ascii_lower(a@).len() != ascii_lower(b@).len());
        return false;
    }
    let mut i: usize = 0;
    while i < va.len()
        invariant
            va@ == a@,
            vb@ == b@,
            va.len() == vb.len(),
            0 <= i <= va.len(),
            forall|k: int| 0 <= k < i ==> ascii_lower_char(va@[k]) == ascii_lower_char(vb@[k]),
        decreases va.len() - i,
    {
        if lower_ascii_char(va[i]) != lower_ascii_char(vb[i]) {
            assert(ascii_lower(a@)[i as int] != ascii_lower(b@)[i as int]);
            return false;
        }
        i += 1;
    }
    assert(ascii_lower(a@) =~= ascii_lower(b@));
    true
}

/// `s` without the trailing run of `c` (`str::trim_end_matches` with a char).
pub fn trim_end_char(s: &str, c: char) -> (r: String)
    ensures
        r@ == strip_right(s@, char_is(c)),
{
    let v = chars_of(s);
    let mut end: usize = v.len();
    assert(s@.subrange(0, end as int) =~= s@);
    while end > 0 && v[end - 1] == c
        invariant
            v@ == s@,
            0 <= end <= v.len(),
            strip_right(s@, char_is(c)) == strip_right(s@.subrange(0, end as int), char_is(c)),
        decreases end,
    {
        let ghost t = s@.subrange(0, end as int);
        assert(t.drop_last() =~= s@.subrange(0, end - 1));
        end -= 1;
    }
    assert(strip_right(s@.subrange(0, end as int), char_is(c)) == s@.subrange(0, end as int));
    string_of(&v, 0, end)
}

/// `parts` joined with `sep` between neighbours (`slice::join`).
pub fn join(parts: &Vec<String>, sep: &str) -> (r: String)
    ensures
        r@ == joined(views(parts@), sep@),
{
    let mut r = String::new();
    let mut i: usize = 0;
    while i < parts.len()
        invariant
            0 <= i <= parts.len(),
            r@ == joined(views(parts@.subrange(0, i as int)), sep@),
        decreases parts.len() - i,
    {
        let ghost before = views(parts@.subrange(0, i as int));
        assert(views(parts@.subrange(0, i + 1)) =~= before.push(parts@[i as int]@));
        if i > 0 {
            r.append(sep);
            proof {
                lemma_joined_push(before, sep@, parts@[i as int]@);
            }
        } else {
            assert(before.push(parts@[0]@).len() == 1);
        }
        r.append(parts[i].as_str());
        i += 1;
    }
    assert(parts@.subrange(0, parts.len() as int) =~= parts@);
    r
}

} // verus!
