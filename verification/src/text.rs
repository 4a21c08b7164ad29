//! Character-sequence model of the free-text surfaces the core consumes:
//! whitespace trimming, line splitting, tokenization on runs of whitespace,
//! joining words, and substring search. The spec functions are the
//! mathematical model; the exec functions are verified against them.

use vstd::prelude::*;
use vstd::string::*;

verus! {

/// The ASCII whitespace characters. The external tool's report separates
/// columns with spaces or tabs and ends lines with optional carriage returns,
/// so the model treats exactly these characters as whitespace.
pub open spec fn is_space(c: char) -> bool {
    c == ' ' || c == '\t' || c == '\n' || c == '\r' || c == '\u{b}' || c == '\u{c}'
}

/// Runtime test of [`is_space`].
pub fn is_space_char(c: char) -> (r: bool)
    ensures
        r == is_space(c),
{
    c == ' ' || c == '\t' || c == '\n' || c == '\r' || c == '\u{b}' || c == '\u{c}'
}

/// `s` without its leading whitespace.
pub open spec fn trim_start(s: Seq<char>) -> Seq<char>
    decreases s.len(),
{
    if s.len() > 0 && is_space(s[0]) {
        trim_start(s.drop_first())
    } else {
        s
    }
}

/// `s` without its trailing whitespace.
pub open spec fn trim_end(s: Seq<char>) -> Seq<char>
    decreases s.len(),
{
    if s.len() > 0 && is_space(s.last()) {
        trim_end(s.drop_last())
    } else {
        s
    }
}

/// `s` without leading and trailing whitespace.
pub open spec fn trim(s: Seq<char>) -> Seq<char> {
    trim_end(trim_start(s))
}

/// `s` begins with `prefix`.
pub open spec fn starts_with(s: Seq<char>, prefix: Seq<char>) -> bool {
    prefix.len() <= s.len() && s.take(prefix.len() as int) == prefix
}

/// Length of the leading run of non-whitespace characters of `s`.
pub open spec fn token_len(s: Seq<char>) -> nat
    decreases s.len(),
{
    if s.len() == 0 || is_space(s[0]) {
        0
    } else {
        (1 + token_len(s.drop_first())) as nat
    }
}

/// The maximal runs of non-whitespace characters of `s`, in order.
pub open spec fn tokens(s: Seq<char>) -> Seq<Seq<char>>
    decreases s.len(),
{
    if s.len() == 0 {
        Seq::empty()
    } else if is_space(s[0]) {
        tokens(s.drop_first())
    } else if token_len(s) >= s.len() {
        seq![s]
    } else {
        seq![s.take(token_len(s) as int)] + tokens(s.skip(token_len(s) as int))
    }
}

/// The words of `ws` joined with single spaces.
pub open spec fn join_words(ws: Seq<Seq<char>>) -> Seq<char>
    decreases ws.len(),
{
    if ws.len() == 0 {
        Seq::empty()
    } else if ws.len() == 1 {
        ws[0]
    } else {
        join_words(ws.drop_last()) + seq![' '] + ws.last()
    }
}

/// Length of the first line of `s` (the prefix before the first newline).
pub open spec fn line_len(s: Seq<char>) -> nat
    decreases s.len(),
{
    if s.len() == 0 || s[0] == '\n' {
        0
    } else {
        (1 + line_len(s.drop_first())) as nat
    }
}

/// `s` split at newline characters, which are not kept. A text without a
/// newline is a single line, so the result is never empty.
pub open spec fn split_lines(s: Seq<char>) -> Seq<Seq<char>>
    decreases s.len(),
{
    let k = line_len(s) as int;
    if k >= s.len() {
        seq![s]
    } else {
        seq![s.take(k)] + split_lines(s.skip(k + 1))
    }
}

/// Position of the first occurrence of `needle` in `hay`, if any.
pub open spec fn find_sub(hay: Seq<char>, needle: Seq<char>) -> Option<int>
    decreases hay.len(),
{
    if starts_with(hay, needle) {
        Some(0 as int)
    } else if hay.len() == 0 {
        None
    } else {
        match find_sub(hay.drop_first(), needle) {
            Some(i) => Some(i + 1),
            None => None,
        }
    }
}

/// `hay` has `needle` as a contiguous subsequence.
pub open spec fn contains_sub(hay: Seq<char>, needle: Seq<char>) -> bool {
    find_sub(hay, needle) is Some
}

/// If the first `m` characters of `s` are whitespace and the next one (if
/// any) is not, trimming the start drops exactly those `m` characters.
pub proof fn lemma_trim_start(s: Seq<char>, m: int)
    requires
        0 <= m <= s.len(),
        forall|k: int| 0 <= k < m ==> is_space(s[k]),
        m < s.len() ==> !is_space(s[m]),
    ensures
        trim_start(s) == s.skip(m),
    decreases m,
{
    if m == 0 {
        assert(s.skip(0) =~= s);
    } else {
        assert(is_space(s[0]));
        lemma_trim_start(s.drop_first(), m - 1);
        assert(s.drop_first().skip(m - 1) =~= s.skip(m));
    }
}

/// If the characters of `s` from `m` on are whitespace and the one before
/// (if any) is not, trimming the end keeps exactly the first `m` characters.
pub proof fn lemma_trim_end(s: Seq<char>, m: int)
    requires
        0 <= m <= s.len(),
        forall|k: int| m <= k < s.len() ==> is_space(s[k]),
        m > 0 ==> !is_space(s[m - 1]),
    ensures
        trim_end(s) == s.take(m),
    decreases s.len() - m,
{
    if m == s.len() {
        assert(s.take(m) =~= s);
    } else {
        assert(is_space(s.last()));
        lemma_trim_end(s.drop_last(), m);
        assert(s.drop_last().take(m) =~= s.take(m));
    }
}

/// If the first `m` characters of `s` are not newlines and the next one (if
/// any) is, the first line of `s` is exactly `m` characters long.
pub proof fn lemma_line_len_is(s: Seq<char>, m: int)
    requires
        0 <= m <= s.len(),
        forall|k: int| 0 <= k < m ==> s[k] != '\n',
        m < s.len() ==> s[m] == '\n',
    ensures
        line_len(s) == m,
    decreases m,
{
    if m == 0 {
    } else {
        lemma_line_len_is(s.drop_first(), m - 1);
    }
}

/// If the first `m` characters of `s` are not whitespace and the next one
/// (if any) is, the leading token of `s` is exactly `m` characters long.
pub proof fn lemma_token_len_is(s: Seq<char>, m: int)
    requires
        0 <= m <= s.len(),
        forall|k: int| 0 <= k < m ==> !is_space(s[k]),
        m < s.len() ==> is_space(s[m]),
    ensures
        token_len(s) == m,
    decreases m,
{
    if m == 0 {
    } else {
        lemma_token_len_is(s.drop_first(), m - 1);
    }
}

/// Leading whitespace does not change the tokens of a sequence.
pub proof fn lemma_tokens_skip_spaces(s: Seq<char>, m: int)
    requires
        0 <= m <= s.len(),
        forall|k: int| 0 <= k < m ==> is_space(s[k]),
    ensures
        tokens(s) == tokens(s.skip(m)),
    decreases m,
{
    if m == 0 {
        assert(s.skip(0) =~= s);
    } else {
        assert(is_space(s[0]));
        lemma_tokens_skip_spaces(s.drop_first(), m - 1);
        assert(s.drop_first().skip(m - 1) =~= s.skip(m));
    }
}

/// Unfolding step of `tokens` on a leading token of `m` characters.
pub proof fn lemma_tokens_head_token(s: Seq<char>, m: int)
    requires
        0 < m <= s.len(),
        forall|k: int| 0 <= k < m ==> !is_space(s[k]),
        m < s.len() ==> is_space(s[m]),
    ensures
        tokens(s) == seq![s.take(m)] + tokens(s.skip(m)),
{
    lemma_token_len_is(s, m);
    if m >= s.len() {
        assert(s.take(m) =~= s);
        assert(s.skip(m) =~= Seq::<char>::empty());
        assert(tokens(s.skip(m)) =~= Seq::<Seq<char>>::empty());
        assert(seq![s.take(m)] + tokens(s.skip(m)) =~= seq![s]);
    }
}

/// `find_sub` returns the first position whose suffix begins with the needle.
pub proof fn lemma_find_sub_at(hay: Seq<char>, needle: Seq<char>, i: int)
    requires
        0 <= i <= hay.len(),
        starts_with(hay.skip(i), needle),
        forall|j: int| 0 <= j < i ==> !starts_with(hay.skip(j), needle),
    ensures
        find_sub(hay, needle) == Some(i),
    decreases i,
{
    if i == 0 {
        assert(hay.skip(0) =~= hay);
    } else {
        assert(hay.skip(0) =~= hay);
        assert(!starts_with(hay, needle));
        assert forall|j: int| 0 <= j < i - 1 implies !starts_with(
            hay.drop_first().skip(j),
            needle,
        ) by {
            assert(hay.drop_first().skip(j) =~= hay.skip(j + 1));
        }
        assert(hay.drop_first().skip(i - 1) =~= hay.skip(i));
        lemma_find_sub_at(hay.drop_first(), needle, i - 1);
    }
}

/// If no suffix of `hay` begins with `needle`, `find_sub` finds nothing.
pub proof fn lemma_find_sub_none(hay: Seq<char>, needle: Seq<char>)
    requires
        forall|j: int| 0 <= j <= hay.len() ==> !starts_with(hay.skip(j), needle),
    ensures
        find_sub(hay, needle) is None,
    decreases hay.len(),
{
    assert(hay.skip(0) =~= hay);
    assert(!starts_with(hay, needle));
    if hay.len() > 0 {
        assert forall|j: int| 0 <= j <= hay.drop_first().len() implies !starts_with(
            hay.drop_first().skip(j),
            needle,
        ) by {
            assert(hay.drop_first().skip(j) =~= hay.skip(j + 1));
        }
        lemma_find_sub_none(hay.drop_first(), needle);
    }
}

/// A found position is in range, and the needle indeed occurs there.
pub proof fn lemma_find_sub_bounds(hay: Seq<char>, needle: Seq<char>, i: int)
    requires
        find_sub(hay, needle) == Some(i),
    ensures
        0 <= i,
        i + needle.len() <= hay.len(),
        starts_with(hay.skip(i), needle),
    decreases hay.len(),
{
    if starts_with(hay, needle) {
        assert(hay.skip(0) =~= hay);
    } else if hay.len() == 0 {
    } else {
        match find_sub(hay.drop_first(), needle) {
            Some(j) => {
                lemma_find_sub_bounds(hay.drop_first(), needle, j);
                assert(hay.drop_first().skip(j) =~= hay.skip(j + 1));
            },
            None => {},
        }
    }
}

/// True when the characters of `s` at `[at, end)` begin with `prefix`.
pub fn range_starts_with(s: &str, at: usize, end: usize, prefix: &str) -> (r: bool)
    requires
        at <= end <= s@.len(),
    ensures
        r == starts_with(s@.subrange(at as int, end as int), prefix@),
{
    let n: usize = prefix.unicode_len();
    if end - at < n {
        return false;
    }
    let mut i: usize = 0;
    while i < n
        invariant
            0 <= i <= n,
            n == prefix@.len(),
            at <= end <= s@.len(),
            n <= end - at,
            forall|k: int| 0 <= k < i ==> s@[at + k] == prefix@[k],
        decreases n - i,
    {
        let a = s.get_char(at + i);
        let b = prefix.get_char(i);
        if a != b {
            proof {
                assert(s@.subrange(at as int, end as int)[i as int] == s@[at + i]);
                assert(s@.subrange(at as int, end as int).take(n as int)[i as int] != prefix@[
                    i as int
                ]);
            }
            return false;
        }
        i += 1;
    }
    proof {
        assert(s@.subrange(at as int, end as int).take(n as int) =~= prefix@);
    }
    true
}

/// First position in `[at, end)` whose character is not whitespace, or `end`.
pub fn scan_spaces(s: &str, at: usize, end: usize) -> (r: usize)
    requires
        at <= end <= s@.len(),
    ensures
        at <= r <= end,
        forall|k: int| at <= k < r ==> is_space(s@[k]),
        r < end ==> !is_space(s@[r as int]),
{
    let mut i: usize = at;
    while i < end && is_space_char(s.get_char(i))
        invariant
            at <= i <= end <= s@.len(),
            forall|k: int| at <= k < i ==> is_space(s@[k]),
        decreases end - i,
    {
        i += 1;
    }
    i
}

/// Last position `r` in `[at, end]` such that all characters in `[r, end)`
/// are whitespace and the one before `r` (if any in the range) is not.
pub fn scan_spaces_rev(s: &str, at: usize, end: usize) -> (r: usize)
    requires
        at <= end <= s@.len(),
    ensures
        at <= r <= end,
        forall|k: int| r <= k < end ==> is_space(s@[k]),
        r > at ==> !is_space(s@[r - 1]),
{
    let mut i: usize = end;
    while i > at && is_space_char(s.get_char(i - 1))
        invariant
            at <= i <= end <= s@.len(),
            forall|k: int| i <= k < end ==> is_space(s@[k]),
        decreases i,
    {
        i -= 1;
    }
    i
}

/// First newline position at or after `at`, or the length of `s`.
pub fn scan_line(s: &str, at: usize) -> (r: usize)
    requires
        at <= s@.len(),
    ensures
        at <= r <= s@.len(),
        forall|k: int| at <= k < r ==> s@[k] != '\n',
        r < s@.len() ==> s@[r as int] == '\n',
{
    let n: usize = s.unicode_len();
    let mut i: usize = at;
    while i < n && s.get_char(i) != '\n'
        invariant
            at <= i <= n,
            n == s@.len(),
            forall|k: int| at <= k < i ==> s@[k] != '\n',
        decreases n - i,
    {
        i += 1;
    }
    i
}

/// End of the run of non-whitespace characters beginning at `at`, capped at `end`.
pub fn scan_token(s: &str, at: usize, end: usize) -> (r: usize)
    requires
        at <= end <= s@.len(),
    ensures
        at <= r <= end,
        forall|k: int| at <= k < r ==> !is_space(s@[k]),
        r < end ==> is_space(s@[r as int]),
{
    let mut i: usize = at;
    while i < end && !is_space_char(s.get_char(i))
        invariant
            at <= i <= end <= s@.len(),
            forall|k: int| at <= k < i ==> !is_space(s@[k]),
        decreases end - i,
    {
        i += 1;
    }
    i
}

/// The characters of `s` at `[at, end)` as a fresh `String`.
pub fn copy_range(s: &str, at: usize, end: usize) -> (r: String)
    requires
        at <= end <= s@.len(),
    ensures
        r@ == s@.subrange(at as int, end as int),
{
    String::from_str(s.substring_char(at, end))
}

/// The bounds of `trim` applied to the characters of `s` at `[at, end)`.
pub fn trim_range(s: &str, at: usize, end: usize) -> (r: (usize, usize))
    requires
        at <= end <= s@.len(),
    ensures
        at <= r.0 <= r.1 <= end,
        s@.subrange(r.0 as int, r.1 as int) == trim(s@.subrange(at as int, end as int)),
{
    let a = scan_spaces(s, at, end);
    let b = scan_spaces_rev(s, a, end);
    proof {
        let sub = s@.subrange(at as int, end as int);
        assert forall|k: int| 0 <= k < a - at implies is_space(sub[k]) by {
            assert(sub[k] == s@[at + k]);
        }
        assert(a - at < sub.len() ==> !is_space(sub[a - at]));
        lemma_trim_start(sub, a - at);
        assert(trim_start(sub) =~= s@.subrange(a as int, end as int));
        let mid = s@.subrange(a as int, end as int);
        assert forall|k: int| b - a <= k < mid.len() implies is_space(mid[k]) by {
            assert(mid[k] == s@[a + k]);
        }
        assert(b - a > 0 ==> !is_space(mid[b - a - 1]));
        lemma_trim_end(mid, b - a);
        assert(mid.take(b - a) =~= s@.subrange(a as int, b as int));
    }
    (a, b)
}

/// Position of the first occurrence of `needle` in `hay`, if any.
pub fn str_find_sub(hay: &str, needle: &str) -> (r: Option<usize>)
    ensures
        match r {
            Some(i) => find_sub(hay@, needle@) == Some(i as int),
            None => find_sub(hay@, needle@) is None,
        },
{
    let n: usize = hay.unicode_len();
    let mut i: usize = 0;
    loop
        invariant
            0 <= i <= n,
            n == hay@.len(),
            forall|j: int| 0 <= j < i ==> !starts_with(hay@.skip(j), needle@),
        ensures
            forall|j: int| 0 <= j <= n ==> !starts_with(hay@.skip(j), needle@),
        decreases n - i,
    {
        if range_starts_with(hay, i, n, needle) {
            proof {
                assert(hay@.subrange(i as int, n as int) =~= hay@.skip(i as int));
                lemma_find_sub_at(hay@, needle@, i as int);
            }
            return Some(i);
        }
        proof {
            assert(hay@.subrange(i as int, n as int) =~= hay@.skip(i as int));
        }
        if i == n {
            break;
        }
        i += 1;
    }
    proof {
        lemma_find_sub_none(hay@, needle@);
    }
    None
}

/// `hay` has the characters of `needle` as a contiguous subsequence.
pub fn str_contains_sub(hay: &str, needle: &str) -> (r: bool)
    ensures
        r == contains_sub(hay@, needle@),
{
    str_find_sub(hay, needle).is_some()
}

} // verus!
