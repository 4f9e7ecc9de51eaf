//! Character-level text utilities: whitespace handling, tokenization,
//! joining, substring search and decimal conversions, each specified
//! over `Seq<char>` views.
use vstd::prelude::*;

verus! {

/// The characters with the Unicode `White_Space` property, the set that
/// `str::trim` and `str::split_whitespace` split on.
pub open spec fn is_space(c: char) -> bool {
    c == ' ' || c == '\t' || c == '\n' || c == '\r' || c == '\u{b}' || c == '\u{c}'
        || c == '\u{85}' || c == '\u{a0}' || c == '\u{1680}'
        || ('\u{2000}' <= c && c <= '\u{200a}') || c == '\u{2028}' || c == '\u{2029}'
        || c == '\u{202f}' || c == '\u{205f}' || c == '\u{3000}'
}

/// Executable test for [`is_space`].
pub fn is_space_char(c: char) -> (r: bool)
    ensures
        r == is_space(c),
{
    c == ' ' || c == '\t' || c == '\n' || c == '\r' || c == '\u{b}' || c == '\u{c}'
        || c == '\u{85}' || c == '\u{a0}' || c == '\u{1680}'
        || ('\u{2000}' <= c && c <= '\u{200a}') || c == '\u{2028}' || c == '\u{2029}'
        || c == '\u{202f}' || c == '\u{205f}' || c == '\u{3000}'
}

/// Index of the first non-space character at or after `i`, or the length
/// of `s` when only spaces remain.
pub open spec fn skip_spaces(s: Seq<char>, i: int) -> int
    decreases s.len() - i,
{
    if i < 0 || i >= s.len() {
        s.len() as int
    } else if is_space(s[i]) {
        skip_spaces(s, i + 1)
    } else {
        i
    }
}

proof fn lemma_skip_spaces_bounds(s: Seq<char>, i: int)
    requires
        0 <= i <= s.len(),
    ensures
        i <= skip_spaces(s, i) <= s.len(),
        forall|k: int| i <= k < skip_spaces(s, i) ==> is_space(s[k]),
        skip_spaces(s, i) < s.len() ==> !is_space(s[skip_spaces(s, i)]),
    decreases s.len() - i,
{
    if i < s.len() && is_space(s[i]) {
        lemma_skip_spaces_bounds(s, i + 1);
    }
}

/// Index just past the last non-space character strictly before `j`, or 0
/// when only spaces precede.
pub open spec fn scan_back_spaces(s: Seq<char>, j: int) -> int
    decreases j,
{
    if j <= 0 || j > s.len() {
        0
    } else if is_space(s[j - 1]) {
        scan_back_spaces(s, j - 1)
    } else {
        j
    }
}

proof fn lemma_scan_back_spaces_bounds(s: Seq<char>, j: int)
    requires
        0 <= j <= s.len(),
    ensures
        0 <= scan_back_spaces(s, j) <= j,
        forall|k: int| scan_back_spaces(s, j) <= k < j ==> is_space(s[k]),
        scan_back_spaces(s, j) > 0 ==> !is_space(s[scan_back_spaces(s, j) - 1]),
    decreases j,
{
    if j > 0 && j <= s.len() && is_space(s[j - 1]) {
        lemma_scan_back_spaces_bounds(s, j - 1);
    }
}

/// What `str::trim` returns: the text with leading and trailing
/// white space removed.
pub open spec fn trimmed(s: Seq<char>) -> Seq<char> {
    let a = skip_spaces(s, 0);
    let b = scan_back_spaces(s, s.len() as int);
    if a >= b {
        Seq::empty()
    } else {
        s.subrange(a, b)
    }
}

/// Executable trim, mirroring `str::trim`.
pub fn trim_ws<'a>(s: &'a str) -> (r: &'a str)
    ensures
        r@ == trimmed(s@),
{
    let n: usize = s.unicode_len();
    let mut a: usize = 0;
    while a < n && is_space_char(s.get_char(a))
        invariant
            0 <= a <= n,
            n == s@.len(),
            skip_spaces(s@, 0) == skip_spaces(s@, a as int),
        decreases n - a,
    {
        assert(skip_spaces(s@, a as int) == skip_spaces(s@, a + 1));
        a = a + 1;
    }
    assert(skip_spaces(s@, 0) == a);
    let mut b: usize = n;
    while b > a && is_space_char(s.get_char(b - 1))
        invariant
            a <= b <= n,
            n == s@.len(),
            a == skip_spaces(s@, 0),
            scan_back_spaces(s@, n as int) == scan_back_spaces(s@, b as int),
        decreases b,
    {
        assert(scan_back_spaces(s@, b as int) == scan_back_spaces(s@, b - 1));
        b = b - 1;
    }
    proof {
        if b > a {
            // stopped on a non-space, so the backward scan ends exactly at b
            assert(scan_back_spaces(s@, b as int) == b);
        } else {
            // b == a: the backward scan cannot pass a
            lemma_scan_back_spaces_bounds(s@, a as int);
            assert(trimmed(s@) =~= s@.subrange(a as int, b as int));
        }
        assert(s@.subrange(a as int, b as int) == trimmed(s@));
    }
    s.substring_char(a, b)
}

/// Index just past the token starting at `i`: the first space index at or
/// after `i`, or the length of `s`.
pub open spec fn token_end(s: Seq<char>, i: int) -> int
    decreases s.len() - i,
{
    if i < 0 || i >= s.len() || is_space(s[i]) {
        i
    } else {
        token_end(s, i + 1)
    }
}

proof fn lemma_token_end_bounds(s: Seq<char>, i: int)
    requires
        0 <= i <= s.len(),
    ensures
        i <= token_end(s, i) <= s.len(),
        forall|k: int| i <= k < token_end(s, i) ==> !is_space(s[k]),
        token_end(s, i) < s.len() ==> is_space(s[token_end(s, i)]),
    decreases s.len() - i,
{
    if i < s.len() && !is_space(s[i]) {
        lemma_token_end_bounds(s, i + 1);
    }
}

/// A span of non-spaces closed off by a space or the end pins `token_end`.
proof fn lemma_token_end_interval(s: Seq<char>, i: int, j: int)
    requires
        0 <= i <= j <= s.len(),
        forall|k: int| i <= k < j ==> !is_space(s[k]),
        j == s.len() || is_space(s[j]),
    ensures
        token_end(s, i) == j,
    decreases j - i,
{
    if i < j {
        lemma_token_end_interval(s, i + 1, j);
    }
}

/// The whitespace-separated tokens of `s` from position `i` on, as
/// `str::split_whitespace` yields them.
pub open spec fn tokens_from(s: Seq<char>, i: int) -> Seq<Seq<char>>
    decreases s.len() - i,
    when 0 <= i <= s.len()
    via tokens_from_decreases
{
    if i >= s.len() {
        Seq::empty()
    } else if is_space(s[i]) {
        tokens_from(s, i + 1)
    } else {
        seq![s.subrange(i, token_end(s, i))] + tokens_from(s, token_end(s, i))
    }
}

#[via_fn]
proof fn tokens_from_decreases(s: Seq<char>, i: int) {
    if 0 <= i && i < s.len() && !is_space(s[i]) {
        lemma_token_end_bounds(s, i);
    }
}

/// All whitespace-separated tokens of `s`.
pub open spec fn tokens(s: Seq<char>) -> Seq<Seq<char>> {
    tokens_from(s, 0)
}

/// The view of an optional string.
pub open spec fn opt_chars(o: Option<String>) -> Option<Seq<char>> {
    match o {
        Some(s) => Some(s@),
        None => None,
    }
}

/// The views of a sequence of strings.
pub open spec fn seq_views(ts: Seq<String>) -> Seq<Seq<char>> {
    ts.map_values(|t: String| t@)
}

proof fn lemma_seq_views_push(ts: Seq<String>, t: String)
    ensures
        seq_views(ts.push(t)) =~= seq_views(ts).push(t@),
{
}

/// Executable whitespace split, mirroring `str::split_whitespace`.
pub fn split_ws(s: &str) -> (r: Vec<String>)
    ensures
        seq_views(r@) == tokens(s@),
{
    let n: usize = s.unicode_len();
    let mut out: Vec<String> = Vec::new();
    let mut i: usize = 0;
    while i < n
        invariant
            0 <= i <= n,
            n == s@.len(),
            tokens(s@) == seq_views(out@) + tokens_from(s@, i as int),
        decreases n - i,
    {
        if is_space_char(s.get_char(i)) {
            assert(tokens_from(s@, i as int) == tokens_from(s@, i + 1));
            i = i + 1;
        } else {
            let start: usize = i;
            let mut j: usize = i + 1;
            while j < n && !is_space_char(s.get_char(j))
                invariant
                    start < j <= n,
                    n == s@.len(),
                    forall|k: int| start <= k < j ==> !is_space(s@[k]),
                decreases n - j,
            {
                j = j + 1;
            }
            proof {
                lemma_token_end_interval(s@, start as int, j as int);
            }
            let tok: String = s.substring_char(start, j).to_owned();
            proof {
                lemma_seq_views_push(out@, tok);
                assert(seq_views(out@.push(tok)) + tokens_from(s@, j as int) =~= seq_views(out@)
                    + tokens_from(s@, start as int));
            }
            out.push(tok);
            i = j;
        }
    }
    proof {
        assert(seq_views(out@) + tokens_from(s@, n as int) =~= seq_views(out@));
    }
    out
}

/// The parts from index `i` on, joined with the separator.
pub open spec fn joined_from(parts: Seq<Seq<char>>, sep: Seq<char>, i: int) -> Seq<char>
    decreases parts.len() - i,
{
    if i < 0 || i >= parts.len() {
        Seq::empty()
    } else if i == parts.len() - 1 {
        parts[i]
    } else {
        parts[i] + sep + joined_from(parts, sep, i + 1)
    }
}

/// Join the strings from index `from` on with the separator, as
/// `[T]::join` does.
pub fn join_from(parts: &Vec<String>, sep: &str, from: usize) -> (r: String)
    ensures
        r@ == joined_from(seq_views(parts@), sep@, from as int),
{
    let mut out: String = String::new();
    let mut i: usize = from;
    while i < parts.len()
        invariant
            from <= i,
            i <= parts.len() || i == from,
            out@ + joined_from(seq_views(parts@), sep@, i as int) == joined_from(
                seq_views(parts@),
                sep@,
                from as int,
            ),
        decreases parts.len() - i,
    {
        let ghost out0 = out@;
        let ghost sv = seq_views(parts@);
        out.append(parts[i].as_str());
        if i + 1 < parts.len() {
            out.append(sep);
            proof {
                assert(sv[i as int] == parts@[i as int]@);
                assert(out@ =~= out0 + sv[i as int] + sep@);
                assert(out@ + joined_from(sv, sep@, i + 1) =~= out0 + joined_from(
                    sv,
                    sep@,
                    i as int,
                ));
            }
        } else {
            proof {
                assert(joined_from(sv, sep@, i + 1) =~= Seq::empty());
                assert(out@ + joined_from(sv, sep@, i + 1) =~= out0 + joined_from(
                    sv,
                    sep@,
                    i as int,
                ));
            }
        }
        i = i + 1;
    }
    out
}

/// The pattern `p` occurs in `s` at position `i`.
pub open spec fn match_at(s: Seq<char>, p: Seq<char>, i: int) -> bool {
    0 <= i && i + p.len() <= s.len() && s.subrange(i, i + p.len() as int) == p
}

/// What `str::contains` returns: `p` occurs somewhere in `s`.
pub open spec fn has_sub(s: Seq<char>, p: Seq<char>) -> bool {
    exists|i: int| match_at(s, p, i)
}

/// The first position at or after `i` where `p` occurs in `s`, if any.
pub open spec fn first_match(s: Seq<char>, p: Seq<char>, i: int) -> Option<int>
    decreases s.len() - i,
    via first_match_decreases
{
    if i < 0 || i + p.len() > s.len() {
        None
    } else if s.subrange(i, i + p.len() as int) == p {
        Some(i)
    } else {
        first_match(s, p, i + 1)
    }
}

#[via_fn]
proof fn first_match_decreases(s: Seq<char>, p: Seq<char>, i: int) {
    if 0 <= i && i + p.len() <= s.len() && p.len() == 0 {
        lemma_empty_pattern_matches(s, p, i);
    }
}

/// An empty pattern matches wherever it fits, so the recursion in
/// `first_match` only happens for non-empty patterns.
proof fn lemma_empty_pattern_matches(s: Seq<char>, p: Seq<char>, i: int)
    requires
        p.len() == 0,
        0 <= i <= s.len(),
    ensures
        s.subrange(i, i + p.len() as int) == p,
{
    assert(s.subrange(i, i) =~= p);
}

pub proof fn lemma_first_match_some(s: Seq<char>, p: Seq<char>, i: int, m: int)
    requires
        0 <= i,
        first_match(s, p, i) == Some(m),
    ensures
        i <= m,
        match_at(s, p, m),
        forall|j: int| i <= j < m ==> !match_at(s, p, j),
    decreases s.len() - i,
{
    if i + p.len() <= s.len() && p.len() == 0 {
        lemma_empty_pattern_matches(s, p, i);
    }
    if i + p.len() <= s.len() && s.subrange(i, i + p.len() as int) != p {
        lemma_first_match_some(s, p, i + 1, m);
    }
}

proof fn lemma_first_match_none(s: Seq<char>, p: Seq<char>, i: int)
    requires
        0 <= i,
        first_match(s, p, i) is None,
    ensures
        forall|j: int| i <= j ==> !match_at(s, p, j),
    decreases s.len() - i,
{
    if i + p.len() <= s.len() {
        if p.len() == 0 {
            lemma_empty_pattern_matches(s, p, i);
        }
        lemma_first_match_none(s, p, i + 1);
    }
}

/// Find the first occurrence of `p` in `s` at or after `from`.
pub fn find_sub(s: &str, p: &str, from: usize) -> (r: Option<usize>)
    ensures
        match r {
            Some(m) => first_match(s@, p@, from as int) == Some(m as int),
            None => first_match(s@, p@, from as int) is None,
        },
{
    let n: usize = s.unicode_len();
    let plen: usize = p.unicode_len();
    if plen > n || from > n - plen {
        proof {
            lemma_first_match_early_none(s@, p@, from as int);
        }
        return None;
    }
    let mut i: usize = from;
    while i <= n - plen
        invariant
            from <= i,
            plen <= n,
            i <= n - plen + 1,
            n == s@.len(),
            plen == p@.len(),
            first_match(s@, p@, from as int) == first_match(s@, p@, i as int),
        decreases n - i,
    {
        let mut k: usize = 0;
        while k < plen && s.get_char(i + k) == p.get_char(k)
            invariant
                0 <= k <= plen,
                plen <= n,
                i <= n - plen,
                n == s@.len(),
                plen == p@.len(),
                forall|q: int| 0 <= q < k ==> s@[i + q] == p@[q],
            decreases plen - k,
        {
            k = k + 1;
        }
        if k == plen {
            proof {
                assert(s@.subrange(i as int, i + plen) =~= p@);
            }
            return Some(i);
        }
        proof {
            // mismatch at offset k refutes a match at i
            assert(s@.subrange(i as int, i + plen)[k as int] != p@[k as int]);
            assert(first_match(s@, p@, i as int) == first_match(s@, p@, i + 1));
        }
        i = i + 1;
    }
    None
}

/// Past `s.len() - p.len()` no match can start.
proof fn lemma_first_match_early_none(s: Seq<char>, p: Seq<char>, i: int)
    requires
        i + p.len() > s.len() || i < 0,
    ensures
        first_match(s, p, i) is None,
{
}

/// What `str::contains` computes.
pub fn contains_str(s: &str, p: &str) -> (r: bool)
    ensures
        r == has_sub(s@, p@),
{
    match find_sub(s, p, 0) {
        Some(m) => {
            proof {
                lemma_first_match_some(s@, p@, 0, m as int);
            }
            true
        },
        None => {
            proof {
                lemma_first_match_none(s@, p@, 0);
            }
            false
        },
    }
}

/// What `str::replace` returns: every occurrence of `p` from position `t`
/// on replaced with `r`, scanning left to right without overlap.
pub open spec fn replaced_from(s: Seq<char>, p: Seq<char>, r: Seq<char>, t: int) -> Seq<char>
    decreases s.len() - t,
    when p.len() >= 1 && 0 <= t <= s.len()
    via replaced_from_decreases
{
    match first_match(s, p, t) {
        None => s.subrange(t, s.len() as int),
        Some(m) => s.subrange(t, m) + r + replaced_from(s, p, r, m + p.len() as int),
    }
}

#[via_fn]
proof fn replaced_from_decreases(s: Seq<char>, p: Seq<char>, r: Seq<char>, t: int) {
    if p.len() >= 1 && 0 <= t <= s.len() {
        if let Some(m) = first_match(s, p, t) {
            lemma_first_match_some(s, p, t, m);
        }
    }
}

/// Every occurrence of `p` in `s` replaced with `r`.
pub open spec fn replaced(s: Seq<char>, p: Seq<char>, r: Seq<char>) -> Seq<char> {
    replaced_from(s, p, r, 0)
}

/// What `str::replace` computes, for a non-empty pattern.
pub fn replace_all(s: &str, p: &str, sub: &str) -> (out: String)
    requires
        p@.len() >= 1,
    ensures
        out@ == replaced(s@, p@, sub@),
{
    let n: usize = s.unicode_len();
    let plen: usize = p.unicode_len();
    let mut out: String = String::new();
    let mut t: usize = 0;
    let mut m_opt: Option<usize> = find_sub(s, p, t);
    while m_opt.is_some()
        invariant
            0 <= t <= n,
            n == s@.len(),
            plen == p@.len(),
            plen >= 1,
            match m_opt {
                Some(m) => first_match(s@, p@, t as int) == Some(m as int),
                None => first_match(s@, p@, t as int) is None,
            },
            replaced(s@, p@, sub@) == out@ + replaced_from(s@, p@, sub@, t as int),
        decreases n - t,
    {
        let m: usize = m_opt.unwrap();
        proof {
            lemma_first_match_some(s@, p@, t as int, m as int);
        }
        out.append(s.substring_char(t, m));
        out.append(sub);
        t = m + plen;
        m_opt = find_sub(s, p, t);
    }
    proof {
        assert(replaced_from(s@, p@, sub@, t as int) == s@.subrange(t as int, n as int));
    }
    out.append(s.substring_char(t, n));
    out
}

/// Index of the first occurrence of `c` at or after `i`, or the length
/// of `s` when there is none.
pub open spec fn char_find(s: Seq<char>, c: char, i: int) -> int
    decreases s.len() - i,
{
    if i < 0 || i >= s.len() {
        s.len() as int
    } else if s[i] == c {
        i
    } else {
        char_find(s, c, i + 1)
    }
}

proof fn lemma_char_find_bounds(s: Seq<char>, c: char, i: int)
    requires
        0 <= i <= s.len(),
    ensures
        i <= char_find(s, c, i) <= s.len(),
        forall|k: int| i <= k < char_find(s, c, i) ==> s[k] != c,
        char_find(s, c, i) < s.len() ==> s[char_find(s, c, i)] == c,
    decreases s.len() - i,
{
    if i < s.len() && s[i] != c {
        lemma_char_find_bounds(s, c, i + 1);
    }
}

/// A span free of `c` closed off by `c` or the end pins `char_find`.
proof fn lemma_char_find_interval(s: Seq<char>, c: char, i: int, j: int)
    requires
        0 <= i <= j <= s.len(),
        forall|k: int| i <= k < j ==> s[k] != c,
        j == s.len() || s[j] == c,
    ensures
        char_find(s, c, i) == j,
    decreases j - i,
{
    if i < j {
        lemma_char_find_interval(s, c, i + 1, j);
    }
}

/// The parts of `s` from position `i` on, split at every `sep`, empty
/// parts kept, as `str::split` yields them.
pub open spec fn split_parts(s: Seq<char>, sep: char, i: int) -> Seq<Seq<char>>
    decreases s.len() - i,
    when 0 <= i <= s.len()
    via split_parts_decreases
{
    let m = char_find(s, sep, i);
    if m >= s.len() {
        seq![s.subrange(i, s.len() as int)]
    } else {
        seq![s.subrange(i, m)] + split_parts(s, sep, m + 1)
    }
}

#[via_fn]
proof fn split_parts_decreases(s: Seq<char>, sep: char, i: int) {
    if 0 <= i <= s.len() {
        lemma_char_find_bounds(s, sep, i);
    }
}

/// Executable split at a separator character, mirroring `str::split`.
pub fn split_char(s: &str, sep: char) -> (r: Vec<String>)
    ensures
        seq_views(r@) == split_parts(s@, sep, 0),
{
    let n: usize = s.unicode_len();
    let mut out: Vec<String> = Vec::new();
    let mut i: usize = 0;
    let mut finished: bool = false;
    while !finished
        invariant
            0 <= i <= n,
            n == s@.len(),
            !finished ==> split_parts(s@, sep, 0) == seq_views(out@) + split_parts(
                s@,
                sep,
                i as int,
            ),
            finished ==> split_parts(s@, sep, 0) == seq_views(out@),
        decreases n - i + (if finished {
            0int
        } else {
            1int
        }),
    {
        let mut j: usize = i;
        while j < n && s.get_char(j) != sep
            invariant
                i <= j <= n,
                n == s@.len(),
                forall|k: int| i <= k < j ==> s@[k] != sep,
            decreases n - j,
        {
            j = j + 1;
        }
        proof {
            lemma_char_find_interval(s@, sep, i as int, j as int);
        }
        let part: String = s.substring_char(i, j).to_owned();
        proof {
            lemma_seq_views_push(out@, part);
            if j < n {
                assert(seq_views(out@.push(part)) + split_parts(s@, sep, j + 1) =~= seq_views(
                    out@,
                ) + split_parts(s@, sep, i as int));
            } else {
                assert(seq_views(out@.push(part)) =~= seq_views(out@) + split_parts(
                    s@,
                    sep,
                    i as int,
                ));
            }
        }
        out.push(part);
        if j < n {
            i = j + 1;
        } else {
            finished = true;
        }
    }
    out
}

/// `s` begins with the prefix `p`.
pub open spec fn begins_with(s: Seq<char>, p: Seq<char>) -> bool {
    s.len() >= p.len() && s.subrange(0, p.len() as int) == p
}

/// What `str::starts_with` computes for a string prefix.
pub fn starts_with_str(s: &str, p: &str) -> (r: bool)
    ensures
        r == begins_with(s@, p@),
{
    let n: usize = s.unicode_len();
    let plen: usize = p.unicode_len();
    if plen > n {
        return false;
    }
    let mut k: usize = 0;
    while k < plen && s.get_char(k) == p.get_char(k)
        invariant
            0 <= k <= plen,
            plen <= n,
            n == s@.len(),
            plen == p@.len(),
            forall|q: int| 0 <= q < k ==> s@[q] == p@[q],
        decreases plen - k,
    {
        k = k + 1;
    }
    if k == plen {
        proof {
            assert(s@.subrange(0, plen as int) =~= p@);
        }
        true
    } else {
        proof {
            assert(s@.subrange(0, plen as int)[k as int] != p@[k as int]);
        }
        false
    }
}

/// The decimal digit character for `d`.
pub open spec fn digit_char(d: int) -> char {
    if d == 0 {
        '0'
    } else if d == 1 {
        '1'
    } else if d == 2 {
        '2'
    } else if d == 3 {
        '3'
    } else if d == 4 {
        '4'
    } else if d == 5 {
        '5'
    } else if d == 6 {
        '6'
    } else if d == 7 {
        '7'
    } else if d == 8 {
        '8'
    } else {
        '9'
    }
}

/// The decimal digits of a non-negative number, most significant first.
pub open spec fn dec_digits(n: int) -> Seq<char>
    decreases n,
{
    if n < 10 {
        seq![digit_char(n)]
    } else {
        dec_digits(n / 10) + seq![digit_char(n % 10)]
    }
}

/// A single decimal digit as a string.
fn digit_str(d: u64) -> (r: String)
    requires
        d < 10,
    ensures
        r@ == seq![digit_char(d as int)],
{
    let s: &str = if d == 0 {
        "0"
    } else if d == 1 {
        "1"
    } else if d == 2 {
        "2"
    } else if d == 3 {
        "3"
    } else if d == 4 {
        "4"
    } else if d == 5 {
        "5"
    } else if d == 6 {
        "6"
    } else if d == 7 {
        "7"
    } else if d == 8 {
        "8"
    } else {
        "9"
    };
    proof {
        reveal_strlit("0");
        reveal_strlit("1");
        reveal_strlit("2");
        reveal_strlit("3");
        reveal_strlit("4");
        reveal_strlit("5");
        reveal_strlit("6");
        reveal_strlit("7");
        reveal_strlit("8");
        reveal_strlit("9");
        assert(s@ =~= seq![digit_char(d as int)]);
    }
    String::from_str(s)
}

/// Decimal rendering of a `u64`, as `u64`'s `Display` writes it.
pub fn u64_to_dec(n: u64) -> (r: String)
    ensures
        r@ == dec_digits(n as int),
    decreases n,
{
    if n < 10 {
        digit_str(n)
    } else {
        let r: String = u64_to_dec(n / 10);
        let d: String = digit_str(n % 10);
        r.concat(d.as_str())
    }
}

/// A decimal digit character.
pub open spec fn is_dec_digit(c: char) -> bool {
    '0' <= c && c <= '9'
}

/// The numeric value of a decimal digit character.
pub open spec fn digit_val(c: char) -> int {
    c as u32 - '0' as u32
}

/// The value of a sequence of decimal digit characters.
pub open spec fn dec_value(s: Seq<char>) -> int
    decreases s.len(),
{
    if s.len() == 0 {
        0
    } else {
        dec_value(s.drop_last()) * 10 + digit_val(s.last())
    }
}

/// The digit portion of a number literal: everything after an optional
/// leading `+` sign.
pub open spec fn parse_digits(s: Seq<char>) -> Seq<char> {
    if s.len() > 0 && s[0] == '+' {
        s.subrange(1, s.len() as int)
    } else {
        s
    }
}

/// What `str::parse::<u64>` accepts: an optional `+` sign, then one or
/// more decimal digits whose value fits in a `u64`.
pub open spec fn parse_u64_spec(s: Seq<char>) -> Option<u64> {
    let digits = parse_digits(s);
    if digits.len() == 0 || exists|k: int| 0 <= k < digits.len() && !is_dec_digit(digits[k]) {
        None
    } else if dec_value(digits) > u64::MAX {
        None
    } else {
        Some(dec_value(digits) as u64)
    }
}

proof fn lemma_dec_value_nonneg(s: Seq<char>)
    requires
        forall|k: int| 0 <= k < s.len() ==> is_dec_digit(s[k]),
    ensures
        dec_value(s) >= 0,
    decreases s.len(),
{
    if s.len() > 0 {
        lemma_dec_value_nonneg(s.drop_last());
    }
}

/// Extending a digit string on the right never shrinks its value.
proof fn lemma_dec_value_extend(s: Seq<char>, m: int)
    requires
        0 <= m <= s.len(),
        forall|k: int| 0 <= k < s.len() ==> is_dec_digit(s[k]),
    ensures
        dec_value(s.subrange(0, m)) <= dec_value(s),
    decreases s.len() - m,
{
    if m < s.len() {
        let t = s.subrange(0, m + 1);
        assert(t.drop_last() =~= s.subrange(0, m));
        assert(forall|k: int| 0 <= k < t.len() ==> is_dec_digit(t[k]));
        lemma_dec_value_nonneg(s.subrange(0, m));
        assert(dec_value(s.subrange(0, m)) <= dec_value(t));
        lemma_dec_value_extend(s, m + 1);
    } else {
        assert(s.subrange(0, m) =~= s);
    }
}

/// What `str::parse::<u64>` computes.
pub fn parse_u64(s: &str) -> (r: Option<u64>)
    ensures
        r == parse_u64_spec(s@),
{
    let n: usize = s.unicode_len();
    let start: usize = if n > 0 && s.get_char(0) == '+' {
        1
    } else {
        0
    };
    let ghost digits = parse_digits(s@);
    proof {
        if start == 0 {
            assert(digits =~= s@.subrange(start as int, n as int));
        }
    }
    if start == n {
        return None;
    }
    let mut acc: u64 = 0;
    let mut i: usize = start;
    while i < n
        invariant
            start <= i <= n,
            n == s@.len(),
            digits == parse_digits(s@),
            digits == s@.subrange(start as int, n as int),
            forall|k: int| 0 <= k < i - start ==> is_dec_digit(digits[k]),
            acc as int == dec_value(digits.subrange(0, i - start)),
        decreases n - i,
    {
        let c: char = s.get_char(i);
        if !('0' <= c && c <= '9') {
            proof {
                assert(digits[i - start] == c);
                assert(!is_dec_digit(digits[i - start]));
            }
            return None;
        }
        let d: u64 = (c as u32 - 48) as u64;
        proof {
            assert('0' as u32 == 48);
            assert(d == digit_val(c));
            assert(digits.subrange(0, i - start + 1).drop_last() =~= digits.subrange(
                0,
                i - start,
            ));
            assert(digits.subrange(0, i - start + 1).last() == c);
        }
        if acc > u64::MAX / 10 || (acc == u64::MAX / 10 && d > u64::MAX % 10) {
            proof {
                assert(dec_value(digits.subrange(0, i - start + 1)) > u64::MAX);
                if forall|k: int| 0 <= k < digits.len() ==> is_dec_digit(#[trigger] digits[k]) {
                    lemma_dec_value_extend(digits, i - start + 1);
                    assert(dec_value(digits) > u64::MAX);
                }
            }
            return None;
        }
        acc = acc * 10 + d;
        i = i + 1;
    }
    proof {
        assert(digits.subrange(0, n - start) =~= digits);
    }
    Some(acc)
}

} // verus!
