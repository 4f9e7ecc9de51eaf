//! URL scheme normalization: infer `http://` or `https://` for bare
//! host names, using the trailing numeric-port heuristic.
use crate::text::{begins_with, starts_with_str, trim_ws, trimmed};
use vstd::prelude::*;

verus! {

/// Whether `char::is_numeric` holds of `c`: the Unicode numeric-category
/// table, which no short specification can restate.
pub uninterp spec fn char_numeric(c: char) -> bool;

/// Relies on char::is_numeric: a pure character-table lookup; the decimal
/// digits are documented to be numeric.
#[verifier::external_body]
fn is_numeric_char(c: char) -> (r: bool)
    ensures
        r == char_numeric(c),
        '0' <= c && c <= '9' ==> r,
{
    c.is_numeric()
}

/// Index of the last `:` strictly before `j`, or -1 when there is none.
pub open spec fn last_colon(s: Seq<char>, j: int) -> int
    decreases j,
{
    if j <= 0 || j > s.len() {
        -1
    } else if s[j - 1] == ':' {
        j - 1
    } else {
        last_colon(s, j - 1)
    }
}

/// Every character is numeric.
pub open spec fn all_numeric(p: Seq<char>) -> bool {
    forall|k: int| 0 <= k < p.len() ==> char_numeric(p[k])
}

/// The normalized form of a URL: trimmed, and given a scheme when it has
/// none. A trailing all-numeric suffix after the last `:` is read as a
/// port; port 80 selects `http://`, everything else `https://`.
pub open spec fn normalized(s: Seq<char>) -> Seq<char> {
    let t = trimmed(s);
    if begins_with(t, "http://"@) || begins_with(t, "https://"@) {
        t
    } else {
        let c = last_colon(t, t.len() as int);
        let p = t.subrange(c + 1, t.len() as int);
        if c >= 0 && p.len() > 0 && all_numeric(p) {
            if p == "80"@ {
                "http://"@ + t
            } else {
                "https://"@ + t
            }
        } else {
            "https://"@ + t
        }
    }
}

/// For every URL already prefixed with `http://` or `https://`,
/// normalization is the identity after trimming.
pub proof fn lemma_prefixed_url_is_identity(s: Seq<char>)
    requires
        begins_with(trimmed(s), "http://"@) || begins_with(trimmed(s), "https://"@),
    ensures
        normalized(s) == trimmed(s),
{
}

/// Normalize a URL by adding the appropriate scheme if missing.
pub fn normalize_url_scheme(url_str: &str) -> (r: String)
    ensures
        r@ == normalized(url_str@),
{
    let t: &str = trim_ws(url_str);
    if starts_with_str(t, "http://") || starts_with_str(t, "https://") {
        return t.to_owned();
    }
    let n: usize = t.unicode_len();
    let mut j: usize = n;
    while j > 0 && t.get_char(j - 1) != ':'
        invariant
            0 <= j <= n,
            n == t@.len(),
            last_colon(t@, n as int) == last_colon(t@, j as int),
        decreases j,
    {
        j = j - 1;
    }
    // here last_colon(t, n) == j - 1 if j > 0, else -1
    if j > 0 && j < n {
        let mut k: usize = j;
        let mut numeric: bool = true;
        while k < n && numeric
            invariant
                j <= k <= n,
                n == t@.len(),
                numeric ==> forall|q: int| j <= q < k ==> char_numeric(t@[q]),
                !numeric ==> exists|q: int| j <= q < n && !char_numeric(t@[q]),
            decreases n - k,
        {
            if !is_numeric_char(t.get_char(k)) {
                numeric = false;
            }
            k = k + 1;
        }
        if numeric {
            proof {
                assert(forall|q: int| 0 <= q < n - j ==> char_numeric(
                    #[trigger] t@.subrange(j as int, n as int)[q],
                ));
            }
            if n - j == 2 && t.get_char(j) == '8' && t.get_char(j + 1) == '0' {
                proof {
                    reveal_strlit("80");
                    assert(t@.subrange(j as int, n as int) =~= "80"@);
                }
                return String::from_str("http://").concat(t);
            }
            proof {
                reveal_strlit("80");
                assert(t@.subrange(j as int, n as int) != "80"@) by {
                    if t@.subrange(j as int, n as int) == "80"@ {
                        assert(t@.subrange(j as int, n as int).len() == 2);
                        assert(t@.subrange(j as int, n as int)[0] == '8');
                        assert(t@.subrange(j as int, n as int)[1] == '0');
                    }
                }
            }
            return String::from_str("https://").concat(t);
        } else {
            proof {
                lemma_not_all_numeric(t@, j as int, n as int);
            }
        }
    }
    String::from_str("https://").concat(t)
}

/// A non-numeric character in the suffix refutes `all_numeric` of it.
proof fn lemma_not_all_numeric(t: Seq<char>, j: int, n: int)
    requires
        0 <= j <= n,
        n == t.len(),
        exists|q: int| j <= q < n && !char_numeric(t[q]),
    ensures
        !all_numeric(t.subrange(j, n)),
{
    let q = choose|q: int| j <= q < n && !char_numeric(t[q]);
    assert(t.subrange(j, n)[q - j] == t[q]);
}

} // verus!
