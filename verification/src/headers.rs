//! Header-line parsing: each "Key: Value" string becomes a name/value
//! pair, keeping only the well-formed ones. The pairs preserve the
//! input order; when they are later loaded into a header map, a later
//! entry for the same name overrides an earlier one.
use crate::text::{find_sub, first_match, seq_views, trim_ws, trimmed};
use vstd::prelude::*;

verus! {

/// Whether `reqwest::header::HeaderName::from_bytes` accepts the text
/// as a header name. Validity depends on the characters alone.
pub uninterp spec fn header_name_ok(s: Seq<char>) -> bool;

/// Whether `reqwest::header::HeaderValue::from_str` accepts the text as
/// a header value. Validity depends on the characters alone.
pub uninterp spec fn header_value_ok(s: Seq<char>) -> bool;

/// Relies on reqwest::header::HeaderName::from_bytes for header-name
/// validity.
#[verifier::external_body]
fn valid_header_name(s: &str) -> (r: bool)
    ensures
        r == header_name_ok(s@),
{
    match reqwest::header::HeaderName::from_bytes(s.as_bytes()) {
        Ok(_) => true,
        Err(_) => false,
    }
}

/// Relies on reqwest::header::HeaderValue::from_str for header-value
/// validity.
#[verifier::external_body]
fn valid_header_value(s: &str) -> (r: bool)
    ensures
        r == header_value_ok(s@),
{
    match reqwest::header::HeaderValue::from_str(s) {
        Ok(_) => true,
        Err(_) => false,
    }
}

/// What one header line yields: split at the first ": ", trim the
/// value, and keep the pair when name and value are both valid.
pub open spec fn parsed_header(line: Seq<char>) -> Option<(Seq<char>, Seq<char>)> {
    match first_match(line, ": "@, 0) {
        None => None,
        Some(m) => {
            let key = line.subrange(0, m);
            let val = trimmed(line.subrange(m + 2, line.len() as int));
            if header_name_ok(key) && header_value_ok(val) {
                Some((key, val))
            } else {
                None
            }
        },
    }
}

/// How one header line parses: a valid pair, or which way it is
/// invalid. The invalid cases carry what the warning names.
#[derive(Debug, Clone, PartialEq, Eq)]
pub enum HeaderLine {
    /// A valid "Key: Value" pair, value trimmed.
    Pair(String, String),
    /// No ": " separator at all.
    BadFormat,
    /// The name before the separator is not a valid header name.
    BadName(String),
    /// The value after the separator is not a valid header value.
    BadValue(String),
}

/// Classify one header line, as the pair parser sees it: the name is
/// checked before the value.
pub fn parse_header_line(line: &str) -> (r: HeaderLine)
    ensures
        match first_match(line@, ": "@, 0) {
            None => r == HeaderLine::BadFormat,
            Some(m) => {
                let key = line@.subrange(0, m);
                let val = trimmed(line@.subrange(m + 2, line@.len() as int));
                if !header_name_ok(key) {
                    r matches HeaderLine::BadName(k) && k@ == key
                } else if !header_value_ok(val) {
                    r matches HeaderLine::BadValue(k) && k@ == key
                } else {
                    r matches HeaderLine::Pair(k, v) && k@ == key && v@ == val
                }
            },
        },
{
    match find_sub(line, ": ", 0) {
        None => HeaderLine::BadFormat,
        Some(m) => {
            proof {
                crate::text::lemma_first_match_some(line@, ": "@, 0, m as int);
                reveal_strlit(": ");
            }
            let n: usize = line.unicode_len();
            let key: String = line.substring_char(0, m).to_owned();
            let val: String = trim_ws(line.substring_char(m + 2, n)).to_owned();
            if !valid_header_name(key.as_str()) {
                HeaderLine::BadName(key)
            } else if !valid_header_value(val.as_str()) {
                HeaderLine::BadValue(key)
            } else {
                HeaderLine::Pair(key, val)
            }
        },
    }
}

/// The pairs that a list of header lines yields, in order, invalid
/// lines dropped.
pub open spec fn parsed_headers(lines: Seq<Seq<char>>, i: int) -> Seq<(Seq<char>, Seq<char>)>
    decreases lines.len() - i,
{
    if i < 0 || i >= lines.len() {
        Seq::empty()
    } else {
        match parsed_header(lines[i]) {
            Some(kv) => seq![kv] + parsed_headers(lines, i + 1),
            None => parsed_headers(lines, i + 1),
        }
    }
}

/// The views of a sequence of string pairs.
pub open spec fn pair_views(ps: Seq<(String, String)>) -> Seq<(Seq<char>, Seq<char>)> {
    ps.map_values(|p: (String, String)| (p.0@, p.1@))
}

/// Parse header strings of the form "Key: Value" into name/value pairs,
/// dropping malformed or invalid ones.
pub fn parse_headers(headers: &[String]) -> (r: Vec<(String, String)>)
    ensures
        pair_views(r@) == parsed_headers(seq_views(headers@), 0),
{
    let ghost lines = seq_views(headers@);
    let mut out: Vec<(String, String)> = Vec::new();
    let mut i: usize = 0;
    while i < headers.len()
        invariant
            0 <= i <= headers@.len(),
            lines == seq_views(headers@),
            parsed_headers(lines, 0) == pair_views(out@) + parsed_headers(lines, i as int),
        decreases headers@.len() - i,
    {
        let line: &String = &headers[i];
        proof {
            assert(lines[i as int] == headers@[i as int]@);
        }
        let ghost out0 = out@;
        match parse_header_line(line.as_str()) {
            HeaderLine::Pair(key, val) => {
                out.push((key, val));
                proof {
                    assert(pair_views(out@) =~= pair_views(out0).push(
                        (parsed_header(lines[i as int])->Some_0),
                    ));
                    assert(pair_views(out@) + parsed_headers(lines, i + 1) =~= pair_views(out0)
                        + parsed_headers(lines, i as int));
                }
            },
            _ => {
                proof {
                    assert(parsed_header(lines[i as int]) is None);
                    assert(parsed_headers(lines, i as int) == parsed_headers(lines, i + 1));
                }
            },
        }
        i = i + 1;
    }
    proof {
        assert(pair_views(out@) + parsed_headers(lines, i as int) =~= pair_views(out@));
    }
    out
}

} // verus!
