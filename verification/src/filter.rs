//! Response filtering: decide whether a completed response is eligible
//! for output, from its status code and optional body.
use crate::text::{has_sub, opt_chars};
use vstd::prelude::*;

verus! {

#[verifier::external_type_specification]
#[verifier::external_body]
pub struct ExRegex(regex::Regex);

/// The error text `regex::Regex::new` reports for a pattern, or `None`
/// when the pattern compiles. Compilation depends on the pattern alone.
pub uninterp spec fn regex_compile_err(pat: Seq<char>) -> Option<Seq<char>>;

/// Whether the regular expression denoted by `pat` matches somewhere in
/// `text`. The result depends on the pattern and the text alone.
pub uninterp spec fn regex_match(pat: Seq<char>, text: Seq<char>) -> bool;

/// A compiled body-filter regex, kept beside the pattern it was
/// compiled from so that contracts can speak of the pattern. The only
/// constructor is [`FilterRegex::compile`], which stores exactly the
/// pattern it compiled.
#[derive(Debug)]
pub struct FilterRegex {
    re: regex::Regex,
    pattern: String,
}

impl FilterRegex {
    /// The pattern this filter was compiled from.
    pub closed spec fn pattern_view(&self) -> Seq<char> {
        self.pattern@
    }

    /// Relies on regex::Regex::new: whether a pattern compiles, and the
    /// error it reports otherwise, depend on the pattern alone.
    #[verifier::external_body]
    pub fn compile(pat: &str) -> (r: Result<FilterRegex, String>)
        ensures
            match r {
                Ok(f) => regex_compile_err(pat@) is None && f.pattern_view() == pat@,
                Err(e) => regex_compile_err(pat@) == Some(e@),
            },
    {
        match regex::Regex::new(pat) {
            Ok(re) => Ok(FilterRegex { re, pattern: pat.to_string() }),
            Err(e) => Err(e.to_string()),
        }
    }

    /// Relies on regex::Regex::is_match: the result depends on the
    /// pattern and the text alone.
    #[verifier::external_body]
    pub fn is_match(&self, text: &str) -> (r: bool)
        ensures
            r == regex_match(self.pattern_view(), text@),
    {
        self.re.is_match(text)
    }
}

/// The pattern of an optional compiled filter.
pub open spec fn opt_pattern(o: Option<FilterRegex>) -> Option<Seq<char>> {
    match o {
        Some(f) => Some(f.pattern_view()),
        None => None,
    }
}

/// The filter decision: a record is suppressed when a status filter is
/// set and misses the status, or a substring or regex filter is set and
/// the body is absent or fails it. Each condition suppresses on its own.
pub open spec fn filtered_out(
    status: u16,
    body: Option<Seq<char>>,
    filter_status: Seq<u16>,
    filter_string: Option<Seq<char>>,
    filter_pattern: Option<Seq<char>>,
) -> bool {
    (filter_status.len() > 0 && !filter_status.contains(status)) || (match filter_string {
        Some(p) => match body {
            Some(b) => !has_sub(b, p),
            None => true,
        },
        None => false,
    }) || (match filter_pattern {
        Some(p) => match body {
            Some(b) => !regex_match(p, b),
            None => true,
        },
        None => false,
    })
}

/// Check if a response should be filtered out based on the criteria.
pub fn should_filter_response(
    status: u16,
    body: &Option<String>,
    filter_status: &[u16],
    filter_string: &Option<String>,
    filter_regex: &Option<FilterRegex>,
) -> (r: bool)
    ensures
        r == filtered_out(
            status,
            opt_chars(*body),
            filter_status@,
            opt_chars(*filter_string),
            opt_pattern(*filter_regex),
        ),
{
    if filter_status.len() > 0 {
        let mut found: bool = false;
        let mut i: usize = 0;
        while i < filter_status.len()
            invariant
                0 <= i <= filter_status@.len(),
                found ==> filter_status@.contains(status),
                !found ==> forall|k: int| 0 <= k < i ==> filter_status@[k] != status,
            decreases filter_status@.len() - i,
        {
            if filter_status[i] == status {
                found = true;
            }
            i = i + 1;
        }
        if !found {
            return true;
        }
    }
    if let Some(needle) = filter_string {
        match body {
            Some(b) => {
                if !crate::text::contains_str(b.as_str(), needle.as_str()) {
                    return true;
                }
            },
            None => {
                return true;
            },
        }
    }
    if let Some(re) = filter_regex {
        match body {
            Some(b) => {
                if !re.is_match(b.as_str()) {
                    return true;
                }
            },
            None => {
                return true;
            },
        }
    }
    false
}

} // verus!
