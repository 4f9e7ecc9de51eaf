//! The tool-invocation adapter's logic: resolving per-call parameter
//! overrides against the configured defaults, and building one
//! structured record per processed request.
use crate::filter::{
    filtered_out, opt_pattern, regex_compile_err, should_filter_response, FilterRegex,
};
use crate::jsonenc::{json_quote, json_quoted};
use crate::text::{dec_digits, opt_chars, seq_views, u64_to_dec};
use crate::types::Cli;
use vstd::prelude::*;

verus! {

/// The per-call overrides a tool invocation may carry, already read
/// out of its argument object as plain values.
#[derive(Debug, Clone)]
pub struct ToolOverrides {
    pub filter_status: Option<Vec<u64>>,
    pub filter_string: Option<String>,
    pub filter_regex: Option<String>,
    pub include_req: Option<bool>,
    pub include_res: Option<bool>,
    pub follow_redirect: Option<bool>,
    pub http2: Option<bool>,
    pub headers: Option<Vec<String>>,
}

/// The resolved parameter set one invocation runs with.
#[derive(Debug)]
pub struct ToolParameters {
    pub filter_status: Vec<u16>,
    pub filter_string: Option<String>,
    pub filter_regex: Option<FilterRegex>,
    pub include_req: bool,
    pub include_res: bool,
    pub follow_redirect: bool,
    pub http2: bool,
    pub custom_headers: Vec<String>,
}

/// A status filter entry is taken modulo 2^16, as the narrowing cast
/// takes it.
pub open spec fn status_views(ns: Seq<u64>) -> Seq<u16> {
    ns.map_values(|n: u64| (n % 0x10000) as u16)
}

/// Resolve the overrides against the configured defaults: filters and
/// output switches default off, the redirect and HTTP-version policies
/// default to the configuration. A bad regex rejects the whole
/// invocation with a structured error message.
pub fn extract_tool_parameters(overrides: &ToolOverrides, cli: &Cli) -> (r: Result<
    ToolParameters,
    String,
>)
    ensures
        match r {
            Ok(p) => {
                &&& p.filter_status@ == (match overrides.filter_status {
                    Some(v) => status_views(v@),
                    None => Seq::<u16>::empty(),
                })
                &&& opt_chars(p.filter_string) == opt_chars(overrides.filter_string)
                &&& (match overrides.filter_regex {
                    Some(pat) => regex_compile_err(pat@) is None && opt_pattern(p.filter_regex)
                        == Some(pat@),
                    None => p.filter_regex is None,
                })
                &&& p.include_req == (match overrides.include_req {
                    Some(b) => b,
                    None => false,
                })
                &&& p.include_res == (match overrides.include_res {
                    Some(b) => b,
                    None => false,
                })
                &&& p.follow_redirect == (match overrides.follow_redirect {
                    Some(b) => b,
                    None => cli.follow_redirect,
                })
                &&& p.http2 == (match overrides.http2 {
                    Some(b) => b,
                    None => cli.http2,
                })
                &&& seq_views(p.custom_headers@) == (match overrides.headers {
                    Some(h) => seq_views(h@),
                    None => Seq::<Seq<char>>::empty(),
                })
            },
            Err(e) => match overrides.filter_regex {
                Some(pat) => match regex_compile_err(pat@) {
                    Some(msg) => e@ == "Invalid regex provided for filter_regex: "@ + msg,
                    None => false,
                },
                None => false,
            },
        },
{
    let filter_status: Vec<u16> = match &overrides.filter_status {
        Some(v) => {
            let mut out: Vec<u16> = Vec::new();
            let mut i: usize = 0;
            while i < v.len()
                invariant
                    0 <= i <= v@.len(),
                    out@ =~= status_views(v@.take(i as int)),
                decreases v@.len() - i,
            {
                out.push((v[i] % 0x10000) as u16);
                proof {
                    assert(v@.take(i + 1).drop_last() =~= v@.take(i as int));
                    assert(out@ =~= status_views(v@.take(i + 1)));
                }
                i = i + 1;
            }
            proof {
                assert(v@.take(v@.len() as int) =~= v@);
            }
            out
        },
        None => Vec::new(),
    };
    let filter_regex: Option<FilterRegex> = match &overrides.filter_regex {
        Some(pat) => match FilterRegex::compile(pat.as_str()) {
            Ok(f) => Some(f),
            Err(e) => {
                let mut msg: String = String::from_str(
                    "Invalid regex provided for filter_regex: ",
                );
                msg.append(e.as_str());
                return Err(msg);
            },
        },
        None => None,
    };
    let filter_string: Option<String> = match &overrides.filter_string {
        Some(s) => Some(s.clone()),
        None => None,
    };
    let custom_headers: Vec<String> = match &overrides.headers {
        Some(h) => h.clone(),
        None => Vec::new(),
    };
    proof {
        if overrides.headers is Some {
            assert(seq_views(custom_headers@) =~= seq_views(overrides.headers->Some_0@));
        } else {
            assert(seq_views(custom_headers@) =~= Seq::<Seq<char>>::empty());
        }
    }
    Ok(
        ToolParameters {
            filter_status,
            filter_string,
            filter_regex,
            include_req: match overrides.include_req {
                Some(b) => b,
                None => false,
            },
            include_res: match overrides.include_res {
                Some(b) => b,
                None => false,
            },
            follow_redirect: match overrides.follow_redirect {
                Some(b) => b,
                None => cli.follow_redirect,
            },
            http2: match overrides.http2 {
                Some(b) => b,
                None => cli.http2,
            },
            custom_headers,
        },
    )
}

/// Whether the adapter must fetch the response body: for body output
/// or for either body filter.
pub open spec fn tool_body_needed(p: ToolParameters) -> bool {
    p.include_res || p.filter_string is Some || p.filter_regex is Some
}

/// Decide whether to fetch the response body for a tool request.
pub fn tool_needs_body(params: &ToolParameters) -> (r: bool)
    ensures
        r == tool_body_needed(*params),
{
    params.include_res || params.filter_string.is_some() || params.filter_regex.is_some()
}

/// The structured record for one completed tool request: a compact
/// JSON object whose keys appear in sorted order; the address only
/// when one is known, the optional parts only when captured.
pub open spec fn tool_record(
    method: Seq<char>,
    url: Seq<char>,
    status: u16,
    size: u64,
    elapsed_ms: u64,
    ip_addr: Seq<char>,
    raw_request: Option<Seq<char>>,
    body: Option<Seq<char>>,
    include_res: bool,
) -> Seq<char> {
    "{\"content_length\":"@ + dec_digits(size as int) + (if ip_addr.len() > 0 {
        ",\"ip_address\":"@ + json_quoted(ip_addr)
    } else {
        Seq::<char>::empty()
    }) + ",\"method\":"@ + json_quoted(method) + (match raw_request {
        Some(rq) => ",\"raw_request\":"@ + json_quoted(rq),
        None => Seq::<char>::empty(),
    }) + (if include_res {
        match body {
            Some(b) => ",\"response_body\":"@ + json_quoted(b),
            None => Seq::<char>::empty(),
        }
    } else {
        Seq::<char>::empty()
    }) + ",\"response_time_ms\":"@ + dec_digits(elapsed_ms as int) + ",\"status_code\":"@
        + dec_digits(status as int) + ",\"url\":"@ + json_quoted(url) + "}"@
}

/// Build the record for a completed tool request, or nothing when the
/// filters suppress it.
pub fn build_tool_record(
    params: &ToolParameters,
    method: &str,
    url: &str,
    status: u16,
    size: u64,
    elapsed_ms: u64,
    ip_addr: &str,
    raw_request: &Option<String>,
    body_text: &Option<String>,
) -> (r: Option<String>)
    ensures
        ({
            let suppressed = filtered_out(
                status,
                opt_chars(*body_text),
                params.filter_status@,
                opt_chars(params.filter_string),
                opt_pattern(params.filter_regex),
            );
            match r {
                Some(s) => !suppressed && s@ == tool_record(
                    method@,
                    url@,
                    status,
                    size,
                    elapsed_ms,
                    ip_addr@,
                    opt_chars(*raw_request),
                    opt_chars(*body_text),
                    params.include_res,
                ),
                None => suppressed,
            }
        }),
{
    if should_filter_response(
        status,
        body_text,
        params.filter_status.as_slice(),
        &params.filter_string,
        &params.filter_regex,
    ) {
        return None;
    }
    let mut s: String = String::from_str("{\"content_length\":");
    s.append(u64_to_dec(size).as_str());
    if ip_addr.unicode_len() > 0 {
        s.append(",\"ip_address\":");
        s.append(json_quote(ip_addr).as_str());
    }
    s.append(",\"method\":");
    s.append(json_quote(method).as_str());
    if let Some(rq) = raw_request {
        s.append(",\"raw_request\":");
        s.append(json_quote(rq.as_str()).as_str());
    }
    if params.include_res {
        if let Some(b) = body_text {
            s.append(",\"response_body\":");
            s.append(json_quote(b.as_str()).as_str());
        }
    }
    s.append(",\"response_time_ms\":");
    s.append(u64_to_dec(elapsed_ms).as_str());
    s.append(",\"status_code\":");
    s.append(u64_to_dec(status as u64).as_str());
    s.append(",\"url\":");
    s.append(json_quote(url).as_str());
    s.append("}");
    proof {
        assert(s@ =~= tool_record(
            method@,
            url@,
            status,
            size,
            elapsed_ms,
            ip_addr@,
            opt_chars(*raw_request),
            opt_chars(*body_text),
            params.include_res,
        ));
    }
    Some(s)
}

/// The error record for a failed tool request.
pub open spec fn tool_error_record(method: Seq<char>, url: Seq<char>, error: Seq<char>) -> Seq<
    char,
> {
    "{\"error\":"@ + json_quoted(error) + ",\"method\":"@ + json_quoted(method) + ",\"url\":"@
        + json_quoted(url) + "}"@
}

/// Build the error record for a failed tool request.
pub fn build_tool_error(method: &str, url: &str, error_text: &str) -> (r: String)
    ensures
        r@ == tool_error_record(method@, url@, error_text@),
{
    let mut s: String = String::from_str("{\"error\":");
    s.append(json_quote(error_text).as_str());
    s.append(",\"method\":");
    s.append(json_quote(method).as_str());
    s.append(",\"url\":");
    s.append(json_quote(url).as_str());
    s.append("}");
    proof {
        assert(s@ =~= tool_error_record(method@, url@, error_text@));
    }
    s
}

} // verus!
