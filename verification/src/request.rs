//! Request-line parsing: one input line becomes a method, a URL and an
//! optional body. Also the raw-request preview a unit of work may
//! render for display.
use crate::headers::pair_views;
use crate::text::{join_from, joined_from, opt_chars, seq_views, split_ws, tokens};
use vstd::prelude::*;

verus! {

/// The seven request verbs the parser recognizes.
pub open spec fn is_http_verb(s: Seq<char>) -> bool {
    s == "GET"@ || s == "POST"@ || s == "PUT"@ || s == "DELETE"@ || s == "HEAD"@ || s == "PATCH"@
        || s == "OPTIONS"@
}

/// Whether `str::to_uppercase` maps `s` to an uppercase form: the full
/// Unicode uppercasing tables, which no short specification can restate.
pub uninterp spec fn upper_of(s: Seq<char>) -> Seq<char>;

/// Relies on str::to_uppercase: the result depends on the characters
/// alone.
#[verifier::external_body]
fn to_upper(s: &str) -> (r: String)
    ensures
        r@ == upper_of(s@),
{
    s.to_uppercase()
}

/// Whether the (already uppercased) token is a recognized verb.
fn is_verb_string(up: &String) -> (r: bool)
    ensures
        r == is_http_verb(up@),
{
    *up == String::from_str("GET") || *up == String::from_str("POST") || *up == String::from_str(
        "PUT",
    ) || *up == String::from_str("DELETE") || *up == String::from_str("HEAD") || *up
        == String::from_str("PATCH") || *up == String::from_str("OPTIONS")
}

/// What parsing one line yields: the method, the URL, and the optional
/// body. A line whose first token uppercases to a recognized verb and
/// which has a second token gives that verb, the second token as URL,
/// and the remaining tokens rejoined with single spaces as the body.
/// Every other non-empty line is a URL for a GET; an empty line gives an
/// empty URL, which callers treat as "skip".
pub open spec fn parsed_line(line: Seq<char>) -> (Seq<char>, Seq<char>, Option<Seq<char>>) {
    let ts = tokens(line);
    if ts.len() == 0 {
        ("GET"@, Seq::empty(), None)
    } else if ts.len() > 1 && is_http_verb(upper_of(ts[0])) {
        (upper_of(ts[0]), ts[1], if ts.len() > 2 {
            Some(joined_from(ts, " "@, 2))
        } else {
            None
        })
    } else {
        ("GET"@, line, None)
    }
}

/// Parse a request line to extract method, URL, and optional body.
pub fn parse_request_line(line: &str) -> (r: (String, String, Option<String>))
    ensures
        r.0@ == parsed_line(line@).0,
        r.1@ == parsed_line(line@).1,
        match r.2 {
            Some(b) => parsed_line(line@).2 == Some(b@),
            None => parsed_line(line@).2 is None,
        },
{
    let parts: Vec<String> = split_ws(line);
    proof {
        assert(seq_views(parts@).len() == parts@.len());
    }
    if parts.len() == 0 {
        return (String::from_str("GET"), String::new(), None);
    }
    if parts.len() > 1 {
        proof {
            assert(seq_views(parts@)[0] == parts@[0]@);
            assert(seq_views(parts@)[1] == parts@[1]@);
        }
        let up: String = to_upper(parts[0].as_str());
        if is_verb_string(&up) {
            let url: String = parts[1].clone();
            let body: Option<String> = if parts.len() > 2 {
                Some(join_from(&parts, " ", 2))
            } else {
                None
            };
            return (up, url, body);
        }
    }
    (String::from_str("GET"), line.to_owned(), None)
}

/// For every input line which has only one token, or whose first token
/// does not uppercase to a recognized verb, parsing yields method GET,
/// the whole line as the URL, and no body.
pub proof fn lemma_unrecognized_line_is_get(line: Seq<char>)
    requires
        tokens(line).len() == 1 || (tokens(line).len() >= 1 && !is_http_verb(
            upper_of(tokens(line)[0]),
        )),
    ensures
        parsed_line(line).0 == "GET"@,
        parsed_line(line).1 == line,
        parsed_line(line).2 is None,
{
}

/// The pieces of an outgoing request, as plain values, for the
/// raw-request preview. The headers are the request's own merged with
/// the per-call custom ones, in display order.
#[derive(Debug, Clone)]
pub struct RawRequestParts {
    pub method: String,
    pub path: String,
    pub query: Option<String>,
    pub host: String,
    pub headers: Vec<(String, String)>,
    pub body: Option<String>,
}

/// The header block: one "name: value" line per pair, in order.
pub open spec fn header_block(hs: Seq<(Seq<char>, Seq<char>)>, i: int) -> Seq<char>
    decreases hs.len() - i,
{
    if i < 0 || i >= hs.len() {
        Seq::empty()
    } else {
        hs[i].0 + ": "@ + hs[i].1 + "\n"@ + header_block(hs, i + 1)
    }
}

/// The path with its query appended, when there is one.
pub open spec fn path_query(path: Seq<char>, query: Option<Seq<char>>) -> Seq<char> {
    match query {
        Some(q) => path + "?"@ + q,
        None => path,
    }
}

/// The whole preview: request line, Host line, header block, and the
/// body after a blank line when it is non-empty.
pub open spec fn raw_request_text(p: RawRequestParts, http2: bool) -> Seq<char> {
    p.method@ + " "@ + path_query(p.path@, opt_chars(p.query)) + " "@ + (if http2 {
        "HTTP/2.0"@
    } else {
        "HTTP/1.1"@
    }) + "\n"@ + "Host: "@ + p.host@ + "\n"@ + header_block(pair_views(p.headers@), 0) + (
    match p.body {
        Some(b) => if b@.len() > 0 {
            "\n"@ + b@
        } else {
            Seq::<char>::empty()
        },
        None => Seq::<char>::empty(),
    })
}

/// Format a raw HTTP request preview for display.
pub fn format_raw_request(parts: &RawRequestParts, http2: bool) -> (r: String)
    ensures
        r@ == raw_request_text(*parts, http2),
{
    let ghost hv = pair_views(parts.headers@);
    let mut out: String = String::new();
    out.append(parts.method.as_str());
    out.append(" ");
    match &parts.query {
        Some(q) => {
            out.append(parts.path.as_str());
            out.append("?");
            out.append(q.as_str());
        },
        None => out.append(parts.path.as_str()),
    }
    out.append(" ");
    if http2 {
        out.append("HTTP/2.0");
    } else {
        out.append("HTTP/1.1");
    }
    out.append("\n");
    out.append("Host: ");
    out.append(parts.host.as_str());
    out.append("\n");
    let ghost pre = out@;
    let mut i: usize = 0;
    while i < parts.headers.len()
        invariant
            0 <= i <= parts.headers@.len(),
            hv == pair_views(parts.headers@),
            out@ + header_block(hv, i as int) == pre + header_block(hv, 0),
        decreases parts.headers@.len() - i,
    {
        let ghost out0 = out@;
        proof {
            assert(hv[i as int] == (parts.headers@[i as int].0@, parts.headers@[i as int].1@));
        }
        out.append(parts.headers[i].0.as_str());
        out.append(": ");
        out.append(parts.headers[i].1.as_str());
        out.append("\n");
        proof {
            assert(out@ + header_block(hv, i + 1) =~= out0 + header_block(hv, i as int));
        }
        i = i + 1;
    }
    proof {
        assert(out@ =~= pre + header_block(hv, 0));
    }
    match &parts.body {
        Some(b) => {
            if b.as_str().unicode_len() > 0 {
                out.append("\n");
                out.append(b.as_str());
            }
        },
        None => (),
    }
    proof {
        assert(out@ =~= raw_request_text(*parts, http2));
    }
    out
}

} // verus!
