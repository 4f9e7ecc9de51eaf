//! The per-line processing pipeline: which lines become units of work,
//! what the completed response record looks like in each output
//! encoding, and the shared configuration decisions around it.
use crate::filter::{regex_compile_err, FilterRegex};
use crate::formatter::{
    colored_output_ok, filled_template, format_plain_output, plain_output, ResponseInfo,
};
use crate::jsonenc::{json_quote, json_quoted};
use crate::request::{parse_request_line, parsed_line};
use crate::text::{dec_digits, opt_chars, seq_views, trim_ws, trimmed, u64_to_dec};
use crate::types::{Cli, OutputFormat};
use crate::url::{normalize_url_scheme, normalized};
use vstd::prelude::*;

verus! {

/// One unit of work: the parsed request descriptor for a line.
#[derive(Debug, Clone)]
pub struct RequestDescriptor {
    pub method: String,
    pub url: String,
    pub body: Option<String>,
}

/// What one input line yields: nothing for a blank line or an empty
/// parsed URL; otherwise the parsed method and body, with the URL
/// normalized.
pub open spec fn prepared_line(line: Seq<char>) -> Option<
    (Seq<char>, Seq<char>, Option<Seq<char>>),
> {
    if trimmed(line).len() == 0 {
        None
    } else {
        let parsed = parsed_line(line);
        if parsed.1.len() == 0 {
            None
        } else {
            Some((parsed.0, normalized(parsed.1), parsed.2))
        }
    }
}

/// Turn one input line into a unit of work, or nothing when the line
/// is blank or parses to an empty URL.
pub fn prepare_request(line: &str) -> (r: Option<RequestDescriptor>)
    ensures
        match r {
            Some(d) => prepared_line(line@) == Some((d.method@, d.url@, opt_chars(d.body))),
            None => prepared_line(line@) is None,
        },
{
    let t: &str = trim_ws(line);
    if t.unicode_len() == 0 {
        return None;
    }
    let parsed: (String, String, Option<String>) = parse_request_line(line);
    if parsed.1.as_str().unicode_len() == 0 {
        return None;
    }
    let url: String = normalize_url_scheme(parsed.1.as_str());
    Some(RequestDescriptor { method: parsed.0, url, body: parsed.2 })
}

/// The views of a sequence of request descriptors.
pub open spec fn desc_views(ds: Seq<RequestDescriptor>) -> Seq<
    (Seq<char>, Seq<char>, Option<Seq<char>>),
> {
    ds.map_values(|d: RequestDescriptor| (d.method@, d.url@, opt_chars(d.body)))
}

/// The units of work a list of input lines yields, in order: one per
/// line that is neither blank nor an empty URL.
pub open spec fn planned_lines(lines: Seq<Seq<char>>, i: int) -> Seq<
    (Seq<char>, Seq<char>, Option<Seq<char>>),
>
    decreases lines.len() - i,
{
    if i < 0 || i >= lines.len() {
        Seq::empty()
    } else {
        match prepared_line(lines[i]) {
            Some(d) => seq![d] + planned_lines(lines, i + 1),
            None => planned_lines(lines, i + 1),
        }
    }
}

/// Turn the input lines into the units of work to spawn, skipping
/// blank lines and empty URLs.
pub fn plan_requests(lines: &Vec<String>) -> (r: Vec<RequestDescriptor>)
    ensures
        desc_views(r@) == planned_lines(seq_views(lines@), 0),
{
    let ghost lv = seq_views(lines@);
    let mut out: Vec<RequestDescriptor> = Vec::new();
    let mut i: usize = 0;
    while i < lines.len()
        invariant
            0 <= i <= lines@.len(),
            lv == seq_views(lines@),
            planned_lines(lv, 0) == desc_views(out@) + planned_lines(lv, i as int),
        decreases lines@.len() - i,
    {
        proof {
            assert(lv[i as int] == lines@[i as int]@);
        }
        let ghost out0 = out@;
        match prepare_request(lines[i].as_str()) {
            Some(d) => {
                out.push(d);
                proof {
                    assert(desc_views(out@) =~= desc_views(out0).push(
                        prepared_line(lv[i as int])->Some_0,
                    ));
                    assert(desc_views(out@) + planned_lines(lv, i + 1) =~= desc_views(out0)
                        + planned_lines(lv, i as int));
                }
            },
            None => {
                proof {
                    assert(planned_lines(lv, i as int) == planned_lines(lv, i + 1));
                }
            },
        }
        i = i + 1;
    }
    proof {
        assert(desc_views(out@) + planned_lines(lv, i as int) =~= desc_views(out@));
    }
    out
}

/// The bound on simultaneously executing units of work: none when the
/// configured concurrency is zero.
pub fn effective_concurrency(concurrency: usize) -> (r: Option<usize>)
    ensures
        concurrency == 0 ==> r is None,
        concurrency > 0 ==> r == Some(concurrency),
{
    if concurrency == 0 {
        None
    } else {
        Some(concurrency)
    }
}

/// Whether the response body must be fetched: it is needed for body
/// output, for either body filter, or for title extraction.
pub open spec fn body_needed(cli: Cli) -> bool {
    cli.include_res || cli.filter_string is Some || cli.filter_regex is Some || cli.include_title
}

/// Decide whether to fetch the response body.
pub fn needs_body(cli: &Cli) -> (r: bool)
    ensures
        r == body_needed(*cli),
{
    cli.include_res || cli.filter_string.is_some() || cli.filter_regex.is_some()
        || cli.include_title
}

/// Compile the configured body-filter regex. An invalid pattern
/// disables regex filtering; the second component is then the warning
/// to print on the diagnostic stream.
pub fn build_filter_regex(filter_regex: &Option<String>) -> (r: (
    Option<FilterRegex>,
    Option<String>,
))
    ensures
        match *filter_regex {
            None => r.0 is None && r.1 is None,
            Some(p) => match regex_compile_err(p@) {
                None => r.1 is None && match r.0 {
                    Some(f) => f.pattern_view() == p@,
                    None => false,
                },
                Some(e) => r.0 is None && match r.1 {
                    Some(w) => w@ == "[Warning] Invalid regex provided for --filter-regex: "@ + e
                        + ". Disabling regex filtering."@,
                    None => false,
                },
            },
        },
{
    match filter_regex {
        None => (None, None),
        Some(p) => match FilterRegex::compile(p.as_str()) {
            Ok(f) => (Some(f), None),
            Err(e) => {
                let mut w: String = String::from_str(
                    "[Warning] Invalid regex provided for --filter-regex: ",
                );
                w.append(e.as_str());
                w.append(". Disabling regex filtering.");
                (None, Some(w))
            },
        },
    }
}

/// Everything known of one completed response, as plain values. The
/// elapsed time is carried both in milliseconds and as the text its
/// `Duration` renders to.
#[derive(Debug, Clone)]
pub struct ResponseData {
    pub method: String,
    pub url_str: String,
    pub ip_addr: String,
    pub status: u16,
    pub size: u64,
    pub elapsed_ms: u64,
    pub elapsed_text: String,
    pub title: Option<String>,
    pub req_for_display: Option<String>,
    pub body_text: Option<String>,
}

/// The formatter input for a response.
pub open spec fn info_of(d: ResponseData) -> ResponseInfo {
    ResponseInfo {
        method: d.method,
        url: d.url_str,
        ip_addr: d.ip_addr,
        status: d.status,
        size: d.size,
        elapsed_text: d.elapsed_text,
        title: d.title,
    }
}

/// The one-per-line structured record: a compact JSON object whose
/// keys appear in sorted order, ending in a newline.
pub open spec fn jsonl_record(d: ResponseData, include_res: bool) -> Seq<char> {
    "{\"content_length\":"@ + dec_digits(d.size as int) + ",\"ip_address\":"@ + json_quoted(
        d.ip_addr@,
    ) + ",\"method\":"@ + json_quoted(d.method@) + (match d.req_for_display {
        Some(rq) => ",\"raw_request\":"@ + json_quoted(rq@),
        None => Seq::empty(),
    }) + (if include_res {
        match d.body_text {
            Some(b) => ",\"response_body\":"@ + json_quoted(b@),
            None => Seq::empty(),
        }
    } else {
        Seq::empty()
    }) + ",\"response_time_ms\":"@ + dec_digits(d.elapsed_ms as int) + ",\"status_code\":"@
        + dec_digits(d.status as int) + (match d.title {
        Some(t) => ",\"title\":"@ + json_quoted(t@),
        None => Seq::empty(),
    }) + ",\"url\":"@ + json_quoted(d.url_str@) + "}\n"@
}

/// The tabular row for a response: each field quoted, in the fixed
/// column order, the title column only when requested.
pub open spec fn csv_line(d: ResponseData, include_title: bool) -> Seq<char> {
    "\""@ + d.method@ + "\",\""@ + d.url_str@ + "\",\""@ + d.ip_addr@ + "\",\""@ + dec_digits(
        d.status as int,
    ) + "\",\""@ + dec_digits(d.size as int) + "\",\""@ + d.elapsed_text@ + "\""@ + (if include_title {
        ",\""@ + (match d.title {
            Some(t) => t@,
            None => Seq::<char>::empty(),
        }) + "\""@
    } else {
        Seq::<char>::empty()
    }) + "\n"@
}

/// The extra blocks plain output appends after the main line: the raw
/// request when captured, the response body when requested.
pub open spec fn plain_blocks(d: ResponseData, include_res: bool) -> Seq<char> {
    (match d.req_for_display {
        Some(rq) => "[Raw Request]\n"@ + rq@ + "\n"@,
        None => Seq::<char>::empty(),
    }) + (if include_res {
        match d.body_text {
            Some(b) => "[Response Body]\n"@ + b@ + "\n"@,
            None => Seq::<char>::empty(),
        }
    } else {
        Seq::<char>::empty()
    })
}

/// Whether plain output is colorized: only when writing to the console
/// and color is not disabled.
pub open spec fn use_color(cli: Cli) -> bool {
    cli.output is None && !cli.no_color
}

/// The main plain line is right for the configuration: the filled
/// template when one is set, else the fixed line, colorized on demand.
pub open spec fn plain_base_ok(cli: Cli, d: ResponseData, base: Seq<char>) -> bool {
    match cli.strf {
        Some(t) => base == filled_template(t@, info_of(d)),
        None => if use_color(cli) {
            colored_output_ok(base, info_of(d))
        } else {
            base == plain_output(info_of(d))
        },
    }
}

/// The rendered record is right for the configured format.
pub open spec fn response_output_ok(cli: Cli, d: ResponseData, r: Seq<char>) -> bool {
    match cli.format {
        OutputFormat::Plain => exists|base: Seq<char>|
            r == base + plain_blocks(d, cli.include_res) && plain_base_ok(cli, d, base),
        OutputFormat::Jsonl => r == jsonl_record(d, cli.include_res),
        OutputFormat::Csv => r == csv_line(d, cli.include_title),
    }
}

/// Render one eligible response in the configured output format.
pub fn format_response_output(cli: &Cli, data: &ResponseData) -> (r: String)
    ensures
        response_output_ok(*cli, *data, r@),
{
    match cli.format {
        OutputFormat::Plain => {
            let title: Option<String> = match &data.title {
                Some(t) => Some(t.clone()),
                None => None,
            };
            let info: ResponseInfo = ResponseInfo {
                method: data.method.clone(),
                url: data.url_str.clone(),
                ip_addr: data.ip_addr.clone(),
                status: data.status,
                size: data.size,
                elapsed_text: data.elapsed_text.clone(),
                title,
            };
            proof {
                assert(info == info_of(*data));
            }
            let mut s: String = format_plain_output(
                &info,
                &cli.strf,
                cli.output.is_none() && !cli.no_color,
            );
            let ghost base = s@;
            if let Some(raw_req) = &data.req_for_display {
                s.append("[Raw Request]\n");
                s.append(raw_req.as_str());
                s.append("\n");
            }
            if cli.include_res {
                if let Some(body) = &data.body_text {
                    s.append("[Response Body]\n");
                    s.append(body.as_str());
                    s.append("\n");
                }
            }
            proof {
                assert(s@ =~= base + plain_blocks(*data, cli.include_res));
                assert(plain_base_ok(*cli, *data, base));
                assert(response_output_ok(*cli, *data, s@));
            }
            s
        },
        OutputFormat::Jsonl => {
            let mut s: String = String::from_str("{\"content_length\":");
            s.append(u64_to_dec(data.size).as_str());
            s.append(",\"ip_address\":");
            s.append(json_quote(data.ip_addr.as_str()).as_str());
            s.append(",\"method\":");
            s.append(json_quote(data.method.as_str()).as_str());
            if let Some(rq) = &data.req_for_display {
                s.append(",\"raw_request\":");
                s.append(json_quote(rq.as_str()).as_str());
            }
            if cli.include_res {
                if let Some(b) = &data.body_text {
                    s.append(",\"response_body\":");
                    s.append(json_quote(b.as_str()).as_str());
                }
            }
            s.append(",\"response_time_ms\":");
            s.append(u64_to_dec(data.elapsed_ms).as_str());
            s.append(",\"status_code\":");
            s.append(u64_to_dec(data.status as u64).as_str());
            if let Some(t) = &data.title {
                s.append(",\"title\":");
                s.append(json_quote(t.as_str()).as_str());
            }
            s.append(",\"url\":");
            s.append(json_quote(data.url_str.as_str()).as_str());
            s.append("}\n");
            proof {
                assert(s@ =~= jsonl_record(*data, cli.include_res));
            }
            s
        },
        OutputFormat::Csv => {
            let mut s: String = String::from_str("\"");
            s.append(data.method.as_str());
            s.append("\",\"");
            s.append(data.url_str.as_str());
            s.append("\",\"");
            s.append(data.ip_addr.as_str());
            s.append("\",\"");
            s.append(u64_to_dec(data.status as u64).as_str());
            s.append("\",\"");
            s.append(u64_to_dec(data.size).as_str());
            s.append("\",\"");
            s.append(data.elapsed_text.as_str());
            s.append("\"");
            if cli.include_title {
                s.append(",\"");
                match &data.title {
                    Some(t) => s.append(t.as_str()),
                    None => (),
                }
                s.append("\"");
            }
            s.append("\n");
            proof {
                assert(s@ =~= csv_line(*data, cli.include_title));
            }
            s
        },
    }
}

} // verus!
