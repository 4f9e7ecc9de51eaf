//! Plain-text result rendering: the fixed human-readable line, optional
//! colorization, and user-template substitution.
use crate::text::{dec_digits, has_sub, replace_all, replaced, u64_to_dec};
use colored::Colorize;
use vstd::prelude::*;

verus! {

/// Response information for formatting. Times are carried as the text
/// their `Duration` renders to, so the formatters stay pure.
#[derive(Debug, Clone)]
pub struct ResponseInfo {
    pub method: String,
    pub url: String,
    pub ip_addr: String,
    pub status: u16,
    pub size: u64,
    pub elapsed_text: String,
    pub title: Option<String>,
}

/// The status line text for a status code, "code reason". It depends on
/// the code alone; codes outside 100..=999 give the empty string.
pub uninterp spec fn status_text(code: u16) -> Seq<char>;

/// Relies on the `StatusCode` type reqwest re-exports: `from_u16`, then
/// its `Display`, which writes the code and its canonical reason.
#[verifier::external_body]
pub(crate) fn status_display(code: u16) -> (r: String)
    ensures
        r@ == status_text(code),
{
    match reqwest::StatusCode::from_u16(code) {
        Ok(s) => s.to_string(),
        Err(_) => String::new(),
    }
}

/// The ANSI reset sequence that ends a colored span.
pub open spec fn reset_marker() -> Seq<char> {
    seq!['\u{1b}', '[', '0', 'm']
}

/// The text holds no reset sequence, so colorization can only wrap it.
pub open spec fn no_reset(s: Seq<char>) -> bool {
    !has_sub(s, reset_marker())
}

/// `a` is `b` with something (possibly nothing) on either side.
pub open spec fn wraps(a: Seq<char>, b: Seq<char>) -> bool {
    exists|pre: Seq<char>, post: Seq<char>| a == pre + b + post
}

/// What a paint call may do to its text: colorization is decided by the
/// terminal and the environment, but a reset-free text is only ever
/// wrapped, never altered.
pub open spec fn color_variant(painted: Seq<char>, orig: Seq<char>) -> bool {
    no_reset(orig) ==> wraps(painted, orig)
}

/// Relies on colored::Colorize::yellow and ColoredString's Display:
/// either the text itself, or the text wrapped in style and reset codes.
#[verifier::external_body]
fn paint_yellow(s: &str) -> (r: String)
    ensures
        color_variant(r@, s@),
{
    s.yellow().to_string()
}

/// Relies on colored::Colorize::green, as with [`paint_yellow`].
#[verifier::external_body]
fn paint_green(s: &str) -> (r: String)
    ensures
        color_variant(r@, s@),
{
    s.green().to_string()
}

/// Relies on colored::Colorize::red, as with [`paint_yellow`].
#[verifier::external_body]
fn paint_red(s: &str) -> (r: String)
    ensures
        color_variant(r@, s@),
{
    s.red().to_string()
}

/// Relies on colored::Colorize::blue, as with [`paint_yellow`].
#[verifier::external_body]
fn paint_blue(s: &str) -> (r: String)
    ensures
        color_variant(r@, s@),
{
    s.blue().to_string()
}

/// Relies on colored::Colorize::cyan, as with [`paint_yellow`].
#[verifier::external_body]
fn paint_cyan(s: &str) -> (r: String)
    ensures
        color_variant(r@, s@),
{
    s.cyan().to_string()
}

/// Relies on colored::Colorize::magenta, as with [`paint_yellow`].
#[verifier::external_body]
fn paint_magenta(s: &str) -> (r: String)
    ensures
        color_variant(r@, s@),
{
    s.magenta().to_string()
}

/// The template with each placeholder substituted in the fixed order,
/// plus a final newline: a pure substitution.
pub open spec fn filled_template(t: Seq<char>, info: ResponseInfo) -> Seq<char> {
    let s1 = replaced(t, "%method"@, info.method@);
    let s2 = replaced(s1, "%url"@, info.url@);
    let s3 = replaced(s2, "%status"@, status_text(info.status));
    let s4 = replaced(s3, "%code"@, dec_digits(info.status as int));
    let s5 = replaced(s4, "%size"@, dec_digits(info.size as int));
    let s6 = replaced(s5, "%time"@, info.elapsed_text@);
    let s7 = replaced(s6, "%ip"@, info.ip_addr@);
    let s8 = replaced(s7, "%title"@, match info.title {
        Some(t2) => t2@,
        None => Seq::empty(),
    });
    s8 + "\n"@
}

/// The " | Title: ..." segment, empty when there is no title.
pub open spec fn title_part(title: Option<Seq<char>>) -> Seq<char> {
    match title {
        Some(t) => " | Title: "@ + t,
        None => Seq::empty(),
    }
}

/// The fixed human-readable line, assembled from its (possibly painted)
/// pieces.
pub open spec fn plain_line(
    m: Seq<char>,
    u: Seq<char>,
    ip: Seq<char>,
    st: Seq<char>,
    size: Seq<char>,
    tp: Seq<char>,
    time: Seq<char>,
) -> Seq<char> {
    "["@ + m + "] ["@ + u + "] ["@ + ip + "] -> "@ + st + " | Size: "@ + size + " "@ + tp
        + "| Time: "@ + time + "\n"@
}

/// The uncolored human-readable line for a response.
pub open spec fn plain_output(info: ResponseInfo) -> Seq<char> {
    plain_line(
        info.method@,
        info.url@,
        info.ip_addr@,
        status_text(info.status),
        dec_digits(info.size as int),
        title_part(crate::text::opt_chars(info.title)),
        info.elapsed_text@,
    )
}

/// The colored line is the same skeleton with each piece possibly
/// wrapped in color codes; the title keeps its literal prefix.
pub open spec fn colored_output_ok(r: Seq<char>, info: ResponseInfo) -> bool {
    exists|pm: Seq<char>, pu: Seq<char>, pip: Seq<char>, pst: Seq<char>, psz: Seq<char>, ptp: Seq<
        char,
    >|
        r == plain_line(pm, pu, pip, pst, psz, ptp, info.elapsed_text@) && color_variant(
            pm,
            info.method@,
        ) && color_variant(pu, info.url@) && color_variant(pip, info.ip_addr@) && color_variant(
            pst,
            status_text(info.status),
        ) && color_variant(psz, dec_digits(info.size as int)) && (match info.title {
            Some(t) => exists|pt: Seq<char>|
                ptp == " | Title: "@ + pt && color_variant(pt, t@),
            None => ptp == Seq::<char>::empty(),
        })
}

/// Format a response as plain text: a template substitution when a
/// template is set, else the fixed line, colorized on request.
pub fn format_plain_output(response: &ResponseInfo, template: &Option<String>, colored: bool) -> (r:
    String)
    ensures
        match *template {
            Some(t) => r@ == filled_template(t@, *response),
            None => if colored {
                colored_output_ok(r@, *response)
            } else {
                r@ == plain_output(*response)
            },
        },
{
    if let Some(template_str) = template {
        proof {
            reveal_strlit("%method");
            reveal_strlit("%url");
            reveal_strlit("%status");
            reveal_strlit("%code");
            reveal_strlit("%size");
            reveal_strlit("%time");
            reveal_strlit("%ip");
            reveal_strlit("%title");
        }
        let st: String = status_display(response.status);
        let code: String = u64_to_dec(response.status as u64);
        let size: String = u64_to_dec(response.size);
        let title: String = match &response.title {
            Some(t) => t.clone(),
            None => String::new(),
        };
        let s1: String = replace_all(template_str.as_str(), "%method", response.method.as_str());
        let s2: String = replace_all(s1.as_str(), "%url", response.url.as_str());
        let s3: String = replace_all(s2.as_str(), "%status", st.as_str());
        let s4: String = replace_all(s3.as_str(), "%code", code.as_str());
        let s5: String = replace_all(s4.as_str(), "%size", size.as_str());
        let s6: String = replace_all(s5.as_str(), "%time", response.elapsed_text.as_str());
        let s7: String = replace_all(s6.as_str(), "%ip", response.ip_addr.as_str());
        let mut s8: String = replace_all(s7.as_str(), "%title", title.as_str());
        s8.append("\n");
        return s8;
    }
    let st: String = status_display(response.status);
    let size: String = u64_to_dec(response.size);
    if colored {
        let pm: String = paint_yellow(response.method.as_str());
        let pu: String = paint_cyan(response.url.as_str());
        let pip: String = paint_magenta(response.ip_addr.as_str());
        let pst: String = if 200 <= response.status && response.status < 300 {
            paint_green(st.as_str())
        } else if 300 <= response.status && response.status < 400 {
            paint_yellow(st.as_str())
        } else {
            paint_red(st.as_str())
        };
        let psz: String = paint_blue(size.as_str());
        let ptp: String = match &response.title {
            Some(t) => {
                let pt: String = paint_blue(t.as_str());
                let mut seg: String = String::from_str(" | Title: ");
                seg.append(pt.as_str());
                proof {
                    assert(seg@ == " | Title: "@ + pt@);
                }
                seg
            },
            None => String::new(),
        };
        let line: String = assemble_line(&pm, &pu, &pip, &pst, &psz, &ptp, &response.elapsed_text);
        proof {
            assert(line@ == plain_line(pm@, pu@, pip@, pst@, psz@, ptp@, response.elapsed_text@));
        }
        line
    } else {
        let ptp: String = match &response.title {
            Some(t) => {
                let mut seg: String = String::from_str(" | Title: ");
                seg.append(t.as_str());
                seg
            },
            None => String::new(),
        };
        assemble_line(
            &response.method,
            &response.url,
            &response.ip_addr,
            &st,
            &size,
            &ptp,
            &response.elapsed_text,
        )
    }
}

/// Assemble the fixed line from its pieces.
fn assemble_line(
    m: &String,
    u: &String,
    ip: &String,
    st: &String,
    size: &String,
    tp: &String,
    time: &String,
) -> (r: String)
    ensures
        r@ == plain_line(m@, u@, ip@, st@, size@, tp@, time@),
{
    let mut out: String = String::from_str("[");
    out.append(m.as_str());
    out.append("] [");
    out.append(u.as_str());
    out.append("] [");
    out.append(ip.as_str());
    out.append("] -> ");
    out.append(st.as_str());
    out.append(" | Size: ");
    out.append(size.as_str());
    out.append(" ");
    out.append(tp.as_str());
    out.append("| Time: ");
    out.append(time.as_str());
    out.append("\n");
    proof {
        assert(out@ =~= plain_line(m@, u@, ip@, st@, size@, tp@, time@));
    }
    out
}

} // verus!
