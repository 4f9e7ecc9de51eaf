use reqs::formatter::{format_plain_output, ResponseInfo};
use reqs::request::{format_raw_request, RawRequestParts};

fn sample_response() -> ResponseInfo {
    ResponseInfo {
        method: "GET".to_string(),
        url: "https://example.com".to_string(),
        ip_addr: "1.2.3.4".to_string(),
        status: 200,
        size: 1234,
        elapsed_text: "1s".to_string(),
        title: None,
    }
}

#[test]
fn test_format_plain_output_no_template() {
    let response = sample_response();
    let output = format_plain_output(&response, &None, false);
    assert!(output.contains("GET"));
    assert!(output.contains("https://example.com"));
    assert!(output.contains("200 OK"));
}

#[test]
fn test_format_plain_output_with_template() {
    let response = sample_response();
    let template = Some("%method %url -> %code".to_string());
    let output = format_plain_output(&response, &template, false);
    assert_eq!(output, "GET https://example.com -> 200\n");
}

#[test]
fn test_format_plain_output_exact_line() {
    let response = sample_response();
    let output = format_plain_output(&response, &None, false);
    assert_eq!(
        output,
        "[GET] [https://example.com] [1.2.3.4] -> 200 OK | Size: 1234 | Time: 1s\n"
    );
}

#[test]
fn test_format_plain_output_with_title() {
    let mut response = sample_response();
    response.title = Some("Example".to_string());
    let output = format_plain_output(&response, &None, false);
    assert_eq!(
        output,
        "[GET] [https://example.com] [1.2.3.4] -> 200 OK | Size: 1234  | Title: Example| Time: 1s\n"
    );
}

#[test]
fn test_format_plain_output_all_placeholders() {
    let mut response = sample_response();
    response.title = Some("T".to_string());
    let template = Some("%method|%url|%status|%code|%size|%time|%ip|%title".to_string());
    let output = format_plain_output(&response, &template, false);
    assert_eq!(
        output,
        "GET|https://example.com|200 OK|200|1234|1s|1.2.3.4|T\n"
    );
}

#[test]
fn test_format_plain_output_missing_title_is_empty() {
    let response = sample_response();
    let template = Some("[%title]".to_string());
    let output = format_plain_output(&response, &template, false);
    assert_eq!(output, "[]\n");
}

#[test]
fn test_format_plain_output_repeated_placeholder() {
    let response = sample_response();
    let template = Some("%code %code".to_string());
    let output = format_plain_output(&response, &template, false);
    assert_eq!(output, "200 200\n");
}

#[test]
fn test_format_raw_request_full() {
    let parts = RawRequestParts {
        method: "POST".to_string(),
        path: "/submit".to_string(),
        query: Some("a=1".to_string()),
        host: "example.com".to_string(),
        headers: vec![("user-agent".to_string(), "probe".to_string())],
        body: Some("x=y".to_string()),
    };
    let raw = format_raw_request(&parts, false);
    assert_eq!(
        raw,
        "POST /submit?a=1 HTTP/1.1\nHost: example.com\nuser-agent: probe\n\nx=y"
    );
}

#[test]
fn test_format_raw_request_http2_no_body() {
    let parts = RawRequestParts {
        method: "GET".to_string(),
        path: "/".to_string(),
        query: None,
        host: "example.com".to_string(),
        headers: vec![],
        body: None,
    };
    let raw = format_raw_request(&parts, true);
    assert_eq!(raw, "GET / HTTP/2.0\nHost: example.com\n");
}
