use reqs::pipeline::{build_filter_regex, needs_body, plan_requests, prepare_request};
use reqs::tool::{
    build_tool_error, build_tool_record, extract_tool_parameters, tool_needs_body, ToolOverrides,
};
use reqs::types::Cli;

fn no_overrides() -> ToolOverrides {
    ToolOverrides {
        filter_status: None,
        filter_string: None,
        filter_regex: None,
        include_req: None,
        include_res: None,
        follow_redirect: None,
        http2: None,
        headers: None,
    }
}

#[test]
fn test_extract_tool_parameters_defaults() {
    let mut cli = Cli::default();
    cli.http2 = true;
    let p = extract_tool_parameters(&no_overrides(), &cli).unwrap();
    assert!(p.filter_status.is_empty());
    assert_eq!(p.filter_string, None);
    assert!(p.filter_regex.is_none());
    assert!(!p.include_req);
    assert!(!p.include_res);
    assert!(p.follow_redirect);
    assert!(p.http2);
    assert!(p.custom_headers.is_empty());
}

#[test]
fn test_extract_tool_parameters_overrides() {
    let cli = Cli::default();
    let mut ov = no_overrides();
    ov.filter_status = Some(vec![200, 404]);
    ov.filter_string = Some("ok".to_string());
    ov.include_req = Some(true);
    ov.follow_redirect = Some(false);
    ov.headers = Some(vec!["X-A: 1".to_string()]);
    let p = extract_tool_parameters(&ov, &cli).unwrap();
    assert_eq!(p.filter_status, vec![200, 404]);
    assert_eq!(p.filter_string, Some("ok".to_string()));
    assert!(p.include_req);
    assert!(!p.follow_redirect);
    assert_eq!(p.custom_headers, vec!["X-A: 1".to_string()]);
}

#[test]
fn test_extract_tool_parameters_bad_regex() {
    let cli = Cli::default();
    let mut ov = no_overrides();
    ov.filter_regex = Some("[".to_string());
    let e = extract_tool_parameters(&ov, &cli).unwrap_err();
    assert!(e.starts_with("Invalid regex provided for filter_regex: "));
}

#[test]
fn test_tool_needs_body() {
    let cli = Cli::default();
    let p = extract_tool_parameters(&no_overrides(), &cli).unwrap();
    assert!(!tool_needs_body(&p));
    let mut ov = no_overrides();
    ov.filter_string = Some("x".to_string());
    let p = extract_tool_parameters(&ov, &cli).unwrap();
    assert!(tool_needs_body(&p));
}

#[test]
fn test_build_tool_record_exact() {
    let cli = Cli::default();
    let p = extract_tool_parameters(&no_overrides(), &cli).unwrap();
    let r = build_tool_record(
        &p,
        "GET",
        "https://example.com",
        200,
        10,
        5,
        "1.2.3.4",
        &None,
        &None,
    );
    assert_eq!(
        r,
        Some(
            "{\"content_length\":10,\"ip_address\":\"1.2.3.4\",\"method\":\"GET\",\"response_time_ms\":5,\"status_code\":200,\"url\":\"https://example.com\"}"
                .to_string()
        )
    );
}

#[test]
fn test_build_tool_record_omits_empty_ip() {
    let cli = Cli::default();
    let p = extract_tool_parameters(&no_overrides(), &cli).unwrap();
    let r = build_tool_record(&p, "GET", "https://a", 204, 0, 1, "", &None, &None);
    assert_eq!(
        r,
        Some(
            "{\"content_length\":0,\"method\":\"GET\",\"response_time_ms\":1,\"status_code\":204,\"url\":\"https://a\"}"
                .to_string()
        )
    );
}

#[test]
fn test_build_tool_record_filtered() {
    let cli = Cli::default();
    let mut ov = no_overrides();
    ov.filter_status = Some(vec![200]);
    let p = extract_tool_parameters(&ov, &cli).unwrap();
    let r = build_tool_record(&p, "GET", "https://a", 500, 0, 1, "", &None, &None);
    assert_eq!(r, None);
}

#[test]
fn test_build_tool_error_exact() {
    let e = build_tool_error("GET", "https://a", "connect timeout");
    assert_eq!(
        e,
        "{\"error\":\"connect timeout\",\"method\":\"GET\",\"url\":\"https://a\"}"
    );
}

#[test]
fn test_prepare_request_skips_blank() {
    assert!(prepare_request("").is_none());
    assert!(prepare_request("   ").is_none());
}

#[test]
fn test_prepare_request_normalizes() {
    let d = prepare_request("example.com:80").unwrap();
    assert_eq!(d.method, "GET");
    assert_eq!(d.url, "http://example.com:80");
    assert_eq!(d.body, None);
}

#[test]
fn test_plan_requests_skips_blank_lines() {
    let lines = vec![
        "https://a".to_string(),
        "POST https://b data=1".to_string(),
        "".to_string(),
    ];
    let plan = plan_requests(&lines);
    assert_eq!(plan.len(), 2);
    assert_eq!(plan[0].method, "GET");
    assert_eq!(plan[0].url, "https://a");
    assert_eq!(plan[1].method, "POST");
    assert_eq!(plan[1].url, "https://b");
    assert_eq!(plan[1].body, Some("data=1".to_string()));
}

#[test]
fn test_needs_body() {
    let mut cli = Cli::default();
    assert!(!needs_body(&cli));
    cli.include_title = true;
    assert!(needs_body(&cli));
    let mut cli = Cli::default();
    cli.filter_string = Some("x".to_string());
    assert!(needs_body(&cli));
}

#[test]
fn test_build_filter_regex_valid() {
    let (re, warn) = build_filter_regex(&Some("a+".to_string()));
    assert!(re.is_some());
    assert!(warn.is_none());
}

#[test]
fn test_build_filter_regex_invalid() {
    let (re, warn) = build_filter_regex(&Some("[".to_string()));
    assert!(re.is_none());
    let w = warn.unwrap();
    assert!(w.starts_with("[Warning] Invalid regex provided for --filter-regex: "));
    assert!(w.ends_with(". Disabling regex filtering."));
}

#[test]
fn test_effective_concurrency() {
    assert_eq!(reqs::pipeline::effective_concurrency(0), None);
    assert_eq!(reqs::pipeline::effective_concurrency(5), Some(5));
}
