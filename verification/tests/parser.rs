use reqs::request::parse_request_line;

#[test]
fn test_parse_request_line_get() {
    let (method, url, body) = parse_request_line("https://example.com");
    assert_eq!(method, "GET");
    assert_eq!(url, "https://example.com");
    assert_eq!(body, None);
}

#[test]
fn test_parse_request_line_post() {
    let (method, url, body) = parse_request_line("POST https://example.com data=value");
    assert_eq!(method, "POST");
    assert_eq!(url, "https://example.com");
    assert_eq!(body, Some("data=value".to_string()));
}

#[test]
fn test_parse_request_line_empty() {
    let (method, url, body) = parse_request_line("");
    assert_eq!(method, "GET");
    assert_eq!(url, "");
    assert_eq!(body, None);
}

#[test]
fn test_parse_request_line_lowercase_verb() {
    let (method, url, body) = parse_request_line("post https://example.com a=1 b=2");
    assert_eq!(method, "POST");
    assert_eq!(url, "https://example.com");
    assert_eq!(body, Some("a=1 b=2".to_string()));
}

#[test]
fn test_parse_request_line_unknown_verb_is_url() {
    let (method, url, body) = parse_request_line("FETCH https://example.com");
    assert_eq!(method, "GET");
    assert_eq!(url, "FETCH https://example.com");
    assert_eq!(body, None);
}

#[test]
fn test_parse_request_line_single_token() {
    let (method, url, body) = parse_request_line("POST");
    assert_eq!(method, "GET");
    assert_eq!(url, "POST");
    assert_eq!(body, None);
}
