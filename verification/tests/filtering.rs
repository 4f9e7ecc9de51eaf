use reqs::filter::{should_filter_response, FilterRegex};

#[test]
fn test_filter_by_status() {
    let filter_status = vec![200, 404];
    assert!(!should_filter_response(
        200,
        &None,
        &filter_status,
        &None,
        &None
    ));
    assert!(should_filter_response(
        500,
        &None,
        &filter_status,
        &None,
        &None
    ));
}

#[test]
fn test_filter_by_string() {
    let body = Some("test content".to_string());
    let filter_string = Some("test".to_string());
    assert!(!should_filter_response(
        200,
        &body,
        &[],
        &filter_string,
        &None
    ));

    let filter_string = Some("missing".to_string());
    assert!(should_filter_response(
        200,
        &body,
        &[],
        &filter_string,
        &None
    ));
}

#[test]
fn test_no_filter() {
    assert!(!should_filter_response(200, &None, &[], &None, &None));
}

#[test]
fn test_filter_string_without_body() {
    let filter_string = Some("x".to_string());
    assert!(should_filter_response(200, &None, &[], &filter_string, &None));
}

#[test]
fn test_filter_by_regex() {
    let re = FilterRegex::compile("wor[a-z]d").ok();
    assert!(re.is_some());
    let body = Some("hello world".to_string());
    assert!(!should_filter_response(200, &body, &[], &None, &re));
    let body = Some("hello venus".to_string());
    assert!(should_filter_response(200, &body, &[], &None, &re));
}

#[test]
fn test_filter_regex_without_body() {
    let re = FilterRegex::compile(".*").ok();
    assert!(should_filter_response(200, &None, &[], &None, &re));
}

#[test]
fn test_filter_regex_rejects_bad_pattern() {
    let r = FilterRegex::compile("[");
    assert!(r.is_err());
}
