use reqs::formatter::{format_plain_output, ResponseInfo};

#[test]
fn test_colored_output_wraps_text() {
    colored::control::set_override(true);
    let response = ResponseInfo {
        method: "GET".to_string(),
        url: "https://example.com".to_string(),
        ip_addr: "1.2.3.4".to_string(),
        status: 200,
        size: 9,
        elapsed_text: "2ms".to_string(),
        title: Some("T".to_string()),
    };
    let output = format_plain_output(&response, &None, true);
    colored::control::unset_override();
    // the skeleton and the underlying texts survive colorization
    assert!(output.contains("\u{1b}["));
    assert!(output.contains("GET"));
    assert!(output.contains("https://example.com"));
    assert!(output.contains("200 OK"));
    assert!(output.contains(" | Title: "));
    assert!(output.ends_with("\n"));
}

#[test]
fn test_color_flag_off_is_plain() {
    colored::control::set_override(true);
    let response = ResponseInfo {
        method: "GET".to_string(),
        url: "https://a".to_string(),
        ip_addr: "".to_string(),
        status: 301,
        size: 0,
        elapsed_text: "1ms".to_string(),
        title: None,
    };
    let output = format_plain_output(&response, &None, false);
    colored::control::unset_override();
    assert_eq!(
        output,
        "[GET] [https://a] [] -> 301 Moved Permanently | Size: 0 | Time: 1ms\n"
    );
}
