use reqs::pipeline::{format_response_output, ResponseData};
use reqs::sink::SinkState;
use reqs::types::{Cli, OutputFormat};

fn sample_data() -> ResponseData {
    ResponseData {
        method: "GET".to_string(),
        url_str: "https://example.com".to_string(),
        ip_addr: "1.2.3.4".to_string(),
        status: 200,
        size: 10,
        elapsed_ms: 5,
        elapsed_text: "5ms".to_string(),
        title: None,
        req_for_display: None,
        body_text: None,
    }
}

#[test]
fn test_jsonl_record_exact() {
    let mut cli = Cli::default();
    cli.format = OutputFormat::Jsonl;
    let data = sample_data();
    let line = format_response_output(&cli, &data);
    assert_eq!(
        line,
        "{\"content_length\":10,\"ip_address\":\"1.2.3.4\",\"method\":\"GET\",\"response_time_ms\":5,\"status_code\":200,\"url\":\"https://example.com\"}\n"
    );
}

#[test]
fn test_jsonl_record_escapes_strings() {
    let mut cli = Cli::default();
    cli.format = OutputFormat::Jsonl;
    let mut data = sample_data();
    data.title = Some("A \"B\"".to_string());
    let line = format_response_output(&cli, &data);
    assert_eq!(
        line,
        "{\"content_length\":10,\"ip_address\":\"1.2.3.4\",\"method\":\"GET\",\"response_time_ms\":5,\"status_code\":200,\"title\":\"A \\\"B\\\"\",\"url\":\"https://example.com\"}\n"
    );
}

#[test]
fn test_jsonl_record_includes_body_when_requested() {
    let mut cli = Cli::default();
    cli.format = OutputFormat::Jsonl;
    cli.include_res = true;
    let mut data = sample_data();
    data.body_text = Some("hello".to_string());
    data.req_for_display = Some("GET / HTTP/1.1".to_string());
    let line = format_response_output(&cli, &data);
    assert_eq!(
        line,
        "{\"content_length\":10,\"ip_address\":\"1.2.3.4\",\"method\":\"GET\",\"raw_request\":\"GET / HTTP/1.1\",\"response_body\":\"hello\",\"response_time_ms\":5,\"status_code\":200,\"url\":\"https://example.com\"}\n"
    );
}

#[test]
fn test_csv_line_exact() {
    let mut cli = Cli::default();
    cli.format = OutputFormat::Csv;
    let data = sample_data();
    let line = format_response_output(&cli, &data);
    assert_eq!(
        line,
        "\"GET\",\"https://example.com\",\"1.2.3.4\",\"200\",\"10\",\"5ms\"\n"
    );
}

#[test]
fn test_csv_line_with_title_column() {
    let mut cli = Cli::default();
    cli.format = OutputFormat::Csv;
    cli.include_title = true;
    let mut data = sample_data();
    data.title = Some("Example".to_string());
    let line = format_response_output(&cli, &data);
    assert_eq!(
        line,
        "\"GET\",\"https://example.com\",\"1.2.3.4\",\"200\",\"10\",\"5ms\",\"Example\"\n"
    );
}

#[test]
fn test_plain_output_appends_blocks() {
    let mut cli = Cli::default();
    cli.include_res = true;
    cli.no_color = true;
    let mut data = sample_data();
    data.req_for_display = Some("GET / HTTP/1.1".to_string());
    data.body_text = Some("<html></html>".to_string());
    let out = format_response_output(&cli, &data);
    assert_eq!(
        out,
        "[GET] [https://example.com] [1.2.3.4] -> 200 OK | Size: 10 | Time: 5ms\n[Raw Request]\nGET / HTTP/1.1\n[Response Body]\n<html></html>\n"
    );
}

#[test]
fn test_csv_header_written_once() {
    let mut sink = SinkState::new();
    let first = sink.take_csv_header(false);
    assert_eq!(
        first,
        Some("method,url,ip_address,status_code,content_length,response_time_ms\n".to_string())
    );
    assert_eq!(sink.take_csv_header(false), None);
    assert_eq!(sink.take_csv_header(false), None);
}

#[test]
fn test_csv_header_with_title() {
    let mut sink = SinkState::new();
    let first = sink.take_csv_header(true);
    assert_eq!(
        first,
        Some(
            "method,url,ip_address,status_code,content_length,response_time_ms,title\n"
                .to_string()
        )
    );
    assert_eq!(sink.take_csv_header(true), None);
}
