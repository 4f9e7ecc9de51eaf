use reqs::url::normalize_url_scheme;

#[test]
fn test_normalize_url_with_scheme() {
    assert_eq!(
        normalize_url_scheme("http://example.com"),
        "http://example.com"
    );
    assert_eq!(
        normalize_url_scheme("https://example.com"),
        "https://example.com"
    );
}

#[test]
fn test_normalize_url_with_port_80() {
    assert_eq!(
        normalize_url_scheme("example.com:80"),
        "http://example.com:80"
    );
}

#[test]
fn test_normalize_url_with_port_443() {
    assert_eq!(
        normalize_url_scheme("example.com:443"),
        "https://example.com:443"
    );
}

#[test]
fn test_normalize_url_with_custom_port() {
    assert_eq!(
        normalize_url_scheme("example.com:8080"),
        "https://example.com:8080"
    );
}

#[test]
fn test_normalize_url_without_port() {
    assert_eq!(normalize_url_scheme("example.com"), "https://example.com");
}

#[test]
fn test_normalize_url_trims_whitespace() {
    assert_eq!(
        normalize_url_scheme("  http://example.com  "),
        "http://example.com"
    );
    assert_eq!(normalize_url_scheme(" example.com "), "https://example.com");
}

#[test]
fn test_normalize_url_non_numeric_suffix() {
    assert_eq!(
        normalize_url_scheme("example.com:8a0"),
        "https://example.com:8a0"
    );
}

#[test]
fn test_normalize_url_empty_port() {
    assert_eq!(normalize_url_scheme("example.com:"), "https://example.com:");
}
