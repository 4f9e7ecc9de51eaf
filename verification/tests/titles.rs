use reqs::html::extract_title;

#[test]
fn test_extract_title() {
    let html = r#"
        <!DOCTYPE html>
        <html>
        <head><title>Test Title</title></head>
        <body><h1>Hello</h1></body>
        </html>
    "#;
    assert_eq!(extract_title(html), Some("Test Title".to_string()));
}

#[test]
fn test_extract_title_no_title() {
    let html = r#"
        <!DOCTYPE html>
        <html>
        <head></head>
        <body><h1>Hello</h1></body>
        </html>
    "#;
    assert_eq!(extract_title(html), None);
}

#[test]
fn test_extract_title_first_only() {
    let html = "<html><head><title>First</title><title>Second</title></head></html>";
    assert_eq!(extract_title(html), Some("First".to_string()));
}
