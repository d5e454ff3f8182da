use tcp_server::request::HttpRequest;
use tcp_server::response::generate_response;
use tcp_server::router::route_request;

#[test]
fn readable_content_is_framed_as_ok() {
    let content = String::from("<html>hello</html>");
    let bytes = generate_response(Some(content));
    let text = String::from_utf8(bytes).unwrap();
    assert_eq!(
        text,
        "HTTP/1.1 200 Ok\r\nContent-Length: 18\r\n\r\n\r\n\r\n<html>hello</html>"
    );
}

#[test]
fn failed_read_is_framed_as_not_found_with_the_fallback_page() {
    let bytes = generate_response(None);
    let text = String::from_utf8(bytes).unwrap();
    assert!(text.starts_with("HTTP/1.1 404 Not Found\r\n"));
    assert!(text.ends_with(HttpRequest::DEFAULT_404_HTML));
    assert_eq!(
        text,
        format!(
            "HTTP/1.1 404 Not Found\r\nContent-Length: {}\r\n\r\n\r\n\r\n{}",
            HttpRequest::DEFAULT_404_HTML.len(),
            HttpRequest::DEFAULT_404_HTML
        )
    );
}

#[test]
fn content_length_counts_bytes_not_characters() {
    let bytes = generate_response(Some(String::from("\u{20ac}")));
    let text = String::from_utf8(bytes).unwrap();
    assert!(text.starts_with("HTTP/1.1 200 Ok\r\nContent-Length: 3\r\n"));
}

#[test]
fn the_header_block_is_followed_by_a_second_delimiter() {
    let bytes = generate_response(Some(String::from("x")));
    let text = String::from_utf8(bytes).unwrap();
    assert!(text.contains("\r\n\r\n\r\n\r\n"));
}

#[test]
fn a_parsed_get_is_served_the_index_content() {
    let file = route_request(b"GET /page1 HTTP/1.1\r\n\r\n");
    assert_eq!(file, "views/index.html");
    // Stand in for the filesystem: the file at that path was read.
    let index_content = String::from("<html><body>index</body></html>");
    let bytes = generate_response(Some(index_content.clone()));
    let text = String::from_utf8(bytes).unwrap();
    assert!(text.starts_with("HTTP/1.1 200 Ok"));
    assert!(text.ends_with(&index_content));
}
