use tcp_server::request::HttpRequest;
use tcp_server::urlenc::{decode_component, parse_query};
use tcp_server::HttpMethod;

#[test]
fn plain_get_parses() {
    let request = HttpRequest::from_request_bytes(b"GET /page1 HTTP/1.1\r\n\r\n");
    assert_eq!(request.method, HttpMethod::Get);
    assert_eq!(request.path, "/page1");
    assert_eq!(request.parameters, Some(vec![]));
    assert_eq!(request.body, None);
}

#[test]
fn query_parameters_keep_their_order() {
    let request = HttpRequest::from_request_bytes(b"GET /search?q=rust&lang=en HTTP/1.1\r\n\r\n");
    assert_eq!(request.method, HttpMethod::Get);
    assert_eq!(request.path, "/search");
    assert_eq!(
        request.parameters,
        Some(vec![
            (String::from("q"), String::from("rust")),
            (String::from("lang"), String::from("en")),
        ])
    );
    assert_eq!(request.body, None);
}

#[test]
fn post_with_body_parses() {
    let request = HttpRequest::from_request_bytes(b"POST /anything HTTP/1.1\r\n\r\n{\"a\":1}");
    assert_eq!(request.method, HttpMethod::Post);
    assert_eq!(request.path, "/anything");
    assert_eq!(request.parameters, Some(vec![]));
    assert_eq!(request.body, Some(String::from("{\"a\":1}")));
}

#[test]
fn body_needs_more_bytes_than_the_delimiter() {
    // Nothing after the delimiter: the body region is exactly the delimiter.
    let request = HttpRequest::from_request_bytes(b"GET / HTTP/1.1\r\n\r\n");
    assert_eq!(request.body, None);
    // One byte after the delimiter crosses the threshold.
    let request = HttpRequest::from_request_bytes(b"GET / HTTP/1.1\r\n\r\nx");
    assert_eq!(request.body, Some(String::from("x")));
}

#[test]
fn missing_delimiter_means_header_only() {
    let request = HttpRequest::from_request_bytes(b"GET /page2 HTTP/1.1");
    assert_eq!(request.method, HttpMethod::Get);
    assert_eq!(request.path, "/page2");
    assert_eq!(request.parameters, Some(vec![]));
    assert_eq!(request.body, None);
}

#[test]
fn header_without_spaces_has_no_target() {
    let request = HttpRequest::from_request_bytes(b"NONSENSE\r\n\r\n");
    assert_eq!(request.method, HttpMethod::Error);
    assert_eq!(request.path, "");
    assert_eq!(request.parameters, Some(vec![]));
}

#[test]
fn full_read_buffer_with_trailing_zeros() {
    // The connection handler hands over its whole fixed buffer, zeros and
    // all; the zeros after the delimiter count as body bytes.
    let mut buffer = [0u8; 1024];
    let head = b"GET / HTTP/1.1\r\n\r\n";
    buffer[..head.len()].copy_from_slice(head);
    let request = HttpRequest::from_request_bytes(&buffer);
    assert_eq!(request.method, HttpMethod::Get);
    assert_eq!(request.path, "/");
    let body = request.body.expect("zeros past the delimiter form a body");
    assert_eq!(body.len(), 1024 - head.len());
    assert!(body.chars().all(|c| c == '\0'));
}

#[test]
fn invalid_utf8_path_becomes_empty() {
    let request = HttpRequest::from_request_bytes(b"GET /\xff\xfe HTTP/1.1\r\n\r\n");
    assert_eq!(request.method, HttpMethod::Get);
    assert_eq!(request.path, "");
}

#[test]
fn component_decoding_rules() {
    assert_eq!(decode_component(b"rust"), "rust");
    assert_eq!(decode_component(b"a+b"), "a b");
    assert_eq!(decode_component(b"%41%42"), "AB");
    assert_eq!(decode_component(b"%3d"), "=");
    // A percent sign without two hexadecimal digits passes through.
    assert_eq!(decode_component(b"%4G"), "%4G");
    assert_eq!(decode_component(b"100%"), "100%");
    // Percent-decoded bytes are read as UTF-8.
    assert_eq!(decode_component(b"%e2%82%ac"), "\u{20ac}");
    // Ill-formed sequences decode to the replacement character.
    assert_eq!(decode_component(b"%ff"), "\u{fffd}");
}

#[test]
fn query_splitting_rules() {
    let pairs = parse_query(b"a=1&&b=2");
    assert_eq!(
        pairs,
        vec![(String::from("a"), String::from("1")), (String::from("b"), String::from("2"))]
    );
    // A piece without `=` is a key with an empty value.
    assert_eq!(parse_query(b"flag"), vec![(String::from("flag"), String::new())]);
    // A piece of just `=` is an empty key with an empty value.
    assert_eq!(parse_query(b"="), vec![(String::new(), String::new())]);
    // Duplicate keys stay separate, in order.
    assert_eq!(
        parse_query(b"k=1&k=2"),
        vec![(String::from("k"), String::from("1")), (String::from("k"), String::from("2"))]
    );
    assert_eq!(parse_query(b""), vec![]);
    assert_eq!(parse_query(b"&&&"), vec![]);
}

#[test]
fn decoder_matches_the_url_crate() {
    let inputs: [&[u8]; 8] = [
        b"q=rust&lang=en",
        b"a=1&&b=2",
        b"%41+%42=%43+%44",
        b"=x&y&",
        b"a%3Db=c%26d",
        b"%e2%82%ac=euro",
        b"bad%ff=x&%4G=%",
        b"+=+",
    ];
    for input in inputs {
        let expected: Vec<(String, String)> =
            url::form_urlencoded::parse(input).into_owned().collect();
        assert_eq!(parse_query(input), expected);
    }
}
