use tcp_server::HttpMethod;

#[test]
fn canonical_tokens_render() {
    assert_eq!(HttpMethod::Get.to_string(), "GET");
    assert_eq!(HttpMethod::Post.to_string(), "POST");
    assert_eq!(HttpMethod::Put.to_string(), "PUT");
    assert_eq!(HttpMethod::Delete.to_string(), "DELETE");
    assert_eq!(HttpMethod::Error.to_string(), "ERROR");
}

#[test]
fn tokens_render_as_bytes() {
    assert_eq!(HttpMethod::Get.to_bytes(), b"GET".to_vec());
    assert_eq!(HttpMethod::Delete.to_bytes(), b"DELETE".to_vec());
    assert_eq!(HttpMethod::Error.to_bytes(), b"ERROR".to_vec());
}

#[test]
fn exact_token_prefix_parses_back() {
    assert_eq!(HttpMethod::from_string(String::from("GET /x HTTP/1.1")), HttpMethod::Get);
    assert_eq!(HttpMethod::from_string(String::from("POST /x")), HttpMethod::Post);
    assert_eq!(HttpMethod::from_string(String::from("PUT")), HttpMethod::Put);
    assert_eq!(HttpMethod::from_string(String::from("DELETE /y")), HttpMethod::Delete);
    assert_eq!(HttpMethod::from_bytes(b"GET /page1"), HttpMethod::Get);
    assert_eq!(HttpMethod::from_bytes(b"POST /anything"), HttpMethod::Post);
    assert_eq!(HttpMethod::from_bytes(b"PUT /z"), HttpMethod::Put);
    assert_eq!(HttpMethod::from_bytes(b"DELETE"), HttpMethod::Delete);
}

#[test]
fn matching_goes_by_prefix_alone() {
    assert_eq!(HttpMethod::from_string(String::from("GETTER")), HttpMethod::Get);
    assert_eq!(HttpMethod::from_bytes(b"PUTTY"), HttpMethod::Put);
    assert_eq!(HttpMethod::from_bytes(b"POSTAGE"), HttpMethod::Post);
}

#[test]
fn unmatched_tokens_become_error() {
    assert_eq!(HttpMethod::from_string(String::from("get /lowercase")), HttpMethod::Error);
    assert_eq!(HttpMethod::from_string(String::from("")), HttpMethod::Error);
    assert_eq!(HttpMethod::from_string(String::from("PATCH /x")), HttpMethod::Error);
    assert_eq!(HttpMethod::from_bytes(b"HEAD /x"), HttpMethod::Error);
    assert_eq!(HttpMethod::from_bytes(b""), HttpMethod::Error);
    assert_eq!(HttpMethod::from_bytes(b"ERRORS"), HttpMethod::Error);
    assert_eq!(HttpMethod::from_bytes(b"PU"), HttpMethod::Error);
}
