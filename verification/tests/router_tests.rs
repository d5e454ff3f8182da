use tcp_server::router::{route, route_request};
use tcp_server::HttpMethod;

#[test]
fn known_get_paths_serve_the_index() {
    assert_eq!(route(&HttpMethod::Get, "/"), "views/index.html");
    assert_eq!(route(&HttpMethod::Get, "/page1"), "views/index.html");
    assert_eq!(route(&HttpMethod::Get, "/page2"), "views/index.html");
}

#[test]
fn unknown_paths_serve_the_not_found_page() {
    assert_eq!(route(&HttpMethod::Get, "/page3"), "views/404.html");
    assert_eq!(route(&HttpMethod::Get, ""), "views/404.html");
    assert_eq!(route(&HttpMethod::Get, "/index.html"), "views/404.html");
}

#[test]
fn non_get_methods_serve_the_not_found_page() {
    assert_eq!(route(&HttpMethod::Post, "/"), "views/404.html");
    assert_eq!(route(&HttpMethod::Put, "/page1"), "views/404.html");
    assert_eq!(route(&HttpMethod::Delete, "/page2"), "views/404.html");
    assert_eq!(route(&HttpMethod::Error, "/"), "views/404.html");
}

#[test]
fn post_is_routed_to_not_found_whatever_the_body() {
    assert_eq!(route_request(b"POST /anything HTTP/1.1\r\n\r\n{\"a\":1}"), "views/404.html");
    assert_eq!(route_request(b"POST / HTTP/1.1\r\n\r\n"), "views/404.html");
}

#[test]
fn raw_requests_route_end_to_end() {
    assert_eq!(route_request(b"GET /page1 HTTP/1.1\r\n\r\n"), "views/index.html");
    assert_eq!(route_request(b"GET / HTTP/1.1\r\n\r\n"), "views/index.html");
    assert_eq!(route_request(b"GET /search?q=rust HTTP/1.1\r\n\r\n"), "views/404.html");
    assert_eq!(route_request(b"HEAD / HTTP/1.1\r\n\r\n"), "views/404.html");
    // Query strings do not hide a known path.
    assert_eq!(route_request(b"GET /page1?x=1 HTTP/1.1\r\n\r\n"), "views/index.html");
}
